use recipe_media::xhs::{
    convert_note_to_article, determine_note_type, extract_video_info, extract_xhs_url,
    initial_state_json, link_from_match, sanitize_json, NoteType, ParserError, XhsApiError,
    XhsAuthor, XhsVideo,
};

#[test]
fn test_extract_xhs_url_from_mixed_text() {
    let text = "家庭版馄饨｜早餐自制馄饨 真的太好吃了～好吃到汤都... http://xhslink.com/o/5ZMAfpDOokl 复制后打开【小红书】查看笔记！";
    let url = extract_xhs_url(text).expect("应该能提取 URL");
    assert_eq!(url, "http://xhslink.com/o/5ZMAfpDOokl");
}

#[test]
fn test_extract_xhs_url_from_https() {
    let text = "检查这个：https://xhslink.com/o/abc123xyz 很棒的笔记";
    let url = extract_xhs_url(text).expect("应该能提取 HTTPS URL");
    assert_eq!(url, "https://xhslink.com/o/abc123xyz");
}

#[test]
fn test_extract_xhs_url_not_found() {
    let text = "这是一个没有链接的文本";
    let result = extract_xhs_url(text);
    assert!(result.is_err());
    match result {
        Err(err) => assert_eq!(err.error_type, "UrlNotFound"),
        _ => panic!("应该返回 UrlNotFound 错误"),
    }
}

#[test]
fn link_is_cut_out_of_its_surroundings() {
    assert_eq!(
        extract_xhs_url("prefix http://xhslink.com/o/ABC123 suffix"),
        Ok("http://xhslink.com/o/ABC123".to_string())
    );
    // the first of two links; the run of letters and digits ends at the first other character
    assert_eq!(
        extract_xhs_url("a https://xhslink.com/o/one-two http://xhslink.com/o/three"),
        Ok("https://xhslink.com/o/one".to_string())
    );
    // another host, or no path, is no link
    assert!(extract_xhs_url("http://xhslinkXcom/o/abc").is_err());
    assert!(extract_xhs_url("http://xhslink.com/o/").is_err());
    assert!(extract_xhs_url("").is_err());
}

#[test]
fn engine_answers_become_results() {
    assert_eq!(link_from_match(Ok(Some("x".to_string()))), Ok("x".to_string()));
    assert_eq!(link_from_match(Ok(None)), Err(XhsApiError::url_not_found()));
    let error = link_from_match(Err("unclosed group".to_string())).unwrap_err();
    assert_eq!(error, XhsApiError::regex_error("unclosed group".to_string()));
    assert_eq!(error.error_type, "RegexError");
    assert_eq!(error.message, "正则表达式错误: unclosed group");
    assert_eq!(error.to_text(), "[RegexError] 正则表达式错误: unclosed group");
    assert_eq!(XhsApiError::url_not_found().to_text(), "[UrlNotFound] 未找到小红书链接");
}

fn video() -> XhsVideo {
    XhsVideo { duration: 65, cover: "cover.webp".to_string(), play_url: "video.mp4".to_string() }
}

#[test]
fn note_types() {
    let images = |n: usize| vec!["image".to_string(); n];
    assert_eq!(determine_note_type(&Some(video()), &images(0)), NoteType::Video);
    assert_eq!(determine_note_type(&Some(video()), &images(1)), NoteType::Video);
    assert_eq!(determine_note_type(&Some(video()), &images(2)), NoteType::Mixed);
    assert_eq!(determine_note_type(&None, &images(0)), NoteType::Text);
    assert_eq!(determine_note_type(&None, &images(13)), NoteType::Images);
    assert_eq!(NoteType::default(), NoteType::Text);
}

#[test]
fn video_needs_all_its_fields() {
    assert_eq!(
        extract_video_info(Some(65), Some("cover.webp".to_string()), Some("video.mp4".to_string())),
        Some(video())
    );
    assert_eq!(extract_video_info(None, Some("c".to_string()), Some("p".to_string())), None);
    assert_eq!(extract_video_info(Some(1), None, Some("p".to_string())), None);
    assert_eq!(extract_video_info(Some(1), Some("c".to_string()), None), None);
}

#[test]
fn article_gets_its_type() {
    let author = XhsAuthor {
        nickname: "cook".to_string(),
        user_id: "5c1f".to_string(),
        avatar: "avatar.png".to_string(),
    };
    let article = convert_note_to_article(
        "title".to_string(),
        "desc".to_string(),
        author.clone(),
        vec!["one".to_string()],
        Some(video()),
    );
    assert_eq!(article.title, "title");
    assert_eq!(article.desc, "desc");
    assert_eq!(article.author, author);
    assert_eq!(article.images, vec!["one".to_string()]);
    assert_eq!(article.video, Some(video()));
    assert_eq!(article.note_type, NoteType::Video);
    let article = convert_note_to_article(
        "t".to_string(),
        "d".to_string(),
        author,
        vec!["one".to_string(), "two".to_string()],
        None,
    );
    assert_eq!(article.note_type, NoteType::Images);
}

#[test]
fn undefined_becomes_null() {
    assert_eq!(sanitize_json("{\"a\":undefined,\"b\":[undefined]}"), "{\"a\":null,\"b\":[null]}");
    assert_eq!(sanitize_json("undefinedundefined"), "nullnull");
    assert_eq!(sanitize_json("undefine"), "undefine");
    assert_eq!(sanitize_json(""), "");
    assert_eq!(sanitize_json("汤:undefined"), "汤:null");
}

#[test]
fn state_script_is_recognised_by_its_prefix() {
    assert_eq!(
        initial_state_json("window.__INITIAL_STATE__={\"note\":undefined}"),
        Some("{\"note\":null}".to_string())
    );
    assert_eq!(initial_state_json("window.__INITIAL_STATE__="), Some("".to_string()));
    assert_eq!(initial_state_json(" window.__INITIAL_STATE__={}"), None);
    assert_eq!(initial_state_json("window.__INITIAL_STATE_"), None);
    assert_eq!(initial_state_json("var x = 1;"), None);
    assert_eq!(initial_state_json(""), None);
}

#[test]
fn parser_errors_have_messages() {
    assert_eq!(ParserError::Http("timeout".to_string()).message(), "HTTP 请求失败: timeout");
    assert_eq!(ParserError::InitialStateMissing.message(), "从页面中提取初始数据失败");
    assert_eq!(ParserError::Json("eof".to_string()).message(), "JSON 数据解析失败: eof");
    assert_eq!(ParserError::ParseNote("title".to_string()).message(), "解析笔记数据失败: title");
}
