//! Notes shared from a social network: finding the link in a shared text,
//! and putting together the article once the page is read.

use vstd::prelude::*;
use vstd::string::*;

verus! {

/// What a note holds.
#[derive(Debug, Clone, Copy, PartialEq, Eq, Structural)]
pub enum NoteType {
    /// A video, with at most a cover image.
    Video,
    /// Images only.
    Images,
    /// A video and several images.
    Mixed,
    /// Neither video nor images.
    Text,
}

impl Default for NoteType {
    fn default() -> (note_type: Self)
        ensures
            note_type == NoteType::Text,
    {
        NoteType::Text
    }
}

#[derive(Debug, Clone, PartialEq, Eq)]
pub struct XhsAuthor {
    pub nickname: String,
    pub user_id: String,
    pub avatar: String,
}

#[derive(Debug, Clone, PartialEq, Eq)]
pub struct XhsVideo {
    /// Seconds.
    pub duration: i64,
    pub cover: String,
    pub play_url: String,
}

#[derive(Debug, Clone, PartialEq, Eq)]
pub struct XhsArticle {
    pub title: String,
    pub desc: String,
    pub author: XhsAuthor,
    pub images: Vec<String>,
    pub video: Option<XhsVideo>,
    /// Derived from `video` and `images`.
    pub note_type: NoteType,
}

/// An error with its kind as text, for callers in other languages.
#[derive(Debug, Clone, PartialEq, Eq)]
pub struct XhsApiError {
    pub error_type: String,
    pub message: String,
}

/// What can go wrong when a note is read.
#[derive(Debug, Clone, PartialEq, Eq)]
pub enum ParserError {
    /// The page could not be fetched.
    Http(String),
    /// The page does not hold the note's data.
    InitialStateMissing,
    /// The note's data is no JSON.
    Json(String),
    /// The note's data lacks a field.
    ParseNote(String),
}

// ---------------------------------------------------------------------------
// Errors
// ---------------------------------------------------------------------------

impl XhsApiError {
    /// The error for a text without a link.
    pub fn url_not_found() -> (error: Self)
        ensures
            error.error_type@ == "UrlNotFound"@,
            error.message@ == "未找到小红书链接"@,
    {
        XhsApiError {
            error_type: String::from_str("UrlNotFound"),
            message: String::from_str("未找到小红书链接"),
        }
    }

    /// The error for a pattern that does not compile.
    pub fn regex_error(e: String) -> (error: Self)
        ensures
            error.error_type@ == "RegexError"@,
            error.message@ == "正则表达式错误: "@ + e@,
    {
        XhsApiError {
            error_type: String::from_str("RegexError"),
            message: String::from_str("正则表达式错误: ").concat(e.as_str()),
        }
    }

    /// The error as one line: the kind in brackets, then the message.
    pub fn to_text(&self) -> (text: String)
        ensures
            text@ == "["@ + self.error_type@ + "] "@ + self.message@,
    {
        let mut text = String::from_str("[");
        text.append(self.error_type.as_str());
        text.append("] ");
        text.append(self.message.as_str());
        text
    }
}

impl ParserError {
    pub open spec fn message_text(self) -> Seq<char> {
        match self {
            ParserError::Http(detail) => "HTTP 请求失败: "@ + detail@,
            ParserError::InitialStateMissing => "从页面中提取初始数据失败"@,
            ParserError::Json(detail) => "JSON 数据解析失败: "@ + detail@,
            ParserError::ParseNote(detail) => "解析笔记数据失败: "@ + detail@,
        }
    }

    /// The text shown for the error.
    pub fn message(&self) -> (text: String)
        ensures
            text@ == self.message_text(),
    {
        match self {
            ParserError::Http(detail) => String::from_str("HTTP 请求失败: ").concat(detail.as_str()),
            ParserError::InitialStateMissing => String::from_str("从页面中提取初始数据失败"),
            ParserError::Json(detail) => String::from_str("JSON 数据解析失败: ").concat(
                detail.as_str(),
            ),
            ParserError::ParseNote(detail) => String::from_str("解析笔记数据失败: ").concat(
                detail.as_str(),
            ),
        }
    }
}

// ---------------------------------------------------------------------------
// The link
// ---------------------------------------------------------------------------

/// What the regular expression engine answers for a pattern and a text:
/// the first match, `None` where nothing matches, or the engine's words on
/// a pattern that it does not take.
pub uninterp spec fn regex_find(pattern: Seq<char>, text: Seq<char>) -> Result<
    Option<Seq<char>>,
    Seq<char>,
>;

/// `part` stands somewhere in `text`, in one piece.
pub open spec fn is_part_of(part: Seq<char>, text: Seq<char>) -> bool {
    exists|from: int, to: int|
        0 <= from <= to <= text.len() && part == #[trigger] text.subrange(from, to)
}

/// Calls `regex::Regex::new` on the pattern and `Regex::find` on the text,
/// and copies the matched text. The contract names the answer, and says of
/// a match what the engine's `Match` is: a slice of the text.
#[verifier::external_body]
fn find_first(pattern: &str, text: &str) -> (found: Result<Option<String>, String>)
    ensures
        found matches Ok(Some(m)) ==> is_part_of(m@, text@),
        match found {
            Ok(Some(m)) => regex_find(pattern@, text@) == Ok::<Option<Seq<char>>, Seq<char>>(
                Some(m@),
            ),
            Ok(None) => regex_find(pattern@, text@) == Ok::<Option<Seq<char>>, Seq<char>>(None),
            Err(e) => regex_find(pattern@, text@) == Err::<Option<Seq<char>>, Seq<char>>(e@),
        },
{
    let regex = regex::Regex::new(pattern).map_err(|e| e.to_string())?;
    Ok(regex.find(text).map(|m| m.as_str().to_string()))
}

/// `result` is what the search for a link answers when the engine found `found`.
pub open spec fn is_link_answer(
    found: Result<Option<Seq<char>>, Seq<char>>,
    result: Result<String, XhsApiError>,
) -> bool {
    match found {
        Ok(Some(m)) => result.is_ok() && result.unwrap()@ == m,
        Ok(None) => result.is_err() && result.unwrap_err().error_type@ == "UrlNotFound"@
            && result.unwrap_err().message@ == "未找到小红书链接"@,
        Err(e) => result.is_err() && result.unwrap_err().error_type@ == "RegexError"@
            && result.unwrap_err().message@ == "正则表达式错误: "@ + e,
    }
}

/// The view of what the engine found.
pub open spec fn found_text(found: Result<Option<String>, String>) -> Result<
    Option<Seq<char>>,
    Seq<char>,
> {
    match found {
        Ok(Some(m)) => Ok(Some(m@)),
        Ok(None) => Ok(None),
        Err(e) => Err(e@),
    }
}

/// Turns what the engine found into the answer: the link, or the error
/// that says why there is none.
pub fn link_from_match(found: Result<Option<String>, String>) -> (result: Result<
    String,
    XhsApiError,
>)
    ensures
        is_link_answer(found_text(found), result),
{
    match found {
        Ok(Some(link)) => Ok(link),
        Ok(None) => Err(XhsApiError::url_not_found()),
        Err(e) => Err(XhsApiError::regex_error(e)),
    }
}

/// The pattern of a short link: `http` or `https`, the host `xhslink.com`,
/// the path `/o/` and a run of letters and digits.
pub open spec fn link_pattern() -> Seq<char> {
    r"http[s]?://xhslink\.com/o/[a-zA-Z0-9]+"@
}

/// Finds the first short link in a text. The link is a part of the text.
pub fn extract_xhs_url(text: &str) -> (result: Result<String, XhsApiError>)
    ensures
        is_link_answer(regex_find(link_pattern(), text@), result),
        result matches Ok(link) ==> is_part_of(link@, text@),
{
    link_from_match(find_first(r"http[s]?://xhslink\.com/o/[a-zA-Z0-9]+", text))
}

// ---------------------------------------------------------------------------
// The article
// ---------------------------------------------------------------------------

/// A note with a video is a video note, or mixed where it has more than one
/// image; without a video it is an image note, or text where it has no image.
pub open spec fn note_type_of(has_video: bool, images: int) -> NoteType {
    if has_video {
        if images <= 1 {
            NoteType::Video
        } else {
            NoteType::Mixed
        }
    } else if images == 0 {
        NoteType::Text
    } else {
        NoteType::Images
    }
}

pub fn determine_note_type(video: &Option<XhsVideo>, images: &[String]) -> (note_type: NoteType)
    ensures
        note_type == note_type_of(video.is_some(), images@.len() as int),
{
    match video {
        Some(_) => {
            if images.len() <= 1 {
                NoteType::Video
            } else {
                NoteType::Mixed
            }
        },
        None => {
            if images.len() == 0 {
                NoteType::Text
            } else {
                NoteType::Images
            }
        },
    }
}

/// The video of a note, where the note's data holds all three of its fields.
pub fn extract_video_info(duration: Option<i64>, cover: Option<String>, play_url: Option<String>) -> (video:
    Option<XhsVideo>)
    ensures
        video.is_some() == (duration.is_some() && cover.is_some() && play_url.is_some()),
        video.is_some() ==> video.unwrap().duration == duration.unwrap() && video.unwrap().cover
            == cover.unwrap() && video.unwrap().play_url == play_url.unwrap(),
{
    match (duration, cover, play_url) {
        (Some(duration), Some(cover), Some(play_url)) => Some(
            XhsVideo { duration, cover, play_url },
        ),
        _ => None,
    }
}

/// Puts the article together and derives its type.
pub fn convert_note_to_article(
    title: String,
    desc: String,
    author: XhsAuthor,
    images: Vec<String>,
    video: Option<XhsVideo>,
) -> (article: XhsArticle)
    ensures
        article.title == title,
        article.desc == desc,
        article.author == author,
        article.images == images,
        article.video == video,
        article.note_type == note_type_of(video.is_some(), images@.len() as int),
{
    let note_type = determine_note_type(&video, images.as_slice());
    XhsArticle { title, desc, author, images, video, note_type }
}

// ---------------------------------------------------------------------------
// The page
// ---------------------------------------------------------------------------

/// `s` starts with `prefix`.
pub open spec fn starts_with(s: Seq<char>, prefix: Seq<char>) -> bool {
    prefix.len() <= s.len() && s.subrange(0, prefix.len() as int) == prefix
}

/// `s` with every occurrence of `from` replaced by `to`, found from left to
/// right without overlap.
pub open spec fn replaced(s: Seq<char>, from: Seq<char>, to: Seq<char>) -> Seq<char>
    decreases s.len(),
{
    if s.len() == 0 || from.len() == 0 {
        s
    } else if starts_with(s, from) {
        to + replaced(s.subrange(from.len() as int, s.len() as int), from, to)
    } else {
        seq![s[0]] + replaced(s.drop_first(), from, to)
    }
}

/// Calls `str::replace`, which replaces all matches of a pattern from left
/// to right; the pattern must not be empty.
#[verifier::external_body]
fn replace_all(text: &str, from: &str, to: &str) -> (result: String)
    requires
        from@.len() > 0,
    ensures
        result@ == replaced(text@, from@, to@),
{
    text.replace(from, to)
}

/// The JSON of a script's data: JavaScript's `undefined` is no JSON and becomes `null`.
pub fn sanitize_json(raw: &str) -> (json: String)
    ensures
        json@ == replaced(raw@, "undefined"@, "null"@),
{
    proof {
        reveal_strlit("undefined");
    }
    replace_all(raw, "undefined", "null")
}

/// The text with which the script that holds the note's data begins.
pub open spec fn state_prefix() -> Seq<char> {
    "window.__INITIAL_STATE__="@
}

/// The JSON in a script of the page, if the script holds the note's data:
/// what follows `window.__INITIAL_STATE__=`, made JSON.
pub fn initial_state_json(script_content: &str) -> (json: Option<String>)
    ensures
        json.is_some() == starts_with(script_content@, state_prefix()),
        json.is_some() ==> json.unwrap()@ == replaced(
            script_content@.subrange(state_prefix().len() as int, script_content@.len() as int),
            "undefined"@,
            "null"@,
        ),
{
    let prefix = "window.__INITIAL_STATE__=";
    let n: usize = script_content.unicode_len();
    let m: usize = prefix.unicode_len();
    if n < m {
        return None;
    }
    let mut i: usize = 0;
    while i < m
        invariant
            i <= m <= n,
            n == script_content@.len(),
            m == prefix@.len(),
            prefix@ == state_prefix(),
            forall|k: int| 0 <= k < i ==> script_content@[k] == prefix@[k],
        decreases m - i,
    {
        if script_content.get_char(i) != prefix.get_char(i) {
            proof {
                assert(script_content@.subrange(0, m as int)[i as int] != prefix@[i as int]);
            }
            return None;
        }
        i = i + 1;
    }
    proof {
        assert(script_content@.subrange(0, m as int) =~= prefix@);
    }
    Some(sanitize_json(script_content.substring_char(m, n)))
}

} // verus!
