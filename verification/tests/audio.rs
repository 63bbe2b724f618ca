use recipe_media::audio::error::AudioError;
use recipe_media::audio::handler::NcnnHandle;
use recipe_media::audio::text::{decimal_string, is_space, trim};
use recipe_media::audio::transcript::{
    format_timestamp, join_lines, transcript_line, TranscriptSession,
};
use recipe_media::audio::utils::{
    downsample_by_factor, resample_plan, resample_to_16k_mono, wav_plan, Interpolation, Mixdown,
    ResamplePlan, SincSettings, Window,
};
use recipe_media::audio::vad::{
    check_vad_rate, chunk_bounds, extract_segment, fallback_segment, segments_from_raw,
    segments_or_fallback, vad_plan, RawSegment, SpeechSegment, VadCommand,
};

fn mean(group: &[f32]) -> f32 {
    group.iter().sum::<f32>() / group.len() as f32
}

fn no_sinc(_: &[f32], _: SincSettings) -> Result<Vec<f32>, String> {
    Err("sinc was not expected".to_string())
}

#[test]
fn test_extract_segment() {
    let samples: Vec<f32> = (0..16000).map(|i| i as f32 / 16000.0).collect();
    // 0.5 s to 1.0 s
    let segment = SpeechSegment {
        start: 8000,
        end: 16000,
    };

    let extracted = extract_segment(&samples, 16000, &segment);
    assert_eq!(extracted.len(), 8000);
}

#[test]
fn extract_segment_copies_the_window() {
    let samples: Vec<u32> = (0..100).collect();
    let window = extract_segment(&samples, 16000, &SpeechSegment { start: 10, end: 13 });
    assert_eq!(window, vec![10, 11, 12]);
    // both ends are cut off at the end of the waveform
    let window = extract_segment(&samples, 16000, &SpeechSegment { start: 98, end: 500 });
    assert_eq!(window, vec![98, 99]);
    let window = extract_segment(&samples, 16000, &SpeechSegment { start: 200, end: 500 });
    assert!(window.is_empty());
    // at 8 kHz a tick is half a sample
    let window = extract_segment(&samples, 8000, &SpeechSegment { start: 21, end: 27 });
    assert_eq!(window, vec![10, 11, 12]);
    let window = extract_segment(&samples, 16000, &SpeechSegment { start: 5, end: 5 });
    assert!(window.is_empty());
}

#[test]
fn timestamps_have_four_fields() {
    assert_eq!(format_timestamp(0), "00:00:00:00");
    assert_eq!(format_timestamp(8000), "00:00:00:50");
    assert_eq!(format_timestamp(16000), "00:00:01:00");
    assert_eq!(format_timestamp(159), "00:00:00:00");
    assert_eq!(format_timestamp(160), "00:00:00:01");
    assert_eq!(format_timestamp(15999), "00:00:00:99");
    // 1 h 2 min 3.45 s
    assert_eq!(format_timestamp(3723 * 16000 + 7200), "01:02:03:45");
    assert_eq!(format_timestamp(59 * 60 * 16000 + 59 * 16000), "00:59:59:00");
    assert_eq!(format_timestamp(99 * 3600 * 16000), "99:00:00:00");
    // hours are not wrapped at a hundred
    assert_eq!(format_timestamp(100 * 3600 * 16000), "100:00:00:00");
}

#[test]
fn timestamps_grow_with_time() {
    let ticks = [0u64, 1, 159, 160, 15999, 16000, 959_999, 960_000, 57_599_999, 57_600_000, 5_759_999_999];
    for pair in ticks.windows(2) {
        let (a, b) = (format_timestamp(pair[0]), format_timestamp(pair[1]));
        assert_eq!(a.len(), 11);
        assert!(a <= b, "{} > {}", a, b);
    }
}

#[test]
fn transcript_line_has_the_documented_form() {
    let segment = SpeechSegment { start: 8000, end: 16000 };
    assert_eq!(
        transcript_line(&segment, "hello"),
        Some("00:00:00:50 - 00:00:01:00  --  hello".to_string())
    );
    assert_eq!(
        transcript_line(&segment, "  hello world \n"),
        Some("00:00:00:50 - 00:00:01:00  --  hello world".to_string())
    );
    assert_eq!(transcript_line(&segment, ""), None);
    assert_eq!(transcript_line(&segment, " \t\n"), None);
}

#[test]
fn trim_cuts_unicode_white_space() {
    assert_eq!(trim("  a b  "), "a b");
    assert_eq!(trim("\u{3000}\u{a0}油\u{2003}盐\u{2028}"), "油\u{2003}盐");
    assert_eq!(trim(""), "");
    assert_eq!(trim("\t\r\n"), "");
    assert_eq!(trim("x"), "x");
    // the zero width space is no white space
    assert_eq!(trim("\u{200b}x"), "\u{200b}x");
    for c in ['\u{0}', ' ', 'a', '\u{85}', '\u{1680}', '\u{180e}', '\u{200a}', '\u{200b}', '\u{202f}', '\u{205f}', '\u{feff}'] {
        assert_eq!(is_space(c), c.is_whitespace());
    }
}

#[test]
fn decimal_strings() {
    assert_eq!(decimal_string(0), "0");
    assert_eq!(decimal_string(7), "7");
    assert_eq!(decimal_string(10), "10");
    assert_eq!(decimal_string(44100), "44100");
    assert_eq!(decimal_string(u64::MAX), "18446744073709551615");
}

#[test]
fn lines_are_joined_by_line_feeds() {
    assert_eq!(join_lines(&vec![]), "");
    assert_eq!(join_lines(&vec!["a".to_string()]), "a");
    assert_eq!(join_lines(&vec!["a".to_string(), "".to_string(), "b".to_string()]), "a\n\nb");
}

#[test]
fn session_skips_failures_and_empty_text() {
    let segments = vec![
        SpeechSegment { start: 0, end: 16000 },
        SpeechSegment { start: 16000, end: 32000 },
        SpeechSegment { start: 32000, end: 40000 },
        SpeechSegment { start: 48000, end: 64000 },
    ];
    let mut session = TranscriptSession::new(segments.clone());
    let outcomes: Vec<Result<String, AudioError>> = vec![
        Ok("first".to_string()),
        Err(AudioError::SherpaNcnn("decoder failed".to_string())),
        Ok("   ".to_string()),
        Ok(" last ".to_string()),
    ];
    let mut seen = Vec::new();
    for outcome in outcomes {
        seen.push(session.current().unwrap());
        session.accept(outcome);
    }
    assert_eq!(seen, segments);
    assert_eq!(session.current(), None);
    assert_eq!(
        session.finish(),
        "00:00:00:00 - 00:00:01:00  --  first\n00:00:03:00 - 00:00:04:00  --  last"
    );
    assert_eq!(TranscriptSession::new(vec![]).finish(), "");
}

#[test]
fn chunks_cover_the_waveform() {
    assert_eq!(chunk_bounds(0, 16000), vec![]);
    assert_eq!(chunk_bounds(1, 16000), vec![(0, 1)]);
    assert_eq!(chunk_bounds(16000, 16000), vec![(0, 16000)]);
    assert_eq!(chunk_bounds(16001, 16000), vec![(0, 16000), (16000, 16001)]);
    assert_eq!(chunk_bounds(7, 3), vec![(0, 3), (3, 6), (6, 7)]);
    assert_eq!(chunk_bounds(usize::MAX, usize::MAX), vec![(0, usize::MAX)]);
}

#[test]
fn vad_run_is_planned_in_order() {
    assert_eq!(
        vad_plan(40000),
        vec![
            VadCommand::Reset,
            VadCommand::Clear,
            VadCommand::Accept { start: 0, end: 16000 },
            VadCommand::Accept { start: 16000, end: 32000 },
            VadCommand::Accept { start: 32000, end: 40000 },
            VadCommand::Flush,
            VadCommand::Collect,
        ]
    );
    assert_eq!(
        vad_plan(0),
        vec![VadCommand::Reset, VadCommand::Clear, VadCommand::Flush, VadCommand::Collect]
    );
}

#[test]
fn vad_takes_16_khz_only() {
    assert_eq!(check_vad_rate(16000), Ok(()));
    assert_eq!(
        check_vad_rate(44100),
        Err(AudioError::Resample("VAD requires 16000Hz sample rate, got 44100Hz".to_string()))
    );
    assert_eq!(
        check_vad_rate(0).unwrap_err().message(),
        "Resample error: VAD requires 16000Hz sample rate, got 0Hz"
    );
}

#[test]
fn reported_segments_are_cut_off_at_the_waveform() {
    let raw = vec![
        RawSegment { start: 100, len: 400 },
        RawSegment { start: 31000, len: 2000 },
        RawSegment { start: -5, len: 20 },
    ];
    assert_eq!(
        segments_from_raw(&raw, 32000),
        vec![
            SpeechSegment { start: 100, end: 500 },
            SpeechSegment { start: 31000, end: 32000 },
            SpeechSegment { start: 0, end: 15 },
        ]
    );
}

#[test]
fn silence_is_one_whole_segment() {
    assert_eq!(segments_from_raw(&vec![], 32000), vec![SpeechSegment { start: 0, end: 32000 }]);
    assert_eq!(fallback_segment(123), SpeechSegment { start: 0, end: 123 });
    let failed: Result<Vec<SpeechSegment>, AudioError> = Err(AudioError::SherpaNcnn("vad".to_string()));
    assert_eq!(segments_or_fallback(failed, 48000), vec![SpeechSegment { start: 0, end: 48000 }]);
    let found = vec![SpeechSegment { start: 1, end: 2 }];
    assert_eq!(segments_or_fallback(Ok(found.clone()), 48000), found);
}

#[test]
fn resampling_at_16_khz_is_the_identity() {
    let samples: Vec<f32> = (0..1000).map(|i| (i as f32 * 0.37).sin()).collect();
    let out = resample_to_16k_mono(&samples, 16000, &mean, no_sinc).unwrap();
    assert_eq!(out, samples);
    let empty: Vec<f32> = vec![];
    assert_eq!(resample_to_16k_mono(&empty, 16000, &mean, no_sinc).unwrap(), empty);
}

#[test]
fn multiples_of_16_khz_are_box_averaged() {
    // a 1 kHz tone at 32 kHz
    let samples: Vec<f32> = (0..1001)
        .map(|i| (2.0 * std::f32::consts::PI * 1000.0 * i as f32 / 32000.0).sin())
        .collect();
    let out = resample_to_16k_mono(&samples, 32000, &mean, no_sinc).unwrap();
    assert_eq!(out.len(), 501);
    assert_eq!(out[0], (samples[0] + samples[1]) / 2.0);
    assert_eq!(out[500], samples[1000]);
    let peak = out.iter().fold(0.0f32, |m, v| m.max(v.abs()));
    assert!(peak > 0.9 && peak <= 1.0);
    let out = downsample_by_factor(&[1.0f32, 2.0, 3.0, 4.0, 5.0, 6.0, 10.0], 3, &mean);
    assert_eq!(out, vec![2.0, 5.0, 10.0]);
}

#[test]
fn other_rates_go_through_the_sinc_resampler() {
    let samples = vec![0.5f32; 441];
    let sinc = |input: &[f32], settings: SincSettings| -> Result<Vec<f32>, String> {
        assert_eq!(settings.in_rate, 44100);
        assert_eq!(settings.target_rate, 16000);
        assert_eq!(settings.sinc_len, 48);
        assert_eq!(settings.cutoff_permille, 900);
        assert_eq!(settings.oversampling_factor, 4);
        assert_eq!(settings.interpolation, Interpolation::Cubic);
        assert_eq!(settings.window, Window::BlackmanHarris2);
        Ok(vec![0.25; input.len() * 16000 / 44100])
    };
    assert_eq!(resample_to_16k_mono(&samples, 44100, &mean, sinc).unwrap(), vec![0.25f32; 160]);
    let failing = |_: &[f32], _: SincSettings| -> Result<Vec<f32>, String> { Err("bad ratio".to_string()) };
    assert_eq!(
        resample_to_16k_mono(&samples, 44100, &mean, failing),
        Err(AudioError::Resample("bad ratio".to_string()))
    );
}

#[test]
fn resample_plans() {
    assert_eq!(resample_plan(16000), ResamplePlan::Identity);
    assert_eq!(resample_plan(32000), ResamplePlan::BoxAverage { factor: 2 });
    assert_eq!(resample_plan(48000), ResamplePlan::BoxAverage { factor: 3 });
    assert!(matches!(resample_plan(8000), ResamplePlan::Sinc { .. }));
    assert!(matches!(resample_plan(44100), ResamplePlan::Sinc { .. }));
}

#[test]
fn wav_headers_decide_the_reading() {
    assert_eq!(
        wav_plan(0, 2),
        Err(AudioError::Wav("invalid sample rate".to_string()))
    );
    let mono = wav_plan(16000, 1).unwrap();
    assert_eq!(mono.mixdown, Mixdown::Mono);
    assert_eq!(mono.skip_per_frame, 0);
    assert_eq!(mono.resample, ResamplePlan::Identity);
    let stereo = wav_plan(48000, 2).unwrap();
    assert_eq!(stereo.mixdown, Mixdown::AverageFirstTwo);
    assert_eq!(stereo.skip_per_frame, 0);
    assert_eq!(stereo.resample, ResamplePlan::BoxAverage { factor: 3 });
    let surround = wav_plan(44100, 6).unwrap();
    assert_eq!(surround.mixdown, Mixdown::AverageFirstTwo);
    assert_eq!(surround.skip_per_frame, 4);
}

#[test]
fn error_messages_name_the_stage() {
    assert_eq!(AudioError::Io("no such file".to_string()).message(), "IO error: no such file");
    assert_eq!(AudioError::Wav("bad header".to_string()).message(), "WAV format error: bad header");
    assert_eq!(AudioError::Resample("x".to_string()).message(), "Resample error: x");
    assert_eq!(AudioError::NotInitialized.message(), "Model not initialized");
    assert_eq!(AudioError::ModelLoadFailed("y".to_string()).message(), "Model load failed: y");
    assert_eq!(AudioError::SherpaNcnn("z".to_string()).message(), "Sherpa-NCNN error: z");
}

#[test]
fn recogniser_rules() {
    assert_eq!(NcnnHandle::thread_count(1), 1);
    assert_eq!(NcnnHandle::thread_count(4), 4);
    assert_eq!(NcnnHandle::thread_count(64), 4);
    assert_eq!(NcnnHandle::thread_count(0), 0);
    assert_eq!(NcnnHandle::check_sample_rate(16000), Ok(()));
    assert_eq!(
        NcnnHandle::check_sample_rate(8000),
        Err(AudioError::SherpaNcnn("Invalid sample rate: 8000Hz (expected 16000Hz)".to_string()))
    );
}
