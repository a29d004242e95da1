use lecture_export::subtitle::{
    format_time_simple, format_time_srt, format_time_vtt, CaptionItem, CaptionResponse,
};
use lecture_export::{Subtitle, SubtitleEntry};

/// Whole milliseconds of a time in seconds.
fn millis(seconds: f64) -> u64 {
    (seconds * 1000.0) as u64
}

fn entry(start: f64, end: f64, text: &str, translation: Option<&str>) -> SubtitleEntry {
    SubtitleEntry {
        start_ms: millis(start),
        end_ms: millis(end),
        text: text.to_string(),
        translation: translation.map(|t| t.to_string()),
    }
}

fn item(begin: Option<u64>, end: Option<u64>, text: Option<&str>, trans: Option<&str>) -> CaptionItem {
    CaptionItem {
        begin_ms: begin,
        end_ms: end,
        text: text.map(|t| t.to_string()),
        trans_text: trans.map(|t| t.to_string()),
    }
}

fn lesson() -> Subtitle {
    Subtitle {
        entries: vec![
            entry(23.0, 30.0, "first", Some("one")),
            entry(30.25, 61.5, "second", None),
            entry(3600.0, 3725.007, "third", Some("")),
            entry(3725.007, 4000.0, "fourth", Some("four")),
        ],
    }
}

#[test]
fn test_format_time() {
    assert_eq!(format_time_simple(millis(65.5)), "01:05");
    assert_eq!(format_time_srt(millis(3661.5)), "01:01:01,500");
    assert_eq!(format_time_vtt(millis(3661.5)), "01:01:01.500");
}

#[test]
fn test_subtitle_output() {
    let subtitle = Subtitle {
        entries: vec![
            SubtitleEntry {
                start_ms: millis(0.0),
                end_ms: millis(2.5),
                text: "你好".to_string(),
                translation: Some("Hello".to_string()),
            },
            SubtitleEntry {
                start_ms: millis(2.5),
                end_ms: millis(5.0),
                text: "世界".to_string(),
                translation: Some("World".to_string()),
            },
        ],
    };

    assert_eq!(subtitle.to_plain_text(), "你好世界");
    assert_eq!(subtitle.to_plain_text_english(), "HelloWorld");
    assert!(subtitle.to_srt().contains("1\n00:00:00,000 --> 00:00:02,500\n你好"));
    assert!(subtitle.to_srt_bilingual().contains("Hello"));
}

#[test]
fn short_clock_drops_parts_of_a_second() {
    assert_eq!(format_time_simple(0), "00:00");
    assert_eq!(format_time_simple(999), "00:00");
    assert_eq!(format_time_simple(1000), "00:01");
    assert_eq!(format_time_simple(59_999), "00:59");
    assert_eq!(format_time_simple(60_000), "01:00");
    assert_eq!(format_time_simple(754_321), "12:34");
}

#[test]
fn short_clock_does_not_wrap_at_the_hour() {
    assert_eq!(format_time_simple(3_600_000), "60:00");
    assert_eq!(format_time_simple(6_000_000), "100:00");
    assert_eq!(format_time_simple(u64::MAX), "307445734561825:51");
}

#[test]
fn full_clock_pads_every_part() {
    assert_eq!(format_time_srt(0), "00:00:00,000");
    assert_eq!(format_time_srt(7), "00:00:00,007");
    assert_eq!(format_time_srt(42), "00:00:00,042");
    assert_eq!(format_time_srt(1_001), "00:00:01,001");
    assert_eq!(format_time_srt(36_610_100), "10:10:10,100");
    assert_eq!(format_time_vtt(0), "00:00:00.000");
    assert_eq!(format_time_vtt(86_399_999), "23:59:59.999");
}

#[test]
fn full_clock_lets_the_hours_grow() {
    assert_eq!(format_time_srt(360_000_000), "100:00:00,000");
    assert_eq!(format_time_vtt(u64::MAX), "5124095576030:25:51.615");
}

#[test]
fn new_subtitle_is_empty() {
    let subtitle = Subtitle::new();
    assert!(subtitle.entries.is_empty());
    assert_eq!(subtitle.to_plain_text(), "");
    assert_eq!(subtitle.to_plain_text_english(), "");
    assert_eq!(subtitle.to_timestamped_text(), "");
    assert_eq!(subtitle.to_srt(), "");
    assert_eq!(subtitle.to_srt_bilingual(), "");
    assert_eq!(subtitle.to_vtt(), "WEBVTT\n\n");
}

#[test]
fn plain_text_runs_the_texts_together() {
    assert_eq!(lesson().to_plain_text(), "firstsecondthirdfourth");
}

#[test]
fn english_text_runs_the_translations_together() {
    assert_eq!(lesson().to_plain_text_english(), "onefour");
}

#[test]
fn timestamped_text_has_one_line_per_caption() {
    assert_eq!(
        lesson().to_timestamped_text(),
        "[00:23 - 00:30] first\n[00:30 - 01:01] second\n[60:00 - 62:05] third\n[62:05 - 66:40] fourth"
    );
}

#[test]
fn srt_numbers_the_blocks_from_one() {
    assert_eq!(
        lesson().to_srt(),
        "1\n00:00:23,000 --> 00:00:30,000\nfirst\n\n\
         2\n00:00:30,250 --> 00:01:01,500\nsecond\n\n\
         3\n01:00:00,000 --> 01:02:05,007\nthird\n\n\
         4\n01:02:05,007 --> 01:06:40,000\nfourth\n"
    );
}

#[test]
fn vtt_starts_with_its_header() {
    assert_eq!(
        lesson().to_vtt(),
        "WEBVTT\n\n\
         1\n00:00:23.000 --> 00:00:30.000\nfirst\n\n\
         2\n00:00:30.250 --> 00:01:01.500\nsecond\n\n\
         3\n01:00:00.000 --> 01:02:05.007\nthird\n\n\
         4\n01:02:05.007 --> 01:06:40.000\nfourth\n\n"
    );
}

#[test]
fn bilingual_srt_adds_the_translation_where_there_is_one() {
    assert_eq!(
        lesson().to_srt_bilingual(),
        "1\n00:00:23,000 --> 00:00:30,000\nfirst\none\n\n\
         2\n00:00:30,250 --> 00:01:01,500\nsecond\n\n\
         3\n01:00:00,000 --> 01:02:05,007\nthird\n\n\
         4\n01:02:05,007 --> 01:06:40,000\nfourth\nfour\n"
    );
}

#[test]
fn block_numbers_have_as_many_digits_as_they_need() {
    let entries: Vec<SubtitleEntry> = (0..12).map(|i| entry(i as f64, i as f64 + 1.0, "x", None)).collect();
    let text = Subtitle { entries }.to_srt();
    assert!(text.starts_with("1\n00:00:00,000 --> 00:00:01,000\nx\n\n2\n"));
    assert!(text.ends_with("\n\n12\n00:00:11,000 --> 00:00:12,000\nx\n"));
    assert!(text.contains("\n\n10\n00:00:09,000 --> 00:00:10,000\nx\n"));
}

#[test]
fn answer_with_captions_is_read_in_order() {
    let response = CaptionResponse {
        code: Some(0),
        msg: Some("ok".to_string()),
        all_content: Some(vec![
            item(Some(23_000), Some(30_000), Some("中文"), Some("English")),
            item(Some(30_000), Some(31_500), Some("next"), None),
        ]),
    };
    let subtitle = Subtitle::from_json(&response).unwrap();
    assert_eq!(subtitle.entries.len(), 2);
    assert_eq!(subtitle.entries[0].start_ms, 23_000);
    assert_eq!(subtitle.entries[0].end_ms, 30_000);
    assert_eq!(subtitle.entries[0].text, "中文");
    assert_eq!(subtitle.entries[0].translation.as_deref(), Some("English"));
    assert_eq!(subtitle.entries[1].start_ms, 30_000);
    assert_eq!(subtitle.entries[1].end_ms, 31_500);
    assert_eq!(subtitle.entries[1].text, "next");
    assert_eq!(subtitle.entries[1].translation, None);
}

#[test]
fn items_without_text_are_left_out() {
    let response = CaptionResponse {
        code: None,
        msg: None,
        all_content: Some(vec![
            item(Some(1), Some(2), None, Some("lost")),
            item(Some(3), Some(4), Some(""), Some("lost too")),
            item(None, None, Some("kept"), Some("")),
            item(Some(7), None, Some("last"), Some("t")),
        ]),
    };
    let subtitle = Subtitle::from_json(&response).unwrap();
    assert_eq!(subtitle.entries.len(), 2);
    assert_eq!(subtitle.entries[0].text, "kept");
    assert_eq!(subtitle.entries[0].start_ms, 0);
    assert_eq!(subtitle.entries[0].end_ms, 0);
    assert_eq!(subtitle.entries[0].translation, None);
    assert_eq!(subtitle.entries[1].text, "last");
    assert_eq!(subtitle.entries[1].start_ms, 7);
    assert_eq!(subtitle.entries[1].end_ms, 0);
    assert_eq!(subtitle.entries[1].translation.as_deref(), Some("t"));
}

#[test]
fn answer_without_a_list_gives_no_captions() {
    let response = CaptionResponse { code: Some(0), msg: None, all_content: None };
    assert!(Subtitle::from_json(&response).unwrap().entries.is_empty());
    let bare = CaptionResponse { code: None, msg: None, all_content: None };
    assert!(Subtitle::from_json(&bare).unwrap().entries.is_empty());
}

#[test]
fn refused_answer_reports_the_message() {
    let response = CaptionResponse {
        code: Some(500),
        msg: Some("no permission".to_string()),
        all_content: Some(vec![item(Some(1), Some(2), Some("text"), None)]),
    };
    assert_eq!(Subtitle::from_json(&response).unwrap_err().message, "API error: no permission");
    let negative = CaptionResponse { code: Some(-1), msg: Some(String::new()), all_content: None };
    assert_eq!(Subtitle::from_json(&negative).unwrap_err().message, "API error: ");
}

#[test]
fn refused_answer_without_a_message_says_so() {
    let response = CaptionResponse { code: Some(1), msg: None, all_content: None };
    assert_eq!(Subtitle::from_json(&response).unwrap_err().message, "API error: Unknown error");
}
