use miku_tunes::config::AppConfig;
use miku_tunes::engine::SourceInfo;
use miku_tunes::hot::{add_hot_words, add_hot_words_upto, gather_until, keep_first, HotItem};
use miku_tunes::json::parse_json;
use miku_tunes::lyrics::{
    current_lyric_index, extract_kuwo_lyrics_from_json, jsonp_text_readable,
    kuwo_lyric_line_from_item, lrc_line_parts, lyric_window, parse_json_or_jsonp_lyrics,
    plain_lyric_lines, KuwoLyrics, LyricStamp,
};
use miku_tunes::search::{stamp_results, SearchTally};
use miku_tunes::songs::SongResult;
use miku_tunes::themes::{order_theme_icons, theme_image_data_url};

fn song(id: &str) -> SongResult {
    SongResult {
        id: id.to_string(),
        title: format!("t{id}"),
        artist: "a".to_string(),
        source: "s".to_string(),
        source_id: 0,
        platform: "kw".to_string(),
        album: None,
        cover_url: None,
        duration: None,
        quality: None,
        score: 0,
    }
}

fn source(id: usize, name: &str, score: i32) -> SourceInfo {
    SourceInfo { id, name: name.to_string(), file_name: name.to_string(), score, enabled: true }
}

fn text_of(l: Option<KuwoLyrics>) -> Option<String> {
    match l {
        Some(KuwoLyrics::Text(t)) => Some(t),
        _ => None,
    }
}

#[test]
fn lyric_lines_from_records() {
    let line = kuwo_lyric_line_from_item(&parse_json(r#"{"lyric":"  hi  ","lineTime":"[00:05.10]"}"#).unwrap()).unwrap();
    assert_eq!(line.text, "hi");
    assert!(matches!(line.stamp, LyricStamp::Clock(ref t) if t == "00:05.10"));
    let raw = kuwo_lyric_line_from_item(&parse_json(r#"{"text":"x","startTime":7}"#).unwrap()).unwrap();
    assert!(matches!(raw.stamp, LyricStamp::Raw(ref t) if t == "7"));
    let unstamped = kuwo_lyric_line_from_item(&parse_json(r#"{"content":"y"}"#).unwrap()).unwrap();
    assert!(matches!(unstamped.stamp, LyricStamp::Raw(ref t) if t.is_empty()));
    assert!(kuwo_lyric_line_from_item(&parse_json(r#"{"lineLyric":"   "}"#).unwrap()).is_none());
    assert!(kuwo_lyric_line_from_item(&parse_json(r#"{"lineLyric":5,"text":"z"}"#).unwrap()).is_none());
}

#[test]
fn lyrics_found_where_documents_keep_them() {
    let doc = |t: &str| parse_json(t).unwrap();
    assert_eq!(text_of(extract_kuwo_lyrics_from_json(&doc(r#""  words  ""#))).as_deref(), Some("words"));
    assert!(extract_kuwo_lyrics_from_json(&doc(r#""   ""#)).is_none());
    assert_eq!(text_of(extract_kuwo_lyrics_from_json(&doc(r#"{"data":{"lrc":"L"}}"#))).as_deref(), Some("L"));
    assert_eq!(text_of(extract_kuwo_lyrics_from_json(&doc(r#"{"lyric":"","content":"C"}"#))).as_deref(), Some("C"));
    assert_eq!(text_of(extract_kuwo_lyrics_from_json(&doc(r#"[1, "", "second"]"#))).as_deref(), Some("second"));
    match extract_kuwo_lyrics_from_json(&doc(r#"{"lineLyric":"solo","time":"3"}"#)) {
        Some(KuwoLyrics::Lines(v)) => assert_eq!(v.len(), 1),
        _ => panic!("expected one line"),
    }
    assert!(extract_kuwo_lyrics_from_json(&doc(r#"{"status":200}"#)).is_none());
    assert!(extract_kuwo_lyrics_from_json(&doc("42")).is_none());
}

#[test]
fn jsonp_replies() {
    assert!(jsonp_text_readable("cb({\"lrc\":\"x\"})"));
    assert!(!jsonp_text_readable("} then {"));
    assert!(jsonp_text_readable("}{"));
    assert_eq!(text_of(parse_json_or_jsonp_lyrics(" cb({\"lrc\":\"x\"}); ")).as_deref(), Some("x"));
    assert_eq!(text_of(parse_json_or_jsonp_lyrics("{\"lyric\":\"y\"}")).as_deref(), Some("y"));
    assert!(parse_json_or_jsonp_lyrics("no json here").is_none());
    assert!(parse_json_or_jsonp_lyrics("cb(nonsense)").is_none());
}

#[test]
fn lrc_lines() {
    assert_eq!(lrc_line_parts("  [01:02.50] words  "), Some(("01:02.50".to_string(), "words".to_string())));
    assert_eq!(lrc_line_parts("[ti:Title]x"), Some(("ti:Title".to_string(), "x".to_string())));
    assert_eq!(lrc_line_parts("[00:01.00]   "), None);
    assert_eq!(lrc_line_parts("no stamp"), None);
    assert_eq!(lrc_line_parts("[unclosed"), None);
}

#[test]
fn lyric_window_around_the_current_line() {
    let lines: Vec<String> = vec!["a".into(), "b".into(), "c".into()];
    assert_eq!(current_lyric_index(&vec![true, true, false]), 1);
    assert_eq!(current_lyric_index(&vec![false, false, false]), 0);
    assert_eq!(
        lyric_window(&lines, &vec![true, true, false], "T".into(), "A".into()),
        vec!["a".to_string(), "b".to_string(), "c".to_string()]
    );
    assert_eq!(
        lyric_window(&lines, &vec![false, false, false], "T".into(), "A".into()),
        vec!["".to_string(), "a".to_string(), "b".to_string()]
    );
    assert_eq!(
        lyric_window(&lines, &vec![true, true, true], "T".into(), "A".into()),
        vec!["b".to_string(), "c".to_string(), "".to_string()]
    );
    assert_eq!(
        lyric_window(&vec![], &vec![], "T".into(), "".into()),
        vec!["T".to_string(), "正在播放".to_string(), "暂无歌词".to_string()]
    );
    assert_eq!(
        lyric_window(&vec![], &vec![], "T".into(), "A".into()),
        vec!["T".to_string(), "正在播放".to_string(), "A".to_string()]
    );
}

#[test]
fn untimed_lyrics_lines() {
    assert_eq!(
        plain_lyric_lines(" one \r\n\n  two\n   \nthree"),
        vec!["one".to_string(), "two".to_string(), "three".to_string()]
    );
    assert!(plain_lyric_lines("  \n ").is_empty());
}

#[test]
fn hot_words_are_gathered_and_capped() {
    let mut out: Vec<HotItem> = Vec::new();
    add_hot_words(&mut out, &vec!["a".into(), "b".into()], "S1", 4);
    assert_eq!(out.len(), 2);
    assert_eq!((out[1].title.as_str(), out[1].source.as_str(), out[1].source_id), ("b", "S1", 4));
    add_hot_words_upto(&mut out, &vec!["c".into(), "d".into(), "e".into()], "S2", 5, 4);
    let titles: Vec<&str> = out.iter().map(|h| h.title.as_str()).collect();
    assert_eq!(titles, vec!["a", "b", "c", "d"]);
    add_hot_words_upto(&mut out, &vec!["f".into()], "S2", 5, 3);
    assert_eq!(out.len(), 4);
    let mut all = vec![1, 2];
    assert!(!gather_until(&mut all, vec![3], 4));
    assert!(gather_until(&mut all, vec![4, 5], 4));
    keep_first(&mut all, 3);
    assert_eq!(all, vec![1, 2, 3]);
    keep_first(&mut all, 10);
    assert_eq!(all, vec![1, 2, 3]);
}

#[test]
fn search_tally_marks_and_names_sources() {
    let stamped = stamp_results(vec![song("1")], &source(4, "S4", 7));
    assert_eq!((stamped[0].source_id, stamped[0].score), (4, 7));

    let mut tally = SearchTally::new();
    assert!(tally.record_priority(&source(1, "xiaowo", 2), vec![]).is_none());
    assert!(tally.found_source.is_none());
    let batch = tally.record_round(&source(2, "B", 1), vec![song("a"), song("b")]).unwrap();
    assert_eq!(batch.from_source.as_deref(), Some("B"));
    assert_eq!(batch.results.len(), 2);
    assert_eq!(batch.results[1].source_id, 2);
    assert_eq!(tally.found_source.as_deref(), Some("B"));
    tally.record_round(&source(3, "C", 0), vec![song("c")]);
    assert_eq!(tally.found_source.as_deref(), Some("B"));
    tally.record_priority(&source(5, "P", 0), vec![song("p")]);
    assert_eq!(tally.found_source.as_deref(), Some("P"));
    tally.record_more(&source(6, "M", 0), vec![song("m")]);
    let response = tally.finish(42);
    assert_eq!(response.total, 5);
    assert_eq!(response.results.len(), 5);
    assert_eq!(response.from_source.as_deref(), Some("P"));
    assert_eq!(response.elapsed_ms, 42);
    let ids: Vec<usize> = response.results.iter().map(|r| r.source_id).collect();
    assert_eq!(ids, vec![2, 2, 3, 5, 6]);
}

#[test]
fn theme_icons_in_order() {
    let files = vec![
        ("icon10".to_string(), "png".to_string()),
        ("Icon2".to_string(), "WEBP".to_string()),
        ("background".to_string(), "png".to_string()),
        ("icon".to_string(), "svg".to_string()),
        ("iconicon1".to_string(), "jpg".to_string()),
        ("icon3".to_string(), "txt".to_string()),
        ("icon+4".to_string(), "gif".to_string()),
    ];
    assert_eq!(order_theme_icons(&files), vec![4, 6, 0, 1, 3]);
    assert!(order_theme_icons(&vec![]).is_empty());
}

#[test]
fn theme_images_as_data_links() {
    assert_eq!(theme_image_data_url("PNG", &b"hi".to_vec()), Ok("data:image/png;base64,aGk=".to_string()));
    assert_eq!(theme_image_data_url("jpeg", &vec![0, 1, 2]), Ok("data:image/jpeg;base64,AAEC".to_string()));
    assert_eq!(theme_image_data_url("", &vec![]), Ok("data:application/octet-stream;base64,".to_string()));
    let big = vec![0u8; 8 * 1024 * 1024 + 1];
    assert_eq!(theme_image_data_url("png", &big), Err("图片过大，请选择 8MB 以内的图片".to_string()));
}

#[test]
fn application_facts() {
    assert_eq!(AppConfig::NAME, "Miku Tunes");
    assert_eq!(AppConfig::VERSION, "1.0");
    assert_eq!(AppConfig::GITHUB_URL, "https://github.com/your-username/miku-tunes");
    assert_eq!(AppConfig::AUTHOR, "Miku Tunes Team");
    assert!(AppConfig::NAME_ZH.contains("Tauri"));
    assert!(AppConfig::DESCRIPTION.contains("Hatsune Miku"));
}
