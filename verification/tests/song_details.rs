use miku_tunes::details::{
    audio_cache_file_name, audio_cache_step, backfill_from_kuwo, bilibili_song_url,
    fallback_failure_message, fallback_keyword, is_failed_candidate, kugou_song_info,
    kugou_song_url, kuwo_backfill_needed, kuwo_cover_from_json, kuwo_mobile_song_url,
    link_failure_message, lx_song_url, netease_song_info, netease_song_url, script_song_info,
    xiaowo_song_info, CacheStep, SongInfoResult,
};
use miku_tunes::json::{parse_json, Json};
use miku_tunes::links::stable_hash;
use miku_tunes::lyrics::{KuwoLyrics, LyricStamp};
use miku_tunes::songs::{SongResult, TimeUnit};

fn json(text: &str) -> Json {
    parse_json(text).expect("test document is JSON")
}

fn info(lyrics: Option<&str>, cover: Option<&str>, album: Option<&str>) -> SongInfoResult {
    SongInfoResult {
        id: "1".to_string(),
        title: "T".to_string(),
        artist: "A".to_string(),
        album: album.map(str::to_string),
        cover_url: cover.map(str::to_string),
        lyrics: lyrics.map(str::to_string),
        duration: None,
        platform: "kw".to_string(),
    }
}

#[test]
fn kuwo_details_with_lines() {
    let answer = json(
        r#"{"data":{"songinfo":{"songName":"","artist":"Art","album":"","pic":"http://img/c.jpg"},
            "lrclist":[{"lineLyric":" first ","time":"12.5"},{"lineLyric":"second","time":"[01:02.30]"}]}}"#,
    );
    let (details, lyrics) = xiaowo_song_info(&answer, "77");
    assert_eq!(details.id, "77");
    assert_eq!(details.title, "77");
    assert_eq!(details.artist, "Art");
    assert_eq!(details.album, None);
    assert_eq!(details.cover_url.as_deref(), Some("https://img/c.jpg"));
    assert_eq!(details.platform, "kw");
    assert!(details.lyrics.is_none());
    match lyrics {
        Some(KuwoLyrics::Lines(lines)) => {
            assert_eq!(lines.len(), 2);
            assert_eq!(lines[0].text, "first");
            assert!(matches!(&lines[0].stamp, LyricStamp::Raw(t) if t == "12.5"));
            assert!(matches!(&lines[1].stamp, LyricStamp::Clock(t) if t == "01:02.30"));
        }
        _ => panic!("expected timed lines"),
    }
}

#[test]
fn kuwo_details_without_cover_or_lyrics() {
    let (details, lyrics) = xiaowo_song_info(&json(r#"{"name":"Title","singer":"S"}"#), "5");
    assert_eq!(details.title, "Title");
    assert_eq!(details.artist, "S");
    assert!(details.cover_url.is_none());
    assert!(lyrics.is_none());
}

#[test]
fn kuwo_cover_service() {
    assert_eq!(kuwo_cover_from_json(&json(r#"{"url":"//p/1.jpg"}"#)).as_deref(), Some("https://p/1.jpg"));
    assert_eq!(kuwo_cover_from_json(&json(r#"{"data":{"url":"http://p/2.jpg"}}"#)).as_deref(), Some("https://p/2.jpg"));
    assert_eq!(kuwo_cover_from_json(&json(r#"{"url":" "}"#)), None);
}

#[test]
fn kugou_details_and_lyric_link() {
    let (details, link) = kugou_song_info(
        &json(r#"{"songName":"S","singerName":"A","imgUrl":"","album_name":"Al","lyrics":"http://l/1.lrc"}"#),
        "HASH",
    );
    assert_eq!((details.id.as_str(), details.title.as_str(), details.artist.as_str()), ("HASH", "S", "A"));
    assert_eq!(details.cover_url, None);
    assert_eq!(details.album.as_deref(), Some("Al"));
    assert_eq!(details.platform, "kg");
    assert_eq!(link.as_deref(), Some("http://l/1.lrc"));
    let (_, none) = kugou_song_info(&json(r#"{"lyrics":""}"#), "H");
    assert!(none.is_none());
}

#[test]
fn netease_details_from_two_answers() {
    let lyric = json(r#"{"lrc":{"lyric":"[00:01.00]hi"}}"#);
    let detail = json(r#"{"songs":[{"name":"N","artists":[{"name":"A"},{"name":"B"}],"album":{"picurl":"http://p"}}]}"#);
    let d = netease_song_info("9", &lyric, Some(&detail));
    assert_eq!((d.title.as_str(), d.artist.as_str()), ("N", "A / B"));
    assert_eq!(d.cover_url.as_deref(), Some("http://p"));
    assert_eq!(d.lyrics.as_deref(), Some("[00:01.00]hi"));
    assert_eq!(d.platform, "wy");
    let bare = netease_song_info("9", &json("{}"), None);
    assert_eq!((bare.title.as_str(), bare.artist.as_str()), ("", ""));
    assert!(bare.lyrics.is_none());
}

#[test]
fn script_details_need_a_title() {
    let d = script_song_info(
        &json(r#"{"result":{"title":"T","author":"A","lrc":"","cover":"c","dt":215000}}"#),
        "3",
        "tx",
    )
    .unwrap();
    assert_eq!((d.title.as_str(), d.artist.as_str(), d.platform.as_str()), ("T", "A", "tx"));
    assert_eq!(d.cover_url.as_deref(), Some("c"));
    assert!(d.lyrics.is_none());
    let len = d.duration.unwrap();
    assert_eq!((len.value.as_str(), len.unit), ("215000", TimeUnit::MillisecondsAbove10000));
    assert!(script_song_info(&json(r#"{"data":{"name":""}}"#), "3", "tx").is_none());
    assert!(script_song_info(&json(r#"{"name":"T"}"#), "3", "tx").is_none());
}

#[test]
fn kuwo_backfill_only_without_lyrics() {
    assert!(kuwo_backfill_needed("kw", &None));
    assert!(kuwo_backfill_needed("kw", &Some(info(Some("  "), None, None))));
    assert!(!kuwo_backfill_needed("kw", &Some(info(Some("la"), None, None))));
    assert!(!kuwo_backfill_needed("wy", &None));
}

#[test]
fn backfill_keeps_what_was_found() {
    let found = info(Some(" "), Some("http://mine"), None);
    let kuwo = SongInfoResult { title: "other".to_string(), ..info(Some("lyrics"), Some("http://kw"), Some("Al")) };
    let merged = backfill_from_kuwo(Some(found), kuwo);
    assert_eq!(merged.lyrics.as_deref(), Some("lyrics"));
    assert_eq!(merged.cover_url.as_deref(), Some("http://mine"));
    assert_eq!(merged.album.as_deref(), Some("Al"));
    assert_eq!(merged.title, "T");
    let only = backfill_from_kuwo(None, info(Some("x"), None, None));
    assert_eq!(only.lyrics.as_deref(), Some("x"));
}

#[test]
fn playable_links_from_each_service() {
    let lx = lx_song_url(&json(r#"{"url":"https://l/a.flac"}"#)).unwrap();
    assert_eq!((lx.url.as_str(), lx.quality.as_str(), lx.format.as_str()), ("https://l/a.flac", "320k", "flac"));
    assert!(lx_song_url(&json(r#"{"url":""}"#)).is_none());

    let kw = kuwo_mobile_song_url(&json(r#"{"code":200,"data":{"url":"http://a/x.mp3?k=http://b"}}"#)).unwrap();
    assert_eq!(kw.url, "https://a/x.mp3?k=https://b");
    assert_eq!(kw.format, "mp3");
    assert!(kuwo_mobile_song_url(&json(r#"{"code":500,"data":{"url":"http://a/x.mp3"}}"#)).is_none());
    assert!(kuwo_mobile_song_url(&json(r#"{"code":200,"data":{}}"#)).is_none());

    let kg = kugou_song_url(&json(r#"{"play_url":"http://k/1.mp3"}"#)).unwrap();
    assert_eq!((kg.quality.as_str(), kg.format.as_str()), ("320k", "mp3"));
    assert!(kugou_song_url(&json(r#"{"url":"null"}"#)).is_none());

    let wy = json(r#"{"data":[{"url":"http://w/1.mp3","br":128000}]}"#);
    assert_eq!(netease_song_url(&wy, 128000).unwrap().quality, "128k");
    assert_eq!(netease_song_url(&wy, 320000).unwrap().quality, "320k");
    assert_eq!(netease_song_url(&wy, 96000).unwrap().quality, "mp3");
    assert!(netease_song_url(&json(r#"{"data":[{"url":"http://null/x"}]}"#), 320000).is_none());
    assert!(netease_song_url(&json(r#"{"data":[]}"#), 320000).is_none());

    let bili = bilibili_song_url(&json(r#"{"data":{"durl":[{"url":"https://b/1.mp4"}]}}"#)).unwrap();
    assert_eq!((bili.url.as_str(), bili.quality.as_str(), bili.format.as_str()), ("https://b/1.mp4", "mp4", "mp4"));
    assert!(bilibili_song_url(&json(r#"{"data":{"durl":[]}}"#)).is_none());
}

#[test]
fn cache_steps_and_names() {
    assert_eq!(audio_cache_step(""), CacheStep::Discard);
    assert_eq!(audio_cache_step("data:audio/mp3;base64,AA"), CacheStep::Keep);
    assert_eq!(audio_cache_step("/local/file.mp3"), CacheStep::Keep);
    assert_eq!(audio_cache_step("https://x/a.mp3"), CacheStep::Download);
    let url = "https://x/a.FLAC?sig=1";
    assert_eq!(audio_cache_file_name(url, " "), format!("{}.flac", stable_hash(url)));
    assert_eq!(audio_cache_file_name(url, " M4A "), format!("{}.m4a", stable_hash(url)));
    assert_eq!(audio_cache_file_name(url, "!!"), format!("{}.mp3", stable_hash(url)));
}

#[test]
fn fallback_search_words_and_messages() {
    assert_eq!(fallback_keyword("  Song ", " Singer "), Ok("Song Singer".to_string()));
    assert_eq!(fallback_keyword("Song", "  "), Ok("Song".to_string()));
    assert_eq!(fallback_keyword(" ", ""), Err("无法兜底解析：歌曲名为空".to_string()));
    let song = SongResult {
        id: "9".to_string(),
        title: "t".to_string(),
        artist: "a".to_string(),
        source: "s".to_string(),
        source_id: 2,
        platform: "kw".to_string(),
        album: None,
        cover_url: None,
        duration: None,
        quality: None,
        score: 0,
    };
    assert!(is_failed_candidate(&song, 2, "9", "kw"));
    assert!(!is_failed_candidate(&song, 3, "9", "kw"));
    assert!(!is_failed_candidate(&song, 2, "9", "wy"));
    assert_eq!(
        link_failure_message(12, "abc", "kw"),
        "获取播放链接失败：source_id=12, song_id=abc, platform=kw（所有音源接口均不可用）"
    );
    assert_eq!(
        fallback_failure_message(0, "x", "wy"),
        "获取播放链接失败：source_id=0, song_id=x, platform=wy。已尝试重新搜索其它音源，仍未找到可播放链接，请检查当前网络或稍后重试。"
    );
}
