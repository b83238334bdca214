use miku_tunes::files::{
    chosen_download_dir, configured_download_dir, download_source, DownloadSource, default_download_dir, fallback_data_dir,
    fallback_favorites_path, favorites_file_name, favorites_storage_path, join_path,
    normalized_extension, portable_favorites_path, resolve_local_audio_path,
    sanitize_audio_extension, sanitize_file_name, settings_path, target_download_path,
};
use miku_tunes::json::parse_json;
use miku_tunes::links::{format_bitrate, infer_audio_format, parse_song_url_result, stable_hash};

#[test]
fn file_names_lose_reserved_characters() {
    assert_eq!(sanitize_file_name("a<b>c:d\"e/f\\g|h?i*j"), "a_b_c_d_e_f_g_h_i_j");
    assert_eq!(sanitize_file_name("  ..Song..  "), "Song");
    assert_eq!(sanitize_file_name(" . "), "music");
    assert_eq!(sanitize_file_name(""), "music");
}

#[test]
fn extensions_are_cleaned() {
    assert_eq!(normalized_extension(" .FLAC "), "flac");
    assert_eq!(normalized_extension("..m4a"), "m4a");
    assert_eq!(normalized_extension("  "), "mp3");
    assert_eq!(sanitize_audio_extension("M-P.3".to_string()), "mp3");
    assert_eq!(sanitize_audio_extension("O g g!".to_string()), "ogg");
    assert_eq!(sanitize_audio_extension("..".to_string()), "mp3");
}

#[test]
fn download_path_joins_title_artist_and_extension() {
    assert_eq!(
        target_download_path("/home/u/Music", "Song: Live", "A/B", ".FLAC", '/'),
        "/home/u/Music/Song_ Live - A_B.flac"
    );
    assert_eq!(target_download_path("C:\\dl", "", "", "", '\\'), "C:\\dl\\music - music.mp3");
    assert_eq!(join_path("dir", "name", '/'), "dir/name");
    assert_eq!(join_path("dir/", "name", '/'), "dir/name");
    assert_eq!(join_path("dir\\", "name", '/'), "dir\\/name");
    assert_eq!(join_path("D:/Music/", "a.mp3", '\\'), "D:/Music/a.mp3");
    assert_eq!(join_path("D:\\Music", "a.mp3", '\\'), "D:\\Music\\a.mp3");
    assert_eq!(join_path("C:", "a.mp3", '\\'), "C:a.mp3");
    assert_eq!(join_path("C:", "a.mp3", '/'), "C:/a.mp3");
    assert_eq!(join_path("", "a.mp3", '\\'), "a.mp3");
}

#[test]
fn data_paths() {
    assert_eq!(favorites_file_name(), "favorites.json");
    assert_eq!(default_download_dir("/home/u", '/'), "/home/u/Downloads/MikuTunes");
    assert_eq!(fallback_data_dir("/cfg", '/'), "/cfg/MikuTunes");
    assert_eq!(settings_path("/cfg", '/'), "/cfg/MikuTunes/settings.json");
    assert_eq!(portable_favorites_path("/app/MikuTunesData", '/'), "/app/MikuTunesData/favorites.json");
    assert_eq!(fallback_favorites_path("/cfg", '/'), "/cfg/MikuTunes/favorites.json");
}

#[test]
fn favorites_file_choice() {
    let p = || "/p/favorites.json".to_string();
    let f = || "/f/favorites.json".to_string();
    assert_eq!(favorites_storage_path(p(), true, f(), true), p());
    assert_eq!(favorites_storage_path(p(), false, f(), true), f());
    assert_eq!(favorites_storage_path(p(), false, f(), false), p());
}

#[test]
fn local_audio_links_back_to_paths() {
    assert_eq!(
        resolve_local_audio_path(" http://asset.localhost/%2Fhome%2Fu%2Fa%20b.mp3 ").as_deref(),
        Some("/home/u/a b.mp3")
    );
    assert_eq!(
        resolve_local_audio_path("asset://localhost/C%3A%5Cmusic%5Cx.flac").as_deref(),
        Some("C:\\music\\x.flac")
    );
    assert_eq!(
        resolve_local_audio_path("file:///tmp/song%21.mp3").as_deref(),
        Some("/tmp/song!.mp3")
    );
    assert_eq!(resolve_local_audio_path("/plain/path.mp3").as_deref(), Some("/plain/path.mp3"));
    assert_eq!(resolve_local_audio_path("D:\\x.mp3").as_deref(), Some("D:\\x.mp3"));
    assert_eq!(resolve_local_audio_path("https://cdn.example/x.mp3"), None);
    assert_eq!(resolve_local_audio_path("   "), None);
    assert_eq!(resolve_local_audio_path("file:///bad%FF"), None);
}

#[test]
fn settings_name_the_download_folder() {
    let d = || "/home/u/Downloads/MikuTunes".to_string();
    assert_eq!(configured_download_dir(Some("{\"download_dir\":\"/data/dl\"}"), d()), "/data/dl");
    assert_eq!(configured_download_dir(Some("{\"download_dir\":\"  \"}"), d()), d());
    assert_eq!(configured_download_dir(Some("{\"download_dir\":3}"), d()), d());
    assert_eq!(configured_download_dir(Some("not json"), d()), d());
    assert_eq!(configured_download_dir(None, d()), d());
}

#[test]
fn typed_download_folder() {
    assert_eq!(chosen_download_dir("  /music  "), Ok("/music".to_string()));
    assert_eq!(chosen_download_dir("   "), Err("下载目录不能为空".to_string()));
}

#[test]
fn bitrate_labels() {
    assert_eq!(format_bitrate(2_000_000), "Lossless");
    assert_eq!(format_bitrate(1_000_000), "Lossless");
    assert_eq!(format_bitrate(320_000), "320k");
    assert_eq!(format_bitrate(128_999), "128k");
    assert_eq!(format_bitrate(320), "320k");
    assert_eq!(format_bitrate(0), "");
}

#[test]
fn audio_formats() {
    assert_eq!(infer_audio_format("https://x/a.FLAC?t=1", None), "flac");
    assert_eq!(infer_audio_format("https://x/a.m4a", Some("")), "m4a");
    assert_eq!(infer_audio_format("https://x/a.m4a", Some("ogg")), "ogg");
    assert_eq!(infer_audio_format("https://x/stream", None), "mp3");
    assert_eq!(infer_audio_format("https://x/a.wav?x.flac", None), "wav");
}

#[test]
fn song_url_answers() {
    let top = parse_json(r#"{"url":"https://x/a.flac","quality":"flac"}"#).unwrap();
    let r = parse_song_url_result(&top, "128k").unwrap();
    assert_eq!((r.url.as_str(), r.quality.as_str(), r.format.as_str()), ("https://x/a.flac", "flac", "flac"));

    let data_str = parse_json(r#"{"data":"https://x/b.mp3"}"#).unwrap();
    let r = parse_song_url_result(&data_str, "320k").unwrap();
    assert_eq!((r.url.as_str(), r.quality.as_str(), r.format.as_str()), ("https://x/b.mp3", "320k", "mp3"));

    let data_obj = parse_json(r#"{"result":{"src":"https://x/c.ogg","format":"ogg"}}"#).unwrap();
    let r = parse_song_url_result(&data_obj, "128k").unwrap();
    assert_eq!((r.url.as_str(), r.quality.as_str(), r.format.as_str()), ("https://x/c.ogg", "128k", "ogg"));

    let list = parse_json(r#"{"data":[{"url":""},{"play_url":"https://x/d.m4a"}]}"#).unwrap();
    let r = parse_song_url_result(&list, "128k").unwrap();
    assert_eq!(r.url, "https://x/d.m4a");
    assert_eq!(r.format, "m4a");

    let none = parse_json(r#"{"url":"","data":{"msg":"no"}}"#).unwrap();
    assert!(parse_song_url_result(&none, "128k").is_none());
}

#[test]
fn stable_hash_is_sixteen_hex_digits() {
    let a = stable_hash("https://x/a.mp3");
    assert_eq!(a.len(), 16);
    assert!(a.chars().all(|c| c.is_ascii_hexdigit() && !c.is_ascii_uppercase()));
    assert_eq!(a, stable_hash("https://x/a.mp3"));
    assert_ne!(a, stable_hash("https://x/b.mp3"));
    assert_ne!(a, "https://x/a.mp3");
}

#[test]
fn download_sources() {
    assert_eq!(
        match download_source("   ") {
            Err(e) => e,
            Ok(_) => String::new(),
        },
        "播放链接为空，无法下载"
    );
    match download_source("asset://localhost/%2Fmusic%2Fa%20b.mp3") {
        Ok(DownloadSource::Local(p)) => assert_eq!(p, "/music/a b.mp3"),
        _ => panic!("expected a local file"),
    }
    match download_source(" https://x/a.mp3") {
        Ok(DownloadSource::Remote(u)) => assert_eq!(u, " https://x/a.mp3"),
        _ => panic!("expected a link to fetch"),
    }
}

#[test]
fn download_and_cache_extensions_agree() {
    for raw in [" .FLAC ", "..m4a", "", " . ", "mp3?x=1", "Ogg Vorbis"] {
        assert_eq!(normalized_extension(raw), sanitize_audio_extension(raw.to_string()));
    }
}
