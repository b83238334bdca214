use miku_tunes::json::{parse_json, Json};
use miku_tunes::share::{
    balanced_json_slice, collect_json_values, dedupe_song_details, extract_assigned_json,
    extract_kugou_songs_from_text, extract_songs_from_html_lists, plan_shared_playlist,
    shared_playlist_from_page, song_detail_from_json, try_parse_pasted_text, ShareStep,
};
use miku_tunes::songs::{SongDetail, TimeUnit};

/// Seconds of a song, as the application reads its length.
fn duration_secs(song: &SongDetail) -> Option<f64> {
    let length = song.duration.as_ref()?;
    let value: f64 = length.value.parse().ok()?;
    Some(match length.unit {
        TimeUnit::Seconds => value,
        TimeUnit::Milliseconds => value / 1000.0,
        TimeUnit::MillisecondsAbove10000 => {
            if value > 10000.0 {
                value / 1000.0
            } else {
                value
            }
        }
        TimeUnit::SecondsAtLeast30 => value.max(30.0),
        TimeUnit::MillisecondsOver10Seconds => {
            let secs = value / 1000.0;
            if secs > 10.0 {
                secs
            } else {
                return None;
            }
        }
    })
}

#[test]
fn parses_kugou_concept_playlist_json() {
    let text = r#"{
            "data": {
                "info": [{
                    "hash": "95014B8A1544E30110B1663549BAD271",
                    "audio_id": 56390512,
                    "name": "Sasha Alex Sloan - Dancing With Your Ghost",
                    "timelen": 198000,
                    "albuminfo": {"name": "Dancing With Your Ghost"},
                    "singerinfo": [{"name": "Sasha Alex Sloan"}],
                    "cover": "http:\/\/imge.kugou.com\/stdmusic\/{size}\/cover.jpg"
                }]
            }
        }"#;
    let songs = extract_kugou_songs_from_text(text);
    assert_eq!(songs.len(), 1);
    assert_eq!(songs[0].title, "Dancing With Your Ghost");
    assert_eq!(songs[0].artist, "Sasha Alex Sloan");
    assert_eq!(duration_secs(&songs[0]), Some(198.0));
    assert!(songs[0]
        .cover_url
        .as_deref()
        .unwrap_or_default()
        .starts_with("https://"));
}

#[test]
fn parses_kugou_html_ndata_songs() {
    let text = r#"<script>
            var nData = {
                "listinfo": {
                    "global_collection_id": "collection_3_1488927378_18_0",
                    "encode_gcid": "gcid_3zsc75w8ziz07c"
                },
                "songs": [{
                    "hash": "284017622B0A01117DF25019176BCCA7",
                    "audio_id": 571602467,
                    "name": "\u7b11\u5929\u5199\u610f - \u5c3d\u529b\u4e86\u5c31\u662f\u5706\u6ee1",
                    "timelen": 243000,
                    "singerinfo": [{"name": "\u7b11\u5929\u5199\u610f"}],
                    "cover": "http:\/\/imge.kugou.com\/stdmusic\/{size}\/20260509.jpg"
                }]
            };
        </script>"#;
    let songs = extract_kugou_songs_from_text(text);
    assert_eq!(songs.len(), 1);
    assert_eq!(songs[0].artist, "笑天写意");
    assert_eq!(songs[0].title, "尽力了就是圆满");
}

#[test]
fn parses_html_li_songlist_format() {
    let text = r#"<div class="r" style="min-height: 400px;">
                 <div id="songs" class="list1">
                     <strong>&lt;念 &gt;- 歌曲列表</strong>
                     <ul>
                         <li>
                             <input type="checkbox" class="cb checkItem" checked="true"  style="margin-left: 8px;">
                             <a title="笑天写意 - 尽力了就是圆满" hidefocus="true" href="https://www.kugou.com/mixsong/ejov0g0c.html" data="284017622B0A01117DF25019176BCCA7|243000">
                                 <span class="num1">01</span>
                                 <span class="text">
                                     <i>笑天写意 - 尽力了就是圆满</i>
                                 </span>
                             </a>
                         </li>
                         <li>
                             <input type="checkbox" class="cb checkItem" checked="true"  style="margin-left: 8px;">
                             <a title="沧桑大涵 - 荒漠不败的花" hidefocus="true" href="https://www.kugou.com/mixsong/eof6wg94.html" data="21753BAF95A576D4D5CB1099A9AD6095|209000">
                                 <span class="num1">02</span>
                                 <span class="text">
                                     <i>沧桑大涵 - 荒漠不败的花</i>
                                 </span>
                             </a>
                         </li>
                     </ul>
                 </div>
        </div>"#;
    let songs = extract_songs_from_html_lists(text);
    assert_eq!(songs.len(), 2);
    assert_eq!(songs[0].title, "尽力了就是圆满");
    assert_eq!(songs[0].artist, "笑天写意");
    assert_eq!(duration_secs(&songs[0]), Some(243.0));
    assert_eq!(songs[0].id, "284017622B0A01117DF25019176BCCA7");
    assert_eq!(songs[1].title, "荒漠不败的花");
    assert_eq!(songs[1].artist, "沧桑大涵");
    assert_eq!(songs[1].id, "21753BAF95A576D4D5CB1099A9AD6095");
}

#[test]
fn parses_get_other_list_file_json() {
    let text = r#"{"error_code":0,"errmsg":"","data":{"info":[{"hash":"95014B8A1544E30110B1663549BAD271","audio_id":56390512,"name":"Sasha Alex Sloan - Dancing With Your Ghost","timelen":197773,"albuminfo":{"name":"Dancing With Your Ghost"},"singerinfo":[{"name":"Sasha Alex Sloan"}],"cover":"http://imge.kugou.com/stdmusic/{size}/20190626/20190626210118627550.jpg"}],"count":278}}"#;
    let songs = extract_kugou_songs_from_text(text);
    assert_eq!(songs.len(), 1);
    assert_eq!(songs[0].title, "Dancing With Your Ghost");
    assert_eq!(songs[0].artist, "Sasha Alex Sloan");
    assert_eq!(duration_secs(&songs[0]), Some(197.773));
}

#[test]
fn try_parse_pasted_json_text() {
    let text = r#"{"error_code":0,"data":{"info":[{"hash":"HASH001","audio_id":123,"name":"Test Song","timelen":180000,"albuminfo":{"name":"Test Album"},"singerinfo":[{"name":"Test Artist"}],"cover":"http://img.test/cover.jpg"}]}}"#;
    let result = try_parse_pasted_text(text);
    assert!(result.is_some());
    let playlist = result.unwrap();
    assert!(playlist.songs.len() > 0);
    assert_eq!(playlist.songs[0].title, "Test Song");
    assert_eq!(playlist.songs[0].artist, "Test Artist");
}

#[test]
fn rejects_urls_in_pasted_text() {
    assert!(try_parse_pasted_text("https://www.kugou.com/songlist/gcid_abc").is_none());
}

#[test]
fn song_object_needs_a_song_key_and_a_title() {
    let plain = parse_json(r#"{"name": "Only a name"}"#).unwrap();
    assert!(song_detail_from_json(&plain).is_none());
    let untitled = parse_json(r#"{"hash": "H1"}"#).unwrap();
    assert!(song_detail_from_json(&untitled).is_none());
    let linked = parse_json(r#"{"hash": "H1", "name": "see http://x"}"#).unwrap();
    assert!(song_detail_from_json(&linked).is_none());
    let long = format!(r#"{{"hash": "H1", "name": "{}"}}"#, "a".repeat(81));
    assert!(song_detail_from_json(&parse_json(&long).unwrap()).is_none());
}

#[test]
fn song_object_defaults_and_made_up_id() {
    let v = parse_json(r#"{"filename": "Plain Title", "duration": "215"}"#).unwrap();
    let song = song_detail_from_json(&v).unwrap();
    assert_eq!(song.title, "Plain Title");
    assert_eq!(song.artist, "未知歌手");
    assert_eq!(song.id, "kg-share-Plain Title-未知歌手");
    assert_eq!(song.duration.as_ref().map(|d| d.value.as_str()), Some("215"));
    assert_eq!(duration_secs(&song), Some(215.0));
    assert_eq!(song.platform, "kg");
    assert_eq!(song.source_id, 0);
}

#[test]
fn song_object_splits_artist_from_title() {
    let v = parse_json(r#"{"hash": "H2", "songname": "Band - Tune", "album_name": "LP", "img": "//c.kg/{SIZE}/a.jpg"}"#).unwrap();
    let song = song_detail_from_json(&v).unwrap();
    assert_eq!(song.artist, "Band");
    assert_eq!(song.title, "Tune");
    assert_eq!(song.id, "H2");
    assert_eq!(song.album.as_deref(), Some("LP"));
    assert_eq!(song.cover_url.as_deref(), Some("https://c.kg/400/a.jpg"));
}

#[test]
fn balanced_slice_skips_brackets_in_strings() {
    assert_eq!(
        balanced_json_slice(r#"{"a": "}]", "b": [1, {"c": "\"}"}]} tail"#).as_deref(),
        Some(r#"{"a": "}]", "b": [1, {"c": "\"}"}]}"#)
    );
    assert_eq!(balanced_json_slice("[1, 2"), None);
    assert_eq!(balanced_json_slice("}{"), None);
}

#[test]
fn assigned_json_reads_after_equals() {
    let v = extract_assigned_json("x; var nData = [1, 2]; y", "nData").unwrap();
    match v {
        Json::Array(items) => assert_eq!(items.len(), 2),
        _ => panic!("not an array"),
    }
    assert!(extract_assigned_json("nData: [1]", "nData").is_none());
}

#[test]
fn json_values_follow_markers() {
    let values = collect_json_values(r#"{"data": {"k": 1}, "list": [2]}"#);
    assert!(values.len() >= 2);
}

#[test]
fn dedupe_keeps_first_title_and_artist() {
    let make = |id: &str, title: &str, artist: &str| SongDetail {
        id: id.to_string(),
        title: title.to_string(),
        artist: artist.to_string(),
        album: None,
        album_id: None,
        cover_url: None,
        duration: None,
        source_id: 0,
        platform: "kg".to_string(),
    };
    let out = dedupe_song_details(vec![
        make("1", "A", "X"),
        make("2", "A", "X"),
        make("3", "A", "Y"),
    ]);
    let ids: Vec<&str> = out.iter().map(|s| s.id.as_str()).collect();
    assert_eq!(ids, vec!["1", "3"]);
}

#[test]
fn pasted_playlist_takes_name_and_link() {
    let text = r#"  {"data":{"listname":"My List","global_collection_id":"collection_9","info":[{"hash":"H","name":"Song"}]}}  "#;
    let p = try_parse_pasted_text(text).unwrap();
    assert_eq!(p.playlist.name, "My List");
    assert_eq!(
        p.external_url,
        "https://pubsongscdn.kugou.com/v2/get_other_list_file?type=0&module=playlist&global_collection_id=collection_9"
    );
    assert_eq!(p.playlist.id, p.external_url);
    assert_eq!(p.playlist.song_count, Some(1));
    assert_eq!(p.playlist.source_name, "酷狗分享");
}

#[test]
fn plan_fetches_links_and_refuses_other_text() {
    match plan_shared_playlist("look https://t1.kugou.com/abc") {
        Ok(ShareStep::Fetch(url)) => assert_eq!(url, "https://t1.kugou.com/abc"),
        _ => panic!("expected a link"),
    }
    assert!(plan_shared_playlist("nothing here").is_err());
}

#[test]
fn fetched_page_without_songs_gets_a_note() {
    let p = shared_playlist_from_page(Vec::new(), "https://x".to_string(), "T".to_string(), None);
    assert!(p.note.is_some());
    assert_eq!(p.playlist.song_count, Some(0));
    assert_eq!(p.playlist.id, "https://x");
}
