use miku_tunes::catalog::{
    api_endpoint, catalog_songs_from_json, extract_cover_url, first_platform, hot_keywords_from_json,
    playlists_from_json, rankings_from_json,
};
use miku_tunes::json::{parse_json, Json};
use miku_tunes::searchers::{
    script_first_request, script_next_request, ScriptRequest,
    bilibili_search_page, extract_quality_label, extract_song_items, kugou_quality_from_item,
    kugou_search_page, kuwo_playlists_page, kuwo_rankings_from_json, kuwo_song_list,
    kuwo_songs_from_items, netease_quality_from_rate, netease_search_page, netease_song_list,
    script_search_results, xiaowo_search_page, xiaowo_song_detail_from_item, xiaowo_song_list,
};
use miku_tunes::songs::{SongLength, TimeUnit};

fn json(text: &str) -> Json {
    parse_json(text).expect("test document is JSON")
}

fn length(l: &Option<SongLength>) -> Option<(String, TimeUnit)> {
    l.as_ref().map(|x| (x.value.clone(), x.unit))
}

#[test]
fn kugou_page_skips_seen_and_empty_hashes() {
    let page = json(
        r#"{"data":{"info":[
            {"hash":"H1","songname":"S1","singername":"A1","album_name":"","duration":200,
             "img":"http://x/i.jpg","sqfilesize":"0","hqfilesize":"123","filesize":"5"},
            {"hash":"H1","songname":"dup"},
            {"hash":"","songname":"nohash"},
            {"hash":"H2","filename":"F2","singer":"A2","second":12}
        ]}}"#,
    );
    let mut seen = vec!["H2".to_string()];
    let (results, fresh) = kugou_search_page(&page, &mut seen).unwrap();
    assert!(fresh);
    assert_eq!(seen, vec!["H2".to_string(), "H1".to_string()]);
    assert_eq!(results.len(), 1);
    let r = &results[0];
    assert_eq!((r.id.as_str(), r.title.as_str(), r.artist.as_str()), ("H1", "S1", "A1"));
    assert_eq!((r.source.as_str(), r.platform.as_str(), r.source_id, r.score), ("kugou", "kg", 0, 0));
    assert_eq!(r.album, None);
    assert_eq!(r.cover_url.as_deref(), Some("http://x/i.jpg"));
    assert_eq!(length(&r.duration), Some(("200".to_string(), TimeUnit::SecondsAtLeast30)));
    assert_eq!(r.quality.as_deref(), Some("320k"));

    let (again, fresh) = kugou_search_page(&page, &mut seen).unwrap();
    assert!(again.is_empty());
    assert!(!fresh);
    assert!(kugou_search_page(&json(r#"{"data":{}}"#), &mut seen).is_none());
    assert_eq!(seen.len(), 2);
}

#[test]
fn kugou_quality_by_file_sizes() {
    assert_eq!(kugou_quality_from_item(&json(r#"{"sqfilesize":"9"}"#)).as_deref(), Some("flac"));
    assert_eq!(kugou_quality_from_item(&json(r#"{"filesize":"+7"}"#)).as_deref(), Some("128k"));
    assert_eq!(kugou_quality_from_item(&json(r#"{"filesize":7}"#)).as_deref(), Some("128k"));
    assert_eq!(
        kugou_quality_from_item(&json(r#"{"sqfilesize":31457280,"hqfilesize":10485760,"filesize":4194304}"#))
            .as_deref(),
        Some("flac")
    );
    assert_eq!(kugou_quality_from_item(&json(r#"{"sqfilesize":0,"hqfilesize":2.5e6}"#)).as_deref(), Some("320k"));
    assert_eq!(kugou_quality_from_item(&json(r#"{"sqfilesize":-3,"filesize":0.0}"#)), None);
    assert_eq!(kugou_quality_from_item(&json(r#"{"hqfilesize":"x"}"#)), None);
}

#[test]
fn netease_page_reads_ids_artists_and_rates() {
    let page = json(
        r#"{"result":{"songs":[
            {"id":123,"name":"N","artists":[{"name":"X"},{"name":"Y"},{"nope":1}],
             "album":{"name":"Al","picUrl":"http://p"},"duration":240000},
            {"id":123,"name":"again"},
            {"name":"no id"}
        ]}}"#,
    );
    let items = netease_song_list(&page).unwrap();
    let rates = vec![320000u32, 0, 0];
    let mut seen = Vec::new();
    let (results, fresh) = netease_search_page(items, &rates, &mut seen);
    assert!(fresh);
    assert_eq!(results.len(), 1);
    let r = &results[0];
    assert_eq!((r.id.as_str(), r.title.as_str(), r.artist.as_str()), ("123", "N", "X / Y"));
    assert_eq!(r.album.as_deref(), Some("Al"));
    assert_eq!(r.cover_url.as_deref(), Some("http://p"));
    assert_eq!(
        length(&r.duration),
        Some(("240000".to_string(), TimeUnit::MillisecondsOver10Seconds))
    );
    assert_eq!(r.quality.as_deref(), Some("320k"));
    assert_eq!(seen, vec!["123".to_string()]);
    assert!(netease_song_list(&json(r#"{"result":{"songs":5}}"#)).is_none());
}

#[test]
fn netease_quality_labels() {
    assert_eq!(netease_quality_from_rate(999000).as_deref(), Some("flac"));
    assert_eq!(netease_quality_from_rate(320000).as_deref(), Some("320k"));
    assert_eq!(netease_quality_from_rate(192000).as_deref(), Some("192k"));
    assert_eq!(netease_quality_from_rate(128000).as_deref(), Some("128k"));
    assert_eq!(netease_quality_from_rate(96000).as_deref(), Some("96k"));
    assert_eq!(netease_quality_from_rate(0), None);
}

#[test]
fn bilibili_page_counts_untitled_videos_as_seen() {
    let page = json(
        r#"{"data":{"result":[
            {"bvid":"BV1","title":"T","author":"U","pic":"//i.jpg","duration":"3:20"},
            {"aid":77,"title":""},
            {"bvid":"BV1","title":"again"}
        ]}}"#,
    );
    let mut seen = Vec::new();
    let (results, fresh) = bilibili_search_page(&page, &mut seen).unwrap();
    assert!(fresh);
    assert_eq!(seen, vec!["BV1".to_string(), "77".to_string()]);
    assert_eq!(results.len(), 1);
    let r = &results[0];
    assert_eq!((r.id.as_str(), r.title.as_str(), r.artist.as_str()), ("BV1", "T", "U"));
    assert_eq!(r.platform, "bilibili");
    assert_eq!(r.cover_url.as_deref(), Some("//i.jpg"));
    assert!(r.duration.is_none());
    assert!(r.quality.is_none());
}

#[test]
fn xiaowo_page_strips_music_prefix() {
    let page = json(
        r#"{"abslist":[
            {"MUSICRID":"MUSIC_42","NAME":"K","ARTIST":"Art","ALBUM":"Alb","DURATION":"215",
             "web_albumpic_short":"http://img/a.jpg"},
            {"MUSICRID":"MUSIC_43","NAME":""},
            {"MUSICRID":"44","NAME":"L","bitrate":"128000"}
        ]}"#,
    );
    let items = xiaowo_song_list(&page).unwrap();
    let goods = vec![None, None, Some(2000)];
    let mut seen = Vec::new();
    let (results, full) = xiaowo_search_page(items, &goods, &mut seen, "小蜗");
    assert!(!full);
    assert_eq!(seen, vec!["42".to_string(), "44".to_string()]);
    assert_eq!(results.len(), 2);
    assert_eq!(results[0].id, "42");
    assert_eq!(results[0].source, "小蜗");
    assert_eq!(results[0].platform, "kw");
    assert_eq!(results[0].album.as_deref(), Some("Alb"));
    assert_eq!(results[0].cover_url.as_deref(), Some("https://img/a.jpg"));
    assert_eq!(length(&results[0].duration), Some(("215".to_string(), TimeUnit::Seconds)));
    assert_eq!(results[0].quality.as_deref(), Some("320k"));
    assert_eq!(results[1].quality.as_deref(), Some("128k"));
}

#[test]
fn quality_labels_from_records() {
    assert_eq!(extract_quality_label(&json(r#"{"quality":"flac"}"#), None).as_deref(), Some("flac"));
    assert_eq!(extract_quality_label(&json(r#"{"br":320000}"#), None).as_deref(), Some("320k"));
    assert_eq!(extract_quality_label(&json(r#"{"quality":"","rate":"192"}"#), None).as_deref(), Some("192k"));
    assert_eq!(extract_quality_label(&json(r#"{}"#), Some(1000000)).as_deref(), Some("Lossless"));
    assert_eq!(extract_quality_label(&json(r#"{}"#), None), None);
}

#[test]
fn song_items_of_script_answers() {
    assert_eq!(extract_song_items(&json(r#"[1,2]"#)).len(), 2);
    assert_eq!(extract_song_items(&json(r#"{"data":[1,2,3]}"#)).len(), 3);
    assert_eq!(extract_song_items(&json(r#"{"result":{"list":[1]}}"#)).len(), 1);
    assert_eq!(extract_song_items(&json(r#"{"data":{"songs":[1,2]}}"#)).len(), 2);
    assert_eq!(extract_song_items(&json(r#"{"other":[1]}"#)).len(), 0);
}

#[test]
fn script_results_name_source_and_platform() {
    let answer = json(
        r#"{"data":[
            {"id":"1","name":"Song","singer":"Ann","album":"Al","duration":215000,"pic":"//c/1.jpg"},
            {"id":"2","title":""},
            {"mid":"3","songname":"Other","artists":[{"name":"B"},{"name":"C"}],"dt":"180"}
        ]}"#,
    );
    let items = extract_song_items(&answer);
    let goods = vec![None, None, Some(128000)];
    let results = script_search_results(items, &goods, "LX", "wy");
    assert_eq!(results.len(), 2);
    assert_eq!(results[0].source, "LX-wy");
    assert_eq!(results[0].artist, "Ann");
    assert_eq!(results[0].cover_url.as_deref(), Some("https://c/1.jpg"));
    assert_eq!(
        length(&results[0].duration),
        Some(("215000".to_string(), TimeUnit::MillisecondsAbove10000))
    );
    assert_eq!(results[1].id, "3");
    assert_eq!(results[1].artist, "B, C");
    assert_eq!(results[1].quality.as_deref(), Some("128k"));
}

#[test]
fn kuwo_charts_and_lists() {
    let charts = json(
        r#"{"child":[{"child":[{"sourceid":"93","name":"飙升榜","pic":"http://p/1.jpg"},
                               {"id":"","name":"skip"}]},
                     {"child":[{"id":"17","disname":"新歌榜"}]}]}"#,
    );
    let rankings = kuwo_rankings_from_json(&charts, 3, "小蜗");
    assert_eq!(rankings.len(), 2);
    assert_eq!((rankings[0].id.as_str(), rankings[0].name.as_str()), ("93", "飙升榜"));
    assert_eq!(rankings[0].cover.as_deref(), Some("https://p/1.jpg"));
    assert_eq!((rankings[1].id.as_str(), rankings[1].name.as_str()), ("17", "新歌榜"));
    assert_eq!(rankings[1].source_id, 3);

    let list = json(
        r#"{"musiclist":[{"id":"MUSIC_5","name":"A","artist":"X","albumid":"9","duration":"200"},
                         {"rid":"6","title":""}]}"#,
    );
    let items = kuwo_song_list(&list, false);
    let songs = kuwo_songs_from_items(items, 3);
    assert_eq!(songs.len(), 1);
    assert_eq!(songs[0].id, "5");
    assert_eq!(songs[0].album_id.as_deref(), Some("9"));
    assert_eq!(songs[0].platform, "kw");
    assert!(xiaowo_song_detail_from_item(&json(r#"{"id":"1"}"#), 3).is_none());
    assert_eq!(kuwo_song_list(&json(r#"{"data":[1]}"#), true).len(), 1);
    assert_eq!(kuwo_song_list(&json(r#"{"data":[1]}"#), false).len(), 0);
}

#[test]
fn kuwo_playlist_pages() {
    let page = json(
        r#"{"data":{"data":[{"id":1,"name":"P1","img":"http://i/1.jpg"},{"id":1,"name":"dup"},
                             {"id":2,"title":"P2"}]}}"#,
    );
    let mut seen = Vec::new();
    let (lists, more) = kuwo_playlists_page(&page, &mut seen, 3, "小蜗").unwrap();
    assert!(!more);
    assert_eq!(lists.len(), 2);
    assert_eq!(lists[0].cover.as_deref(), Some("https://i/1.jpg"));
    assert_eq!(lists[1].name, "P2");
    assert_eq!(seen, vec!["1".to_string(), "2".to_string()]);
    assert!(kuwo_playlists_page(&json(r#"{"data":{}}"#), &mut seen, 3, "x").is_none());
}

#[test]
fn service_rankings_playlists_and_songs() {
    let r = rankings_from_json(
        &json(r#"{"data":[{"id":"a","name":"A","cover":" //c/a.jpg "},{"top_id":"b","title":"B"},{"id":"c"}]}"#),
        1,
        "LX",
    );
    assert_eq!(r.len(), 2);
    assert_eq!(r[0].cover.as_deref(), Some("https://c/a.jpg"));
    assert_eq!((r[1].id.as_str(), r[1].name.as_str(), r[1].source_name.as_str()), ("b", "B", "LX"));

    let p = playlists_from_json(
        &json(r#"{"playlists":[{"playlist_id":"p","name":"P","count":12},{"id":"s","name":"S","song_count":"5"},{"id":"q","title":"Q","total":7}]}"#),
        1,
        "LX",
    );
    assert_eq!(p.len(), 3);
    assert_eq!(p[0].song_count, Some(12));
    assert_eq!(p[1].song_count, None);
    assert_eq!(p[2].song_count, Some(7));

    let s = catalog_songs_from_json(
        &json(r#"{"songs":[{"rid":"r1","name":"S","singer":"X","duration":180000},{"id":"","name":"n"}]}"#),
        true,
        1,
        "kw",
    );
    assert_eq!(s.len(), 1);
    assert_eq!(s[0].id, "r1");
    assert_eq!(length(&s[0].duration), Some(("180000".to_string(), TimeUnit::Milliseconds)));
    let none = catalog_songs_from_json(&json(r#"{"songs":[{"rid":"r1","name":"S"}]}"#), false, 1, "kw");
    assert!(none.is_empty());
}

#[test]
fn hot_keywords_first_ten() {
    let mut items = Vec::new();
    for i in 0..12 {
        items.push(format!("{{\"keyword\":\"k{i}\"}}"));
    }
    items.insert(1, "{\"name\":\"\"}".to_string());
    let doc = format!("{{\"hots\":[{}]}}", items.join(","));
    let words = hot_keywords_from_json(&json(&doc));
    assert_eq!(words.len(), 10);
    assert_eq!(words[0], "k0");
    assert_eq!(words[9], "k9");
}

#[test]
fn endpoints_covers_and_platforms() {
    assert_eq!(api_endpoint("https://api.x//", "/search"), "https://api.x/search");
    assert_eq!(api_endpoint("https://api.x", "/hot"), "https://api.x/hot");
    assert_eq!(first_platform(&vec![]), "kw");
    assert_eq!(first_platform(&vec!["wy".to_string(), "kw".to_string()]), "wy");
    assert_eq!(extract_cover_url(&json(r#"{"cover":"","pic":"http://a/b.jpg"}"#)).as_deref(), Some("https://a/b.jpg"));
    assert_eq!(extract_cover_url(&json(r#"{"ALBUM_PIC":"//a/c.jpg"}"#)).as_deref(), Some("https://a/c.jpg"));
    assert_eq!(extract_cover_url(&json(r#"{"cover":"   "}"#)), None);
}

#[test]
fn script_search_requests_go_platform_by_platform() {
    assert_eq!(script_first_request(0), ScriptRequest::Finished);
    let first = script_first_request(2);
    assert_eq!(first, ScriptRequest::Get(0));
    assert_eq!(script_next_request(2, first, true), ScriptRequest::Finished);
    let post = script_next_request(2, first, false);
    assert_eq!(post, ScriptRequest::Post(0));
    assert_eq!(script_next_request(2, post, true), ScriptRequest::Finished);
    let next = script_next_request(2, post, false);
    assert_eq!(next, ScriptRequest::Get(1));
    assert_eq!(script_next_request(2, ScriptRequest::Post(1), false), ScriptRequest::Finished);
}
