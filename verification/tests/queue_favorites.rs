use miku_tunes::favorites::{
    favorite_from_playlist, favorite_from_song_detail, favorite_from_song_result,
    favorite_from_track, same_song_favorite, toggle_favorite_playlist, toggle_favorite_song,
    FavoriteSong, FavoritesData,
};
use miku_tunes::player::{
    empty_link_message, next_track, prev_track, PlayMode, PlayQueue, QueueStep, QueueTrack,
    TrackStart,
};
use miku_tunes::results::{
    dedupe_search_results, merge_search_results, quality_rank, search_result_key,
    sort_search_results, ResultOrder,
};
use miku_tunes::songs::{PlaylistInfo, SongDetail, SongLength, SongResult, TimeUnit};

fn result(id: &str, title: &str, artist: &str, platform: &str, source_id: usize, score: i32) -> SongResult {
    SongResult {
        id: id.to_string(),
        title: title.to_string(),
        artist: artist.to_string(),
        source: "src".to_string(),
        source_id,
        platform: platform.to_string(),
        album: None,
        cover_url: Some(format!("http://c/{id}.jpg")),
        duration: Some(SongLength { value: "200".to_string(), unit: TimeUnit::Seconds }),
        quality: Some("320k".to_string()),
        score,
    }
}

fn titles(v: &[SongResult]) -> Vec<String> {
    v.iter().map(|r| r.title.clone()).collect()
}

fn favorite(id: &str, title: &str, artist: &str, platform: &str) -> FavoriteSong {
    FavoriteSong {
        id: id.to_string(),
        title: title.to_string(),
        artist: artist.to_string(),
        album: None,
        cover_url: None,
        duration: None,
        source_id: 0,
        source: "s".to_string(),
        platform: platform.to_string(),
    }
}

#[test]
fn next_and_previous_steps() {
    assert_eq!(next_track(3, Some(0), PlayMode::Sequential, 0), QueueStep::Play(1));
    assert_eq!(next_track(3, Some(2), PlayMode::Sequential, 0), QueueStep::Stop);
    assert_eq!(next_track(3, Some(1), PlayMode::Shuffle, 7), QueueStep::Play(2));
    assert_eq!(next_track(3, Some(1), PlayMode::Shuffle, 0), QueueStep::Play(0));
    assert_eq!(next_track(3, Some(1), PlayMode::RepeatOne, 0), QueueStep::Play(1));
    assert_eq!(next_track(0, Some(0), PlayMode::Sequential, 0), QueueStep::Nothing);
    assert_eq!(next_track(3, None, PlayMode::Sequential, 0), QueueStep::Nothing);
    assert_eq!(prev_track(3, Some(2)), QueueStep::Play(1));
    assert_eq!(prev_track(3, Some(0)), QueueStep::Play(0));
    assert_eq!(prev_track(3, Some(9)), QueueStep::Nothing);
    assert_eq!(prev_track(0, Some(0)), QueueStep::Nothing);
}

#[test]
fn queue_starts_tracks_by_what_they_know() {
    let mut q = PlayQueue::new();
    let first = QueueTrack::from_search_result(&result("1", "A", "X", "kw", 0, 0));
    let mut linked = QueueTrack::from_search_result(&result("", "B", "Y", "kw", 0, 0));
    linked.url = Some("http://a/b.mp3".to_string());
    let bare = QueueTrack::from_search_result(&result("", "C", "Z", "kw", 0, 0));
    assert!(q.append_tracks(vec![first, linked, bare]));
    assert_eq!(q.current, Some(0));
    assert!(matches!(q.play_track_at(0), TrackStart::Resolve));
    match q.play_track_at(1) {
        TrackStart::PlayUrl(url, fetch) => {
            assert_eq!(url, "http://a/b.mp3");
            assert!(!fetch);
        }
        _ => panic!("expected a link"),
    }
    assert!(matches!(q.play_track_at(2), TrackStart::Idle));
    assert!(matches!(q.play_track_at(5), TrackStart::Missing));
    assert_eq!(q.current, Some(2));
    assert!(!q.append_tracks(vec![]));
}

#[test]
fn replacing_the_queue_needs_a_valid_index() {
    let mut q = PlayQueue::new();
    let songs = vec![result("1", "A", "X", "kw", 0, 0), result("2", "B", "Y", "kw", 0, 0)];
    let tracks: Vec<QueueTrack> = songs.iter().map(QueueTrack::from_search_result).collect();
    assert!(!q.replace_queue(Vec::new(), 0));
    let more: Vec<QueueTrack> = songs.iter().map(QueueTrack::from_search_result).collect();
    assert!(!q.replace_queue(more, 2));
    assert!(q.tracks.is_empty());
    assert!(q.replace_queue(tracks, 1));
    assert_eq!(q.tracks.len(), 2);
}

#[test]
fn links_and_details_apply_to_the_current_song_only() {
    let mut q = PlayQueue::new();
    q.append_tracks(vec![
        QueueTrack::from_search_result(&result("1", "A", "X", "kw", 0, 0)),
        QueueTrack::from_search_result(&result("2", "B", "Y", "wy", 0, 0)),
    ]);
    assert!(!q.apply_song_url(0, "   ".to_string(), "320k".to_string(), "mp3".to_string()));
    assert!(q.tracks[0].url.is_none());
    assert!(q.apply_song_url(0, "http://u/1.mp3".to_string(), "320k".to_string(), "mp3".to_string()));
    assert_eq!(q.tracks[0].url.as_deref(), Some("http://u/1.mp3"));
    assert_eq!(q.tracks[0].format.as_deref(), Some("mp3"));
    assert!(q.current_track_matches(0, "1", "kw"));
    assert!(!q.current_track_matches(0, "1", "wy"));
    assert!(!q.current_track_matches(1, "2", "wy"));
    assert!(!q.apply_song_info(1, "2", "wy", Some("http://late".to_string())));
    assert_eq!(q.tracks[1].cover_url.as_deref(), Some("http://c/2.jpg"));
    assert!(q.apply_song_info(0, "1", "kw", None));
    assert_eq!(q.tracks[0].cover_url, None);
    assert_eq!(empty_link_message(), "播放链接为空");
}

#[test]
fn result_keys_and_merging() {
    let a = result("1", "A", "X", "kw", 2, 0);
    assert_eq!(search_result_key(&a), "2::kw::1");
    let b = result("  ", "B", "Y", "wy", 2, 0);
    assert_eq!(search_result_key(&b), "fallback::B::Y::wy");
    let mut current = vec![a.copied()];
    merge_search_results(
        &mut current,
        vec![result("1", "A again", "X", "kw", 2, 0), b.copied(), b.copied(), result("1", "A", "X", "kw", 3, 0)],
    );
    assert_eq!(titles(&current), vec!["A", "B", "A"]);
    let deduped = dedupe_search_results(vec![a.copied(), a.copied(), b.copied()]);
    assert_eq!(titles(&deduped), vec!["A", "B"]);
}

#[test]
fn merging_a_batch_twice_lists_it_once() {
    let batch = || vec![result("1", "A", "X", "kw", 2, 0), result("", "B", "Y", "wy", 2, 0)];
    let mut current = vec![result("9", "Z", "Q", "kg", 1, 0)];
    merge_search_results(&mut current, batch());
    assert_eq!(titles(&current), vec!["Z", "A", "B"]);
    merge_search_results(&mut current, batch());
    assert_eq!(titles(&current), vec!["Z", "A", "B"]);
}

#[test]
fn sort_orders() {
    let list = || {
        vec![
            result("1", "b", "x", "wy", 1, 5),
            result("2", "a", "y", "kw", 2, 1),
            result("3", "a", "x", "zz", 0, 5),
            result("4", "c", "z", "kg", 1, 1),
        ]
    };
    assert_eq!(titles(&sort_search_results(list(), ResultOrder::Source)), vec!["b", "a", "a", "c"]);
    let q: Vec<String> = sort_search_results(list(), ResultOrder::Quality).iter().map(|r| r.id.clone()).collect();
    assert_eq!(q, vec!["4", "2", "1", "3"]);
    let m: Vec<String> = sort_search_results(list(), ResultOrder::Match).iter().map(|r| r.id.clone()).collect();
    assert_eq!(m, vec!["3", "1", "4", "2"]);
    let t: Vec<String> = sort_search_results(list(), ResultOrder::Title).iter().map(|r| r.id.clone()).collect();
    assert_eq!(t, vec!["3", "2", "1", "4"]);
    assert_eq!(quality_rank(&result("1", "a", "x", "tx", 0, 0)), 3);
    assert_eq!(quality_rank(&result("1", "a", "x", "mg", 0, 0)), 2);
    assert_eq!(quality_rank(&result("1", "a", "x", "bilibili", 0, 0)), 1);
}

#[test]
fn favorites_toggle_in_and_out() {
    let mut data = FavoritesData { songs: Vec::new(), playlists: Vec::new() };
    toggle_favorite_song(&mut data, favorite("1", "A", "X", "kw"));
    toggle_favorite_song(&mut data, favorite("2", "B", "Y", "kw"));
    let ids: Vec<&str> = data.songs.iter().map(|s| s.id.as_str()).collect();
    assert_eq!(ids, vec!["2", "1"]);
    toggle_favorite_song(&mut data, favorite("1", "other title", "Z", "kw"));
    let ids: Vec<&str> = data.songs.iter().map(|s| s.id.as_str()).collect();
    assert_eq!(ids, vec!["2"]);
    toggle_favorite_song(&mut data, favorite("", "T", "A", "kw"));
    toggle_favorite_song(&mut data, favorite("", "T", "A", "wy"));
    assert_eq!(data.songs.len(), 1);
}

#[test]
fn favorite_toggled_twice_is_gone_again() {
    let mut data = FavoritesData { songs: vec![favorite("9", "N", "M", "kg")], playlists: Vec::new() };
    toggle_favorite_song(&mut data, favorite("5", "A", "X", "wy"));
    toggle_favorite_song(&mut data, favorite("5", "A", "X", "wy"));
    let ids: Vec<&str> = data.songs.iter().map(|s| s.id.as_str()).collect();
    assert_eq!(ids, vec!["9"]);
}

#[test]
fn same_song_rules() {
    assert!(same_song_favorite(&favorite("1", "A", "X", "kw"), &favorite("1", "B", "Y", "kw")));
    assert!(!same_song_favorite(&favorite("1", "A", "X", "kw"), &favorite("1", "A", "X", "wy")));
    assert!(!same_song_favorite(&favorite("", "A", "X", "kw"), &favorite("1", "A", "X", "kw")));
    assert!(same_song_favorite(&favorite("", "A", "X", "kw"), &favorite("", "A", "X", "wy")));
}

#[test]
fn favorite_playlists_toggle_by_id_and_source() {
    let list = PlaylistInfo {
        id: "p1".to_string(),
        name: "P".to_string(),
        cover: None,
        song_count: Some(3),
        source_id: 1,
        source_name: "小蜗".to_string(),
    };
    let mut data = FavoritesData { songs: Vec::new(), playlists: Vec::new() };
    toggle_favorite_playlist(&mut data, favorite_from_playlist(&list, Some("https://x".to_string())));
    assert_eq!(data.playlists.len(), 1);
    assert_eq!(data.playlists[0].external_url.as_deref(), Some("https://x"));
    assert_eq!(data.playlists[0].song_count, Some(3));
    let mut other = favorite_from_playlist(&list, None);
    other.source_name = "other".to_string();
    toggle_favorite_playlist(&mut data, other);
    assert_eq!(data.playlists.len(), 2);
    toggle_favorite_playlist(&mut data, favorite_from_playlist(&list, None));
    assert_eq!(data.playlists.len(), 1);
    assert_eq!(data.playlists[0].source_name, "other");
}

#[test]
fn favorites_made_from_results_details_and_tracks() {
    let r = result("7", "T", "A", "kw", 4, 0);
    let f = favorite_from_song_result(&r);
    assert_eq!((f.id.as_str(), f.source.as_str(), f.platform.as_str(), f.source_id), ("7", "src", "kw", 4));
    assert_eq!(f.duration.as_ref().map(|d| d.value.as_str()), Some("200"));
    let d = SongDetail {
        id: "8".to_string(),
        title: "D".to_string(),
        artist: "B".to_string(),
        album: Some("Al".to_string()),
        album_id: None,
        cover_url: None,
        duration: None,
        source_id: 2,
        platform: "wy".to_string(),
    };
    let f = favorite_from_song_detail(&d);
    assert_eq!((f.source.as_str(), f.platform.as_str()), ("wy", "wy"));
    assert_eq!(f.album.as_deref(), Some("Al"));
    let t = QueueTrack::from_song_detail(&d);
    let f = favorite_from_track(&t);
    assert_eq!((f.id.as_str(), f.title.as_str(), f.source_id), ("8", "D", 2));
}
