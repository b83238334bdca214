//! What the services say of one song: its details and lyrics, and the link
//! it plays from.
use vstd::prelude::*;
use crate::json::{get, get_member, json_text, json_value_to_string, Json};
use crate::lyrics::{extract_kuwo_lyrics_from_json, kuwo_lyrics, lyrics_view, KuwoLyrics, LyricsView};
use crate::markup::{lit, normalize_cover_url, normalized_cover};
use crate::catalog::{first_string, first_string_of, or_empty, or_empty_string};
use crate::files::{audio_extension, sanitize_audio_extension};
use crate::links::{
    audio_format, decimal, decimal_chars, hex_digits, infer_audio_format, stable_hash, str_of, str_of_exec,
    text_hash, SongUrlView,
};
use crate::searchers::{
    netease_artist, netease_artist_exec, nonempty_text, nonempty_text_exec, number_of,
    number_of_exec, some_text, some_text_exec, text_of, text_of_exec, three_keys,
};
use crate::share::{first_present, first_present_of};
use crate::songs::{SongResult, SongResultView, SongUrlResult, length_in, length_view, make_length, opt_view, SongLength, SongLengthView, TimeUnit};
use crate::text::{chars_of, contains, contains_exec, replace_all, starts_with, starts_with_exec, string_of, trim, trim_exec, views};

verus! {

/// The details of one song, with its lyrics.
pub struct SongInfoResult {
    pub id: String,
    pub title: String,
    pub artist: String,
    pub album: Option<String>,
    pub cover_url: Option<String>,
    pub lyrics: Option<String>,
    pub duration: Option<SongLength>,
    pub platform: String,
}

pub struct SongInfoView {
    pub id: Seq<char>,
    pub title: Seq<char>,
    pub artist: Seq<char>,
    pub album: Option<Seq<char>>,
    pub cover_url: Option<Seq<char>>,
    pub lyrics: Option<Seq<char>>,
    pub duration: Option<SongLengthView>,
    pub platform: Seq<char>,
}

impl View for SongInfoResult {
    type V = SongInfoView;

    open spec fn view(&self) -> SongInfoView {
        SongInfoView {
            id: self.id@,
            title: self.title@,
            artist: self.artist@,
            album: opt_view(self.album),
            cover_url: opt_view(self.cover_url),
            lyrics: opt_view(self.lyrics),
            duration: length_view(self.duration),
            platform: self.platform@,
        }
    }
}

/// Details that may be absent, by their view.
pub open spec fn info_view(o: Option<SongInfoResult>) -> Option<SongInfoView> {
    match o {
        Some(i) => Some(i@),
        None => None,
    }
}

/// A text that is absent or only white space.
pub open spec fn blank(o: Option<Seq<char>>) -> bool {
    match o {
        Some(t) => trim(t).len() == 0,
        None => true,
    }
}

fn blank_exec(o: &Option<String>) -> (r: bool)
    ensures
        r == blank(opt_view(*o)),
{
    match o {
        Some(t) => trim_exec(&chars_of(t.as_str())).len() == 0,
        None => true,
    }
}

/// Details of a Kuwo song are asked for as well: the song is a Kuwo one and
/// the details found have no lyrics (or there are none).
pub open spec fn needs_kuwo_backfill(platform: Seq<char>, result: Option<SongInfoView>) -> bool {
    platform == "kw"@ && match result {
        Some(info) => blank(info.lyrics),
        None => true,
    }
}

/// Whether the details of a Kuwo song are asked for as well (see
/// `needs_kuwo_backfill`).
pub fn kuwo_backfill_needed(platform: &str, result: &Option<SongInfoResult>) -> (r: bool)
    ensures
        r == needs_kuwo_backfill(platform@, info_view(*result)),
{
    let p = chars_of(platform);
    let kw = lit("kw");
    if !crate::text::seq_eq(&p, &kw) {
        return false;
    }
    match result {
        Some(info) => blank_exec(&info.lyrics),
        None => true,
    }
}

/// The text `a` when it is not blank, else `b`.
pub open spec fn unless_blank(a: Option<Seq<char>>, b: Option<Seq<char>>) -> Option<Seq<char>> {
    if blank(a) {
        b
    } else {
        a
    }
}

/// The details found, completed from Kuwo's: lyrics, cover and album that
/// are blank come from Kuwo; with no details found, Kuwo's as they are.
pub open spec fn backfilled(result: Option<SongInfoView>, kuwo: SongInfoView) -> SongInfoView {
    match result {
        Some(info) => SongInfoView {
            lyrics: unless_blank(info.lyrics, kuwo.lyrics),
            cover_url: unless_blank(info.cover_url, kuwo.cover_url),
            album: unless_blank(info.album, kuwo.album),
            ..info
        },
        None => kuwo,
    }
}

/// Completes the details found from Kuwo's (see `backfilled`).
pub fn backfill_from_kuwo(result: Option<SongInfoResult>, kuwo: SongInfoResult) -> (r:
    SongInfoResult)
    ensures
        r@ == backfilled(info_view(result), kuwo@),
{
    match result {
        Some(mut info) => {
            if blank_exec(&info.lyrics) {
                info.lyrics = kuwo.lyrics;
            }
            if blank_exec(&info.cover_url) {
                info.cover_url = kuwo.cover_url;
            }
            if blank_exec(&info.album) {
                info.album = kuwo.album;
            }
            info
        },
        None => kuwo,
    }
}

/// `o`'s value, else `v`.
pub open spec fn or_self(o: Option<Json>, v: Json) -> Json {
    match o {
        Some(x) => x,
        None => v,
    }
}

/// Where a Kuwo details answer keeps the song: its `data` (or the answer
/// itself), then the first of its song members (or that value itself).
pub open spec fn kuwo_data(json: Json) -> Json {
    or_self(get(json, "data"@), json)
}

pub open spec fn kuwo_song_keys() -> Seq<Seq<char>> {
    seq!["songinfo"@, "songInfo"@, "musicInfo"@, "song"@]
}

pub open spec fn kuwo_song_record(json: Json) -> Json {
    or_self(first_present(kuwo_data(json), kuwo_song_keys()), kuwo_data(json))
}

pub open spec fn kuwo_title_keys() -> Seq<Seq<char>> {
    seq!["songName"@, "songname"@, "name"@, "title"@]
}

pub open spec fn kuwo_cover_keys() -> Seq<Seq<char>> {
    seq!["pic"@, "pic120"@, "pic300"@, "albumPic"@, "albumpic"@, "cover"@, "image"@]
}

/// The cover a value gives: its text made secure, unless that is empty.
pub open spec fn cover_from(o: Option<Json>) -> Option<Seq<char>> {
    match o {
        Some(x) => if normalized_cover(json_text(x)).len() > 0 {
            Some(normalized_cover(json_text(x)))
        } else {
            None
        },
        None => None,
    }
}

/// The details of a Kuwo song from Kuwo's details answer: its title (the
/// song's id when there is none), artist, album and cover; its lyrics are
/// read apart (`kuwo_info_lyrics`).
pub open spec fn kuwo_info(json: Json, song_id: Seq<char>) -> SongInfoView {
    let song = kuwo_song_record(json);
    let title = text_of(first_present(song, kuwo_title_keys()));
    SongInfoView {
        id: song_id,
        title: if title.len() == 0 {
            song_id
        } else {
            title
        },
        artist: text_of(first_present(song, seq!["artist"@, "singer"@, "artistName"@])),
        album: nonempty_text(first_present(song, seq!["album"@, "albumName"@, "albumname"@])),
        cover_url: cover_from(first_present(song, kuwo_cover_keys())),
        lyrics: None,
        duration: None,
        platform: "kw"@,
    }
}

/// The lyrics of Kuwo's details answer: those of its data, else those of the
/// song record.
pub open spec fn kuwo_info_lyrics(json: Json) -> Option<LyricsView> {
    match kuwo_lyrics(kuwo_data(json)) {
        Some(l) => Some(l),
        None => kuwo_lyrics(kuwo_song_record(json)),
    }
}

fn cover_from_exec(o: Option<&Json>) -> (r: Option<String>)
    ensures
        opt_view(r) == cover_from(
            match o {
                Some(x) => Some(*x),
                None => None,
            },
        ),
{
    match o {
        Some(x) => {
            let c = normalize_cover_url(json_value_to_string(x));
            if chars_of(c.as_str()).len() > 0 {
                Some(c)
            } else {
                None
            }
        },
        None => None,
    }
}

fn kuwo_cover_keys_exec() -> (r: Vec<Vec<char>>)
    ensures
        views(r@) == kuwo_cover_keys(),
{
    let mut r: Vec<Vec<char>> = Vec::new();
    r.push(chars_of("pic"));
    r.push(chars_of("pic120"));
    r.push(chars_of("pic300"));
    r.push(chars_of("albumPic"));
    r.push(chars_of("albumpic"));
    r.push(chars_of("cover"));
    r.push(chars_of("image"));
    assert(views(r@) =~= kuwo_cover_keys());
    r
}

/// The details and the lyrics Kuwo's details answer gives for a song (see
/// `kuwo_info` and `kuwo_info_lyrics`).  Where no cover or no lyrics come
/// out, the application asks Kuwo's cover and lyric services.
pub fn xiaowo_song_info(json: &Json, song_id: &str) -> (r: (SongInfoResult, Option<KuwoLyrics>))
    ensures
        r.0@ == kuwo_info(*json, song_id@),
        lyrics_view(r.1) == kuwo_info_lyrics(*json),
{
    let data: &Json = match get_member(json, "data") {
        Some(d) => d,
        None => json,
    };
    let song_keys = crate::searchers::four_keys("songinfo", "songInfo", "musicInfo", "song");
    let song: &Json = match first_present_of(data, &song_keys) {
        Some(s) => s,
        None => data,
    };
    let title_keys = crate::searchers::four_keys("songName", "songname", "name", "title");
    let title = text_of_exec(first_present_of(song, &title_keys));
    let title = if chars_of(title.as_str()).len() == 0 {
        song_id.to_string()
    } else {
        title
    };
    let artist_keys = three_keys("artist", "singer", "artistName");
    let album_keys = three_keys("album", "albumName", "albumname");
    let cover_keys = kuwo_cover_keys_exec();
    let info = SongInfoResult {
        id: song_id.to_string(),
        title,
        artist: text_of_exec(first_present_of(song, &artist_keys)),
        album: nonempty_text_exec(first_present_of(song, &album_keys)),
        cover_url: cover_from_exec(first_present_of(song, &cover_keys)),
        lyrics: None,
        duration: None,
        platform: string_of(&lit("kw")),
    };
    let lyrics = match extract_kuwo_lyrics_from_json(data) {
        Some(l) => Some(l),
        None => extract_kuwo_lyrics_from_json(song),
    };
    (info, lyrics)
}

/// The cover Kuwo's picture service names: its `url`, else `pic`, else the
/// `url` of its `data`, made secure, unless that is empty.
pub open spec fn kuwo_cover(json: Json) -> Option<Seq<char>> {
    match first_present(json, seq!["url"@, "pic"@]) {
        Some(x) => cover_from(Some(x)),
        None => match get(json, "data"@) {
            Some(d) => cover_from(get(d, "url"@)),
            None => None,
        },
    }
}

/// The cover Kuwo's picture service names (see `kuwo_cover`).
pub fn kuwo_cover_from_json(json: &Json) -> (r: Option<String>)
    ensures
        opt_view(r) == kuwo_cover(*json),
{
    let keys = crate::searchers::two_keys("url", "pic");
    match first_present_of(json, &keys) {
        Some(x) => cover_from_exec(Some(x)),
        None => match get_member(json, "data") {
            Some(d) => cover_from_exec(get_member(d, "url")),
            None => None,
        },
    }
}

/// The details of a Kugou song from Kugou's play-information answer; its
/// lyrics are fetched from the link `kugou_lyric_link` names.
pub open spec fn kugou_info(json: Json, song_id: Seq<char>) -> SongInfoView {
    let cover = text_of(first_present(json, seq!["imgUrl"@, "cover"@]));
    SongInfoView {
        id: song_id,
        title: text_of(first_present(json, seq!["songName"@, "name"@])),
        artist: text_of(first_present(json, seq!["singerName"@, "singer"@, "author"@])),
        album: some_text(get(json, "album_name"@)),
        cover_url: if cover.len() > 0 {
            Some(cover)
        } else {
            None
        },
        lyrics: None,
        duration: None,
        platform: "kg"@,
    }
}

/// The link of a Kugou song's lyrics: its non-empty `lyrics` string.
pub open spec fn kugou_lyric_link(json: Json) -> Option<Seq<char>> {
    match str_of(get(json, "lyrics"@)) {
        Some(u) => if u.len() > 0 {
            Some(u)
        } else {
            None
        },
        None => None,
    }
}

/// The details of a Kugou song, and the link of its lyrics (see
/// `kugou_info` and `kugou_lyric_link`); the application fills the lyrics
/// with the text that link serves.
pub fn kugou_song_info(json: &Json, song_id: &str) -> (r: (SongInfoResult, Option<String>))
    ensures
        r.0@ == kugou_info(*json, song_id@),
        opt_view(r.1) == kugou_lyric_link(*json),
{
    let cover = text_of_exec(first_present_of(json, &crate::searchers::two_keys("imgUrl", "cover")));
    let info = SongInfoResult {
        id: song_id.to_string(),
        title: text_of_exec(first_present_of(json, &crate::searchers::two_keys("songName", "name"))),
        artist: text_of_exec(
            first_present_of(json, &three_keys("singerName", "singer", "author")),
        ),
        album: some_text_exec(get_member(json, "album_name")),
        cover_url: if chars_of(cover.as_str()).len() > 0 {
            Some(cover)
        } else {
            None
        },
        lyrics: None,
        duration: None,
        platform: string_of(&lit("kg")),
    };
    let link = match str_of_exec(get_member(json, "lyrics")) {
        Some(u) => if chars_of(u).len() > 0 {
            Some(u.to_string())
        } else {
            None
        },
        None => None,
    };
    (info, link)
}

/// The lyrics of Netease's lyric answer: the `lyric` string of its `lrc`.
pub open spec fn netease_lyric(json: Json) -> Option<Seq<char>> {
    match get(json, "lrc"@) {
        Some(l) => str_of(get(l, "lyric"@)),
        None => None,
    }
}

/// The first song of Netease's details answer.
pub open spec fn netease_detail_song(detail: Option<Json>) -> Option<Json> {
    match detail {
        Some(d) => match get(d, "songs"@) {
            Some(Json::Array(a)) => if a@.len() > 0 {
                Some(a@[0])
            } else {
                None
            },
            _ => None,
        },
        None => None,
    }
}

/// The details of a Netease song from its lyric answer and, when that
/// request came back, its details answer: title, artists joined by ` / `
/// and album cover of the first song there (all empty without one).
pub open spec fn netease_info(song_id: Seq<char>, lyric_json: Json, detail: Option<Json>) -> SongInfoView {
    let (title, artist, cover) = match netease_detail_song(detail) {
        Some(s) => (
            text_of(get(s, "name"@)),
            netease_artist(s),
            match get(s, "album"@) {
                Some(al) => some_text(first_present(al, seq!["picUrl"@, "picurl"@])),
                None => None,
            },
        ),
        None => (Seq::empty(), Seq::empty(), None),
    };
    SongInfoView {
        id: song_id,
        title,
        artist,
        album: None,
        cover_url: cover,
        lyrics: netease_lyric(lyric_json),
        duration: None,
        platform: "wy"@,
    }
}

fn netease_detail_song_exec(detail: Option<&Json>) -> (r: Option<&Json>)
    ensures
        match netease_detail_song(
            match detail {
                Some(d) => Some(*d),
                None => None,
            },
        ) {
            Some(s) => r matches Some(x) && *x == s,
            None => r is None,
        },
{
    match detail {
        Some(d) => match get_member(d, "songs") {
            Some(Json::Array(a)) => if a.len() > 0 {
                Some(&a[0])
            } else {
                None
            },
            _ => None,
        },
        None => None,
    }
}

/// The details of a Netease song (see `netease_info`).
pub fn netease_song_info(song_id: &str, lyric_json: &Json, detail: Option<&Json>) -> (r:
    SongInfoResult)
    ensures
        r@ == netease_info(
            song_id@,
            *lyric_json,
            match detail {
                Some(d) => Some(*d),
                None => None,
            },
        ),
{
    let (title, artist, cover) = match netease_detail_song_exec(detail) {
        Some(s) => {
            let cover = match get_member(s, "album") {
                Some(al) => some_text_exec(
                    first_present_of(al, &crate::searchers::two_keys("picUrl", "picurl")),
                ),
                None => None,
            };
            (
                json_value_to_string_of(get_member(s, "name")),
                string_of(&netease_artist_exec(s)),
                cover,
            )
        },
        None => (String::new(), String::new(), None),
    };
    let lyrics = match get_member(lyric_json, "lrc") {
        Some(l) => match str_of_exec(get_member(l, "lyric")) {
            Some(t) => Some(t.to_string()),
            None => None,
        },
        None => None,
    };
    SongInfoResult {
        id: song_id.to_string(),
        title,
        artist,
        album: None,
        cover_url: cover,
        lyrics,
        duration: None,
        platform: string_of(&lit("wy")),
    }
}

fn json_value_to_string_of(o: Option<&Json>) -> (r: String)
    ensures
        r@ == text_of(
            match o {
                Some(x) => Some(*x),
                None => None,
            },
        ),
{
    text_of_exec(o)
}

/// The details a song script's web service gives under `data` (or
/// `result`), when they name a title: the song's strings as they are, its
/// lyrics unless empty, and its length (milliseconds above 10000, seconds
/// otherwise).
pub open spec fn script_info(json: Json, song_id: Seq<char>, platform: Seq<char>) -> Option<
    SongInfoView,
> {
    match first_present(json, seq!["data"@, "result"@]) {
        Some(d) => {
            let title = or_empty(first_string(d, seq!["name"@, "title"@]));
            if title.len() == 0 {
                None
            } else {
                Some(
                    SongInfoView {
                        id: song_id,
                        title,
                        artist: or_empty(first_string(d, seq!["singer"@, "artist"@, "author"@])),
                        album: first_string(d, seq!["album"@, "album_name"@]),
                        cover_url: first_string(d, seq!["cover"@, "pic"@, "image"@]),
                        lyrics: match first_string(d, seq!["lyrics"@, "lrc"@, "lyric"@]) {
                            Some(l) => if l.len() > 0 {
                                Some(l)
                            } else {
                                None
                            },
                            None => None,
                        },
                        duration: length_in(
                            number_of(first_present(d, seq!["duration"@, "dt"@])),
                            TimeUnit::MillisecondsAbove10000,
                        ),
                        platform,
                    },
                )
            }
        },
        None => None,
    }
}

/// The details a song script's web service gives (see `script_info`).
pub fn script_song_info(json: &Json, song_id: &str, platform: &str) -> (r: Option<SongInfoResult>)
    ensures
        info_view(r) == script_info(*json, song_id@, platform@),
{
    let d = match first_present_of(json, &crate::searchers::two_keys("data", "result")) {
        Some(d) => d,
        None => {
            return None;
        },
    };
    let title = or_empty_string(first_string_of(d, &crate::searchers::two_keys("name", "title")));
    if chars_of(title.as_str()).len() == 0 {
        return None;
    }
    let artist = or_empty_string(
        first_string_of(d, &three_keys("singer", "artist", "author")),
    );
    let lyrics = match first_string_of(d, &three_keys("lyrics", "lrc", "lyric")) {
        Some(l) => if chars_of(l.as_str()).len() > 0 {
            Some(l)
        } else {
            None
        },
        None => None,
    };
    let duration = make_length(
        number_of_exec(first_present_of(d, &crate::searchers::two_keys("duration", "dt"))),
        TimeUnit::MillisecondsAbove10000,
    );
    Some(
        SongInfoResult {
            id: song_id.to_string(),
            title,
            artist,
            album: first_string_of(d, &crate::searchers::two_keys("album", "album_name")),
            cover_url: first_string_of(d, &three_keys("cover", "pic", "image")),
            lyrics,
            duration,
            platform: platform.to_string(),
        },
    )
}

/// A playable link with its quality and format.
pub open spec fn link(url: Seq<char>, quality: Seq<char>, format: Seq<char>) -> SongUrlView {
    SongUrlView { url, quality, format }
}

/// The link the public LX Music service gives for a Kuwo song: its
/// non-empty `url` string, at 320k, in the format its ending names.
pub open spec fn lx_url(json: Json) -> Option<SongUrlView> {
    match str_of(get(json, "url"@)) {
        Some(u) => if u.len() > 0 {
            Some(link(u, "320k"@, audio_format(u, None)))
        } else {
            None
        },
        None => None,
    }
}

fn link_exec(url: String, quality: &str, format: String) -> (r: SongUrlResult)
    ensures
        r@ == link(url@, quality@, format@),
{
    SongUrlResult { url, quality: quality.to_string(), format }
}

/// The link the public LX Music service gives (see `lx_url`).
pub fn lx_song_url(json: &Json) -> (r: Option<SongUrlResult>)
    ensures
        url_view(r) == lx_url(*json),
{
    match str_of_exec(get_member(json, "url")) {
        Some(u) => if chars_of(u).len() > 0 {
            Some(link_exec(u.to_string(), "320k", infer_audio_format(u, None)))
        } else {
            None
        },
        None => None,
    }
}

/// A link that may be absent, by its view.
pub open spec fn url_view(o: Option<SongUrlResult>) -> Option<SongUrlView> {
    match o {
        Some(u) => Some(u@),
        None => None,
    }
}

/// The link Kuwo's mobile service gives: when its `code` is the number 200,
/// the `url` string of its `data` with every `http://` made `https://`,
/// unless that is empty, at 320k.
pub open spec fn kuwo_mobile_url(json: Json) -> Option<SongUrlView> {
    if number_of(get(json, "code"@)) != Some("200"@) {
        None
    } else {
        let u = replace_all(
            or_empty(
                match get(json, "data"@) {
                    Some(d) => str_of(get(d, "url"@)),
                    None => None,
                },
            ),
            "http://"@,
            "https://"@,
        );
        if u.len() == 0 {
            None
        } else {
            Some(link(u, "320k"@, audio_format(u, None)))
        }
    }
}

/// The link Kuwo's mobile service gives (see `kuwo_mobile_url`).
pub fn kuwo_mobile_song_url(json: &Json) -> (r: Option<SongUrlResult>)
    ensures
        url_view(r) == kuwo_mobile_url(*json),
{
    let code = number_of_exec(get_member(json, "code"));
    let ok = match &code {
        Some(c) => crate::text::seq_eq(&chars_of(c.as_str()), &lit("200")),
        None => false,
    };
    if !ok {
        return None;
    }
    let raw = match get_member(json, "data") {
        Some(d) => match str_of_exec(get_member(d, "url")) {
            Some(u) => chars_of(u),
            None => Vec::new(),
        },
        None => Vec::new(),
    };
    proof {
        reveal_strlit("http://");
    }
    let u = crate::text::replace_all_exec(&raw, &lit("http://"), &lit("https://"));
    if u.len() == 0 {
        return None;
    }
    let url = string_of(&u);
    let format = infer_audio_format(url.as_str(), None);
    Some(link_exec(url, "320k", format))
}

/// The link Kugou's tracker gives: its `url` (else `play_url`) string,
/// unless that is empty or `null`, as 320k MP3.
pub open spec fn kugou_url(json: Json) -> Option<SongUrlView> {
    let u = or_empty(str_of(first_present(json, seq!["url"@, "play_url"@])));
    if u.len() == 0 || u == "null"@ {
        None
    } else {
        Some(link(u, "320k"@, "mp3"@))
    }
}

/// The link Kugou's tracker gives (see `kugou_url`).
pub fn kugou_song_url(json: &Json) -> (r: Option<SongUrlResult>)
    ensures
        url_view(r) == kugou_url(*json),
{
    let u = match str_of_exec(first_present_of(json, &crate::searchers::two_keys("url", "play_url"))) {
        Some(t) => chars_of(t),
        None => Vec::new(),
    };
    if u.len() == 0 || crate::text::seq_eq(&u, &lit("null")) {
        return None;
    }
    Some(link_exec(string_of(&u), "320k", string_of(&lit("mp3"))))
}

/// The quality Netease's bit rate stands for.
pub open spec fn netease_link_quality(br: u64) -> Seq<char> {
    if br >= 320000 {
        "320k"@
    } else if br >= 128000 {
        "128k"@
    } else {
        "mp3"@
    }
}

/// The first record of Netease's link answer.
pub open spec fn netease_link_record(json: Json) -> Option<Json> {
    match get(json, "data"@) {
        Some(Json::Array(a)) => if a@.len() > 0 {
            Some(a@[0])
        } else {
            None
        },
        _ => None,
    }
}

/// The link Netease's player service gives: the `url` string of the first
/// record of its `data`, unless that is empty or holds `null`, as MP3 of the
/// quality `br` stands for.  `br` is that record's bit rate taken as a whole
/// number, 320000 when it has none (reading it is floating-point work left
/// to the caller).
pub open spec fn netease_url(json: Json, br: u64) -> Option<SongUrlView> {
    match netease_link_record(json) {
        Some(d) => {
            let u = or_empty(str_of(get(d, "url"@)));
            if u.len() == 0 || contains(u, "null"@) {
                None
            } else {
                Some(link(u, netease_link_quality(br), "mp3"@))
            }
        },
        None => None,
    }
}

/// The link Netease's player service gives (see `netease_url`).
pub fn netease_song_url(json: &Json, br: u64) -> (r: Option<SongUrlResult>)
    ensures
        url_view(r) == netease_url(*json, br),
{
    let d = match get_member(json, "data") {
        Some(Json::Array(a)) => if a.len() > 0 {
            &a[0]
        } else {
            return None;
        },
        _ => {
            return None;
        },
    };
    let u = match str_of_exec(get_member(d, "url")) {
        Some(t) => chars_of(t),
        None => Vec::new(),
    };
    if u.len() == 0 || contains_exec(&u, &lit("null")) {
        return None;
    }
    let quality = if br >= 320000 {
        "320k"
    } else if br >= 128000 {
        "128k"
    } else {
        "mp3"
    };
    Some(link_exec(string_of(&u), quality, string_of(&lit("mp3"))))
}

/// The first stream of Bilibili's play answer.
pub open spec fn bilibili_stream(json: Json) -> Option<Json> {
    match get(json, "data"@) {
        Some(d) => match get(d, "durl"@) {
            Some(Json::Array(a)) => if a@.len() > 0 {
                Some(a@[0])
            } else {
                None
            },
            _ => None,
        },
        None => None,
    }
}

/// The link Bilibili's play service gives: the `url` string of its first
/// stream, unless that is empty, as MP4.
pub open spec fn bilibili_url(json: Json) -> Option<SongUrlView> {
    let u = or_empty(
        match bilibili_stream(json) {
            Some(f) => str_of(get(f, "url"@)),
            None => None,
        },
    );
    if u.len() == 0 {
        None
    } else {
        Some(link(u, "mp4"@, "mp4"@))
    }
}

/// The link Bilibili's play service gives (see `bilibili_url`).
pub fn bilibili_song_url(json: &Json) -> (r: Option<SongUrlResult>)
    ensures
        url_view(r) == bilibili_url(*json),
{
    let first: Option<&Json> = match get_member(json, "data") {
        Some(d) => match get_member(d, "durl") {
            Some(Json::Array(a)) => if a.len() > 0 {
                Some(&a[0])
            } else {
                None
            },
            _ => None,
        },
        None => None,
    };
    let u = match first {
        Some(f) => match str_of_exec(get_member(f, "url")) {
            Some(t) => chars_of(t),
            None => Vec::new(),
        },
        None => Vec::new(),
    };
    if u.len() == 0 {
        return None;
    }
    Some(link_exec(string_of(&u), "mp4", string_of(&lit("mp4"))))
}

/// What becomes of a link before it is handed to the player.
#[derive(PartialEq, Eq, Structural, Clone, Copy, Debug)]
pub enum CacheStep {
    /// An empty link: there is nothing to play.
    Discard,
    /// A `data:` link or one that is not web: played as it is.
    Keep,
    /// A web link: the audio is saved in the cache first and played from
    /// there (from the link itself when that fails).
    Download,
}

/// What becomes of a link (see `CacheStep`).
pub open spec fn cache_step(url: Seq<char>) -> CacheStep {
    if url.len() == 0 {
        CacheStep::Discard
    } else if starts_with(url, "data:"@) {
        CacheStep::Keep
    } else if !starts_with(url, "http://"@) && !starts_with(url, "https://"@) {
        CacheStep::Keep
    } else {
        CacheStep::Download
    }
}

/// What becomes of a link (see `cache_step`).
pub fn audio_cache_step(url: &str) -> (r: CacheStep)
    ensures
        r == cache_step(url@),
{
    let u = chars_of(url);
    if u.len() == 0 {
        CacheStep::Discard
    } else if starts_with_exec(&u, &lit("data:")) {
        CacheStep::Keep
    } else if !starts_with_exec(&u, &lit("http://")) && !starts_with_exec(&u, &lit("https://")) {
        CacheStep::Keep
    } else {
        CacheStep::Download
    }
}

/// The extension a cached audio file gets: the format given (trimmed), else
/// the one the link's ending names, cleaned as an audio extension.
pub open spec fn cache_extension(url: Seq<char>, format: Seq<char>) -> Seq<char> {
    audio_extension(
        if trim(format).len() == 0 {
            audio_format(url, None)
        } else {
            trim(format)
        },
    )
}

/// The name of the cached file of a link: the link's hash in hexadecimal, a
/// dot and the extension.
pub open spec fn cache_file_name(url: Seq<char>, format: Seq<char>) -> Seq<char> {
    hex_digits(text_hash(url) as nat, 16) + "."@ + cache_extension(url, format)
}

/// The name of the cached file of a link (see `cache_file_name`).
pub fn audio_cache_file_name(url: &str, format: &str) -> (r: String)
    ensures
        r@ == cache_file_name(url@, format@),
{
    let f = trim_exec(&chars_of(format));
    let chosen = if f.len() == 0 {
        infer_audio_format(url, None)
    } else {
        string_of(&f)
    };
    let ext = sanitize_audio_extension(chosen);
    let mut name = chars_of(stable_hash(url).as_str());
    crate::text::append_chars(&mut name, &lit("."));
    crate::text::append_chars(&mut name, &chars_of(ext.as_str()));
    string_of(&name)
}

/// The words a search for another copy of a song uses: its title and
/// artist, each trimmed, with a space between, trimmed again.
pub open spec fn fallback_query(title: Seq<char>, artist: Seq<char>) -> Seq<char> {
    trim(trim(title) + " "@ + trim(artist))
}

/// The words to search another copy of a song with (see `fallback_query`),
/// or the message that there are none.
pub fn fallback_keyword(title: &str, artist: &str) -> (r: Result<String, String>)
    ensures
        match r {
            Ok(k) => k@ == fallback_query(title@, artist@) && k@.len() > 0,
            Err(m) => fallback_query(title@, artist@).len() == 0 && m@
                == "无法兜底解析：歌曲名为空"@,
        },
{
    let mut words = trim_exec(&chars_of(title));
    crate::text::append_chars(&mut words, &lit(" "));
    crate::text::append_chars(&mut words, &trim_exec(&chars_of(artist)));
    let k = trim_exec(&words);
    if k.len() == 0 {
        Err("无法兜底解析：歌曲名为空".to_string())
    } else {
        Ok(string_of(&k))
    }
}

/// A search result is the copy whose link could not be had: same id,
/// source and platform.
pub open spec fn is_failed_copy(
    song: SongResultView,
    source_id: usize,
    song_id: Seq<char>,
    platform: Seq<char>,
) -> bool {
    song.id == song_id && song.source_id == source_id && song.platform == platform
}

/// Whether a search result is the copy whose link could not be had (see
/// `is_failed_copy`); the search for another copy passes over it.
pub fn is_failed_candidate(song: &SongResult, source_id: usize, song_id: &str, platform: &str) -> (r:
    bool)
    ensures
        r == is_failed_copy(song@, source_id, song_id@, platform@),
{
    crate::text::seq_eq(&chars_of(song.id.as_str()), &chars_of(song_id)) && song.source_id
        == source_id && crate::text::seq_eq(
        &chars_of(song.platform.as_str()),
        &chars_of(platform),
    )
}

/// The message when no source gives a link for a song.
pub open spec fn link_failure(source_id: usize, song_id: Seq<char>, platform: Seq<char>) -> Seq<
    char,
> {
    "获取播放链接失败：source_id="@ + decimal(source_id as nat) + ", song_id="@ + song_id
        + ", platform="@ + platform + "（所有音源接口均不可用）"@
}

/// The message when searching for another copy of a song found no link
/// either.
pub open spec fn fallback_failure(source_id: usize, song_id: Seq<char>, platform: Seq<char>) -> Seq<
    char,
> {
    "获取播放链接失败：source_id="@ + decimal(source_id as nat) + ", song_id="@ + song_id
        + ", platform="@ + platform
        + "。已尝试重新搜索其它音源，仍未找到可播放链接，请检查当前网络或稍后重试。"@
}

fn failure_head(source_id: usize, song_id: &str, platform: &str) -> (r: Vec<char>)
    ensures
        r@ == "获取播放链接失败：source_id="@ + decimal(source_id as nat) + ", song_id="@
            + song_id@ + ", platform="@ + platform@,
{
    let mut m = lit("获取播放链接失败：source_id=");
    crate::text::append_chars(&mut m, &decimal_chars(source_id as u64));
    crate::text::append_chars(&mut m, &lit(", song_id="));
    crate::text::append_chars(&mut m, &chars_of(song_id));
    crate::text::append_chars(&mut m, &lit(", platform="));
    crate::text::append_chars(&mut m, &chars_of(platform));
    m
}

/// The message when no source gives a link for a song (see `link_failure`).
pub fn link_failure_message(source_id: usize, song_id: &str, platform: &str) -> (r: String)
    ensures
        r@ == link_failure(source_id, song_id@, platform@),
{
    let mut m = failure_head(source_id, song_id, platform);
    crate::text::append_chars(&mut m, &lit("（所有音源接口均不可用）"));
    string_of(&m)
}

/// The message when the search for another copy found no link either (see
/// `fallback_failure`).
pub fn fallback_failure_message(source_id: usize, song_id: &str, platform: &str) -> (r: String)
    ensures
        r@ == fallback_failure(source_id, song_id@, platform@),
{
    let mut m = failure_head(source_id, song_id, platform);
    crate::text::append_chars(
        &mut m,
        &lit("。已尝试重新搜索其它音源，仍未找到可播放链接，请检查当前网络或稍后重试。"),
    );
    string_of(&m)
}

} // verus!
