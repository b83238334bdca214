//! The answers of a source's web service, read into records: rankings,
//! playlists, their songs, and hot keywords.
use vstd::prelude::*;
use crate::json::{Json};
use crate::links::str_of;
use crate::markup::{lit, normalize_cover_url, normalized_cover};
use crate::share::{first_present, first_present_of};
use crate::songs::{
    length_in, make_length, opt_view, song_views, PlaylistInfo, PlaylistInfoView, RankingCategory,
    RankingView, SongDetail, SongDetailView, TimeUnit,
};
use crate::json::{json_text, json_value_to_string};
use crate::text::{append_chars, chars_of, slice_chars, string_of, views};

verus! {

/// The base address of a service: its address without trailing `/`.
pub open spec fn api_base(api_url: Seq<char>) -> Seq<char>
    decreases api_url.len(),
{
    if api_url.len() > 0 && api_url.last() == '/' {
        api_base(api_url.drop_last())
    } else {
        api_url
    }
}

/// The address of `path` on a service.
pub fn api_endpoint(api_url: &str, path: &str) -> (r: String)
    ensures
        r@ == api_base(api_url@) + path@,
{
    let v = chars_of(api_url);
    let mut i = v.len();
    assert(v@.take(i as int) =~= v@);
    while i > 0 && v[i - 1] == '/'
        invariant
            i <= v.len(),
            api_base(v@.take(i as int)) == api_base(api_url@),
            v@ == api_url@,
        decreases i,
    {
        assert(v@.take(i as int).drop_last() =~= v@.take(i - 1));
        i -= 1;
    }
    let mut out = slice_chars(&v, 0, i);
    assert(out@ =~= v@.take(i as int));
    append_chars(&mut out, &chars_of(path));
    string_of(&out)
}


/// The first platform a source lists, else `kw`.
pub fn first_platform(platforms: &Vec<String>) -> (r: String)
    ensures
        r@ == if platforms@.len() > 0 {
            platforms@[0]@
        } else {
            "kw"@
        },
{
    if platforms.len() > 0 {
        platforms[0].clone()
    } else {
        string_of(&lit("kw"))
    }
}

/// The keys `a` and `b`.
fn keys2(a: &str, b: &str) -> (r: Vec<Vec<char>>)
    ensures
        views(r@) == seq![a@, b@],
{
    let mut r: Vec<Vec<char>> = Vec::new();
    r.push(chars_of(a));
    r.push(chars_of(b));
    assert(views(r@) =~= seq![a@, b@]);
    r
}

/// The keys `a`, `b` and `c`.
fn keys3(a: &str, b: &str, c: &str) -> (r: Vec<Vec<char>>)
    ensures
        views(r@) == seq![a@, b@, c@],
{
    let mut r: Vec<Vec<char>> = Vec::new();
    r.push(chars_of(a));
    r.push(chars_of(b));
    r.push(chars_of(c));
    assert(views(r@) =~= seq![a@, b@, c@]);
    r
}

/// The first of `keys` present in `v`, if its value is a string.
pub open spec fn first_string(v: Json, keys: Seq<Seq<char>>) -> Option<Seq<char>> {
    str_of(first_present(v, keys))
}

/// A text that may be absent, or the empty text.
pub open spec fn or_empty(o: Option<Seq<char>>) -> Seq<char> {
    match o {
        Some(t) => t,
        None => Seq::empty(),
    }
}

pub(crate) fn first_string_of(v: &Json, keys: &Vec<Vec<char>>) -> (r: Option<String>)
    ensures
        opt_view(r) == first_string(*v, views(keys@)),
{
    match first_present_of(v, keys) {
        Some(Json::Str(s)) => Some(s.clone()),
        _ => None,
    }
}

pub(crate) fn or_empty_string(o: Option<String>) -> (r: String)
    ensures
        r@ == or_empty(opt_view(o)),
{
    match o {
        Some(s) => s,
        None => String::new(),
    }
}

/// The items of the array under the first of `keys` present in a service's
/// answer (none when it is not an array).
pub open spec fn list_under(v: Json, keys: Seq<Seq<char>>) -> Seq<Json> {
    match first_present(v, keys) {
        Some(Json::Array(items)) => items@,
        _ => Seq::empty(),
    }
}

fn list_under_of<'a>(v: &'a Json, keys: &Vec<Vec<char>>) -> (r: &'a [Json])
    ensures
        r@ == list_under(*v, views(keys@)),
{
    match first_present_of(v, keys) {
        Some(Json::Array(items)) => items.as_slice(),
        _ => &[],
    }
}

/// The cover links records may carry, in the order they are tried.
pub open spec fn record_cover_keys() -> Seq<Seq<char>> {
    seq![
        "cover"@,
        "pic"@,
        "image"@,
        "img"@,
        "albumPic"@,
        "albumpic"@,
        "pic120"@,
        "pic300"@,
        "web_albumpic_short"@,
        "WEB_ALBUMPIC_SHORT"@,
        "ALBUM_PIC"@,
    ]
}

/// The first of `keys` present in `item` whose text, as a secure cover
/// link, is not empty.
pub open spec fn cover_in(item: Json, keys: Seq<Seq<char>>) -> Option<Seq<char>>
    decreases keys.len(),
{
    if keys.len() == 0 {
        None
    } else {
        match crate::json::get(item, keys[0]) {
            Some(x) => if normalized_cover(json_text(x)).len() > 0 {
                Some(normalized_cover(json_text(x)))
            } else {
                cover_in(item, keys.skip(1))
            },
            None => cover_in(item, keys.skip(1)),
        }
    }
}

/// The cover link of a record (see `cover_in`).
pub fn extract_cover_url(item: &Json) -> (r: Option<String>)
    ensures
        opt_view(r) == cover_in(*item, record_cover_keys()),
{
    let mut keys: Vec<Vec<char>> = Vec::new();
    keys.push(lit("cover"));
    keys.push(lit("pic"));
    keys.push(lit("image"));
    keys.push(lit("img"));
    keys.push(lit("albumPic"));
    keys.push(lit("albumpic"));
    keys.push(lit("pic120"));
    keys.push(lit("pic300"));
    keys.push(lit("web_albumpic_short"));
    keys.push(lit("WEB_ALBUMPIC_SHORT"));
    keys.push(lit("ALBUM_PIC"));
    assert(views(keys@) =~= record_cover_keys());
    let ghost ks = views(keys@);
    let mut i: usize = 0;
    assert(ks.skip(0) =~= ks);
    while i < keys.len()
        invariant
            i <= keys.len(),
            ks == views(keys@),
            ks == record_cover_keys(),
            cover_in(*item, ks) == cover_in(*item, ks.skip(i as int)),
        decreases keys.len() - i,
    {
        assert(ks.skip(i as int)[0] == keys@[i as int]@);
        assert(ks.skip(i as int).skip(1) =~= ks.skip(i + 1));
        let name = string_of(&keys[i]);
        match crate::json::get_member(item, name.as_str()) {
            Some(x) => {
                let t = normalize_cover_url(json_value_to_string(x));
                if chars_of(t.as_str()).len() > 0 {
                    return Some(t);
                }
            },
            None => {},
        }
        i += 1;
    }
    None
}

/// The ranking a record of a service's answer describes: one with a
/// string `id` (or `top_id`) and `name` (or `title`), both non-empty.
pub open spec fn ranking_of(item: Json, source_id: usize, source_name: Seq<char>) -> Option<
    RankingView,
> {
    let id = or_empty(first_string(item, seq!["id"@, "top_id"@]));
    let name = or_empty(first_string(item, seq!["name"@, "title"@]));
    if id.len() > 0 && name.len() > 0 {
        Some(
            RankingView {
                id,
                name,
                cover: cover_in(item, record_cover_keys()),
                source_id,
                source_name,
            },
        )
    } else {
        None
    }
}

/// The rankings the records describe, in order.
pub open spec fn rankings_of(items: Seq<Json>, source_id: usize, source_name: Seq<char>) -> Seq<
    RankingView,
>
    decreases items.len(),
{
    if items.len() == 0 {
        Seq::empty()
    } else {
        let r = rankings_of(items.drop_last(), source_id, source_name);
        match ranking_of(items.last(), source_id, source_name) {
            Some(k) => r.push(k),
            None => r,
        }
    }
}

/// The views of a list of rankings.
pub open spec fn ranking_views(v: Seq<RankingCategory>) -> Seq<RankingView> {
    v.map_values(|k: RankingCategory| k@)
}

/// The rankings in a service's answer: the records under `data` (or
/// `result`) that describe one (see `ranking_of`).
pub fn rankings_from_json(json: &Json, source_id: usize, source_name: &str) -> (r: Vec<
    RankingCategory,
>)
    ensures
        ranking_views(r@) == rankings_of(
            list_under(*json, seq!["data"@, "result"@]),
            source_id,
            source_name@,
        ),
{
    let items = list_under_of(json, &keys2("data", "result"));
    let id_keys = keys2("id", "top_id");
    let name_keys = keys2("name", "title");
    let mut out: Vec<RankingCategory> = Vec::new();
    let mut i: usize = 0;
    assert(items@.take(0) =~= Seq::<Json>::empty());
    assert(ranking_views(out@) =~= Seq::<RankingView>::empty());
    while i < items.len()
        invariant
            i <= items.len(),
            views(id_keys@) == seq!["id"@, "top_id"@],
            views(name_keys@) == seq!["name"@, "title"@],
            ranking_views(out@) == rankings_of(items@.take(i as int), source_id, source_name@),
        decreases items.len() - i,
    {
        proof {
            let sub = items@.take(i + 1);
            assert(sub.drop_last() =~= items@.take(i as int));
            assert(sub.last() == items@[i as int]);
        }
        let item = &items[i];
        let id = or_empty_string(first_string_of(item, &id_keys));
        let name = or_empty_string(first_string_of(item, &name_keys));
        if chars_of(id.as_str()).len() > 0 && chars_of(name.as_str()).len() > 0 {
            let ghost before = out@;
            let k = RankingCategory {
                id,
                name,
                cover: extract_cover_url(item),
                source_id,
                source_name: string_of(&chars_of(source_name)),
            };
            out.push(k);
            assert(ranking_views(out@) =~= ranking_views(before).push(k@));
        }
        i += 1;
    }
    assert(items@.take(i as int) =~= items@);
    out
}


/// The keys a song's id is read from: `id`, `song_id`, and `rid` when
/// `with_rid` holds.
pub open spec fn song_id_keys(with_rid: bool) -> Seq<Seq<char>> {
    if with_rid {
        seq!["id"@, "song_id"@, "rid"@]
    } else {
        seq!["id"@, "song_id"@]
    }
}

/// A length in milliseconds given as a JSON number.
pub open spec fn millis_of(o: Option<Json>) -> Option<Seq<char>> {
    match o {
        Some(Json::Number(n)) => Some(n@),
        _ => None,
    }
}

/// The song a record of a ranking's or playlist's answer describes: one
/// with a non-empty string id and title.
pub open spec fn catalog_song_of(
    item: Json,
    with_rid: bool,
    source_id: usize,
    platform: Seq<char>,
) -> Option<SongDetailView> {
    let id = or_empty(first_string(item, song_id_keys(with_rid)));
    let title = or_empty(first_string(item, seq!["name"@, "title"@]));
    if id.len() > 0 && title.len() > 0 {
        Some(
            SongDetailView {
                id,
                title,
                artist: or_empty(first_string(item, seq!["singer"@, "artist"@, "author"@])),
                album: first_string(item, seq!["album"@, "album_name"@]),
                album_id: None,
                cover_url: first_string(item, seq!["cover"@, "pic"@, "image"@]),
                duration: length_in(
                    millis_of(first_present(item, seq!["duration"@, "dt"@])),
                    TimeUnit::Milliseconds,
                ),
                source_id,
                platform,
            },
        )
    } else {
        None
    }
}

/// The songs the records describe, in order.
pub open spec fn catalog_songs_of(
    items: Seq<Json>,
    with_rid: bool,
    source_id: usize,
    platform: Seq<char>,
) -> Seq<SongDetailView>
    decreases items.len(),
{
    if items.len() == 0 {
        Seq::empty()
    } else {
        let r = catalog_songs_of(items.drop_last(), with_rid, source_id, platform);
        match catalog_song_of(items.last(), with_rid, source_id, platform) {
            Some(d) => r.push(d),
            None => r,
        }
    }
}

/// The songs of a ranking or playlist in a service's answer: the records
/// under `data` (or `songs`, or `result`) that describe one (see
/// `catalog_song_of`).
pub fn catalog_songs_from_json(json: &Json, with_rid: bool, source_id: usize, platform: &str) -> (r:
    Vec<SongDetail>)
    ensures
        song_views(r@) == catalog_songs_of(
            list_under(*json, seq!["data"@, "songs"@, "result"@]),
            with_rid,
            source_id,
            platform@,
        ),
{
    let items = list_under_of(json, &keys3("data", "songs", "result"));
    let id_keys = if with_rid {
        keys3("id", "song_id", "rid")
    } else {
        keys2("id", "song_id")
    };
    let title_keys = keys2("name", "title");
    let artist_keys = keys3("singer", "artist", "author");
    let album_keys = keys2("album", "album_name");
    let cover_keys = keys3("cover", "pic", "image");
    let length_keys = keys2("duration", "dt");
    let mut out: Vec<SongDetail> = Vec::new();
    let mut i: usize = 0;
    assert(items@.take(0) =~= Seq::<Json>::empty());
    assert(song_views(out@) =~= Seq::<SongDetailView>::empty());
    while i < items.len()
        invariant
            i <= items.len(),
            views(id_keys@) == song_id_keys(with_rid),
            views(title_keys@) == seq!["name"@, "title"@],
            views(artist_keys@) == seq!["singer"@, "artist"@, "author"@],
            views(album_keys@) == seq!["album"@, "album_name"@],
            views(cover_keys@) == seq!["cover"@, "pic"@, "image"@],
            views(length_keys@) == seq!["duration"@, "dt"@],
            song_views(out@) == catalog_songs_of(
                items@.take(i as int),
                with_rid,
                source_id,
                platform@,
            ),
        decreases items.len() - i,
    {
        proof {
            let sub = items@.take(i + 1);
            assert(sub.drop_last() =~= items@.take(i as int));
            assert(sub.last() == items@[i as int]);
        }
        let item = &items[i];
        let id = or_empty_string(first_string_of(item, &id_keys));
        let title = or_empty_string(first_string_of(item, &title_keys));
        if chars_of(id.as_str()).len() > 0 && chars_of(title.as_str()).len() > 0 {
            let millis = match first_present_of(item, &length_keys) {
                Some(Json::Number(n)) => Some(n.clone()),
                _ => None,
            };
            let ghost before = out@;
            let song = SongDetail {
                id,
                title,
                artist: or_empty_string(first_string_of(item, &artist_keys)),
                album: first_string_of(item, &album_keys),
                album_id: None,
                cover_url: first_string_of(item, &cover_keys),
                duration: make_length(millis, TimeUnit::Milliseconds),
                source_id,
                platform: string_of(&chars_of(platform)),
            };
            out.push(song);
            assert(song_views(out@) =~= song_views(before).push(song@));
        }
        i += 1;
    }
    assert(items@.take(i as int) =~= items@);
    out
}

/// The value of a JSON number that is a non-negative integer within `u64`
/// (`Value::as_u64`): its text is all digits.
pub open spec fn digits_value(s: Seq<char>) -> Option<nat>
    decreases s.len(),
{
    if s.len() == 0 {
        None
    } else if !('0' <= s.last() && s.last() <= '9') {
        None
    } else if s.len() == 1 {
        Some((s.last() as nat - '0' as nat) as nat)
    } else {
        match digits_value(s.drop_last()) {
            Some(v) => Some(v * 10 + (s.last() as nat - '0' as nat) as nat),
            None => None,
        }
    }
}

/// A song count from a JSON number: its value when it is a non-negative
/// integer within `u64`, taken as `usize`.
pub open spec fn count_of(o: Option<Json>) -> Option<usize> {
    match o {
        Some(Json::Number(n)) => match digits_value(n@) {
            Some(v) => if v <= u64::MAX {
                Some(v as u64 as usize)
            } else {
                None
            },
            None => None,
        },
        _ => None,
    }
}

/// The value of an all-digit text, if it fits in `u64` (see
/// `digits_value`).
pub fn digits_value_exec(s: &Vec<char>) -> (r: Option<u64>)
    ensures
        match digits_value(s@) {
            Some(v) => if v <= u64::MAX {
                r == Some(v as u64)
            } else {
                r is None
            },
            None => r is None,
        },
{
    if s.len() == 0 {
        return None;
    }
    let mut i: usize = 0;
    let mut value: u64 = 0;
    let mut overflow = false;
    while i < s.len()
        invariant
            i <= s.len(),
            s.len() > 0,
            i == 0 ==> value == 0 && !overflow,
            i > 0 ==> match digits_value(s@.take(i as int)) {
                Some(v) => if v <= u64::MAX {
                    !overflow && value == v
                } else {
                    overflow
                },
                None => false,
            },
        decreases s.len() - i,
    {
        let c = s[i];
        if !('0' <= c && c <= '9') {
            proof {
                lemma_digits_prefix_none(s@, i + 1);
            }
            return None;
        }
        let d = (c as u32 - '0' as u32) as u64;
        proof {
            let sub = s@.take(i + 1);
            assert(sub.drop_last() =~= s@.take(i as int));
            assert(sub.last() == c);
        }
        if overflow || value > (u64::MAX - d) / 10 {
            overflow = true;
        } else {
            value = value * 10 + d;
        }
        i += 1;
    }
    assert(s@.take(i as int) =~= s@);
    if overflow {
        None
    } else {
        Some(value)
    }
}

proof fn lemma_digits_prefix_none(s: Seq<char>, k: int)
    requires
        0 < k <= s.len(),
        !('0' <= s[k - 1] && s[k - 1] <= '9'),
    ensures
        digits_value(s) is None,
    decreases s.len() - k,
{
    if k == s.len() {
        assert(s.last() == s[k - 1]);
    } else {
        lemma_digits_prefix_none(s.drop_last(), k);
        assert(s.drop_last()[k - 1] == s[k - 1]);
    }
}


fn count_of_exec(o: Option<&Json>) -> (r: Option<usize>)
    ensures
        r == count_of(
            match o {
                Some(x) => Some(*x),
                None => None,
            },
        ),
{
    match o {
        Some(Json::Number(n)) => match digits_value_exec(&chars_of(n.as_str())) {
            Some(v) => Some(v as usize),
            None => None,
        },
        _ => None,
    }
}

/// The playlist a record of a service's answer describes: one with a
/// non-empty string `id` (or `playlist_id`) and `name` (or `title`).
pub open spec fn playlist_of(item: Json, source_id: usize, source_name: Seq<char>) -> Option<
    PlaylistInfoView,
> {
    let id = or_empty(first_string(item, seq!["id"@, "playlist_id"@]));
    let name = or_empty(first_string(item, seq!["name"@, "title"@]));
    if id.len() > 0 && name.len() > 0 {
        Some(
            PlaylistInfoView {
                id,
                name,
                cover: first_string(item, seq!["cover"@, "pic"@, "image"@]),
                song_count: count_of(first_present(item, seq!["song_count"@, "count"@, "total"@])),
                source_id,
                source_name,
            },
        )
    } else {
        None
    }
}

/// The playlists the records describe, in order.
pub open spec fn playlists_of(items: Seq<Json>, source_id: usize, source_name: Seq<char>) -> Seq<
    PlaylistInfoView,
>
    decreases items.len(),
{
    if items.len() == 0 {
        Seq::empty()
    } else {
        let r = playlists_of(items.drop_last(), source_id, source_name);
        match playlist_of(items.last(), source_id, source_name) {
            Some(p) => r.push(p),
            None => r,
        }
    }
}

/// The views of a list of playlists.
pub open spec fn playlist_views(v: Seq<PlaylistInfo>) -> Seq<PlaylistInfoView> {
    v.map_values(|p: PlaylistInfo| p@)
}

/// The playlists in a service's answer: the records under `data` (or
/// `playlists`, or `result`) that describe one (see `playlist_of`).
pub fn playlists_from_json(json: &Json, source_id: usize, source_name: &str) -> (r: Vec<
    PlaylistInfo,
>)
    ensures
        playlist_views(r@) == playlists_of(
            list_under(*json, seq!["data"@, "playlists"@, "result"@]),
            source_id,
            source_name@,
        ),
{
    let items = list_under_of(json, &keys3("data", "playlists", "result"));
    let id_keys = keys2("id", "playlist_id");
    let name_keys = keys2("name", "title");
    let cover_keys = keys3("cover", "pic", "image");
    let count_keys = keys3("song_count", "count", "total");
    let mut out: Vec<PlaylistInfo> = Vec::new();
    let mut i: usize = 0;
    assert(items@.take(0) =~= Seq::<Json>::empty());
    assert(playlist_views(out@) =~= Seq::<PlaylistInfoView>::empty());
    while i < items.len()
        invariant
            i <= items.len(),
            views(id_keys@) == seq!["id"@, "playlist_id"@],
            views(name_keys@) == seq!["name"@, "title"@],
            views(cover_keys@) == seq!["cover"@, "pic"@, "image"@],
            views(count_keys@) == seq!["song_count"@, "count"@, "total"@],
            playlist_views(out@) == playlists_of(items@.take(i as int), source_id, source_name@),
        decreases items.len() - i,
    {
        proof {
            let sub = items@.take(i + 1);
            assert(sub.drop_last() =~= items@.take(i as int));
            assert(sub.last() == items@[i as int]);
        }
        let item = &items[i];
        let id = or_empty_string(first_string_of(item, &id_keys));
        let name = or_empty_string(first_string_of(item, &name_keys));
        if chars_of(id.as_str()).len() > 0 && chars_of(name.as_str()).len() > 0 {
            let ghost before = out@;
            let p = PlaylistInfo {
                id,
                name,
                cover: first_string_of(item, &cover_keys),
                song_count: count_of_exec(first_present_of(item, &count_keys)),
                source_id,
                source_name: string_of(&chars_of(source_name)),
            };
            out.push(p);
            assert(playlist_views(out@) =~= playlist_views(before).push(p@));
        }
        i += 1;
    }
    assert(items@.take(i as int) =~= items@);
    out
}

/// The first `limit` non-empty keywords (`keyword`, else `name`, else
/// `title`, as strings) of the records.
pub open spec fn keywords_of(items: Seq<Json>, limit: nat) -> Seq<Seq<char>>
    decreases items.len(),
{
    if items.len() == 0 || limit == 0 {
        Seq::empty()
    } else {
        let k = or_empty(first_string(items[0], seq!["keyword"@, "name"@, "title"@]));
        if k.len() > 0 {
            seq![k] + keywords_of(items.skip(1), (limit - 1) as nat)
        } else {
            keywords_of(items.skip(1), limit)
        }
    }
}

/// The hot keywords in a service's answer: the first ten non-empty ones
/// under `data` (or `hots`, or `result`).
pub fn hot_keywords_from_json(json: &Json) -> (r: Vec<String>)
    ensures
        crate::text::string_views(r@) == keywords_of(
            list_under(*json, seq!["data"@, "hots"@, "result"@]),
            10,
        ),
{
    let items = list_under_of(json, &keys3("data", "hots", "result"));
    let keys = keys3("keyword", "name", "title");
    let ghost all = items@;
    let mut out: Vec<String> = Vec::new();
    let mut i: usize = 0;
    assert(all.skip(0) =~= all);
    assert(crate::text::string_views(out@) + keywords_of(all, 10) =~= keywords_of(all, 10));
    while i < items.len() && out.len() < 10
        invariant
            i <= items.len(),
            out.len() <= 10,
            all == items@,
            views(keys@) == seq!["keyword"@, "name"@, "title"@],
            crate::text::string_views(out@) + keywords_of(all.skip(i as int), (10 - out.len()) as nat)
                == keywords_of(all, 10),
        decreases items.len() - i,
    {
        assert(all.skip(i as int)[0] == items@[i as int]);
        assert(all.skip(i as int).skip(1) =~= all.skip(i + 1));
        let k = or_empty_string(first_string_of(&items[i], &keys));
        if chars_of(k.as_str()).len() > 0 {
            let ghost before = crate::text::string_views(out@);
            let ghost kv = k@;
            out.push(k);
            assert(crate::text::string_views(out@) =~= before.push(kv));
            assert(crate::text::string_views(out@) + keywords_of(
                all.skip(i + 1),
                (10 - out.len()) as nat,
            ) =~= before + keywords_of(all.skip(i as int), (10 - before.len()) as nat));
        }
        i += 1;
    }
    assert(keywords_of(all.skip(i as int), (10 - out.len()) as nat) =~= Seq::<Seq<char>>::empty());
    assert(crate::text::string_views(out@) =~= keywords_of(all, 10));
    out
}


} // verus!
