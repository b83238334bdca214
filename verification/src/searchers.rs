//! The answers of the native search services read into search results,
//! one page at a time, each song once.
use vstd::prelude::*;
use crate::catalog::{
    cover_in, digits_value, extract_cover_url, or_empty, playlist_views, ranking_views, record_cover_keys,
};
use crate::files::{strip_all, strip_all_chars};
use crate::markup::{normalize_cover_url, normalized_cover};
use crate::songs::{PlaylistInfo, PlaylistInfoView, RankingCategory, RankingView, SongDetail, SongDetailView, song_views};
use crate::json::{display_json, get, get_member, json_display, json_text, json_value_to_string, Json};
use crate::links::{bitrate_label, format_bitrate, str_of};
use crate::markup::lit;
use crate::share::{first_present, first_present_of};
use crate::json::{join_chars, joined};
use crate::songs::{
    length_in, make_length, opt_view, lemma_result_views_push, result_views, SongResult,
    SongResultView, TimeUnit,
};
use crate::text::{chars_of, contains_chars, string_of, string_views, views};

verus! {


/// The display text of a value that may be absent, or the empty text.
pub open spec fn text_of(o: Option<Json>) -> Seq<char> {
    match o {
        Some(x) => json_text(x),
        None => Seq::empty(),
    }
}

/// The display text of a value that may be absent, unless it is empty.
pub open spec fn nonempty_text(o: Option<Json>) -> Option<Seq<char>> {
    match o {
        Some(x) => if json_text(x).len() > 0 {
            Some(json_text(x))
        } else {
            None
        },
        None => None,
    }
}

/// The display text of a value that may be absent.
pub open spec fn some_text(o: Option<Json>) -> Option<Seq<char>> {
    match o {
        Some(x) => Some(json_text(x)),
        None => None,
    }
}

/// The text of a JSON number.
pub open spec fn number_of(o: Option<Json>) -> Option<Seq<char>> {
    match o {
        Some(Json::Number(n)) => Some(n@),
        _ => None,
    }
}

pub(crate) fn text_of_exec(o: Option<&Json>) -> (r: String)
    ensures
        r@ == text_of(
            match o {
                Some(x) => Some(*x),
                None => None,
            },
        ),
{
    match o {
        Some(x) => json_value_to_string(x),
        None => String::new(),
    }
}

pub(crate) fn nonempty_text_exec(o: Option<&Json>) -> (r: Option<String>)
    ensures
        opt_view(r) == nonempty_text(
            match o {
                Some(x) => Some(*x),
                None => None,
            },
        ),
{
    match o {
        Some(x) => {
            let t = json_value_to_string(x);
            if chars_of(t.as_str()).len() > 0 {
                Some(t)
            } else {
                None
            }
        },
        None => None,
    }
}

pub(crate) fn some_text_exec(o: Option<&Json>) -> (r: Option<String>)
    ensures
        opt_view(r) == some_text(
            match o {
                Some(x) => Some(*x),
                None => None,
            },
        ),
{
    match o {
        Some(x) => Some(json_value_to_string(x)),
        None => None,
    }
}

pub(crate) fn number_of_exec(o: Option<&Json>) -> (r: Option<String>)
    ensures
        opt_view(r) == number_of(
            match o {
                Some(x) => Some(*x),
                None => None,
            },
        ),
{
    match o {
        Some(Json::Number(n)) => Some(n.clone()),
        _ => None,
    }
}

/// The keys `a` and `b`.
pub(crate) fn two_keys(a: &str, b: &str) -> (r: Vec<Vec<char>>)
    ensures
        views(r@) == seq![a@, b@],
{
    let mut r: Vec<Vec<char>> = Vec::new();
    r.push(chars_of(a));
    r.push(chars_of(b));
    assert(views(r@) =~= seq![a@, b@]);
    r
}

/// The keys `a`, `b` and `c`.
pub(crate) fn three_keys(a: &str, b: &str, c: &str) -> (r: Vec<Vec<char>>)
    ensures
        views(r@) == seq![a@, b@, c@],
{
    let mut r: Vec<Vec<char>> = Vec::new();
    r.push(chars_of(a));
    r.push(chars_of(b));
    r.push(chars_of(c));
    assert(views(r@) =~= seq![a@, b@, c@]);
    r
}

/// An unsigned number written in decimal, with an optional `+` (what
/// `str::parse` accepts for unsigned integers), if it is at most `max`.
pub open spec fn parsed_unsigned(s: Seq<char>, max: nat) -> Option<nat> {
    let digits = if s.len() > 0 && s[0] == '+' {
        s.skip(1)
    } else {
        s
    };
    match digits_value(digits) {
        Some(v) => if v <= max {
            Some(v)
        } else {
            None
        },
        None => None,
    }
}

pub(crate) fn parse_unsigned(s: &Vec<char>, max: u64) -> (r: Option<u64>)
    ensures
        match parsed_unsigned(s@, max as nat) {
            Some(v) => r == Some(v as u64),
            None => r is None,
        },
{
    let start: usize = if s.len() > 0 && s[0] == '+' {
        1
    } else {
        0
    };
    let len = s.len();
    let digits = crate::text::slice_chars(s, start, len);
    assert(digits@ =~= if s@.len() > 0 && s@[0] == '+' {
        s@.skip(1)
    } else {
        s@
    });
    match crate::catalog::digits_value_exec(&digits) {
        Some(v) => if v <= max {
            Some(v)
        } else {
            None
        },
        None => None,
    }
}

/// Whether the text of a JSON number has a nonzero digit before any
/// exponent (so that, without a minus sign, the number is above zero).
pub open spec fn nonzero_mantissa(t: Seq<char>) -> bool
    decreases t.len(),
{
    if t.len() == 0 {
        false
    } else if t[0] == 'e' || t[0] == 'E' {
        false
    } else if '1' <= t[0] && t[0] <= '9' {
        true
    } else {
        nonzero_mantissa(t.skip(1))
    }
}

/// Whether the text of a JSON number stands for a number above zero.
pub open spec fn positive_number(t: Seq<char>) -> bool {
    !(t.len() > 0 && t[0] == '-') && nonzero_mantissa(t)
}

/// Whether a Kugou record gives a size above zero under `key`: a JSON
/// number above zero, or a string holding a decimal size above zero.
pub open spec fn kugou_has_size(item: Json, key: Seq<char>) -> bool {
    match get(item, key) {
        Some(Json::Str(s)) => match parsed_unsigned(s@, u64::MAX as nat) {
            Some(v) => v > 0,
            None => false,
        },
        Some(Json::Number(t)) => positive_number(t@),
        _ => false,
    }
}

/// The best quality a Kugou record offers: `flac` with a lossless file,
/// `320k` with a high-quality one, `128k` with a plain one.
pub open spec fn kugou_quality(item: Json) -> Option<Seq<char>> {
    if kugou_has_size(item, "sqfilesize"@) {
        Some("flac"@)
    } else if kugou_has_size(item, "hqfilesize"@) {
        Some("320k"@)
    } else if kugou_has_size(item, "filesize"@) {
        Some("128k"@)
    } else {
        None
    }
}

fn positive_number_exec(t: &String) -> (r: bool)
    ensures
        r == positive_number(t@),
{
    let c = chars_of(t.as_str());
    if c.len() > 0 && c[0] == '-' {
        return false;
    }
    let mut i: usize = 0;
    assert(t@.skip(0) =~= t@);
    while i < c.len()
        invariant
            i <= c.len(),
            c@ == t@,
            !(t@.len() > 0 && t@[0] == '-'),
            nonzero_mantissa(t@) == nonzero_mantissa(t@.skip(i as int)),
        decreases c.len() - i,
    {
        proof {
            let rest = t@.skip(i as int);
            assert(rest[0] == c@[i as int]);
            assert(rest.skip(1) =~= t@.skip(i + 1));
        }
        if c[i] == 'e' || c[i] == 'E' {
            return false;
        }
        if '1' <= c[i] && c[i] <= '9' {
            return true;
        }
        i += 1;
    }
    assert(t@.skip(i as int).len() == 0);
    false
}

fn kugou_has_size_exec(item: &Json, key: &str) -> (r: bool)
    ensures
        r == kugou_has_size(*item, key@),
{
    match get_member(item, key) {
        Some(Json::Str(s)) => match parse_unsigned(&chars_of(s.as_str()), u64::MAX) {
            Some(v) => v > 0,
            None => false,
        },
        Some(Json::Number(t)) => positive_number_exec(t),
        _ => false,
    }
}

/// The best quality a Kugou record offers (see `kugou_quality`).
pub fn kugou_quality_from_item(item: &Json) -> (r: Option<String>)
    ensures
        opt_view(r) == kugou_quality(*item),
{
    if kugou_has_size_exec(item, "sqfilesize") {
        Some(string_of(&lit("flac")))
    } else if kugou_has_size_exec(item, "hqfilesize") {
        Some(string_of(&lit("320k")))
    } else if kugou_has_size_exec(item, "filesize") {
        Some(string_of(&lit("128k")))
    } else {
        None
    }
}

/// The quality label of a Netease song from the highest bit rate it may be
/// played at.
pub open spec fn netease_quality(br: u32) -> Option<Seq<char>> {
    if br >= 999000 {
        Some("flac"@)
    } else if br >= 320000 {
        Some("320k"@)
    } else if br >= 192000 {
        Some("192k"@)
    } else if br >= 128000 {
        Some("128k"@)
    } else if br > 0 {
        Some(bitrate_label(br))
    } else {
        None
    }
}

/// The quality label of a Netease song (see `netease_quality`); `br` is the
/// `privilege.maxBitrate` of its record as a whole number (0 without one).
pub fn netease_quality_from_rate(br: u32) -> (r: Option<String>)
    ensures
        opt_view(r) == netease_quality(br),
{
    if br >= 999000 {
        Some(string_of(&lit("flac")))
    } else if br >= 320000 {
        Some(string_of(&lit("320k")))
    } else if br >= 192000 {
        Some(string_of(&lit("192k")))
    } else if br >= 128000 {
        Some(string_of(&lit("128k")))
    } else if br > 0 {
        Some(format_bitrate(br))
    } else {
        None
    }
}


/// The array under `a`, then `b`, of an answer, if there is one.
pub open spec fn nested_list(json: Json, a: Seq<char>, b: Seq<char>) -> Option<Seq<Json>> {
    match get(json, a) {
        Some(d) => match get(d, b) {
            Some(Json::Array(items)) => Some(items@),
            _ => None,
        },
        None => None,
    }
}

fn nested_list_of<'a>(json: &'a Json, a: &str, b: &str) -> (r: Option<&'a Vec<Json>>)
    ensures
        match nested_list(*json, a@, b@) {
            Some(items) => r matches Some(v) && v@ == items,
            None => r is None,
        },
{
    match get_member(json, a) {
        Some(d) => match get_member(d, b) {
            Some(Json::Array(items)) => Some(items),
            _ => None,
        },
        None => None,
    }
}

/// A page read: its results, the ids seen so far, and whether it held a
/// song not seen before.
pub struct PageScan {
    pub results: Seq<SongResultView>,
    pub seen: Seq<Seq<char>>,
    pub fresh: bool,
}

/// The result a Kugou record gives, under its `hash`.
pub open spec fn kugou_result(item: Json, hash: Seq<char>) -> SongResultView {
    SongResultView {
        id: hash,
        title: text_of(first_present(item, seq!["songname"@, "filename"@])),
        artist: text_of(first_present(item, seq!["singername"@, "singer"@])),
        source: "kugou"@,
        source_id: 0,
        platform: "kg"@,
        album: nonempty_text(get(item, "album_name"@)),
        cover_url: nonempty_text(first_present(item, seq!["img"@, "album_img"@, "cover"@])),
        duration: length_in(
            number_of(first_present(item, seq!["duration"@, "second"@])),
            TimeUnit::SecondsAtLeast30,
        ),
        quality: kugou_quality(item),
        score: 0,
    }
}

/// A Kugou page: each record with a `hash` not seen before gives a result.
pub open spec fn kugou_scan(items: Seq<Json>, seen: Seq<Seq<char>>) -> PageScan
    decreases items.len(),
{
    if items.len() == 0 {
        PageScan { results: Seq::empty(), seen, fresh: false }
    } else {
        let p = kugou_scan(items.drop_last(), seen);
        let item = items.last();
        let hash = or_empty(str_of(get(item, "hash"@)));
        if hash.len() == 0 || p.seen.contains(hash) {
            p
        } else {
            PageScan {
                results: p.results.push(kugou_result(item, hash)),
                seen: p.seen.push(hash),
                fresh: true,
            }
        }
    }
}

fn kugou_result_exec(item: &Json, hash: String) -> (r: SongResult)
    ensures
        r@ == kugou_result(*item, hash@),
{
    SongResult {
        id: hash,
        title: text_of_exec(first_present_of(item, &two_keys("songname", "filename"))),
        artist: text_of_exec(first_present_of(item, &two_keys("singername", "singer"))),
        source: string_of(&lit("kugou")),
        source_id: 0,
        platform: string_of(&lit("kg")),
        album: nonempty_text_exec(get_member(item, "album_name")),
        cover_url: nonempty_text_exec(first_present_of(item, &three_keys("img", "album_img", "cover"))),
        duration: make_length(
            number_of_exec(first_present_of(item, &two_keys("duration", "second"))),
            TimeUnit::SecondsAtLeast30,
        ),
        quality: kugou_quality_from_item(item),
        score: 0,
    }
}

/// Reads a page of Kugou's search answer (`data.info`): the results of the
/// records whose hash was not seen yet (adding those hashes to `seen`), and
/// whether there was one; nothing when the answer has no such list.
pub fn kugou_search_page(json: &Json, seen: &mut Vec<String>) -> (r: Option<(Vec<SongResult>, bool)>)
    ensures
        match nested_list(*json, "data"@, "info"@) {
            None => r is None && final(seen)@ == old(seen)@,
            Some(items) => r matches Some(p) && result_views(p.0@) == kugou_scan(
                items,
                string_views(old(seen)@),
            ).results && p.1 == kugou_scan(items, string_views(old(seen)@)).fresh && string_views(
                final(seen)@,
            ) == kugou_scan(items, string_views(old(seen)@)).seen,
        },
{
    let items = match nested_list_of(json, "data", "info") {
        Some(v) => v,
        None => {
            return None;
        },
    };
    let ghost start = string_views(seen@);
    let mut out: Vec<SongResult> = Vec::new();
    let mut fresh = false;
    let mut known: Vec<Vec<char>> = crate::text::chars_list_of(seen);
    let mut i: usize = 0;
    assert(items@.take(0) =~= Seq::<Json>::empty());
    assert(result_views(out@) =~= Seq::<SongResultView>::empty());
    while i < items.len()
        invariant
            i <= items.len(),
            views(known@) == string_views(seen@),
            ({
                let p = kugou_scan(items@.take(i as int), start);
                &&& result_views(out@) == p.results
                &&& string_views(seen@) == p.seen
                &&& fresh == p.fresh
            }),
        decreases items.len() - i,
    {
        proof {
            let sub = items@.take(i + 1);
            assert(sub.drop_last() =~= items@.take(i as int));
            assert(sub.last() == items@[i as int]);
        }
        let item = &items[i];
        let hash = match get_member(item, "hash") {
            Some(Json::Str(h)) => h.clone(),
            _ => String::new(),
        };
        let hv = chars_of(hash.as_str());
        if hv.len() > 0 && !contains_chars(&known, &hv) {
            let ghost before = out@;
            let res = kugou_result_exec(item, hash.clone());
            let ghost rv = res;
            out.push(res);
            proof {
                lemma_result_views_push(before, rv);
            }
            let ghost sb = seen@;
            seen.push(hash);
            assert(string_views(seen@) =~= string_views(sb).push(hv@));
            known.push(hv);
            assert(views(known@) =~= string_views(seen@));
            fresh = true;
        }
        i += 1;
    }
    assert(items@.take(i as int) =~= items@);
    Some((out, fresh))
}

/// The names of the artists of a Netease record (`artists`, else `ar`):
/// the string `name` of each.
pub open spec fn artist_names(list: Seq<Json>) -> Seq<Seq<char>>
    decreases list.len(),
{
    if list.len() == 0 {
        Seq::empty()
    } else {
        let r = artist_names(list.drop_last());
        match str_of(get(list.last(), "name"@)) {
            Some(n) => r.push(n),
            None => r,
        }
    }
}

/// The artists of a Netease record, joined by ` / `.
pub open spec fn netease_artist(item: Json) -> Seq<char> {
    match first_present(item, seq!["artists"@, "ar"@]) {
        Some(Json::Array(list)) => joined(artist_names(list@), " / "@),
        _ => Seq::empty(),
    }
}

/// The result a Netease record gives, under its id; `br` is its highest
/// bit rate.
pub open spec fn netease_result(item: Json, id: Seq<char>, br: u32) -> SongResultView {
    let album = first_present(item, seq!["album"@, "al"@]);
    SongResultView {
        id,
        title: text_of(get(item, "name"@)),
        artist: netease_artist(item),
        source: "netease"@,
        source_id: 0,
        platform: "wy"@,
        album: match album {
            Some(a) => some_text(get(a, "name"@)),
            None => None,
        },
        cover_url: match album {
            Some(a) => some_text(first_present(a, seq!["picUrl"@, "picurl"@, "pic"@])),
            None => None,
        },
        duration: length_in(
            number_of(first_present(item, seq!["duration"@, "dt"@])),
            TimeUnit::MillisecondsOver10Seconds,
        ),
        quality: netease_quality(br),
        score: 0,
    }
}

/// The id of a Netease record: its `id` as JSON text.
pub open spec fn netease_id(item: Json) -> Seq<char> {
    match get(item, "id"@) {
        Some(v) => json_display(v),
        None => Seq::empty(),
    }
}

/// A Netease page: each record with an id not seen before gives a result;
/// `rates` holds each record's highest bit rate.
pub open spec fn netease_scan(items: Seq<Json>, rates: Seq<u32>, seen: Seq<Seq<char>>) -> PageScan
    decreases items.len(),
{
    if items.len() == 0 {
        PageScan { results: Seq::empty(), seen, fresh: false }
    } else {
        let p = netease_scan(items.drop_last(), rates, seen);
        let item = items.last();
        let id = netease_id(item);
        if id.len() == 0 || p.seen.contains(id) {
            p
        } else {
            PageScan {
                results: p.results.push(netease_result(item, id, rates[items.len() - 1])),
                seen: p.seen.push(id),
                fresh: true,
            }
        }
    }
}

/// The records of a page of Netease's search answer (`result.songs`).
pub fn netease_song_list<'a>(json: &'a Json) -> (r: Option<&'a Vec<Json>>)
    ensures
        match nested_list(*json, "result"@, "songs"@) {
            Some(items) => r matches Some(v) && v@ == items,
            None => r is None,
        },
{
    nested_list_of(json, "result", "songs")
}


pub(crate) fn netease_artist_exec(item: &Json) -> (r: Vec<char>)
    ensures
        r@ == netease_artist(*item),
{
    match first_present_of(item, &two_keys("artists", "ar")) {
        Some(Json::Array(list)) => {
            let mut names: Vec<Vec<char>> = Vec::new();
            let mut i: usize = 0;
            assert(list@.take(0) =~= Seq::<Json>::empty());
            assert(views(names@) =~= Seq::<Seq<char>>::empty());
            while i < list.len()
                invariant
                    i <= list.len(),
                    views(names@) == artist_names(list@.take(i as int)),
                decreases list.len() - i,
            {
                proof {
                    let sub = list@.take(i + 1);
                    assert(sub.drop_last() =~= list@.take(i as int));
                    assert(sub.last() == list@[i as int]);
                }
                match get_member(&list[i], "name") {
                    Some(Json::Str(n)) => {
                        let ghost before = views(names@);
                        names.push(chars_of(n.as_str()));
                        assert(views(names@) =~= before.push(n@));
                    },
                    _ => {},
                }
                i += 1;
            }
            assert(list@.take(i as int) =~= list@);
            join_chars(&names, &lit(" / "))
        },
        _ => Vec::new(),
    }
}

fn netease_result_exec(item: &Json, id: String, br: u32) -> (r: SongResult)
    ensures
        r@ == netease_result(*item, id@, br),
{
    let album = first_present_of(item, &two_keys("album", "al"));
    let album_name = match album {
        Some(a) => some_text_exec(get_member(a, "name")),
        None => None,
    };
    let cover = match album {
        Some(a) => some_text_exec(first_present_of(a, &three_keys("picUrl", "picurl", "pic"))),
        None => None,
    };
    SongResult {
        id,
        title: text_of_exec(get_member(item, "name")),
        artist: string_of(&netease_artist_exec(item)),
        source: string_of(&lit("netease")),
        source_id: 0,
        platform: string_of(&lit("wy")),
        album: album_name,
        cover_url: cover,
        duration: make_length(
            number_of_exec(first_present_of(item, &two_keys("duration", "dt"))),
            TimeUnit::MillisecondsOver10Seconds,
        ),
        quality: netease_quality_from_rate(br),
        score: 0,
    }
}

/// Reads a page of Netease's search records (see `netease_scan`): the
/// results of the records whose id was not seen yet (adding those ids to
/// `seen`), and whether there was one; `rates` holds each record's highest
/// bit rate.
pub fn netease_search_page(items: &Vec<Json>, rates: &Vec<u32>, seen: &mut Vec<String>) -> (r: (
    Vec<SongResult>,
    bool,
))
    requires
        rates.len() == items.len(),
    ensures
        result_views(r.0@) == netease_scan(items@, rates@, string_views(old(seen)@)).results,
        r.1 == netease_scan(items@, rates@, string_views(old(seen)@)).fresh,
        string_views(final(seen)@) == netease_scan(items@, rates@, string_views(old(seen)@)).seen,
{
    let ghost start = string_views(seen@);
    let mut out: Vec<SongResult> = Vec::new();
    let mut fresh = false;
    let mut known: Vec<Vec<char>> = crate::text::chars_list_of(seen);
    let mut i: usize = 0;
    assert(items@.take(0) =~= Seq::<Json>::empty());
    assert(result_views(out@) =~= Seq::<SongResultView>::empty());
    while i < items.len()
        invariant
            i <= items.len(),
            rates.len() == items.len(),
            views(known@) == string_views(seen@),
            ({
                let p = netease_scan(items@.take(i as int), rates@, start);
                &&& result_views(out@) == p.results
                &&& string_views(seen@) == p.seen
                &&& fresh == p.fresh
            }),
        decreases items.len() - i,
    {
        proof {
            let sub = items@.take(i + 1);
            assert(sub.drop_last() =~= items@.take(i as int));
            assert(sub.last() == items@[i as int]);
        }
        let item = &items[i];
        let id = match get_member(item, "id") {
            Some(v) => display_json(v),
            None => String::new(),
        };
        let iv = chars_of(id.as_str());
        if iv.len() > 0 && !contains_chars(&known, &iv) {
            let ghost before = out@;
            let res = netease_result_exec(item, id.clone(), rates[i]);
            let ghost rv = res;
            out.push(res);
            proof {
                lemma_result_views_push(before, rv);
            }
            let ghost sb = seen@;
            seen.push(id);
            assert(string_views(seen@) =~= string_views(sb).push(iv@));
            known.push(iv);
            assert(views(known@) =~= string_views(seen@));
            fresh = true;
        }
        i += 1;
    }
    assert(items@.take(i as int) =~= items@);
    (out, fresh)
}

/// The id of a Bilibili record: its `bvid` as text, else its `aid` as
/// JSON text.
pub open spec fn bilibili_id(item: Json) -> Seq<char> {
    match get(item, "bvid"@) {
        Some(v) => json_text(v),
        None => match get(item, "aid"@) {
            Some(v) => json_display(v),
            None => Seq::empty(),
        },
    }
}

/// The result a Bilibili video record gives, under its id.
pub open spec fn bilibili_result(item: Json, id: Seq<char>) -> SongResultView {
    SongResultView {
        id,
        title: text_of(get(item, "title"@)),
        artist: text_of(get(item, "author"@)),
        source: "bilibili"@,
        source_id: 0,
        platform: "bilibili"@,
        album: None,
        cover_url: some_text(first_present(item, seq!["pic"@, "cover"@])),
        duration: length_in(number_of(get(item, "duration"@)), TimeUnit::Seconds),
        quality: None,
        score: 0,
    }
}

/// A Bilibili page: each record with an id not seen before counts as new,
/// and gives a result when its title is not empty.
pub open spec fn bilibili_scan(items: Seq<Json>, seen: Seq<Seq<char>>) -> PageScan
    decreases items.len(),
{
    if items.len() == 0 {
        PageScan { results: Seq::empty(), seen, fresh: false }
    } else {
        let p = bilibili_scan(items.drop_last(), seen);
        let item = items.last();
        let id = bilibili_id(item);
        if id.len() == 0 || p.seen.contains(id) {
            p
        } else {
            PageScan {
                results: if text_of(get(item, "title"@)).len() > 0 {
                    p.results.push(bilibili_result(item, id))
                } else {
                    p.results
                },
                seen: p.seen.push(id),
                fresh: true,
            }
        }
    }
}

fn bilibili_result_exec(item: &Json, id: String) -> (r: SongResult)
    ensures
        r@ == bilibili_result(*item, id@),
{
    SongResult {
        id,
        title: text_of_exec(get_member(item, "title")),
        artist: text_of_exec(get_member(item, "author")),
        source: string_of(&lit("bilibili")),
        source_id: 0,
        platform: string_of(&lit("bilibili")),
        album: None,
        cover_url: some_text_exec(first_present_of(item, &two_keys("pic", "cover"))),
        duration: make_length(number_of_exec(get_member(item, "duration")), TimeUnit::Seconds),
        quality: None,
        score: 0,
    }
}

/// Reads a page of Bilibili's search answer (`data.result`): the results
/// of the records whose id was not seen yet (adding those ids to `seen`),
/// and whether there was one; nothing when the answer has no such list.
pub fn bilibili_search_page(json: &Json, seen: &mut Vec<String>) -> (r: Option<(Vec<SongResult>, bool)>)
    ensures
        match nested_list(*json, "data"@, "result"@) {
            None => r is None && final(seen)@ == old(seen)@,
            Some(items) => r matches Some(p) && result_views(p.0@) == bilibili_scan(
                items,
                string_views(old(seen)@),
            ).results && p.1 == bilibili_scan(items, string_views(old(seen)@)).fresh && string_views(
                final(seen)@,
            ) == bilibili_scan(items, string_views(old(seen)@)).seen,
        },
{
    let items = match nested_list_of(json, "data", "result") {
        Some(v) => v,
        None => {
            return None;
        },
    };
    let ghost start = string_views(seen@);
    let mut out: Vec<SongResult> = Vec::new();
    let mut fresh = false;
    let mut known: Vec<Vec<char>> = crate::text::chars_list_of(seen);
    let mut i: usize = 0;
    assert(items@.take(0) =~= Seq::<Json>::empty());
    assert(result_views(out@) =~= Seq::<SongResultView>::empty());
    while i < items.len()
        invariant
            i <= items.len(),
            views(known@) == string_views(seen@),
            ({
                let p = bilibili_scan(items@.take(i as int), start);
                &&& result_views(out@) == p.results
                &&& string_views(seen@) == p.seen
                &&& fresh == p.fresh
            }),
        decreases items.len() - i,
    {
        proof {
            let sub = items@.take(i + 1);
            assert(sub.drop_last() =~= items@.take(i as int));
            assert(sub.last() == items@[i as int]);
        }
        let item = &items[i];
        let id = match get_member(item, "bvid") {
            Some(v) => json_value_to_string(v),
            None => match get_member(item, "aid") {
                Some(v) => display_json(v),
                None => String::new(),
            },
        };
        let iv = chars_of(id.as_str());
        if iv.len() > 0 && !contains_chars(&known, &iv) {
            let title = text_of_exec(get_member(item, "title"));
            if chars_of(title.as_str()).len() > 0 {
                let ghost before = out@;
                let res = bilibili_result_exec(item, id.clone());
                let ghost rv = res;
                out.push(res);
                proof {
                    lemma_result_views_push(before, rv);
                }
            }
            let ghost sb = seen@;
            seen.push(id);
            assert(string_views(seen@) =~= string_views(sb).push(iv@));
            known.push(iv);
            assert(views(known@) =~= string_views(seen@));
            fresh = true;
        }
        i += 1;
    }
    assert(items@.take(i as int) =~= items@);
    Some((out, fresh))
}


/// The members a quality label is read from, in order.
pub open spec fn label_keys() -> Seq<Seq<char>> {
    seq!["quality"@, "br"@, "bitrate"@, "rate"@]
}

/// The quality label of a record: the first non-empty text among
/// `label_keys` (a whole number in it is a bit rate, see `bitrate_label`);
/// else the label of `goods_rate`, the highest bit rate its `relate_goods`
/// offer.
pub open spec fn quality_label(item: Json, keys: Seq<Seq<char>>, goods_rate: Option<u32>) -> Option<
    Seq<char>,
>
    decreases keys.len(),
{
    if keys.len() == 0 {
        match goods_rate {
            Some(r) => Some(bitrate_label(r)),
            None => None,
        }
    } else {
        match get(item, keys[0]) {
            Some(x) => if json_text(x).len() > 0 {
                match parsed_unsigned(json_text(x), u32::MAX as nat) {
                    Some(v) => Some(bitrate_label(v as u32)),
                    None => Some(json_text(x)),
                }
            } else {
                quality_label(item, keys.skip(1), goods_rate)
            },
            None => quality_label(item, keys.skip(1), goods_rate),
        }
    }
}

/// The quality label of a record (see `quality_label`).
pub fn extract_quality_label(item: &Json, goods_rate: Option<u32>) -> (r: Option<String>)
    ensures
        opt_view(r) == quality_label(*item, label_keys(), goods_rate),
{
    let mut keys: Vec<Vec<char>> = Vec::new();
    keys.push(lit("quality"));
    keys.push(lit("br"));
    keys.push(lit("bitrate"));
    keys.push(lit("rate"));
    assert(views(keys@) =~= label_keys());
    let ghost ks = views(keys@);
    let mut i: usize = 0;
    assert(ks.skip(0) =~= ks);
    while i < keys.len()
        invariant
            i <= keys.len(),
            ks == views(keys@),
            ks == label_keys(),
            quality_label(*item, ks, goods_rate) == quality_label(*item, ks.skip(i as int), goods_rate),
        decreases keys.len() - i,
    {
        assert(ks.skip(i as int)[0] == keys@[i as int]@);
        assert(ks.skip(i as int).skip(1) =~= ks.skip(i + 1));
        let name = string_of(&keys[i]);
        match get_member(item, name.as_str()) {
            Some(x) => {
                let t = json_value_to_string(x);
                let tv = chars_of(t.as_str());
                if tv.len() > 0 {
                    return match parse_unsigned(&tv, 4294967295) {
                        Some(v) => Some(format_bitrate(v as u32)),
                        None => Some(t),
                    };
                }
            },
            None => {},
        }
        i += 1;
    }
    match goods_rate {
        Some(r) => Some(format_bitrate(r)),
        None => None,
    }
}

/// The text a length is read from: a number as written, or a string.
pub open spec fn number_or_string(o: Option<Json>) -> Option<Seq<char>> {
    match o {
        Some(Json::Number(n)) => Some(n@),
        Some(Json::Str(t)) => Some(t@),
        _ => None,
    }
}

fn number_or_string_exec(o: Option<&Json>) -> (r: Option<String>)
    ensures
        opt_view(r) == number_or_string(
            match o {
                Some(x) => Some(*x),
                None => None,
            },
        ),
{
    match o {
        Some(Json::Number(n)) => Some(n.clone()),
        Some(Json::Str(t)) => Some(t.clone()),
        _ => None,
    }
}

/// The first of `keys` under `d` that holds an array.
pub open spec fn first_array(d: Json, keys: Seq<Seq<char>>) -> Seq<Json>
    decreases keys.len(),
{
    if keys.len() == 0 {
        Seq::empty()
    } else {
        match get(d, keys[0]) {
            Some(Json::Array(items)) => items@,
            _ => first_array(d, keys.skip(1)),
        }
    }
}

/// The song records of a service's search answer: the answer itself when
/// it is an array; else the array under `data` (or `songs`, `results`,
/// `result`, `list`); else the first array inside that value under
/// `list`, `songs`, `results`, `result` or `data`.
pub open spec fn song_items(json: Json) -> Seq<Json> {
    match json {
        Json::Array(items) => items@,
        _ => match first_present(json, seq!["data"@, "songs"@, "results"@, "result"@, "list"@]) {
            Some(Json::Array(items)) => items@,
            Some(d) => first_array(d, seq!["list"@, "songs"@, "results"@, "result"@, "data"@]),
            None => Seq::empty(),
        },
    }
}

pub(crate) fn five_keys(a: &str, b: &str, c: &str, d: &str, e: &str) -> (r: Vec<Vec<char>>)
    ensures
        views(r@) == seq![a@, b@, c@, d@, e@],
{
    let mut r: Vec<Vec<char>> = Vec::new();
    r.push(chars_of(a));
    r.push(chars_of(b));
    r.push(chars_of(c));
    r.push(chars_of(d));
    r.push(chars_of(e));
    assert(views(r@) =~= seq![a@, b@, c@, d@, e@]);
    r
}

/// The song records of a service's search answer (see `song_items`).
pub fn extract_song_items<'a>(json: &'a Json) -> (r: &'a [Json])
    ensures
        r@ == song_items(*json),
{
    if let Json::Array(items) = json {
        return items.as_slice();
    }
    match first_present_of(json, &five_keys("data", "songs", "results", "result", "list")) {
        Some(Json::Array(items)) => items.as_slice(),
        Some(d) => {
            let keys = five_keys("list", "songs", "results", "result", "data");
            let ghost ks = views(keys@);
            let mut i: usize = 0;
            assert(ks.skip(0) =~= ks);
            assert(song_items(*json) == first_array(*d, ks));
            while i < keys.len()
                invariant
                    i <= keys.len(),
                    ks == views(keys@),
                    song_items(*json) == first_array(*d, ks),
                    first_array(*d, ks) == first_array(*d, ks.skip(i as int)),
                decreases keys.len() - i,
            {
                assert(ks.skip(i as int)[0] == keys@[i as int]@);
                assert(ks.skip(i as int).skip(1) =~= ks.skip(i + 1));
                let name = string_of(&keys[i]);
                if let Some(Json::Array(items)) = get_member(d, name.as_str()) {
                    return items.as_slice();
                }
                i += 1;
            }
            &[]
        },
        None => &[],
    }
}

/// The first key among `singer`, `artist`, `author`, `artists` whose
/// text is not empty.
pub open spec fn artist_text(item: Json, keys: Seq<Seq<char>>) -> Seq<char>
    decreases keys.len(),
{
    if keys.len() == 0 {
        Seq::empty()
    } else {
        match get(item, keys[0]) {
            Some(x) => if json_text(x).len() > 0 {
                json_text(x)
            } else {
                artist_text(item, keys.skip(1))
            },
            None => artist_text(item, keys.skip(1)),
        }
    }
}

fn artist_text_exec(item: &Json) -> (r: String)
    ensures
        r@ == artist_text(*item, seq!["singer"@, "artist"@, "author"@, "artists"@]),
{
    let mut keys: Vec<Vec<char>> = Vec::new();
    keys.push(lit("singer"));
    keys.push(lit("artist"));
    keys.push(lit("author"));
    keys.push(lit("artists"));
    assert(views(keys@) =~= seq!["singer"@, "artist"@, "author"@, "artists"@]);
    let ghost ks = views(keys@);
    let mut i: usize = 0;
    assert(ks.skip(0) =~= ks);
    while i < keys.len()
        invariant
            i <= keys.len(),
            ks == views(keys@),
            ks == seq!["singer"@, "artist"@, "author"@, "artists"@],
            artist_text(*item, ks) == artist_text(*item, ks.skip(i as int)),
        decreases keys.len() - i,
    {
        assert(ks.skip(i as int)[0] == keys@[i as int]@);
        assert(ks.skip(i as int).skip(1) =~= ks.skip(i + 1));
        let name = string_of(&keys[i]);
        if let Some(x) = get_member(item, name.as_str()) {
            let t = json_value_to_string(x);
            if chars_of(t.as_str()).len() > 0 {
                return t;
            }
        }
        i += 1;
    }
    String::new()
}

/// The result a record of a script service's search answer gives, if it
/// has a title; `goods_rate` is the highest bit rate its `relate_goods`
/// offer.
pub open spec fn script_result(
    item: Json,
    source_name: Seq<char>,
    platform: Seq<char>,
    goods_rate: Option<u32>,
) -> Option<SongResultView> {
    let title = text_of(first_present(item, seq!["name"@, "title"@, "songname"@]));
    if title.len() == 0 {
        None
    } else {
        Some(
            SongResultView {
                id: text_of(first_present(item, seq!["id"@, "song_id"@, "rid"@, "songmid"@, "mid"@])),
                title,
                artist: artist_text(item, seq!["singer"@, "artist"@, "author"@, "artists"@]),
                source: source_name + "-"@ + platform,
                source_id: 0,
                platform,
                album: nonempty_text(first_present(item, seq!["album"@, "album_name"@])),
                cover_url: cover_in(item, record_cover_keys()),
                duration: length_in(
                    number_or_string(first_present(item, seq!["duration"@, "dt"@])),
                    TimeUnit::MillisecondsAbove10000,
                ),
                quality: quality_label(item, label_keys(), goods_rate),
                score: 0,
            },
        )
    }
}

/// The results of the records, in order.
pub open spec fn script_results(
    items: Seq<Json>,
    source_name: Seq<char>,
    platform: Seq<char>,
    goods: Seq<Option<u32>>,
) -> Seq<SongResultView>
    decreases items.len(),
{
    if items.len() == 0 {
        Seq::empty()
    } else {
        let r = script_results(items.drop_last(), source_name, platform, goods);
        match script_result(items.last(), source_name, platform, goods[items.len() - 1]) {
            Some(x) => r.push(x),
            None => r,
        }
    }
}

/// The search results of a script service's song records (see
/// `script_result`); `goods` holds each record's `relate_goods` bit rate.
pub fn script_search_results(
    items: &[Json],
    goods: &Vec<Option<u32>>,
    source_name: &str,
    platform: &str,
) -> (r: Vec<SongResult>)
    requires
        goods.len() == items@.len(),
    ensures
        result_views(r@) == script_results(items@, source_name@, platform@, goods@),
{
    let mut out: Vec<SongResult> = Vec::new();
    let mut i: usize = 0;
    let id_keys = five_keys("id", "song_id", "rid", "songmid", "mid");
    let title_keys = three_keys("name", "title", "songname");
    let album_keys = two_keys("album", "album_name");
    let length_keys = two_keys("duration", "dt");
    assert(items@.take(0) =~= Seq::<Json>::empty());
    assert(result_views(out@) =~= Seq::<SongResultView>::empty());
    while i < items.len()
        invariant
            i <= items@.len(),
            goods.len() == items@.len(),
            views(id_keys@) == seq!["id"@, "song_id"@, "rid"@, "songmid"@, "mid"@],
            views(title_keys@) == seq!["name"@, "title"@, "songname"@],
            views(album_keys@) == seq!["album"@, "album_name"@],
            views(length_keys@) == seq!["duration"@, "dt"@],
            result_views(out@) == script_results(
                items@.take(i as int),
                source_name@,
                platform@,
                goods@,
            ),
        decreases items@.len() - i,
    {
        proof {
            let sub = items@.take(i + 1);
            assert(sub.drop_last() =~= items@.take(i as int));
            assert(sub.last() == items@[i as int]);
        }
        let item = &items[i];
        let title = text_of_exec(first_present_of(item, &title_keys));
        if chars_of(title.as_str()).len() > 0 {
            let mut source = chars_of(source_name);
            crate::text::append_chars(&mut source, &lit("-"));
            crate::text::append_chars(&mut source, &chars_of(platform));
            let res = SongResult {
                id: text_of_exec(first_present_of(item, &id_keys)),
                title,
                artist: artist_text_exec(item),
                source: string_of(&source),
                source_id: 0,
                platform: string_of(&chars_of(platform)),
                album: nonempty_text_exec(first_present_of(item, &album_keys)),
                cover_url: extract_cover_url(item),
                duration: make_length(
                    number_or_string_exec(first_present_of(item, &length_keys)),
                    TimeUnit::MillisecondsAbove10000,
                ),
                quality: extract_quality_label(item, goods[i]),
                score: 0,
            };
            let ghost before = out@;
            let ghost rv = res;
            out.push(res);
            proof {
                lemma_result_views_push(before, rv);
            }
        }
        i += 1;
    }
    assert(items@.take(i as int) =~= items@);
    out
}


/// The song records of a page of the Xiaowo (Kuwo) search answer
/// (`abslist`).
pub fn xiaowo_song_list<'a>(json: &'a Json) -> (r: Option<&'a Vec<Json>>)
    ensures
        match get(*json, "abslist"@) {
            Some(Json::Array(items)) => r matches Some(v) && v@ == items@,
            _ => r is None,
        },
{
    match get_member(json, "abslist") {
        Some(Json::Array(items)) => Some(items),
        _ => None,
    }
}

/// The id of a Xiaowo record: its `MUSICRID` without a `MUSIC_` prefix.
pub open spec fn xiaowo_id(item: Json) -> Seq<char> {
    let raw = or_empty(str_of(get(item, "MUSICRID"@)));
    if crate::text::starts_with(raw, "MUSIC_"@) {
        raw.skip(6)
    } else {
        raw
    }
}

/// The result a Xiaowo record gives, under its id.
pub open spec fn xiaowo_result(
    item: Json,
    id: Seq<char>,
    source_name: Seq<char>,
    goods_rate: Option<u32>,
) -> SongResultView {
    SongResultView {
        id,
        title: text_of(get(item, "NAME"@)),
        artist: text_of(get(item, "ARTIST"@)),
        source: source_name,
        source_id: 0,
        platform: "kw"@,
        album: nonempty_text(get(item, "ALBUM"@)),
        cover_url: cover_in(item, record_cover_keys()),
        duration: length_in(number_or_string(get(item, "DURATION"@)), TimeUnit::Seconds),
        quality: match quality_label(item, label_keys(), goods_rate) {
            Some(q) => Some(q),
            None => Some("320k"@),
        },
        score: 0,
    }
}

/// A Xiaowo page: each record with an id and a title, and an id not seen
/// before, gives a result.
pub open spec fn xiaowo_scan(
    items: Seq<Json>,
    goods: Seq<Option<u32>>,
    seen: Seq<Seq<char>>,
    source_name: Seq<char>,
) -> PageScan
    decreases items.len(),
{
    if items.len() == 0 {
        PageScan { results: Seq::empty(), seen, fresh: false }
    } else {
        let p = xiaowo_scan(items.drop_last(), goods, seen, source_name);
        let item = items.last();
        let id = xiaowo_id(item);
        if id.len() == 0 || text_of(get(item, "NAME"@)).len() == 0 || p.seen.contains(id) {
            p
        } else {
            PageScan {
                results: p.results.push(
                    xiaowo_result(item, id, source_name, goods[items.len() - 1]),
                ),
                seen: p.seen.push(id),
                fresh: true,
            }
        }
    }
}

/// Reads a page of Xiaowo's search records (see `xiaowo_scan`): the
/// results, and whether the page was full (100 records), so that the next
/// page is worth asking for; `goods` holds each record's `relate_goods`
/// bit rate.
pub fn xiaowo_search_page(
    items: &Vec<Json>,
    goods: &Vec<Option<u32>>,
    seen: &mut Vec<String>,
    source_name: &str,
) -> (r: (Vec<SongResult>, bool))
    requires
        goods.len() == items.len(),
    ensures
        result_views(r.0@) == xiaowo_scan(items@, goods@, string_views(old(seen)@), source_name@).results,
        string_views(final(seen)@) == xiaowo_scan(
            items@,
            goods@,
            string_views(old(seen)@),
            source_name@,
        ).seen,
        r.1 == (items.len() >= 100),
{
    let ghost start = string_views(seen@);
    let mut out: Vec<SongResult> = Vec::new();
    let mut known: Vec<Vec<char>> = crate::text::chars_list_of(seen);
    let mut i: usize = 0;
    let prefix = lit("MUSIC_");
    proof {
        reveal_strlit("MUSIC_");
    }
    assert(items@.take(0) =~= Seq::<Json>::empty());
    assert(result_views(out@) =~= Seq::<SongResultView>::empty());
    while i < items.len()
        invariant
            i <= items.len(),
            goods.len() == items.len(),
            prefix@ == "MUSIC_"@,
            prefix.len() == 6,
            views(known@) == string_views(seen@),
            ({
                let p = xiaowo_scan(items@.take(i as int), goods@, start, source_name@);
                &&& result_views(out@) == p.results
                &&& string_views(seen@) == p.seen
            }),
        decreases items.len() - i,
    {
        proof {
            let sub = items@.take(i + 1);
            assert(sub.drop_last() =~= items@.take(i as int));
            assert(sub.last() == items@[i as int]);
        }
        let item = &items[i];
        let raw = match get_member(item, "MUSICRID") {
            Some(Json::Str(r)) => chars_of(r.as_str()),
            _ => Vec::new(),
        };
        let id = if crate::text::starts_with_exec(&raw, &prefix) {
            let len = raw.len();
            let rest = crate::text::slice_chars(&raw, 6, len);
            assert(rest@ =~= raw@.skip(6));
            rest
        } else {
            raw
        };
        let title = text_of_exec(get_member(item, "NAME"));
        if id.len() > 0 && chars_of(title.as_str()).len() > 0 && !contains_chars(&known, &id) {
            let quality = match extract_quality_label(item, goods[i]) {
                Some(q) => Some(q),
                None => Some(string_of(&lit("320k"))),
            };
            let res = SongResult {
                id: string_of(&id),
                title,
                artist: text_of_exec(get_member(item, "ARTIST")),
                source: string_of(&chars_of(source_name)),
                source_id: 0,
                platform: string_of(&lit("kw")),
                album: nonempty_text_exec(get_member(item, "ALBUM")),
                cover_url: extract_cover_url(item),
                duration: make_length(number_or_string_exec(get_member(item, "DURATION")), TimeUnit::Seconds),
                quality,
                score: 0,
            };
            let ghost before = out@;
            let ghost rv = res;
            out.push(res);
            proof {
                lemma_result_views_push(before, rv);
            }
            let ghost sb = seen@;
            let ghost idv = id@;
            seen.push(string_of(&id));
            assert(string_views(seen@) =~= string_views(sb).push(idv));
            known.push(id);
            assert(views(known@) =~= string_views(seen@));
        }
        i += 1;
    }
    assert(items@.take(i as int) =~= items@);
    (out, items.len() >= 100)
}


/// The rankings of the Kuwo chart list: the records inside each group
/// (`child` of `child`) with a non-empty id (`sourceid`, else `id`) and
/// name (`name`, else `disname`).
pub open spec fn kuwo_rankings_in(items: Seq<Json>, source_id: usize, source_name: Seq<char>) -> Seq<
    RankingView,
>
    decreases items.len(),
{
    if items.len() == 0 {
        Seq::empty()
    } else {
        let r = kuwo_rankings_in(items.drop_last(), source_id, source_name);
        let item = items.last();
        let id = text_of(first_present(item, seq!["sourceid"@, "id"@]));
        let name = text_of(first_present(item, seq!["name"@, "disname"@]));
        if id.len() > 0 && name.len() > 0 {
            r.push(
                RankingView { id, name, cover: cover_in(item, record_cover_keys()), source_id, source_name },
            )
        } else {
            r
        }
    }
}

/// The groups' records, group after group.
pub open spec fn group_items(groups: Seq<Json>) -> Seq<Json>
    decreases groups.len(),
{
    if groups.len() == 0 {
        Seq::empty()
    } else {
        group_items(groups.drop_last()) + match get(groups.last(), "child"@) {
            Some(Json::Array(items)) => items@,
            _ => Seq::empty(),
        }
    }
}

/// The rankings in the Kuwo chart list answer.
pub open spec fn kuwo_rankings(json: Json, source_id: usize, source_name: Seq<char>) -> Seq<RankingView> {
    match get(json, "child"@) {
        Some(Json::Array(groups)) => kuwo_rankings_in(group_items(groups@), source_id, source_name),
        _ => Seq::empty(),
    }
}

/// Reads the rankings of the Kuwo chart list (see `kuwo_rankings`).
pub fn kuwo_rankings_from_json(json: &Json, source_id: usize, source_name: &str) -> (r: Vec<RankingCategory>)
    ensures
        ranking_views(r@) == kuwo_rankings(*json, source_id, source_name@),
{
    let groups = match get_member(json, "child") {
        Some(Json::Array(g)) => g,
        _ => {
            let out: Vec<RankingCategory> = Vec::new();
            assert(ranking_views(out@) =~= Seq::<RankingView>::empty());
            return out;
        },
    };
    let id_keys = two_keys("sourceid", "id");
    let name_keys = two_keys("name", "disname");
    let mut out: Vec<RankingCategory> = Vec::new();
    let mut g: usize = 0;
    assert(groups@.take(0) =~= Seq::<Json>::empty());
    assert(ranking_views(out@) =~= Seq::<RankingView>::empty());
    while g < groups.len()
        invariant
            g <= groups.len(),
            views(id_keys@) == seq!["sourceid"@, "id"@],
            views(name_keys@) == seq!["name"@, "disname"@],
            ranking_views(out@) == kuwo_rankings_in(group_items(groups@.take(g as int)), source_id, source_name@),
        decreases groups.len() - g,
    {
        proof {
            let sub = groups@.take(g + 1);
            assert(sub.drop_last() =~= groups@.take(g as int));
            assert(sub.last() == groups@[g as int]);
        }
        let ghost prefix = group_items(groups@.take(g as int));
        match get_member(&groups[g], "child") {
            Some(Json::Array(items)) => {
                let mut i: usize = 0;
                assert(items@.take(0) =~= Seq::<Json>::empty());
                assert(prefix + items@.take(0) =~= prefix);
                while i < items.len()
                    invariant
                        i <= items.len(),
                        views(id_keys@) == seq!["sourceid"@, "id"@],
                        views(name_keys@) == seq!["name"@, "disname"@],
                        ranking_views(out@) == kuwo_rankings_in(prefix + items@.take(i as int), source_id, source_name@),
                    decreases items.len() - i,
                {
                    proof {
                        let sub = prefix + items@.take(i + 1);
                        assert(sub.drop_last() =~= prefix + items@.take(i as int));
                        assert(sub.last() == items@[i as int]);
                    }
                    let item = &items[i];
                    let id = text_of_exec(first_present_of(item, &id_keys));
                    let name = text_of_exec(first_present_of(item, &name_keys));
                    if chars_of(id.as_str()).len() > 0 && chars_of(name.as_str()).len() > 0 {
                        let ghost before = out@;
                        let k = RankingCategory {
                            id,
                            name,
                            cover: extract_cover_url(item),
                            source_id,
                            source_name: string_of(&chars_of(source_name)),
                        };
                        out.push(k);
                        assert(ranking_views(out@) =~= ranking_views(before).push(k@));
                    }
                    i += 1;
                }
                assert(items@.take(i as int) =~= items@);
            },
            _ => {
                assert(prefix + Seq::<Json>::empty() =~= prefix);
            },
        }
        g += 1;
    }
    assert(groups@.take(g as int) =~= groups@);
    out
}

/// The song a Kuwo list record describes: one with an id (`id`, `rid` or
/// `musicrid`, without `MUSIC_` prefixes) and a title.
pub open spec fn kuwo_song(item: Json, source_id: usize) -> Option<SongDetailView> {
    let id = strip_all(text_of(first_present(item, seq!["id"@, "rid"@, "musicrid"@])), "MUSIC_"@);
    let title = text_of(first_present(item, seq!["name"@, "songName"@, "songname"@, "title"@]));
    if id.len() == 0 || title.len() == 0 {
        None
    } else {
        Some(
            SongDetailView {
                id,
                title,
                artist: text_of(first_present(item, seq!["artist"@, "singer"@, "artistName"@])),
                album: nonempty_text(first_present(item, seq!["album"@, "albumName"@, "albumname"@])),
                album_id: nonempty_text(first_present(item, seq!["albumid"@, "albumId"@])),
                cover_url: cover_in(item, record_cover_keys()),
                duration: length_in(
                    number_or_string(first_present(item, seq!["duration"@, "songTimeMinutes"@])),
                    TimeUnit::MillisecondsAbove10000,
                ),
                source_id,
                platform: "kw"@,
            },
        )
    }
}

pub(crate) fn four_keys(a: &str, b: &str, c: &str, d: &str) -> (r: Vec<Vec<char>>)
    ensures
        views(r@) == seq![a@, b@, c@, d@],
{
    let mut r: Vec<Vec<char>> = Vec::new();
    r.push(chars_of(a));
    r.push(chars_of(b));
    r.push(chars_of(c));
    r.push(chars_of(d));
    assert(views(r@) =~= seq![a@, b@, c@, d@]);
    r
}

/// The song a Kuwo list record describes (see `kuwo_song`).
pub fn xiaowo_song_detail_from_item(item: &Json, source_id: usize) -> (r: Option<SongDetail>)
    ensures
        match kuwo_song(*item, source_id) {
            Some(d) => r matches Some(x) && x@ == d,
            None => r is None,
        },
{
    let raw = text_of_exec(first_present_of(item, &three_keys("id", "rid", "musicrid")));
    let id = strip_all_chars(&chars_of(raw.as_str()), &lit("MUSIC_"));
    let title = text_of_exec(first_present_of(item, &four_keys("name", "songName", "songname", "title")));
    if id.len() == 0 || chars_of(title.as_str()).len() == 0 {
        return None;
    }
    Some(
        SongDetail {
            id: string_of(&id),
            title,
            artist: text_of_exec(first_present_of(item, &three_keys("artist", "singer", "artistName"))),
            album: nonempty_text_exec(first_present_of(item, &three_keys("album", "albumName", "albumname"))),
            album_id: nonempty_text_exec(first_present_of(item, &two_keys("albumid", "albumId"))),
            cover_url: extract_cover_url(item),
            duration: make_length(
                number_or_string_exec(first_present_of(item, &two_keys("duration", "songTimeMinutes"))),
                TimeUnit::MillisecondsAbove10000,
            ),
            source_id,
            platform: string_of(&lit("kw")),
        },
    )
}

/// The songs the Kuwo list records describe, in order.
pub open spec fn kuwo_songs(items: Seq<Json>, source_id: usize) -> Seq<SongDetailView>
    decreases items.len(),
{
    if items.len() == 0 {
        Seq::empty()
    } else {
        let r = kuwo_songs(items.drop_last(), source_id);
        match kuwo_song(items.last(), source_id) {
            Some(d) => r.push(d),
            None => r,
        }
    }
}

/// The songs of Kuwo list records (see `kuwo_song`).
pub fn kuwo_songs_from_items(items: &[Json], source_id: usize) -> (r: Vec<SongDetail>)
    ensures
        song_views(r@) == kuwo_songs(items@, source_id),
{
    let mut out: Vec<SongDetail> = Vec::new();
    let mut i: usize = 0;
    assert(items@.take(0) =~= Seq::<Json>::empty());
    assert(song_views(out@) =~= Seq::<SongDetailView>::empty());
    while i < items.len()
        invariant
            i <= items@.len(),
            song_views(out@) == kuwo_songs(items@.take(i as int), source_id),
        decreases items@.len() - i,
    {
        proof {
            let sub = items@.take(i + 1);
            assert(sub.drop_last() =~= items@.take(i as int));
            assert(sub.last() == items@[i as int]);
        }
        match xiaowo_song_detail_from_item(&items[i], source_id) {
            Some(d) => {
                let ghost before = out@;
                let ghost dv = d@;
                out.push(d);
                assert(song_views(out@) =~= song_views(before).push(dv));
            },
            None => {},
        }
        i += 1;
    }
    assert(items@.take(i as int) =~= items@);
    out
}

/// The song records of a Kuwo answer: the array under the first of `keys`
/// present.
pub fn kuwo_song_list<'a>(json: &'a Json, with_fallbacks: bool) -> (r: &'a [Json])
    ensures
        r@ == match first_present(
            *json,
            if with_fallbacks {
                seq!["musiclist"@, "songs"@, "data"@]
            } else {
                seq!["musiclist"@]
            },
        ) {
            Some(Json::Array(items)) => items@,
            _ => Seq::empty(),
        },
{
    let keys = if with_fallbacks {
        three_keys("musiclist", "songs", "data")
    } else {
        let mut k: Vec<Vec<char>> = Vec::new();
        k.push(chars_of("musiclist"));
        assert(views(k@) =~= seq!["musiclist"@]);
        k
    };
    match first_present_of(json, &keys) {
        Some(Json::Array(items)) => items.as_slice(),
        _ => &[],
    }
}


/// The playlist records of a page of Kuwo's recommended playlists:
/// `data.data`, else `data`, when it is an array.
pub open spec fn kuwo_playlist_records(json: Json) -> Option<Seq<Json>> {
    let inner = match get(json, "data"@) {
        Some(d) => get(d, "data"@),
        None => None,
    };
    match if inner is Some {
        inner
    } else {
        get(json, "data"@)
    } {
        Some(Json::Array(items)) => Some(items@),
        _ => None,
    }
}

/// A secure cover link read from the first of `img`, `pic`, `cover`,
/// unless it is empty.
pub open spec fn kuwo_playlist_cover(item: Json) -> Option<Seq<char>> {
    match first_present(item, seq!["img"@, "pic"@, "cover"@]) {
        Some(v) => if normalized_cover(json_text(v)).len() > 0 {
            Some(normalized_cover(json_text(v)))
        } else {
            None
        },
        None => None,
    }
}

/// A page of Kuwo playlists read: the playlists, the ids seen so far, and
/// how many were new.
pub struct PlaylistScan {
    pub playlists: Seq<PlaylistInfoView>,
    pub seen: Seq<Seq<char>>,
    pub count: nat,
}

/// A page of Kuwo playlists: each record with an id and a name, and an id
/// not seen before, gives a playlist.
pub open spec fn kuwo_playlist_scan(
    items: Seq<Json>,
    seen: Seq<Seq<char>>,
    source_id: usize,
    source_name: Seq<char>,
) -> PlaylistScan
    decreases items.len(),
{
    if items.len() == 0 {
        PlaylistScan { playlists: Seq::empty(), seen, count: 0 }
    } else {
        let p = kuwo_playlist_scan(items.drop_last(), seen, source_id, source_name);
        let item = items.last();
        let id = text_of(get(item, "id"@));
        let name = text_of(first_present(item, seq!["name"@, "title"@]));
        if id.len() == 0 || name.len() == 0 || p.seen.contains(id) {
            p
        } else {
            PlaylistScan {
                playlists: p.playlists.push(
                    PlaylistInfoView {
                        id,
                        name,
                        cover: kuwo_playlist_cover(item),
                        song_count: None,
                        source_id,
                        source_name,
                    },
                ),
                seen: p.seen.push(id),
                count: p.count + 1,
            }
        }
    }
}

/// Reads a page of Kuwo's recommended playlists (see
/// `kuwo_playlist_scan`): the new playlists (their ids added to `seen`)
/// and whether the page held 25 or more of them, so that the next page is
/// worth asking for; nothing when the answer has no playlist list.
pub fn kuwo_playlists_page(
    json: &Json,
    seen: &mut Vec<String>,
    source_id: usize,
    source_name: &str,
) -> (r: Option<(Vec<PlaylistInfo>, bool)>)
    ensures
        match kuwo_playlist_records(*json) {
            None => r is None && final(seen)@ == old(seen)@,
            Some(items) => r matches Some(p) && ({
                let scan = kuwo_playlist_scan(items, string_views(old(seen)@), source_id, source_name@);
                &&& playlist_views(p.0@) == scan.playlists
                &&& string_views(final(seen)@) == scan.seen
                &&& p.1 == (scan.count >= 25)
            }),
        },
{
    let inner = match get_member(json, "data") {
        Some(d) => get_member(d, "data"),
        None => None,
    };
    let list = if inner.is_some() {
        inner
    } else {
        get_member(json, "data")
    };
    let items = match list {
        Some(Json::Array(items)) => items,
        _ => {
            return None;
        },
    };
    let ghost start = string_views(seen@);
    let mut out: Vec<PlaylistInfo> = Vec::new();
    let mut count: usize = 0;
    let mut known: Vec<Vec<char>> = crate::text::chars_list_of(seen);
    let name_keys = two_keys("name", "title");
    let cover_keys = three_keys("img", "pic", "cover");
    let mut i: usize = 0;
    assert(items@.take(0) =~= Seq::<Json>::empty());
    assert(playlist_views(out@) =~= Seq::<PlaylistInfoView>::empty());
    while i < items.len()
        invariant
            i <= items.len(),
            count <= i,
            views(name_keys@) == seq!["name"@, "title"@],
            views(cover_keys@) == seq!["img"@, "pic"@, "cover"@],
            views(known@) == string_views(seen@),
            ({
                let p = kuwo_playlist_scan(items@.take(i as int), start, source_id, source_name@);
                &&& playlist_views(out@) == p.playlists
                &&& string_views(seen@) == p.seen
                &&& count == p.count
            }),
        decreases items.len() - i,
    {
        proof {
            let sub = items@.take(i + 1);
            assert(sub.drop_last() =~= items@.take(i as int));
            assert(sub.last() == items@[i as int]);
        }
        let item = &items[i];
        let id = text_of_exec(get_member(item, "id"));
        let name = text_of_exec(first_present_of(item, &name_keys));
        let idv = chars_of(id.as_str());
        if idv.len() > 0 && chars_of(name.as_str()).len() > 0 && !contains_chars(&known, &idv) {
            let cover = match first_present_of(item, &cover_keys) {
                Some(v) => {
                    let c = normalize_cover_url(json_value_to_string(v));
                    if chars_of(c.as_str()).len() > 0 {
                        Some(c)
                    } else {
                        None
                    }
                },
                None => None,
            };
            let p = PlaylistInfo {
                id: id.clone(),
                name,
                cover,
                song_count: None,
                source_id,
                source_name: string_of(&chars_of(source_name)),
            };
            let ghost before = out@;
            let ghost pv = p@;
            out.push(p);
            assert(playlist_views(out@) =~= playlist_views(before).push(pv));
            let ghost sb = seen@;
            seen.push(id);
            assert(string_views(seen@) =~= string_views(sb).push(idv@));
            known.push(idv);
            assert(views(known@) =~= string_views(seen@));
            count = count + 1;
        }
        i += 1;
    }
    assert(items@.take(i as int) =~= items@);
    Some((out, count >= 25))
}


/// The next request of a search through a script service, which tries its
/// platforms in order until one gives results.
#[derive(PartialEq, Eq, Structural, Clone, Copy, Debug)]
pub enum ScriptRequest {
    /// Ask platform `i` by `GET /api/v1/search`.
    Get(usize),
    /// Ask platform `i` again by `POST /search`.
    Post(usize),
    /// Stop: the results gathered are the answer.
    Finished,
}

/// The first request of a search over `platforms` platforms.
pub open spec fn script_first(platforms: nat) -> ScriptRequest {
    if platforms > 0 {
        ScriptRequest::Get(0)
    } else {
        ScriptRequest::Finished
    }
}

/// The request after `last`, `found` telling whether results were gathered
/// so far: a platform whose `GET` gave nothing is asked by `POST`; the
/// search stops at the first platform with results, or after the last.
pub open spec fn script_next(platforms: nat, last: ScriptRequest, found: bool) -> ScriptRequest {
    match last {
        ScriptRequest::Get(i) => if found {
            ScriptRequest::Finished
        } else {
            ScriptRequest::Post(i)
        },
        ScriptRequest::Post(i) => if found || i + 1 >= platforms {
            ScriptRequest::Finished
        } else {
            ScriptRequest::Get((i + 1) as usize)
        },
        ScriptRequest::Finished => ScriptRequest::Finished,
    }
}

/// The first request of a script-service search (see `script_first`).
pub fn script_first_request(platforms: usize) -> (r: ScriptRequest)
    ensures
        r == script_first(platforms as nat),
{
    if platforms > 0 {
        ScriptRequest::Get(0)
    } else {
        ScriptRequest::Finished
    }
}

/// The request after `last` (see `script_next`).
pub fn script_next_request(platforms: usize, last: ScriptRequest, found: bool) -> (r: ScriptRequest)
    ensures
        r == script_next(platforms as nat, last, found),
{
    match last {
        ScriptRequest::Get(i) => if found {
            ScriptRequest::Finished
        } else {
            ScriptRequest::Post(i)
        },
        ScriptRequest::Post(i) => if found || i >= platforms || platforms - i <= 1 {
            ScriptRequest::Finished
        } else {
            ScriptRequest::Get(i + 1)
        },
        ScriptRequest::Finished => ScriptRequest::Finished,
    }
}

} // verus!
