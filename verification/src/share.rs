//! Songs read out of shared-playlist pages: JSON documents embedded in a
//! page or pasted as they are, and rendered `<li>` song lists.
use vstd::prelude::*;
use crate::json::{get, get_member, json_text, json_value_to_string, parse_json, parsed_json, Json};
use crate::markup::{
    candidate_scan_safe, candidate_urls, extract_kugou_urls, kugou_playlist_candidate_urls, kugou_urls,
    char_width, char_width_exec,
    normalize_share_url, share_url,
    decode_html_chars, extract_first_image, first_image, first_image_readable, first_image_safe, html_attr,
    html_attr_chars, html_inner_text, html_inner_text_chars, html_decoded, kugou_cover, lit, normalize_kugou_cover_url, unescape_slashes_chars,
    unescaped_slashes, utf8_len, utf8_longer_than,
};
use crate::songs::{
    length_in, make_length, TimeUnit,
    opt_view, song_views, PlaylistInfo, PlaylistInfoView, SharedPlaylist, SharedPlaylistView,
    SongDetail, SongDetailView,
};
use crate::text::{
    append_chars, chars_of, replace_all, replace_all_exec, contains, contains_chars, contains_exec, starts_with, starts_with_exec, find, find_exec, lemma_find_from, seq_eq,
    lemma_trim_idempotent, slice_chars, string_of, string_views, trim, trim_exec, views,
};

verus! {

/// The value of the first of `keys` that `v` has as a member.
pub open spec fn first_present(v: Json, keys: Seq<Seq<char>>) -> Option<Json>
    decreases keys.len(),
{
    if keys.len() == 0 {
        None
    } else {
        match get(v, keys[0]) {
            Some(x) => Some(x),
            None => first_present(v, keys.skip(1)),
        }
    }
}

/// The display text of the first of `keys` present in `v`, unless that
/// text is blank.
pub open spec fn first_text(v: Json, keys: Seq<Seq<char>>) -> Option<Seq<char>> {
    match first_present(v, keys) {
        Some(x) => if trim(json_text(x)).len() > 0 {
            Some(json_text(x))
        } else {
            None
        },
        None => None,
    }
}

/// The text a duration is read from: a number as written, or a string.
pub open spec fn number_text(o: Option<Json>) -> Option<Seq<char>> {
    match o {
        Some(Json::Number(n)) => Some(n@),
        Some(Json::Str(s)) => Some(s@),
        _ => None,
    }
}

pub fn first_present_of<'a>(v: &'a Json, keys: &Vec<Vec<char>>) -> (r: Option<&'a Json>)
    ensures
        match first_present(*v, views(keys@)) {
            Some(x) => r is Some && *r->0 == x,
            None => r is None,
        },
{
    let mut i: usize = 0;
    assert(views(keys@).skip(0) =~= views(keys@));
    while i < keys.len()
        invariant
            i <= keys.len(),
            first_present(*v, views(keys@)) == first_present(*v, views(keys@).skip(i as int)),
        decreases keys.len() - i,
    {
        assert(views(keys@).skip(i as int)[0] == keys@[i as int]@);
        assert(views(keys@).skip(i as int).skip(1) =~= views(keys@).skip(i + 1));
        let name = string_of(&keys[i]);
        match get_member(v, name.as_str()) {
            Some(x) => {
                return Some(x);
            },
            None => {},
        }
        i += 1;
    }
    None
}

fn first_text_of(v: &Json, keys: &Vec<Vec<char>>) -> (r: Option<Vec<char>>)
    ensures
        match first_text(*v, views(keys@)) {
            Some(t) => r is Some && r->0@ == t,
            None => r is None,
        },
{
    match first_present_of(v, keys) {
        Some(x) => {
            let text = json_value_to_string(x);
            let t = chars_of(text.as_str());
            if trim_exec(&t).len() > 0 {
                Some(t)
            } else {
                None
            }
        },
        None => None,
    }
}

fn number_text_of(o: Option<&Json>) -> (r: Option<Vec<char>>)
    ensures
        match number_text(match o { Some(x) => Some(*x), None => None }) {
            Some(t) => r is Some && r->0@ == t,
            None => r is None,
        },
{
    match o {
        Some(Json::Number(n)) => Some(chars_of(n.as_str())),
        Some(Json::Str(s)) => Some(chars_of(s.as_str())),
        _ => None,
    }
}

fn opt_string(o: Option<Vec<char>>) -> (r: Option<String>)
    ensures
        opt_view(r) == match o {
            Some(v) => Some(v@),
            None => None::<Seq<char>>,
        },
{
    match o {
        Some(v) => Some(string_of(&v)),
        None => None,
    }
}

/// Members whose presence marks an object as a song.
pub open spec fn song_keys() -> Seq<Seq<char>> {
    seq![
        "hash"@,
        "audio_id"@,
        "songid"@,
        "song_id"@,
        "filename"@,
        "fileName"@,
        "timelen"@,
        "time_len"@,
        "duration"@,
        "download"@,
        "relate_goods"@,
        "song_url"@,
        "albuminfo"@,
    ]
}

pub open spec fn title_keys() -> Seq<Seq<char>> {
    seq!["songname"@, "song_name"@, "audio_name"@, "filename"@, "fileName"@, "name"@, "title"@]
}

pub open spec fn artist_keys() -> Seq<Seq<char>> {
    seq![
        "singername"@,
        "singer_name"@,
        "author_name"@,
        "artist"@,
        "singer"@,
        "singers"@,
        "singerinfo"@,
        "singerInfo"@,
    ]
}

pub open spec fn id_keys() -> Seq<Seq<char>> {
    seq!["hash"@, "audio_id"@, "songid"@, "song_id"@, "id"@]
}

pub open spec fn album_keys() -> Seq<Seq<char>> {
    seq!["album_name"@, "album"@, "albumname"@]
}

pub open spec fn album_id_keys() -> Seq<Seq<char>> {
    seq!["album_id"@, "albumid"@]
}

pub open spec fn cover_keys() -> Seq<Seq<char>> {
    seq!["img"@, "image"@, "cover"@, "pic"@, "album_img"@, "albumimg"@, "sizable_cover"@]
}

pub open spec fn duration_keys() -> Seq<Seq<char>> {
    seq!["duration"@, "time_len"@, "timelen"@]
}

fn song_keys_vec() -> (r: Vec<Vec<char>>)
    ensures
        views(r@) == song_keys(),
{
    let mut r: Vec<Vec<char>> = Vec::new();
    r.push(lit("hash"));
    r.push(lit("audio_id"));
    r.push(lit("songid"));
    r.push(lit("song_id"));
    r.push(lit("filename"));
    r.push(lit("fileName"));
    r.push(lit("timelen"));
    r.push(lit("time_len"));
    r.push(lit("duration"));
    r.push(lit("download"));
    r.push(lit("relate_goods"));
    r.push(lit("song_url"));
    r.push(lit("albuminfo"));
    assert(views(r@) =~= song_keys());
    r
}

fn title_keys_vec() -> (r: Vec<Vec<char>>)
    ensures
        views(r@) == title_keys(),
{
    let mut r: Vec<Vec<char>> = Vec::new();
    r.push(lit("songname"));
    r.push(lit("song_name"));
    r.push(lit("audio_name"));
    r.push(lit("filename"));
    r.push(lit("fileName"));
    r.push(lit("name"));
    r.push(lit("title"));
    assert(views(r@) =~= title_keys());
    r
}

fn artist_keys_vec() -> (r: Vec<Vec<char>>)
    ensures
        views(r@) == artist_keys(),
{
    let mut r: Vec<Vec<char>> = Vec::new();
    r.push(lit("singername"));
    r.push(lit("singer_name"));
    r.push(lit("author_name"));
    r.push(lit("artist"));
    r.push(lit("singer"));
    r.push(lit("singers"));
    r.push(lit("singerinfo"));
    r.push(lit("singerInfo"));
    assert(views(r@) =~= artist_keys());
    r
}

fn id_keys_vec() -> (r: Vec<Vec<char>>)
    ensures
        views(r@) == id_keys(),
{
    let mut r: Vec<Vec<char>> = Vec::new();
    r.push(lit("hash"));
    r.push(lit("audio_id"));
    r.push(lit("songid"));
    r.push(lit("song_id"));
    r.push(lit("id"));
    assert(views(r@) =~= id_keys());
    r
}

fn album_keys_vec() -> (r: Vec<Vec<char>>)
    ensures
        views(r@) == album_keys(),
{
    let mut r: Vec<Vec<char>> = Vec::new();
    r.push(lit("album_name"));
    r.push(lit("album"));
    r.push(lit("albumname"));
    assert(views(r@) =~= album_keys());
    r
}

fn album_id_keys_vec() -> (r: Vec<Vec<char>>)
    ensures
        views(r@) == album_id_keys(),
{
    let mut r: Vec<Vec<char>> = Vec::new();
    r.push(lit("album_id"));
    r.push(lit("albumid"));
    assert(views(r@) =~= album_id_keys());
    r
}

fn cover_keys_vec() -> (r: Vec<Vec<char>>)
    ensures
        views(r@) == cover_keys(),
{
    let mut r: Vec<Vec<char>> = Vec::new();
    r.push(lit("img"));
    r.push(lit("image"));
    r.push(lit("cover"));
    r.push(lit("pic"));
    r.push(lit("album_img"));
    r.push(lit("albumimg"));
    r.push(lit("sizable_cover"));
    assert(views(r@) =~= cover_keys());
    r
}

fn duration_keys_vec() -> (r: Vec<Vec<char>>)
    ensures
        views(r@) == duration_keys(),
{
    let mut r: Vec<Vec<char>> = Vec::new();
    r.push(lit("duration"));
    r.push(lit("time_len"));
    r.push(lit("timelen"));
    assert(views(r@) =~= duration_keys());
    r
}

/// The artist shown when a service names none.
pub open spec fn unknown_artist() -> Seq<char> {
    "未知歌手"@
}

/// The two sides of the first ` - ` in `s`.
pub open spec fn halves(s: Seq<char>) -> Option<(Seq<char>, Seq<char>)> {
    match find(s, " - "@) {
        Some(p) => Some((s.take(p), s.skip(p + 3))),
        None => None,
    }
}

/// Title and artist of a song after reading `Artist - Title` titles: a
/// missing artist is taken from the title's left side, and a title that
/// repeats the artist on its left loses that side.
pub open spec fn titled(raw: Seq<char>, artist: Seq<char>) -> (Seq<char>, Seq<char>) {
    let first: (Seq<char>, Seq<char>) = match halves(raw) {
        Some(h) => if (artist.len() == 0 || artist == unknown_artist()) && trim(h.0).len() > 0
            && trim(h.1).len() > 0 {
            (trim(h.1), trim(h.0))
        } else {
            (raw, artist)
        },
        None => (raw, artist),
    };
    let title: Seq<char> = match halves(first.0) {
        Some(h) => if first.1 == trim(h.0) && trim(h.1).len() > 0 {
            trim(h.1)
        } else {
            first.0
        },
        None => first.0,
    };
    (title, first.1)
}

/// The song an object of a shared page describes, if it is one: it names
/// one of `song_keys`, has a title, and the title is at most 80 bytes and
/// holds no `http`.
pub open spec fn song_of(v: Json) -> Option<SongDetailView> {
    if first_present(v, song_keys()) is None {
        None
    } else {
        match first_text(v, title_keys()) {
            None => None,
            Some(raw) => {
                let artist0 = match first_text(v, artist_keys()) {
                    Some(a) => a,
                    None => unknown_artist(),
                };
                let ta = titled(raw, artist0);
                let title = ta.0;
                let artist = ta.1;
                if utf8_len(title) > 80 || contains(title, "http"@) {
                    None
                } else {
                    Some(
                        SongDetailView {
                            id: match first_text(v, id_keys()) {
                                Some(i) => i,
                                None => "kg-share-"@ + title + "-"@ + artist,
                            },
                            title,
                            artist,
                            album: first_text(v, album_keys()),
                            album_id: first_text(v, album_id_keys()),
                            cover_url: match first_text(v, cover_keys()) {
                                Some(c) => Some(kugou_cover(c)),
                                None => None,
                            },
                            duration: length_in(
                                number_text(first_present(v, duration_keys())),
                                TimeUnit::MillisecondsAbove10000,
                            ),
                            source_id: 0,
                            platform: "kg"@,
                        },
                    )
                }
            },
        }
    }
}

fn halves_chars(s: &Vec<char>) -> (r: Option<(Vec<char>, Vec<char>)>)
    ensures
        match halves(s@) {
            Some(h) => r matches Some(p) && p.0@ == h.0 && p.1@ == h.1,
            None => r is None,
        },
{
    let sep = lit(" - ");
    proof {
        reveal_strlit(" - ");
    }
    match find_exec(s, &sep) {
        Some(p) => {
            proof {
                lemma_find_from(s@, sep@, 0);
            }
            let len = s.len();
            let left = slice_chars(s, 0, p);
            let right = slice_chars(s, p + 3, len);
            assert(left@ =~= s@.take(p as int));
            assert(right@ =~= s@.skip(p + 3));
            Some((left, right))
        },
        None => None,
    }
}

fn titled_chars(raw: &Vec<char>, artist: &Vec<char>) -> (r: (Vec<char>, Vec<char>))
    ensures
        (r.0@, r.1@) == titled(raw@, artist@),
{
    let unknown = lit("未知歌手");
    let mut title = slice_chars(raw, 0, raw.len());
    let mut who = slice_chars(artist, 0, artist.len());
    assert(title@ =~= raw@);
    assert(who@ =~= artist@);
    match halves_chars(raw) {
        Some((l, r)) => {
            let tl = trim_exec(&l);
            let tr = trim_exec(&r);
            if (artist.len() == 0 || seq_eq(artist, &unknown)) && tl.len() > 0 && tr.len() > 0 {
                title = tr;
                who = tl;
            }
        },
        None => {},
    }
    match halves_chars(&title) {
        Some((l, r)) => {
            let tl = trim_exec(&l);
            let tr = trim_exec(&r);
            if seq_eq(&who, &tl) && tr.len() > 0 {
                title = tr;
            }
        },
        None => {},
    }
    (title, who)
}

/// Reads one object of a shared page as a song (see `song_of`).
pub fn song_detail_from_json(value: &Json) -> (r: Option<SongDetail>)
    ensures
        match song_of(*value) {
            Some(d) => r is Some && r->0@ == d,
            None => r is None,
        },
{
    if first_present_of(value, &song_keys_vec()).is_none() {
        return None;
    }
    let raw = match first_text_of(value, &title_keys_vec()) {
        Some(t) => t,
        None => {
            return None;
        },
    };
    let artist0 = match first_text_of(value, &artist_keys_vec()) {
        Some(a) => a,
        None => lit("未知歌手"),
    };
    let (title, artist) = titled_chars(&raw, &artist0);
    proof {
        reveal_strlit("http");
    }
    if utf8_longer_than(&title, 80) || contains_exec(&title, &lit("http")) {
        return None;
    }
    let id = match first_text_of(value, &id_keys_vec()) {
        Some(i) => i,
        None => {
            let mut made = lit("kg-share-");
            append_chars(&mut made, &title);
            append_chars(&mut made, &lit("-"));
            append_chars(&mut made, &artist);
            made
        },
    };
    let cover = match first_text_of(value, &cover_keys_vec()) {
        Some(c) => Some(normalize_kugou_cover_url(string_of(&c))),
        None => None,
    };
    let duration = number_text_of(first_present_of(value, &duration_keys_vec()));
    let song = SongDetail {
        id: string_of(&id),
        title: string_of(&title),
        artist: string_of(&artist),
        album: opt_string(first_text_of(value, &album_keys_vec())),
        album_id: opt_string(first_text_of(value, &album_id_keys_vec())),
        cover_url: cover,
        duration: make_length(opt_string(duration), TimeUnit::MillisecondsAbove10000),
        source_id: 0,
        platform: string_of(&lit("kg")),
    };
    Some(song)
}


/// A song as a sequence of zero or one songs.
pub open spec fn song_seq(o: Option<SongDetailView>) -> Seq<SongDetailView> {
    match o {
        Some(d) => seq![d],
        None => Seq::empty(),
    }
}

/// The songs found in a document: every object that reads as a song
/// (`song_of`), in document order, an object before the songs inside it.
pub open spec fn collected(v: Json) -> Seq<SongDetailView>
    decreases v, 1nat,
{
    match v {
        Json::Array(items) => collected_items(items@),
        Json::Object(members) => song_seq(song_of(v)) + collected_members(members@),
        _ => Seq::empty(),
    }
}

pub open spec fn collected_items(items: Seq<Json>) -> Seq<SongDetailView>
    decreases items, 0nat,
{
    if items.len() == 0 {
        Seq::empty()
    } else {
        collected_items(items.drop_last()) + collected(items.last())
    }
}

pub open spec fn collected_members(members: Seq<(String, Json)>) -> Seq<SongDetailView>
    decreases members, 0nat,
{
    if members.len() == 0 {
        Seq::empty()
    } else {
        collected_members(members.drop_last()) + collected(members.last().1)
    }
}

/// Appends to `out` the songs found in `value` (see `collected`).
pub fn collect_song_details(value: &Json, out: &mut Vec<SongDetail>)
    ensures
        song_views(final(out)@) == song_views(old(out)@) + collected(*value),
    decreases *value,
{
    let ghost start = song_views(out@);
    match value {
        Json::Array(items) => {
            let mut i: usize = 0;
            assert(items@.take(0) =~= Seq::<Json>::empty());
            assert(start + Seq::<SongDetailView>::empty() =~= start);
            while i < items.len()
                invariant
                    *value == Json::Array(*items),
                    i <= items.len(),
                    song_views(out@) == start + collected_items(items@.take(i as int)),
                decreases items.len() - i,
            {
                proof {
                    assert(decreases_to!(*value => (*value)->Array_0));
                    assert(decreases_to!(*items => items[i as int]));
                    let sub = items@.take(i + 1);
                    assert(sub.drop_last() =~= items@.take(i as int));
                    assert(sub.last() == items@[i as int]);
                }
                let ghost before = song_views(out@);
                collect_song_details(&items[i], out);
                assert(song_views(out@) =~= start + collected_items(items@.take(i + 1)));
                i += 1;
            }
            assert(items@.take(items.len() as int) =~= items@);
        },
        Json::Object(members) => {
            let head = song_detail_from_json(value);
            let ghost head_v = song_seq(song_of(*value));
            match head {
                Some(s) => {
                    out.push(s);
                },
                None => {},
            }
            assert(song_views(out@) =~= start + head_v);
            let mut i: usize = 0;
            assert(members@.take(0) =~= Seq::<(String, Json)>::empty());
            while i < members.len()
                invariant
                    *value == Json::Object(*members),
                    i <= members.len(),
                    song_views(out@) == start + head_v + collected_members(
                        members@.take(i as int),
                    ),
                decreases members.len() - i,
            {
                proof {
                    assert(decreases_to!(*value => (*value)->Object_0));
                    assert(decreases_to!(*members => members[i as int]));
                    assert(decreases_to!(members[i as int] => members[i as int].1));
                    let sub = members@.take(i + 1);
                    assert(sub.drop_last() =~= members@.take(i as int));
                    assert(sub.last() == members@[i as int]);
                }
                collect_song_details(&members[i].1, out);
                assert(song_views(out@) =~= start + head_v + collected_members(
                    members@.take(i + 1),
                ));
                i += 1;
            }
            assert(members@.take(members.len() as int) =~= members@);
        },
        _ => {
            assert(song_views(out@) =~= start + Seq::<SongDetailView>::empty());
        },
    }
}

/// The key under which two songs count as the same: title, `::`, artist.
pub open spec fn song_key(s: SongDetailView) -> Seq<char> {
    s.title + "::"@ + s.artist
}

/// The songs of `s` whose key no earlier song has, in order.
pub open spec fn deduped(s: Seq<SongDetailView>) -> Seq<SongDetailView>
    decreases s.len(),
{
    if s.len() == 0 {
        s
    } else {
        let r = deduped(s.drop_last());
        if exists|j: int| 0 <= j < s.len() - 1 && song_key(#[trigger] s[j]) == song_key(s.last()) {
            r
        } else {
            r.push(s.last())
        }
    }
}

fn song_key_of(s: &SongDetail) -> (r: Vec<char>)
    ensures
        r@ == song_key(s@),
{
    let mut k = chars_of(s.title.as_str());
    append_chars(&mut k, &lit("::"));
    append_chars(&mut k, &chars_of(s.artist.as_str()));
    k
}

/// Keeps the first song of each title and artist.
pub fn dedupe_song_details(songs: Vec<SongDetail>) -> (r: Vec<SongDetail>)
    ensures
        song_views(r@) == deduped(song_views(songs@)),
{
    let mut out: Vec<SongDetail> = Vec::new();
    let mut keys: Vec<Vec<char>> = Vec::new();
    let mut i: usize = 0;
    let ghost all = song_views(songs@);
    assert(all.take(0) =~= Seq::<SongDetailView>::empty());
    assert(song_views(out@) =~= Seq::<SongDetailView>::empty());
    while i < songs.len()
        invariant
            all == song_views(songs@),
            i <= songs.len(),
            keys.len() == i,
            forall|j: int| 0 <= j < i ==> (#[trigger] keys@[j])@ == song_key(all[j]),
            song_views(out@) == deduped(all.take(i as int)),
        decreases songs.len() - i,
    {
        let k = song_key_of(&songs[i]);
        let dup = contains_chars(&keys, &k);
        let ghost sub = all.take(i + 1);
        proof {
            assert(sub.drop_last() =~= all.take(i as int));
            assert(sub.last() == all[i as int]);
            if dup {
                let idx = choose|idx: int| 0 <= idx < views(keys@).len() && views(keys@)[idx] == k@;
                assert(views(keys@)[idx] == keys@[idx]@);
                assert(sub[idx] == all[idx]);
                assert(0 <= idx < sub.len() - 1 && song_key(sub[idx]) == song_key(sub.last()));
            } else {
                assert forall|j: int| 0 <= j < sub.len() - 1 implies song_key(#[trigger] sub[j])
                    != song_key(sub.last()) by {
                    assert(views(keys@)[j] == keys@[j]@);
                    assert(sub[j] == all[j]);
                }
            }
        }
        if !dup {
            let ghost before = song_views(out@);
            out.push(songs[i].copied());
            assert(song_views(out@) =~= before.push(all[i as int]));
        }
        keys.push(k);
        i += 1;
    }
    assert(all.take(songs.len() as int) =~= all);
    out
}


/// Where the JSON value that starts at `s[0]` ends: the scan counts
/// brackets outside strings (skipping escaped characters inside them) and
/// stops just after the bracket that brings the count back to zero.
pub open spec fn balance_scan(s: Seq<char>, i: int, depth: int, in_str: bool, escape: bool) -> Option<
    int,
>
    decreases s.len() - i,
{
    if i < 0 || i >= s.len() {
        None
    } else if in_str {
        if escape {
            balance_scan(s, i + 1, depth, true, false)
        } else if s[i] == '\\' {
            balance_scan(s, i + 1, depth, true, true)
        } else if s[i] == '"' {
            balance_scan(s, i + 1, depth, false, false)
        } else {
            balance_scan(s, i + 1, depth, true, false)
        }
    } else if s[i] == '"' {
        balance_scan(s, i + 1, depth, true, false)
    } else if s[i] == '{' || s[i] == '[' {
        balance_scan(s, i + 1, depth + 1, false, false)
    } else if s[i] == '}' || s[i] == ']' {
        if depth - 1 == 0 {
            Some(i + 1)
        } else {
            balance_scan(s, i + 1, depth - 1, false, false)
        }
    } else {
        balance_scan(s, i + 1, depth, false, false)
    }
}

/// The length of the balanced JSON text at the start of `s`, if it closes.
pub open spec fn balanced_end(s: Seq<char>) -> Option<int> {
    balance_scan(s, 0, 0, false, false)
}

fn balanced_end_chars(s: &Vec<char>) -> (r: Option<usize>)
    ensures
        match balanced_end(s@) {
            Some(k) => r matches Some(e) && e == k && k <= s.len(),
            None => r is None,
        },
{
    let mut i: usize = 0;
    let mut depth: i128 = 0;
    let mut in_str = false;
    let mut escape = false;
    while i < s.len()
        invariant
            i <= s.len(),
            -(i as int) <= depth <= i,
            !in_str ==> !escape,
            balanced_end(s@) == balance_scan(s@, i as int, depth as int, in_str, escape),
        decreases s.len() - i,
    {
        let c = s[i];
        if in_str {
            if escape {
                escape = false;
            } else if c == '\\' {
                escape = true;
            } else if c == '"' {
                in_str = false;
            }
        } else if c == '"' {
            in_str = true;
        } else if c == '{' || c == '[' {
            depth = depth + 1;
        } else if c == '}' || c == ']' {
            depth = depth - 1;
            if depth == 0 {
                return Some(i + 1);
            }
        }
        i += 1;
    }
    None
}

/// The balanced JSON text at the start of `text`, if its brackets close.
pub fn balanced_json_slice(text: &str) -> (r: Option<String>)
    ensures
        match balanced_end(text@) {
            Some(k) => r is Some && r->0@ == text@.take(k),
            None => r is None,
        },
{
    let v = chars_of(text);
    match balanced_end_chars(&v) {
        Some(k) => {
            let head = slice_chars(&v, 0, k);
            Some(string_of(&head))
        },
        None => None,
    }
}

/// The document that starts at the first `open` bracket of `tail`.
pub open spec fn json_after(tail: Seq<char>, open: char) -> Option<Json> {
    match find(tail, seq![open]) {
        None => None,
        Some(start) => {
            let rest = tail.skip(start);
            match balanced_end(rest) {
                None => None,
                Some(k) => parsed_json(rest.take(k)),
            }
        },
    }
}

fn json_after_chars(tail: &Vec<char>, open: char) -> (r: Option<Json>)
    ensures
        r == json_after(tail@, open),
{
    let o: Vec<char> = vec![open];
    assert(o@ =~= seq![open]);
    match find_exec(tail, &o) {
        None => None,
        Some(start) => {
            proof {
                lemma_find_from(tail@, o@, 0);
            }
            let rest = slice_chars(tail, start, tail.len());
            assert(rest@ =~= tail@.skip(start as int));
            match balanced_end_chars(&rest) {
                None => None,
                Some(k) => {
                    let doc = string_of(&slice_chars(&rest, 0, k));
                    assert(doc@ =~= rest@.take(k as int));
                    parse_json(doc.as_str())
                },
            }
        },
    }
}

/// The document assigned after `marker` (`marker … = {…}` or `[…]`).
pub open spec fn assigned_json(text: Seq<char>, marker: Seq<char>) -> Option<Json> {
    match find(text, marker) {
        None => None,
        Some(pos) => {
            let tail = text.skip(pos + marker.len());
            match find(tail, "="@) {
                None => None,
                Some(eq) => {
                    let after = tail.skip(eq + 1);
                    match json_after(after, '{') {
                        Some(v) => Some(v),
                        None => json_after(after, '['),
                    }
                },
            }
        },
    }
}

fn assigned_json_chars(text: &Vec<char>, marker: &Vec<char>) -> (r: Option<Json>)
    ensures
        r == assigned_json(text@, marker@),
{
    match find_exec(text, marker) {
        None => None,
        Some(pos) => {
            proof {
                lemma_find_from(text@, marker@, 0);
            }
            let len = text.len();
            let tail = slice_chars(text, pos + marker.len(), len);
            assert(tail@ =~= text@.skip(pos + marker.len()));
            let eqs = lit("=");
            proof {
                reveal_strlit("=");
            }
            match find_exec(&tail, &eqs) {
                None => None,
                Some(eq) => {
                    proof {
                        lemma_find_from(tail@, eqs@, 0);
                    }
                    let tlen = tail.len();
                    let after = slice_chars(&tail, eq + 1, tlen);
                    assert(after@ =~= tail@.skip(eq + 1));
                    match json_after_chars(&after, '{') {
                        Some(v) => Some(v),
                        None => json_after_chars(&after, '['),
                    }
                },
            }
        },
    }
}

/// Reads the JSON document assigned after `marker` in a page script.
pub fn extract_assigned_json(text: &str, marker: &str) -> (r: Option<Json>)
    ensures
        r == assigned_json(text@, marker@),
{
    assigned_json_chars(&chars_of(text), &chars_of(marker))
}

/// A value as a sequence of zero or one values.
pub open spec fn json_seq(o: Option<Json>) -> Seq<Json> {
    match o {
        Some(v) => seq![v],
        None => Seq::empty(),
    }
}

/// The documents after the first `marker`: the one that opens with `{`,
/// then the one that opens with `[`.
pub open spec fn values_after(text: Seq<char>, marker: Seq<char>) -> Seq<Json> {
    match find(text, marker) {
        None => Seq::empty(),
        Some(pos) => {
            let tail = text.skip(pos + marker.len());
            json_seq(json_after(tail, '{')) + json_seq(json_after(tail, '['))
        },
    }
}

/// The documents after each of `markers`, in the markers' order.
pub open spec fn values_after_all(text: Seq<char>, markers: Seq<Seq<char>>) -> Seq<Json>
    decreases markers.len(),
{
    if markers.len() == 0 {
        Seq::empty()
    } else {
        values_after_all(text, markers.drop_last()) + values_after(text, markers.last())
    }
}

/// The markers after which shared pages carry song data.
pub open spec fn value_markers() -> Seq<Seq<char>> {
    seq![
        "window.__INITIAL_STATE__="@,
        "window.__INITIAL_DATA__="@,
        "__NUXT__="@,
        "var nData"@,
        "\"data\""@,
        "\"info\""@,
        "\"listinfo\""@,
        "\"global_collection_id\""@,
        "songs"@,
        "\"songs\""@,
        "list"@,
    ]
}

/// The names shared pages assign their state to.
pub open spec fn assign_markers() -> Seq<Seq<char>> {
    seq![
        "var nData"@,
        "nData"@,
        "window.__INITIAL_STATE__"@,
        "window.__INITIAL_DATA__"@,
        "__NUXT__"@,
    ]
}

fn value_markers_vec() -> (r: Vec<Vec<char>>)
    ensures
        views(r@) == value_markers(),
{
    let mut r: Vec<Vec<char>> = Vec::new();
    r.push(lit("window.__INITIAL_STATE__="));
    r.push(lit("window.__INITIAL_DATA__="));
    r.push(lit("__NUXT__="));
    r.push(lit("var nData"));
    r.push(lit("\"data\""));
    r.push(lit("\"info\""));
    r.push(lit("\"listinfo\""));
    r.push(lit("\"global_collection_id\""));
    r.push(lit("songs"));
    r.push(lit("\"songs\""));
    r.push(lit("list"));
    assert(views(r@) =~= value_markers());
    r
}

fn assign_markers_vec() -> (r: Vec<Vec<char>>)
    ensures
        views(r@) == assign_markers(),
{
    let mut r: Vec<Vec<char>> = Vec::new();
    r.push(lit("var nData"));
    r.push(lit("nData"));
    r.push(lit("window.__INITIAL_STATE__"));
    r.push(lit("window.__INITIAL_DATA__"));
    r.push(lit("__NUXT__"));
    assert(views(r@) =~= assign_markers());
    r
}

fn values_after_chars(text: &Vec<char>, marker: &Vec<char>, out: &mut Vec<Json>)
    ensures
        final(out)@ == old(out)@ + values_after(text@, marker@),
{
    match find_exec(text, marker) {
        None => {
            assert(out@ =~= out@ + Seq::<Json>::empty());
        },
        Some(pos) => {
            proof {
                lemma_find_from(text@, marker@, 0);
            }
            let len = text.len();
            let tail = slice_chars(text, pos + marker.len(), len);
            assert(tail@ =~= text@.skip(pos + marker.len()));
            let ghost start = out@;
            match json_after_chars(&tail, '{') {
                Some(v) => out.push(v),
                None => {},
            }
            match json_after_chars(&tail, '[') {
                Some(v) => out.push(v),
                None => {},
            }
            assert(out@ =~= start + (json_seq(json_after(tail@, '{')) + json_seq(
                json_after(tail@, '['),
            )));
        },
    }
}

/// The JSON documents that follow the song-data markers of a page.
pub fn collect_json_values(text: &str) -> (r: Vec<Json>)
    ensures
        r@ == values_after_all(text@, value_markers()),
{
    let t = chars_of(text);
    let markers = value_markers_vec();
    let mut out: Vec<Json> = Vec::new();
    let mut i: usize = 0;
    while i < markers.len()
        invariant
            t@ == text@,
            views(markers@) == value_markers(),
            i <= markers.len(),
            out@ == values_after_all(text@, views(markers@).take(i as int)),
        decreases markers.len() - i,
    {
        proof {
            let sub = views(markers@).take(i + 1);
            assert(sub.drop_last() =~= views(markers@).take(i as int));
            assert(sub.last() == markers@[i as int]@);
        }
        values_after_chars(&t, &markers[i], &mut out);
        i += 1;
    }
    assert(views(markers@).take(markers.len() as int) =~= value_markers());
    out
}


/// The songs of a document, if there is one.
pub open spec fn opt_collected(o: Option<Json>) -> Seq<SongDetailView> {
    match o {
        Some(v) => collected(v),
        None => Seq::empty(),
    }
}

/// The songs of the documents assigned after each of `markers`.
pub open spec fn assigned_songs(c: Seq<char>, markers: Seq<Seq<char>>) -> Seq<SongDetailView>
    decreases markers.len(),
{
    if markers.len() == 0 {
        Seq::empty()
    } else {
        assigned_songs(c, markers.drop_last()) + opt_collected(assigned_json(c, markers.last()))
    }
}

/// `out` followed by the songs of `values` in turn, stopping after the
/// first document that brings the count to 500 or more.
pub open spec fn capped(out: Seq<SongDetailView>, values: Seq<Json>) -> Seq<SongDetailView>
    decreases values.len(),
{
    if values.len() == 0 {
        out
    } else {
        let next = out + collected(values[0]);
        if next.len() >= 500 {
            next
        } else {
            capped(next, values.skip(1))
        }
    }
}

/// `out` followed by what one reading of a page yields: the page as a
/// whole document, the documents assigned to the page's state names, and
/// the documents after its song-data markers.
pub open spec fn candidate_songs(out: Seq<SongDetailView>, c: Seq<char>) -> Seq<SongDetailView> {
    capped(
        out + opt_collected(parsed_json(trim(c))) + assigned_songs(c, assign_markers()),
        values_after_all(c, value_markers()),
    )
}

/// The songs of a shared page: the page read as it is, then with entities
/// decoded and slashes unescaped, without repeats.
pub open spec fn kugou_songs(text: Seq<char>) -> Seq<SongDetailView> {
    deduped(
        candidate_songs(
            candidate_songs(Seq::empty(), text),
            unescaped_slashes(html_decoded(text)),
        ),
    )
}

fn candidate_songs_into(c: &Vec<char>, out: &mut Vec<SongDetail>)
    ensures
        song_views(final(out)@) == candidate_songs(song_views(old(out)@), c@),
{
    let ghost start = song_views(out@);
    let trimmed = string_of(&trim_exec(c));
    match parse_json(trimmed.as_str()) {
        Some(v) => collect_song_details(&v, out),
        None => {},
    }
    let ghost whole = start + opt_collected(parsed_json(trim(c@)));
    assert(song_views(out@) =~= whole);
    let markers = assign_markers_vec();
    let mut i: usize = 0;
    assert(views(markers@).take(0) =~= Seq::<Seq<char>>::empty());
    assert(whole + Seq::<SongDetailView>::empty() =~= whole);
    while i < markers.len()
        invariant
            views(markers@) == assign_markers(),
            i <= markers.len(),
            song_views(out@) == whole + assigned_songs(c@, views(markers@).take(i as int)),
        decreases markers.len() - i,
    {
        proof {
            let sub = views(markers@).take(i + 1);
            assert(sub.drop_last() =~= views(markers@).take(i as int));
            assert(sub.last() == markers@[i as int]@);
        }
        let ghost before = song_views(out@);
        match assigned_json_chars(c, &markers[i]) {
            Some(v) => collect_song_details(&v, out),
            None => {},
        }
        assert(song_views(out@) =~= whole + assigned_songs(c@, views(markers@).take(i + 1)));
        i += 1;
    }
    assert(views(markers@).take(markers.len() as int) =~= assign_markers());
    let ghost base = song_views(out@);
    let values = collect_json_values(string_of(c).as_str());
    let mut j: usize = 0;
    assert(values@.skip(0) =~= values@);
    assert(candidate_songs(start, c@) == capped(base, values@));
    while j < values.len()
        invariant
            j <= values.len(),
            start == song_views(old(out)@),
            candidate_songs(start, c@) == capped(base, values@),
            capped(base, values@) == capped(song_views(out@), values@.skip(j as int)),
        decreases values.len() - j,
    {
        assert(values@.skip(j as int)[0] == values@[j as int]);
        assert(values@.skip(j as int).skip(1) =~= values@.skip(j + 1));
        let ghost cur = song_views(out@);
        collect_song_details(&values[j], out);
        assert(song_views(out@) == cur + collected(values@.skip(j as int)[0]));
        assert(song_views(out@).len() == out.len());
        if out.len() >= 500 {
            assert(capped(cur, values@.skip(j as int)) == song_views(out@));
            return;
        }
        j += 1;
    }
}

/// The songs found in a shared page's text (see `kugou_songs`).
pub fn extract_kugou_songs_from_text(text: &str) -> (r: Vec<SongDetail>)
    ensures
        song_views(r@) == kugou_songs(text@),
{
    let t = chars_of(text);
    let decoded = unescape_slashes_chars(&decode_html_chars(&t));
    let mut out: Vec<SongDetail> = Vec::new();
    assert(song_views(out@) =~= Seq::<SongDetailView>::empty());
    candidate_songs_into(&t, &mut out);
    candidate_songs_into(&decoded, &mut out);
    dedupe_song_details(out)
}

/// The part of `d` before its first `|`.
pub open spec fn before_bar(d: Seq<char>) -> Seq<char> {
    match find(d, "|"@) {
        Some(p) => d.take(p),
        None => d,
    }
}

/// The part of `d` between its first and second `|`, if it has a `|`.
pub open spec fn second_field(d: Seq<char>) -> Option<Seq<char>> {
    match find(d, "|"@) {
        None => None,
        Some(p) => {
            let rest = d.skip(p + 1);
            match find(rest, "|"@) {
                Some(q) => Some(rest.take(q)),
                None => Some(rest),
            }
        },
    }
}

/// The song one `<li>` element describes: its `data` attribute holds
/// `hash|length`, its `title` attribute `Artist - Title`, and its `<i>`
/// text the same for what the attribute lacks.  Titles that are empty,
/// hold `http` or take more than 200 bytes are no song.
pub open spec fn li_song(content: Seq<char>) -> Option<SongDetailView> {
    let data = html_attr(content, "data=\""@, '"');
    let title_attr = match html_attr(content, "title=\""@, '"') {
        Some(t) => t,
        None => Seq::empty(),
    };
    let from_attr: (Seq<char>, Seq<char>) = match halves(title_attr) {
        Some(h) => if trim(h.0).len() > 0 && trim(h.1).len() > 0 {
            (trim(h.0), trim(h.1))
        } else {
            (Seq::empty(), title_attr)
        },
        None => (Seq::empty(), title_attr),
    };
    let fallback = html_inner_text(content, "i"@);
    let artist = if from_attr.0.len() == 0 {
        fallback.0
    } else {
        from_attr.0
    };
    let title = if from_attr.1.len() == 0 {
        fallback.1
    } else {
        from_attr.1
    };
    if title.len() == 0 || contains(title, "http"@) || utf8_len(title) > 200 {
        None
    } else {
        Some(
            SongDetailView {
                id: match data {
                    Some(d) => before_bar(d),
                    None => "kg-li-"@ + title + "-"@ + artist,
                },
                title,
                artist: if artist.len() == 0 {
                    unknown_artist()
                } else {
                    artist
                },
                album: None,
                album_id: None,
                cover_url: None,
                duration: length_in(
                    match data {
                        Some(d) => second_field(d),
                        None => None,
                    },
                    TimeUnit::MillisecondsAbove10000,
                ),
                source_id: 0,
                platform: "kg"@,
            },
        )
    }
}

/// The songs of the `<li>…</li>` elements of `rest`, in order.
pub open spec fn li_songs(rest: Seq<char>) -> Seq<SongDetailView>
    decreases rest.len(),
{
    match find(rest, "<li>"@) {
        None => Seq::empty(),
        Some(s) => {
            let tail = rest.skip(s);
            match find(tail, "</li>"@) {
                None => Seq::empty(),
                Some(e) => {
                    if s < 0 || e < 0 || s + e + 5 > rest.len() {
                        Seq::empty()
                    } else {
                        song_seq(li_song(tail.take(e + 5))) + li_songs(rest.skip(s + e + 5))
                    }
                },
            }
        },
    }
}

/// The songs of a rendered song-list page, without repeats.
pub open spec fn html_list_songs(text: Seq<char>) -> Seq<SongDetailView> {
    deduped(li_songs(unescaped_slashes(html_decoded(text))))
}

fn before_bar_chars(d: &Vec<char>) -> (r: Vec<char>)
    ensures
        r@ == before_bar(d@),
{
    let bar = lit("|");
    match find_exec(d, &bar) {
        Some(p) => {
            proof {
                lemma_find_from(d@, bar@, 0);
            }
            let h = slice_chars(d, 0, p);
            assert(h@ =~= d@.take(p as int));
            h
        },
        None => {
            let h = slice_chars(d, 0, d.len());
            assert(h@ =~= d@);
            h
        },
    }
}

fn second_field_chars(d: &Vec<char>) -> (r: Option<Vec<char>>)
    ensures
        match second_field(d@) {
            Some(f) => r is Some && r->0@ == f,
            None => r is None,
        },
{
    let bar = lit("|");
    proof {
        reveal_strlit("|");
    }
    match find_exec(d, &bar) {
        None => None,
        Some(p) => {
            proof {
                lemma_find_from(d@, bar@, 0);
            }
            let len = d.len();
            let rest = slice_chars(d, p + 1, len);
            assert(rest@ =~= d@.skip(p + 1));
            Some(before_bar_chars(&rest))
        },
    }
}

fn li_song_chars(content: &Vec<char>) -> (r: Option<SongDetail>)
    ensures
        match li_song(content@) {
            Some(d) => r is Some && r->0@ == d,
            None => r is None,
        },
{
    let data = html_attr_chars(content, &lit("data=\""), '"');
    let title_attr = match html_attr_chars(content, &lit("title=\""), '"') {
        Some(t) => t,
        None => Vec::new(),
    };
    let mut artist: Vec<char> = Vec::new();
    let mut title = slice_chars(&title_attr, 0, title_attr.len());
    assert(title@ =~= title_attr@);
    match halves_chars(&title_attr) {
        Some((l, r)) => {
            let tl = trim_exec(&l);
            let tr = trim_exec(&r);
            if tl.len() > 0 && tr.len() > 0 {
                artist = tl;
                title = tr;
            }
        },
        None => {},
    }
    let (fb_artist, fb_title) = html_inner_text_chars(content, &lit("i"));
    if artist.len() == 0 {
        artist = fb_artist;
    }
    if title.len() == 0 {
        title = fb_title;
    }
    proof {
        reveal_strlit("http");
    }
    if title.len() == 0 || contains_exec(&title, &lit("http")) || utf8_longer_than(&title, 200) {
        return None;
    }
    let id = match &data {
        Some(d) => before_bar_chars(d),
        None => {
            let mut made = lit("kg-li-");
            append_chars(&mut made, &title);
            append_chars(&mut made, &lit("-"));
            append_chars(&mut made, &artist);
            made
        },
    };
    let duration = match &data {
        Some(d) => second_field_chars(d),
        None => None,
    };
    let shown = if artist.len() == 0 {
        lit("未知歌手")
    } else {
        artist
    };
    Some(
        SongDetail {
            id: string_of(&id),
            title: string_of(&title),
            artist: string_of(&shown),
            album: None,
            album_id: None,
            cover_url: None,
            duration: make_length(opt_string(duration), TimeUnit::MillisecondsAbove10000),
            source_id: 0,
            platform: string_of(&lit("kg")),
        },
    )
}

/// The songs of a rendered song-list page (`<li>` elements with `data`
/// and `title` attributes), without repeats.
pub fn extract_songs_from_html_lists(text: &str) -> (r: Vec<SongDetail>)
    ensures
        song_views(r@) == html_list_songs(text@),
{
    let decoded = unescape_slashes_chars(&decode_html_chars(&chars_of(text)));
    let open = lit("<li>");
    let close = lit("</li>");
    proof {
        reveal_strlit("</li>");
    }
    let mut rest = slice_chars(&decoded, 0, decoded.len());
    assert(rest@ =~= decoded@);
    let mut out: Vec<SongDetail> = Vec::new();
    assert(song_views(out@) + li_songs(rest@) =~= li_songs(rest@));
    loop
        invariant
            close@ == "</li>"@,
            close.len() == 5,
            open@ == "<li>"@,
            song_views(out@) + li_songs(rest@) == li_songs(unescaped_slashes(html_decoded(text@))),
        ensures
            song_views(out@) == li_songs(unescaped_slashes(html_decoded(text@))),
        decreases rest.len(),
    {
        let start = match find_exec(&rest, &open) {
            Some(s) => s,
            None => {
                assert(song_views(out@) + li_songs(rest@) =~= song_views(out@));
                break;
            },
        };
        proof {
            lemma_find_from(rest@, open@, 0);
        }
        let len = rest.len();
        let tail = slice_chars(&rest, start, len);
        assert(tail@ =~= rest@.skip(start as int));
        let end = match find_exec(&tail, &close) {
            Some(e) => e,
            None => {
                assert(song_views(out@) + li_songs(rest@) =~= song_views(out@));
                break;
            },
        };
        proof {
            lemma_find_from(tail@, close@, 0);
        }
        let content = slice_chars(&tail, 0, end + 5);
        assert(content@ =~= tail@.take(end + 5));
        let ghost before = song_views(out@);
        match li_song_chars(&content) {
            Some(song) => out.push(song),
            None => {},
        }
        assert(song_views(out@) =~= before + song_seq(li_song(content@)));
        let next = slice_chars(&rest, start + end + 5, len);
        assert(next@ =~= rest@.skip(start + end + 5));
        assert(song_views(out@) + li_songs(next@) =~= before + li_songs(rest@));
        rest = next;
    }
    dedupe_song_details(out)
}


/// Text that may be a pasted response body or page rather than a link:
/// not starting with `http://` or `https://`, and starting with `{` or `[`
/// or holding a `<`.
pub open spec fn looks_pasted(t: Seq<char>) -> bool {
    &&& !starts_with(t, "http://"@)
    &&& !starts_with(t, "https://"@)
    &&& (starts_with(t, "{"@) || starts_with(t, "["@) || contains(t, "<"@))
}

/// The songs of a page's text: those of its documents, else those of its
/// rendered song list.
pub open spec fn page_songs(t: Seq<char>) -> Seq<SongDetailView> {
    if kugou_songs(t).len() > 0 {
        kugou_songs(t)
    } else {
        html_list_songs(t)
    }
}

/// The name given to a shared playlist whose page names none.
pub open spec fn default_list_title() -> Seq<char> {
    "酷狗分享歌单"@
}

/// The source name of shared playlists.
pub open spec fn shared_source_name() -> Seq<char> {
    "酷狗分享"@
}

/// The address that lists the songs of a playlist by its collection id.
pub open spec fn collection_api() -> Seq<char> {
    "https://pubsongscdn.kugou.com/v2/get_other_list_file?type=0&module=playlist&global_collection_id="@
}

/// A pasted document's list name (`data.listname`), if it is a non-empty
/// string.
pub open spec fn list_title(doc: Option<Json>) -> Seq<char> {
    match doc {
        Some(v) => match get(v, "data"@) {
            Some(d) => match get(d, "listname"@) {
                Some(Json::Str(n)) => if n@.len() > 0 {
                    n@
                } else {
                    default_list_title()
                },
                _ => default_list_title(),
            },
            None => default_list_title(),
        },
        None => default_list_title(),
    }
}

/// The song-list address of a pasted document's collection id
/// (`data.global_collection_id`, else the top-level one), or the empty text.
pub open spec fn list_link(doc: Option<Json>) -> Seq<char> {
    match doc {
        None => Seq::empty(),
        Some(v) => {
            let inner = match get(v, "data"@) {
                Some(d) => get(d, "global_collection_id"@),
                None => None,
            };
            let g = if inner is Some {
                inner
            } else {
                get(v, "global_collection_id"@)
            };
            match g {
                Some(Json::Str(id)) => collection_api() + id@,
                _ => Seq::empty(),
            }
        },
    }
}

/// The playlist that pasted text describes: text that looks pasted and
/// holds songs, named and linked by its document where it is one.
pub open spec fn pasted_playlist(text: Seq<char>) -> Option<SharedPlaylistView> {
    let t = trim(text);
    if !looks_pasted(t) || page_songs(t).len() == 0 {
        None
    } else {
        let doc = parsed_json(t);
        Some(
            SharedPlaylistView {
                playlist: PlaylistInfoView {
                    id: list_link(doc),
                    name: list_title(doc),
                    cover: first_image(t),
                    song_count: Some(page_songs(t).len() as usize),
                    source_id: 0,
                    source_name: shared_source_name(),
                },
                songs: page_songs(t),
                external_url: list_link(doc),
                note: None,
            },
        )
    }
}

/// The songs of a page's text (see `page_songs`).
pub fn songs_from_page_text(text: &str) -> (r: Vec<SongDetail>)
    ensures
        song_views(r@) == page_songs(text@),
{
    let songs = extract_kugou_songs_from_text(text);
    if songs.len() > 0 {
        songs
    } else {
        extract_songs_from_html_lists(text)
    }
}

fn list_title_of(doc: &Option<Json>) -> (r: Vec<char>)
    ensures
        r@ == list_title(*doc),
{
    if let Some(v) = doc {
        if let Some(d) = get_member(v, "data") {
            if let Some(Json::Str(n)) = get_member(d, "listname") {
                let name = chars_of(n.as_str());
                if name.len() > 0 {
                    return name;
                }
            }
        }
    }
    lit("酷狗分享歌单")
}

fn list_link_of(doc: &Option<Json>) -> (r: Vec<char>)
    ensures
        r@ == list_link(*doc),
{
    match doc {
        None => Vec::new(),
        Some(v) => {
            let inner = match get_member(v, "data") {
                Some(d) => get_member(d, "global_collection_id"),
                None => None,
            };
            let g = if inner.is_some() {
                inner
            } else {
                get_member(v, "global_collection_id")
            };
            match g {
                Some(Json::Str(id)) => {
                    let mut link = lit(
                        "https://pubsongscdn.kugou.com/v2/get_other_list_file?type=0&module=playlist&global_collection_id=",
                    );
                    append_chars(&mut link, &chars_of(id.as_str()));
                    link
                },
                _ => Vec::new(),
            }
        },
    }
}

/// Reads pasted text (a response body or a page) as a shared playlist
/// (see `pasted_playlist`).
pub fn try_parse_pasted_text(text: &str) -> (r: Option<SharedPlaylist>)
    requires
        pasted_readable(trim(text@)),
    ensures
        match pasted_playlist(text@) {
            Some(p) => r is Some && r->0@ == p,
            None => r is None,
        },
{
    let tv = trim_exec(&chars_of(text));
    if starts_with_exec(&tv, &lit("http://")) || starts_with_exec(&tv, &lit("https://")) {
        return None;
    }
    if !starts_with_exec(&tv, &lit("{")) && !starts_with_exec(&tv, &lit("[")) && !contains_exec(
        &tv,
        &lit("<"),
    ) {
        return None;
    }
    let trimmed = string_of(&tv);
    let songs = songs_from_page_text(trimmed.as_str());
    if songs.len() == 0 {
        return None;
    }
    let doc = parse_json(trimmed.as_str());
    let link = list_link_of(&doc);
    let cover = extract_first_image(trimmed.as_str());
    let count = songs.len();
    Some(
        SharedPlaylist {
            playlist: PlaylistInfo {
                id: string_of(&link),
                name: string_of(&list_title_of(&doc)),
                cover,
                song_count: Some(count),
                source_id: 0,
                source_name: string_of(&lit("酷狗分享")),
            },
            songs,
            external_url: string_of(&link),
            note: None,
        },
    )
}

/// Pasted text can be read as a playlist: when it looks pasted and holds
/// songs, its preview image can be looked for (see `first_image_safe`).
pub open spec fn pasted_readable(t: Seq<char>) -> bool {
    looks_pasted(t) && page_songs(t).len() > 0 ==> first_image_safe(t)
}

/// Tests `pasted_readable` of the trimmed text.
pub fn pasted_text_readable(text: &str) -> (r: bool)
    ensures
        r == pasted_readable(trim(text@)),
{
    let tv = trim_exec(&chars_of(text));
    if starts_with_exec(&tv, &lit("http://")) || starts_with_exec(&tv, &lit("https://")) {
        return true;
    }
    if !starts_with_exec(&tv, &lit("{")) && !starts_with_exec(&tv, &lit("[")) && !contains_exec(
        &tv,
        &lit("<"),
    ) {
        return true;
    }
    let trimmed = string_of(&tv);
    let songs = songs_from_page_text(trimmed.as_str());
    if songs.len() == 0 {
        return true;
    }
    first_image_readable(trimmed.as_str())
}

/// What to do with a pasted share: the playlist it holds, or the link to
/// fetch.
pub enum ShareStep {
    Parsed(SharedPlaylist),
    Fetch(String),
}

/// The answer when pasted text is neither a playlist nor a share link.
pub open spec fn unrecognized_share() -> Seq<char> {
    "没有找到可解析的酷狗歌单链接或数据，请粘贴完整分享链接、API响应JSON或页面HTML内容"@
}

/// Whether `r` is the first step of reading the (trimmed) pasted text `t`:
/// the playlist it holds, else the share link found in it, else the refusal.
pub open spec fn share_planned(t: Seq<char>, r: Result<ShareStep, String>) -> bool {
    match pasted_playlist(t) {
        Some(p) => r matches Ok(ShareStep::Parsed(q)) && q@ == p,
        None => match share_url(t) {
            Some(u) => r matches Ok(ShareStep::Fetch(v)) && v@ == u,
            None => r matches Err(e) && e@ == unrecognized_share(),
        },
    }
}

/// The first step of reading a share: pasted text that holds a playlist
/// gives it, else a share link found in the text is to be fetched, else
/// the share is refused.
pub fn plan_shared_playlist(input: &str) -> (r: Result<ShareStep, String>)
    requires
        pasted_readable(trim(input@)),
    ensures
        share_planned(trim(input@), r),
{
    let trimmed = string_of(&trim_exec(&chars_of(input)));
    proof {
        lemma_trim_idempotent(input@);
    }
    match try_parse_pasted_text(trimmed.as_str()) {
        Some(p) => Ok(ShareStep::Parsed(p)),
        None => match normalize_share_url(trimmed.as_str()) {
            Some(u) => Ok(ShareStep::Fetch(u)),
            None => Err(
                string_of(
                    &lit(
                        "没有找到可解析的酷狗歌单链接或数据，请粘贴完整分享链接、API响应JSON或页面HTML内容",
                    ),
                ),
            ),
        },
    }
}

/// The first step of reading a pasted share (see `plan_shared_playlist`),
/// or nothing when the text holds songs but its preview image cannot be
/// cut out of it (see `pasted_text_readable`).
pub fn checked_share_plan(input: &str) -> (r: Option<Result<ShareStep, String>>)
    ensures
        pasted_readable(trim(input@)) ==> (r matches Some(x) && share_planned(trim(input@), x)),
        !pasted_readable(trim(input@)) ==> r is None,
{
    if pasted_text_readable(input) {
        Some(plan_shared_playlist(input))
    } else {
        None
    }
}

/// The note shown when a share link gave no songs.
pub open spec fn empty_share_note() -> Seq<char> {
    "已识别酷狗歌单链接，但页面和公开接口都没有返回可解析歌曲。请确认链接不是私密歌单，或重新复制完整分享链接。如果是在浏览器中登录后复制的页面内容，可以尝试直接粘贴页面HTML。"@
}

/// The playlist of a fetched share: named and pictured as its page says,
/// identified by the address the link led to, with a note when no song was
/// found.
pub fn shared_playlist_from_page(
    songs: Vec<SongDetail>,
    final_url: String,
    title: String,
    cover: Option<String>,
) -> (r: SharedPlaylist)
    ensures
        r@ == (SharedPlaylistView {
            playlist: PlaylistInfoView {
                id: final_url@,
                name: title@,
                cover: opt_view(cover),
                song_count: Some(songs.len()),
                source_id: 0,
                source_name: shared_source_name(),
            },
            songs: song_views(songs@),
            external_url: final_url@,
            note: if songs.len() == 0 {
                Some(empty_share_note())
            } else {
                None
            },
        }),
{
    let note = if songs.len() == 0 {
        Some(
            string_of(
                &lit(
                    "已识别酷狗歌单链接，但页面和公开接口都没有返回可解析歌曲。请确认链接不是私密歌单，或重新复制完整分享链接。如果是在浏览器中登录后复制的页面内容，可以尝试直接粘贴页面HTML。",
                ),
            ),
        )
    } else {
        None
    };
    let count = songs.len();
    SharedPlaylist {
        playlist: PlaylistInfo {
            id: final_url.clone(),
            name: title,
            cover,
            song_count: Some(count),
            source_id: 0,
            source_name: string_of(&lit("酷狗分享")),
        },
        songs,
        external_url: final_url,
        note,
    }
}


/// What `str::to_lowercase` gives for a text (Unicode lower case; a
/// character may become several).
pub uninterp spec fn lowercased(s: Seq<char>) -> Seq<char>;

/// `str::to_lowercase`; the contract names the result `lowercased` of the
/// text and says nothing more of it.
#[verifier::external_body]
fn to_lower(s: &str) -> (r: String)
    ensures
        r@ == lowercased(s@),
{
    s.to_lowercase()
}

/// The index of the character that starts at byte `b` of `s` (the length
/// of `s` for its end), if a character starts there.
pub open spec fn byte_to_char(s: Seq<char>, b: int) -> Option<int>
    decreases s.len(),
{
    if b == 0 {
        Some(0)
    } else if b < 0 || s.len() == 0 || char_width(s[0]) > b {
        None
    } else {
        match byte_to_char(s.skip(1), b - char_width(s[0])) {
            Some(k) => Some(k + 1),
            None => None,
        }
    }
}

/// The byte range of the title element's text, found in the lower-cased
/// page: from the end of `<title>` to the start of the next `</title>`.
pub open spec fn title_bytes(lower: Seq<char>) -> Option<(int, int)> {
    match find(lower, "<title>"@) {
        None => None,
        Some(i) => match find(lower.skip(i + 7), "</title>"@) {
            None => None,
            Some(e) => Some((utf8_len(lower.take(i + 7)) as int, utf8_len(lower.take(i + 7 + e)) as int)),
        },
    }
}

/// The title's byte range, read off the lower-cased page, falls between
/// characters of the page itself (else reading it would cut a character).
pub open spec fn title_readable(text: Seq<char>, lower: Seq<char>) -> bool {
    match title_bytes(lower) {
        None => true,
        Some(r) => byte_to_char(text, r.0) is Some && byte_to_char(text, r.1) is Some,
    }
}

/// The page title: the text of its title element (located in the
/// lower-cased page `lower`), trimmed, entities decoded, the site's
/// `- 酷狗音乐` and `_酷狗音乐` suffixes removed and trimmed again; nothing
/// when there is no title element or it is blank.
pub open spec fn html_title(text: Seq<char>, lower: Seq<char>) -> Option<Seq<char>> {
    match title_bytes(lower) {
        None => None,
        Some(r) => match (byte_to_char(text, r.0), byte_to_char(text, r.1)) {
            (Some(a), Some(b)) => if a <= b {
                let t = trim(
                    replace_all(
                        replace_all(
                            html_decoded(trim(text.subrange(a, b))),
                            " - 酷狗音乐"@,
                            Seq::empty(),
                        ),
                        "_酷狗音乐"@,
                        Seq::empty(),
                    ),
                );
                if t.len() > 0 {
                    Some(t)
                } else {
                    None
                }
            } else {
                None
            },
            _ => None,
        },
    }
}

proof fn lemma_byte_to_char_bound(s: Seq<char>, b: int)
    ensures
        byte_to_char(s, b) matches Some(k) ==> 0 <= k <= s.len(),
    decreases s.len(),
{
    if b != 0 && b >= 0 && s.len() > 0 && char_width(s[0]) <= b {
        lemma_byte_to_char_bound(s.skip(1), b - char_width(s[0]));
    }
}

fn byte_to_char_exec(s: &Vec<char>, b: u128) -> (r: Option<usize>)
    ensures
        match byte_to_char(s@, b as int) {
            Some(k) => r matches Some(j) && j == k,
            None => r is None,
        },
{
    let mut i: usize = 0;
    let mut left: u128 = b;
    assert(s@.skip(0) =~= s@);
    while left > 0
        invariant
            i <= s.len(),
            left <= b,
            match byte_to_char(s@, b as int) {
                Some(k) => byte_to_char(s@.skip(i as int), left as int) matches Some(k2) && k == k2
                    + i,
                None => byte_to_char(s@.skip(i as int), left as int) is None,
            },
        decreases left,
    {
        if i == s.len() {
            return None;
        }
        let w = char_width_exec(s[i]) as u128;
        if w > left {
            return None;
        }
        proof {
            assert(s@.skip(i as int)[0] == s@[i as int]);
            assert(s@.skip(i as int).skip(1) =~= s@.skip(i + 1));
            lemma_byte_to_char_bound(s@.skip(i + 1), (left - w) as int);
        }
        left = left - w;
        i += 1;
    }
    Some(i)
}

fn utf8_len_exec(s: &Vec<char>, n: usize) -> (r: u128)
    requires
        n <= s.len(),
    ensures
        r == utf8_len(s@.take(n as int)),
{
    let mut i: usize = 0;
    let mut count: u128 = 0;
    assert(s@.take(0) =~= Seq::<char>::empty());
    while i < n
        invariant
            n <= s.len(),
            i <= n,
            count == utf8_len(s@.take(i as int)),
            count <= 4 * i,
        decreases n - i,
    {
        assert(s@.take(i + 1).drop_last() =~= s@.take(i as int));
        let w = char_width_exec(s[i]) as u128;
        count = count + w;
        i += 1;
    }
    count
}

/// The title of a page whose lower-cased text is `lower` (see `html_title`).
pub fn html_title_in(text: &str, lower: &str) -> (r: Option<String>)
    requires
        title_readable(text@, lower@),
    ensures
        match html_title(text@, lower@) {
            Some(t) => r matches Some(s) && s@ == t,
            None => r is None,
        },
{
    match title_range(text, lower) {
        Some(Some((a, b))) => title_between(text, a, b),
        _ => None,
    }
}

/// The character range of the title in the page, when its bytes fall
/// between characters.
/// `None` when the lower-cased page has no title element; `Some(None)`
/// when its byte positions do not fall between the page's characters.
fn title_range(text: &str, lower: &str) -> (r: Option<Option<(usize, usize)>>)
    ensures
        match title_bytes(lower@) {
            None => r is None,
            Some(bytes) => match (byte_to_char(text@, bytes.0), byte_to_char(text@, bytes.1)) {
                (Some(a), Some(b)) => r matches Some(Some(p)) && p.0 == a && p.1 == b,
                _ => r matches Some(None),
            },
        },
        r matches Some(Some(p)) ==> p.0 <= text@.len() && p.1 <= text@.len(),
{
    let lv = chars_of(lower);
    let tv = chars_of(text);
    let open = lit("<title>");
    let close = lit("</title>");
    proof {
        reveal_strlit("<title>");
    }
    let i = match find_exec(&lv, &open) {
        Some(i) => i,
        None => {
            return None;
        },
    };
    proof {
        lemma_find_from(lv@, open@, 0);
    }
    let len = lv.len();
    let after = slice_chars(&lv, i + 7, len);
    assert(after@ =~= lv@.skip(i + 7));
    let e = match find_exec(&after, &close) {
        Some(e) => e,
        None => {
            return None;
        },
    };
    proof {
        lemma_find_from(after@, close@, 0);
    }
    let sb = utf8_len_exec(&lv, i + 7);
    let eb = utf8_len_exec(&lv, i + 7 + e);
    proof {
        lemma_byte_to_char_bound(tv@, sb as int);
        lemma_byte_to_char_bound(tv@, eb as int);
    }
    match (byte_to_char_exec(&tv, sb), byte_to_char_exec(&tv, eb)) {
        (Some(a), Some(b)) => Some(Some((a, b))),
        _ => Some(None),
    }
}

fn title_between(text: &str, a: usize, b: usize) -> (r: Option<String>)
    requires
        a <= text@.len(),
        b <= text@.len(),
    ensures
        a <= b ==> match (
            if trim(
                replace_all(
                    replace_all(
                        html_decoded(trim(text@.subrange(a as int, b as int))),
                        " - 酷狗音乐"@,
                        Seq::empty(),
                    ),
                    "_酷狗音乐"@,
                    Seq::empty(),
                ),
            ).len() > 0 {
                Some(
                    trim(
                        replace_all(
                            replace_all(
                                html_decoded(trim(text@.subrange(a as int, b as int))),
                                " - 酷狗音乐"@,
                                Seq::empty(),
                            ),
                            "_酷狗音乐"@,
                            Seq::empty(),
                        ),
                    ),
                )
            } else {
                None
            }
        ) {
            Some(t) => r matches Some(s) && s@ == t,
            None => r is None,
        },
        !(a <= b) ==> r is None,
{
    if a > b {
        return None;
    }
    let tv = chars_of(text);
    let raw = slice_chars(&tv, a, b);
    let decoded = decode_html_chars(&trim_exec(&raw));
    proof {
        reveal_strlit(" - 酷狗音乐");
        reveal_strlit("_酷狗音乐");
    }
    let empty: Vec<char> = Vec::new();
    let one = replace_all_exec(&decoded, &lit(" - 酷狗音乐"), &empty);
    let two = replace_all_exec(&one, &lit("_酷狗音乐"), &empty);
    assert(empty@ =~= Seq::<char>::empty());
    let t = trim_exec(&two);
    if t.len() > 0 {
        Some(string_of(&t))
    } else {
        None
    }
}

/// Whether the title element of a page, located in its lower-cased text,
/// falls between the page's own characters (see `title_readable`).
pub fn html_title_readable(text: &str) -> (r: bool)
    ensures
        r == title_readable(text@, lowercased(text@)),
{
    let lower = to_lower(text);
    match title_range(text, lower.as_str()) {
        Some(None) => false,
        _ => true,
    }
}

/// The title of a page: its lower-cased text locates the title element
/// (see `html_title`).  The page must be one whose title element, so
/// located, falls between its characters.
pub fn extract_html_title(text: &str) -> (r: Option<String>)
    requires
        title_readable(text@, lowercased(text@)),
    ensures
        match html_title(text@, lowercased(text@)) {
            Some(t) => r matches Some(s) && s@ == t,
            None => r is None,
        },
{
    let lower = to_lower(text);
    match title_range(text, lower.as_str()) {
        Some(Some((a, b))) => title_between(text, a, b),
        _ => None,
    }
}

/// The name a fetched share page gives its playlist: the page's title (see
/// `extract_html_title`), else `酷狗分享歌单`.
pub open spec fn page_title(text: Seq<char>) -> Seq<char> {
    match html_title(text, lowercased(text)) {
        Some(t) => t,
        None => "酷狗分享歌单"@,
    }
}

/// The name a fetched share page gives its playlist (see `page_title`).
pub fn shared_page_title(text: &str) -> (r: String)
    requires
        title_readable(text@, lowercased(text@)),
    ensures
        r@ == page_title(text@),
{
    match extract_html_title(text) {
        Some(t) => t,
        None => "酷狗分享歌单".to_string(),
    }
}

/// The name of a fetched share page (see `page_title`), or nothing when its
/// title element cannot be cut out of it (see `html_title_readable`).
pub fn checked_page_title(text: &str) -> (r: Option<String>)
    ensures
        title_readable(text@, lowercased(text@)) ==> (r matches Some(s) && s@ == page_title(text@)),
        !title_readable(text@, lowercased(text@)) ==> r is None,
{
    if html_title_readable(text) {
        Some(shared_page_title(text))
    } else {
        None
    }
}

/// The texts of `urls` other than `a` and `b`, in order.
pub open spec fn except_two(urls: Seq<Seq<char>>, a: Seq<char>, b: Seq<char>) -> Seq<Seq<char>>
    decreases urls.len(),
{
    if urls.len() == 0 {
        urls
    } else {
        let r = except_two(urls.drop_last(), a, b);
        if urls.last() == a || urls.last() == b {
            r
        } else {
            r.push(urls.last())
        }
    }
}

/// The other addresses to try when a share page shows no songs: the Kugou
/// links of the page, then the candidate addresses of the share, except
/// the link itself and the address it led to.
pub open spec fn nested_urls(url: Seq<char>, final_url: Seq<char>, text: Seq<char>) -> Seq<
    Seq<char>,
> {
    except_two(kugou_urls(text) + candidate_urls(url, final_url, text), url, final_url)
}

/// The other addresses to try when a share page shows no songs (see
/// `nested_urls`).
pub fn nested_share_urls(url: &str, final_url: &str, text: &str) -> (r: Vec<String>)
    requires
        candidate_scan_safe(url@, final_url@, text@),
    ensures
        string_views(r@) == nested_urls(url@, final_url@, text@),
{
    let mut all = extract_kugou_urls(text);
    let mut more = kugou_playlist_candidate_urls(url, final_url, text);
    let ghost first = string_views(all@);
    let ghost second = string_views(more@);
    all.append(&mut more);
    assert(string_views(all@) =~= first + second);
    let ghost whole = string_views(all@);
    let u = chars_of(url);
    let f = chars_of(final_url);
    let mut out: Vec<String> = Vec::new();
    let mut i: usize = 0;
    assert(whole.take(0) =~= Seq::<Seq<char>>::empty());
    assert(string_views(out@) =~= Seq::<Seq<char>>::empty());
    while i < all.len()
        invariant
            i <= all.len(),
            whole == string_views(all@),
            u@ == url@,
            f@ == final_url@,
            string_views(out@) == except_two(whole.take(i as int), url@, final_url@),
        decreases all.len() - i,
    {
        proof {
            let sub = whole.take(i + 1);
            assert(sub.drop_last() =~= whole.take(i as int));
            assert(sub.last() == all@[i as int]@);
        }
        let c = chars_of(all[i].as_str());
        if !seq_eq(&c, &u) && !seq_eq(&c, &f) {
            let ghost before = string_views(out@);
            out.push(all[i].clone());
            assert(string_views(out@) =~= before.push(all@[i as int]@));
        }
        i += 1;
    }
    assert(whole.take(i as int) =~= whole);
    out
}

} // verus!
