//! Playable links: reading a service's answer for a song's link, the
//! format and quality labels of audio, the cache name of a link, and local
//! audio links turned back into file paths.
use vstd::prelude::*;
use crate::json::{get, get_member, lemma_get_decreases, Json};
use crate::markup::lit;
use crate::songs::SongUrlResult;
use crate::text::{
    ascii_lower, ascii_lower_exec, chars_of, contains, contains_exec, ends_with, ends_with_exec,
    find, find_exec, lemma_find_from, slice_chars, starts_with, starts_with_exec, string_of, trim,
    trim_exec,
};

verus! {

/// The digit character of `d` (below ten).
pub open spec fn digit_char(d: nat) -> char {
    if d == 0 {
        '0'
    } else if d == 1 {
        '1'
    } else if d == 2 {
        '2'
    } else if d == 3 {
        '3'
    } else if d == 4 {
        '4'
    } else if d == 5 {
        '5'
    } else if d == 6 {
        '6'
    } else if d == 7 {
        '7'
    } else if d == 8 {
        '8'
    } else {
        '9'
    }
}

/// `n` written in decimal.
pub open spec fn decimal(n: nat) -> Seq<char>
    decreases n,
{
    if n < 10 {
        seq![digit_char(n)]
    } else {
        decimal(n / 10).push(digit_char(n % 10))
    }
}

fn digit_char_exec(d: u64) -> (r: char)
    requires
        d < 10,
    ensures
        r == digit_char(d as nat),
{
    if d == 0 {
        '0'
    } else if d == 1 {
        '1'
    } else if d == 2 {
        '2'
    } else if d == 3 {
        '3'
    } else if d == 4 {
        '4'
    } else if d == 5 {
        '5'
    } else if d == 6 {
        '6'
    } else if d == 7 {
        '7'
    } else if d == 8 {
        '8'
    } else {
        '9'
    }
}

/// `n` written in decimal (see `decimal`).
pub fn decimal_chars(n: u64) -> (r: Vec<char>)
    ensures
        r@ == decimal(n as nat),
    decreases n,
{
    if n < 10 {
        let mut v: Vec<char> = Vec::new();
        v.push(digit_char_exec(n));
        assert(v@ =~= seq![digit_char(n as nat)]);
        v
    } else {
        let mut v = decimal_chars(n / 10);
        v.push(digit_char_exec(n % 10));
        v
    }
}

/// The label of a bit rate: `Lossless` from a million up, thousands as
/// kilobits (`320000` is `320k`), smaller rates as kilobits already
/// (`320` is `320k`), and nothing for 0.
pub open spec fn bitrate_label(rate: u32) -> Seq<char> {
    if rate >= 1000000 {
        "Lossless"@
    } else if rate >= 1000 {
        decimal((rate / 1000) as nat) + "k"@
    } else if rate > 0 {
        decimal(rate as nat) + "k"@
    } else {
        Seq::empty()
    }
}

/// The label of a bit rate (see `bitrate_label`).
pub fn format_bitrate(rate: u32) -> (r: String)
    ensures
        r@ == bitrate_label(rate),
{
    if rate >= 1000000 {
        string_of(&lit("Lossless"))
    } else if rate >= 1000 {
        let mut v = decimal_chars((rate / 1000) as u64);
        v.push('k');
        assert(v@ =~= decimal((rate / 1000) as nat) + "k"@) by {
            reveal_strlit("k");
        }
        string_of(&v)
    } else if rate > 0 {
        let mut v = decimal_chars(rate as u64);
        v.push('k');
        assert(v@ =~= decimal(rate as nat) + "k"@) by {
            reveal_strlit("k");
        }
        string_of(&v)
    } else {
        String::new()
    }
}

/// The audio extensions recognised at the end of a link.
pub open spec fn audio_formats() -> Seq<Seq<char>> {
    seq!["flac"@, "m4a"@, "aac"@, "ogg"@, "wav"@, "mp3"@]
}

/// The first of `formats` that the link's path (before any `?`, in lower
/// case) ends in as an extension.
pub open spec fn format_by_ending(clean: Seq<char>, formats: Seq<Seq<char>>) -> Option<Seq<char>>
    decreases formats.len(),
{
    if formats.len() == 0 {
        None
    } else if ends_with(clean, "."@ + formats[0]) {
        Some(formats[0])
    } else {
        format_by_ending(clean, formats.skip(1))
    }
}

/// The part of a link before its first `?`.
pub open spec fn before_query(url: Seq<char>) -> Seq<char> {
    match find(url, "?"@) {
        Some(p) => url.take(p),
        None => url,
    }
}

/// The format of a song's audio: the one the service named, else the
/// extension its link ends in, else `mp3`.
pub open spec fn audio_format(url: Seq<char>, explicit: Option<Seq<char>>) -> Seq<char> {
    match explicit {
        Some(f) if f.len() > 0 => f,
        _ => match format_by_ending(ascii_lower(before_query(url)), audio_formats()) {
            Some(f) => f,
            None => "mp3"@,
        },
    }
}

/// The format of a song's audio (see `audio_format`).
pub fn infer_audio_format(url: &str, explicit: Option<&str>) -> (r: String)
    ensures
        r@ == audio_format(
            url@,
            match explicit {
                Some(e) => Some(e@),
                None => None,
            },
        ),
{
    if let Some(f) = explicit {
        let fv = chars_of(f);
        if fv.len() > 0 {
            return string_of(&fv);
        }
    }
    let u = chars_of(url);
    let q = lit("?");
    let head = match find_exec(&u, &q) {
        Some(p) => {
            proof {
                lemma_find_from(u@, q@, 0);
            }
            let h = slice_chars(&u, 0, p);
            assert(h@ =~= u@.take(p as int));
            h
        },
        None => {
            let h = slice_chars(&u, 0, u.len());
            assert(h@ =~= u@);
            h
        },
    };
    let clean = ascii_lower_exec(&head);
    let mut formats: Vec<Vec<char>> = Vec::new();
    formats.push(lit("flac"));
    formats.push(lit("m4a"));
    formats.push(lit("aac"));
    formats.push(lit("ogg"));
    formats.push(lit("wav"));
    formats.push(lit("mp3"));
    let ghost fs = formats@.map_values(|v: Vec<char>| v@);
    assert(fs =~= audio_formats());
    let mut i: usize = 0;
    assert(fs.skip(0) =~= fs);
    while i < formats.len()
        invariant
            i <= formats.len(),
            fs == formats@.map_values(|v: Vec<char>| v@),
            fs == audio_formats(),
            clean@ == ascii_lower(before_query(url@)),
            match explicit {
                Some(e) => e@.len() == 0,
                None => true,
            },
            format_by_ending(clean@, fs) == format_by_ending(clean@, fs.skip(i as int)),
        decreases formats.len() - i,
    {
        assert(fs.skip(i as int)[0] == formats@[i as int]@);
        assert(fs.skip(i as int).skip(1) =~= fs.skip(i + 1));
        let mut ending = lit(".");
        crate::text::append_chars(&mut ending, &formats[i]);
        if ends_with_exec(&clean, &ending) {
            return string_of(&formats[i]);
        }
        i += 1;
    }
    string_of(&lit("mp3"))
}


/// What a playable link record says.
pub struct SongUrlView {
    pub url: Seq<char>,
    pub quality: Seq<char>,
    pub format: Seq<char>,
}

impl View for SongUrlResult {
    type V = SongUrlView;

    open spec fn view(&self) -> SongUrlView {
        SongUrlView { url: self.url@, quality: self.quality@, format: self.format@ }
    }
}

/// The text of a string value.
pub open spec fn str_of(o: Option<Json>) -> Option<Seq<char>> {
    match o {
        Some(Json::Str(s)) => Some(s@),
        _ => None,
    }
}

/// Member `a` of `v`, else member `b`.
pub open spec fn either(v: Json, a: Seq<char>, b: Seq<char>) -> Option<Json> {
    match get(v, a) {
        Some(x) => Some(x),
        None => get(v, b),
    }
}

/// The quality a record names, else the one asked for.
pub open spec fn quality_or(v: Json, requested: Seq<char>) -> Seq<char> {
    match str_of(get(v, "quality"@)) {
        Some(q) => q,
        None => requested,
    }
}

/// The playable link a service's answer gives: a non-empty `url` (or
/// `play_url`) string at the top; else, under `data` (or `result`), a
/// non-empty string, an object with a non-empty `url`, `play_url` or `src`,
/// or the first item of an array that gives one.
pub open spec fn url_result(v: Json, requested: Seq<char>) -> Option<SongUrlView>
    decreases v, 1nat,
{
    let top = match str_of(either(v, "url"@, "play_url"@)) {
        Some(u) => u,
        None => Seq::empty(),
    };
    if top.len() > 0 {
        Some(
            SongUrlView {
                url: top,
                quality: quality_or(v, requested),
                format: audio_format(top, str_of(get(v, "format"@))),
            },
        )
    } else {
        match either(v, "data"@, "result"@) {
            None => None,
            Some(data) => {
                let direct = match str_of(Some(data)) {
                    Some(u) => u,
                    None => Seq::empty(),
                };
                let nested = match str_of(
                    match either(data, "url"@, "play_url"@) {
                        Some(x) => Some(x),
                        None => get(data, "src"@),
                    },
                ) {
                    Some(u) => u,
                    None => Seq::empty(),
                };
                if direct.len() > 0 {
                    Some(
                        SongUrlView {
                            url: direct,
                            quality: requested,
                            format: audio_format(direct, None),
                        },
                    )
                } else if data is Object && nested.len() > 0 {
                    Some(
                        SongUrlView {
                            url: nested,
                            quality: quality_or(data, requested),
                            format: audio_format(nested, str_of(get(data, "format"@))),
                        },
                    )
                } else {
                    match data {
                        Json::Array(items) => {
                            proof {
                                lemma_get_decreases(v, "data"@);
                                lemma_get_decreases(v, "result"@);
                                assert(decreases_to!(v => data));
                                assert(decreases_to!(data => items));
                            }
                            first_url_result(items@, requested)
                        },
                        _ => None,
                    }
                }
            },
        }
    }
}

/// The link of the first item that gives one.
pub open spec fn first_url_result(items: Seq<Json>, requested: Seq<char>) -> Option<SongUrlView>
    decreases items, 0nat,
{
    if items.len() == 0 {
        None
    } else {
        match url_result(items[0], requested) {
            Some(r) => Some(r),
            None => first_url_result(items.subrange(1, items.len() as int), requested),
        }
    }
}

pub(crate) fn str_of_exec(o: Option<&Json>) -> (r: Option<&str>)
    ensures
        match str_of(
            match o {
                Some(x) => Some(*x),
                None => None,
            },
        ) {
            Some(t) => r matches Some(w) && w@ == t,
            None => r is None,
        },
{
    match o {
        Some(Json::Str(s)) => Some(s.as_str()),
        _ => None,
    }
}

fn either_exec<'a>(v: &'a Json, a: &str, b: &str) -> (r: Option<&'a Json>)
    ensures
        match either(*v, a@, b@) {
            Some(x) => r matches Some(y) && *y == x,
            None => r is None,
        },
{
    match get_member(v, a) {
        Some(x) => Some(x),
        None => get_member(v, b),
    }
}

fn quality_or_exec(v: &Json, requested: &str) -> (r: String)
    ensures
        r@ == quality_or(*v, requested@),
{
    match str_of_exec(get_member(v, "quality")) {
        Some(q) => string_of(&chars_of(q)),
        None => string_of(&chars_of(requested)),
    }
}

fn url_record(url: &str, quality: String, format: Option<&str>) -> (r: SongUrlResult)
    ensures
        r@ == (SongUrlView {
            url: url@,
            quality: quality@,
            format: audio_format(
                url@,
                match format {
                    Some(f) => Some(f@),
                    None => None,
                },
            ),
        }),
{
    SongUrlResult { url: string_of(&chars_of(url)), quality, format: infer_audio_format(url, format) }
}

/// Reads the playable link out of a service's answer (see `url_result`).
pub fn parse_song_url_result(json: &Json, requested_quality: &str) -> (r: Option<SongUrlResult>)
    ensures
        match url_result(*json, requested_quality@) {
            Some(u) => r matches Some(x) && x@ == u,
            None => r is None,
        },
    decreases *json,
{
    if let Some(url) = str_of_exec(either_exec(json, "url", "play_url")) {
        if chars_of(url).len() > 0 {
            let q = quality_or_exec(json, requested_quality);
            return Some(url_record(url, q, str_of_exec(get_member(json, "format"))));
        }
    }
    let data = match either_exec(json, "data", "result") {
        Some(d) => d,
        None => {
            return None;
        },
    };
    if let Json::Str(u) = data {
        if chars_of(u.as_str()).len() > 0 {
            return Some(url_record(u.as_str(), string_of(&chars_of(requested_quality)), None));
        }
    }
    if let Json::Object(_) = data {
        let inner = match either_exec(data, "url", "play_url") {
            Some(x) => Some(x),
            None => get_member(data, "src"),
        };
        if let Some(u) = str_of_exec(inner) {
            if chars_of(u).len() > 0 {
                let q = quality_or_exec(data, requested_quality);
                return Some(url_record(u, q, str_of_exec(get_member(data, "format"))));
            }
        }
    }
    if let Json::Array(items) = data {
        assert(url_result(*json, requested_quality@) == first_url_result(items@, requested_quality@));
        let mut i: usize = 0;
        assert(items@.subrange(0, items.len() as int) =~= items@);
        while i < items.len()
            invariant
                i <= items.len(),
                either(*json, "data"@, "result"@) == Some(Json::Array(*items)),
                url_result(*json, requested_quality@) == first_url_result(items@, requested_quality@),
                first_url_result(items@, requested_quality@) == first_url_result(
                    items@.subrange(i as int, items.len() as int),
                    requested_quality@,
                ),
            decreases items.len() - i,
        {
            let ghost rest = items@.subrange(i as int, items.len() as int);
            assert(rest[0] == items@[i as int]);
            assert(rest.subrange(1, rest.len() as int) =~= items@.subrange(i + 1, items.len() as int));
            proof {
                lemma_get_decreases(*json, "data"@);
                lemma_get_decreases(*json, "result"@);
                let d = either(*json, "data"@, "result"@)->0;
                assert(decreases_to!(*json => d));
                assert(decreases_to!(d => d->Array_0));
                assert(decreases_to!(*items => items[i as int]));
            }
            match parse_song_url_result(&items[i], requested_quality) {
                Some(r) => {
                    return Some(r);
                },
                None => {},
            }
            i += 1;
        }
    }
    None
}


/// The lower-case hexadecimal digit of `d` (below sixteen).
pub open spec fn hex_char(d: nat) -> char {
    if d < 10 {
        digit_char(d)
    } else if d == 10 {
        'a'
    } else if d == 11 {
        'b'
    } else if d == 12 {
        'c'
    } else if d == 13 {
        'd'
    } else if d == 14 {
        'e'
    } else {
        'f'
    }
}

/// The last `k` hexadecimal digits of `h`, zero-padded.
pub open spec fn hex_digits(h: nat, k: nat) -> Seq<char>
    decreases k,
{
    if k == 0 {
        Seq::empty()
    } else {
        hex_digits(h / 16, (k - 1) as nat).push(hex_char(h % 16))
    }
}

fn hex_digits_exec(h: u64, k: u64) -> (r: Vec<char>)
    ensures
        r@ == hex_digits(h as nat, k as nat),
    decreases k,
{
    if k == 0 {
        Vec::new()
    } else {
        let mut v = hex_digits_exec(h / 16, k - 1);
        let d = h % 16;
        let c = if d < 10 {
            digit_char_exec(d)
        } else if d == 10 {
            'a'
        } else if d == 11 {
            'b'
        } else if d == 12 {
            'c'
        } else if d == 13 {
            'd'
        } else if d == 14 {
            'e'
        } else {
            'f'
        };
        v.push(c);
        v
    }
}

/// The 64-bit hash `std`'s `DefaultHasher::new()` gives a text.  It is
/// fixed for a build of the program; the algorithm may differ between
/// releases of Rust.
pub uninterp spec fn text_hash(value: Seq<char>) -> u64;

/// Hashes a text with `std::collections::hash_map::DefaultHasher::new()`
/// (`Hash for str`, then `finish`); the contract names the result
/// `text_hash` of the text and says nothing more of it.
#[verifier::external_body]
fn default_hash(value: &str) -> (r: u64)
    ensures
        r == text_hash(value@),
{
    let mut hasher = std::collections::hash_map::DefaultHasher::new();
    std::hash::Hash::hash(value, &mut hasher);
    std::hash::Hasher::finish(&hasher)
}

/// The cache name of a text: its hash as sixteen lower-case hexadecimal
/// digits.
pub fn stable_hash(value: &str) -> (r: String)
    ensures
        r@ == hex_digits(text_hash(value@) as nat, 16),
{
    string_of(&hex_digits_exec(default_hash(value), 16))
}

} // verus!
