//! Lyrics as the services hand them out: LRC text, or timed lines inside
//! JSON documents (plain or wrapped in a JSONP call).
use vstd::prelude::*;
use crate::json::{get, get_member, lemma_get_decreases, parse_json, parsed_json, Json};
use crate::sources::{lines_chars, lines_of};
use crate::searchers::{four_keys, text_of, text_of_exec, three_keys};
use crate::share::{first_present, first_present_of};
use crate::text::{
    chars_of, contains, contains_exec, string_of, trim, trim_exec, trim_set, trim_set_exec, views,
};

verus! {

/// The time written before a lyric line.
pub enum LyricStamp {
    /// A clock time such as `01:02.50`, without its brackets.
    Clock(String),
    /// Any other time text: a number of seconds, or nothing usable.
    /// Turning seconds into a clock time is floating-point work that the
    /// caller does; a text that is no number leaves the line unstamped.
    Raw(String),
}

/// One line of a timed lyric list.
pub struct LyricLine {
    pub stamp: LyricStamp,
    pub text: String,
}

/// Lyrics found in a Kuwo document: one text, or timed lines joined by
/// line breaks when shown.
pub enum KuwoLyrics {
    Text(String),
    Lines(Vec<LyricLine>),
}

pub enum StampView {
    Clock(Seq<char>),
    Raw(Seq<char>),
}

pub struct LineView {
    pub stamp: StampView,
    pub text: Seq<char>,
}

pub enum LyricsView {
    Text(Seq<char>),
    Lines(Seq<LineView>),
}

impl View for LyricStamp {
    type V = StampView;

    open spec fn view(&self) -> StampView {
        match self {
            LyricStamp::Clock(s) => StampView::Clock(s@),
            LyricStamp::Raw(s) => StampView::Raw(s@),
        }
    }
}

impl View for LyricLine {
    type V = LineView;

    open spec fn view(&self) -> LineView {
        LineView { stamp: self.stamp@, text: self.text@ }
    }
}

/// The views of a list of lines.
pub open spec fn line_views(v: Seq<LyricLine>) -> Seq<LineView> {
    v.map_values(|l: LyricLine| l@)
}

impl View for KuwoLyrics {
    type V = LyricsView;

    open spec fn view(&self) -> LyricsView {
        match self {
            KuwoLyrics::Text(s) => LyricsView::Text(s@),
            KuwoLyrics::Lines(v) => LyricsView::Lines(line_views(v@)),
        }
    }
}

/// Lyrics that may be absent, by their view.
pub open spec fn lyrics_view(o: Option<KuwoLyrics>) -> Option<LyricsView> {
    match o {
        Some(l) => Some(l@),
        None => None,
    }
}

/// The members a lyric line's text is read from, in order.
pub open spec fn line_text_keys() -> Seq<Seq<char>> {
    seq!["lineLyric"@, "lyric"@, "text"@, "content"@]
}

/// The members a lyric line's time is read from, in order.
pub open spec fn line_time_keys() -> Seq<Seq<char>> {
    seq!["time"@, "lineTime"@, "startTime"@]
}

/// The stamp of a time text: a clock time when it holds a `:`, with the
/// square brackets around it taken off.
pub open spec fn stamp_of(time: Seq<char>) -> StampView {
    if contains(time, seq![':']) {
        StampView::Clock(trim_set(time, seq!['[', ']']))
    } else {
        StampView::Raw(time)
    }
}

/// The line a record describes: the trimmed string of its first text member,
/// unless that is not a string or is blank, stamped with the display text of
/// its first time member.
pub open spec fn lyric_line(v: Json) -> Option<LineView> {
    match first_present(v, line_text_keys()) {
        Some(Json::Str(s)) => if trim(s@).len() == 0 {
            None
        } else {
            Some(
                LineView {
                    stamp: stamp_of(text_of(first_present(v, line_time_keys()))),
                    text: trim(s@),
                },
            )
        },
        _ => None,
    }
}

/// The line a lyric record describes (see `lyric_line`).
pub fn kuwo_lyric_line_from_item(value: &Json) -> (r: Option<LyricLine>)
    ensures
        match r {
            Some(l) => lyric_line(*value) == Some(l@),
            None => lyric_line(*value) is None,
        },
{
    let text_keys = four_keys("lineLyric", "lyric", "text", "content");
    match first_present_of(value, &text_keys) {
        Some(Json::Str(s)) => {
            let t = trim_exec(&chars_of(s.as_str()));
            if t.len() == 0 {
                return None;
            }
            let time_keys = three_keys("time", "lineTime", "startTime");
            let time = text_of_exec(first_present_of(value, &time_keys));
            let tc = chars_of(time.as_str());
            let colon = vec![':'];
            let brackets = vec!['[', ']'];
            assert(colon@ =~= seq![':']);
            assert(brackets@ =~= seq!['[', ']']);
            let stamp = if contains_exec(&tc, &colon) {
                LyricStamp::Clock(string_of(&trim_set_exec(&tc, &brackets)))
            } else {
                LyricStamp::Raw(time)
            };
            Some(LyricLine { stamp, text: string_of(&t) })
        },
        _ => None,
    }
}

/// The lines of a list of records, in order, leaving out records with no
/// line.
pub open spec fn lyric_lines(items: Seq<Json>) -> Seq<LineView>
    decreases items.len(),
{
    if items.len() == 0 {
        Seq::empty()
    } else {
        let rest = lyric_lines(items.drop_last());
        match lyric_line(items.last()) {
            Some(l) => rest.push(l),
            None => rest,
        }
    }
}

/// The members lyrics are looked for first, in order.
pub open spec fn content_keys() -> Seq<Seq<char>> {
    seq!["lrclist"@, "lrcList"@, "lyrics"@, "lrc"@, "lyric"@, "lyricText"@, "content"@]
}

/// The members lyrics are looked for last, in order.
pub open spec fn nested_keys() -> Seq<Seq<char>> {
    seq!["data"@, "songinfo"@, "songInfo"@, "musicInfo"@, "song"@]
}

/// The lyrics of a Kuwo document: a non-blank string, trimmed; for a list,
/// the lines of its records if any has one, else the lyrics of its first item
/// that has some; for an object, the lyrics of the first content member that
/// has some, else the object read as one line, else the lyrics of the first
/// nested member that has some.
pub open spec fn kuwo_lyrics(v: Json) -> Option<LyricsView>
    decreases v, 2nat, 0nat,
{
    match v {
        Json::Str(s) => if trim(s@).len() == 0 {
            None
        } else {
            Some(LyricsView::Text(trim(s@)))
        },
        Json::Array(items) => {
            let lines = lyric_lines(items@);
            if lines.len() > 0 {
                Some(LyricsView::Lines(lines))
            } else {
                first_lyrics(items@)
            }
        },
        Json::Object(_) => match lyrics_at_keys(v, content_keys()) {
            Some(f) => Some(f),
            None => match lyric_line(v) {
                Some(l) => Some(LyricsView::Lines(seq![l])),
                None => lyrics_at_keys(v, nested_keys()),
            },
        },
        _ => None,
    }
}

/// The lyrics of the first of `keys` that `v` has and that holds some.
pub open spec fn lyrics_at_keys(v: Json, keys: Seq<Seq<char>>) -> Option<LyricsView>
    decreases v, 1nat, keys.len(),
{
    if keys.len() == 0 {
        None
    } else {
        match get(v, keys[0]) {
            Some(x) => {
                proof {
                    lemma_get_decreases(v, keys[0]);
                }
                match kuwo_lyrics(x) {
                    Some(f) => Some(f),
                    None => lyrics_at_keys(v, keys.skip(1)),
                }
            },
            None => lyrics_at_keys(v, keys.skip(1)),
        }
    }
}

/// The lyrics of the first item that holds some.
pub open spec fn first_lyrics(items: Seq<Json>) -> Option<LyricsView>
    decreases items, 0nat, 0nat,
{
    if items.len() == 0 {
        None
    } else {
        match kuwo_lyrics(items[0]) {
            Some(f) => Some(f),
            None => first_lyrics(items.skip(1)),
        }
    }
}

fn content_keys_exec() -> (r: Vec<Vec<char>>)
    ensures
        views(r@) == content_keys(),
{
    let mut r: Vec<Vec<char>> = Vec::new();
    r.push(chars_of("lrclist"));
    r.push(chars_of("lrcList"));
    r.push(chars_of("lyrics"));
    r.push(chars_of("lrc"));
    r.push(chars_of("lyric"));
    r.push(chars_of("lyricText"));
    r.push(chars_of("content"));
    assert(views(r@) =~= content_keys());
    r
}

fn nested_keys_exec() -> (r: Vec<Vec<char>>)
    ensures
        views(r@) == nested_keys(),
{
    let mut r: Vec<Vec<char>> = Vec::new();
    r.push(chars_of("data"));
    r.push(chars_of("songinfo"));
    r.push(chars_of("songInfo"));
    r.push(chars_of("musicInfo"));
    r.push(chars_of("song"));
    assert(views(r@) =~= nested_keys());
    r
}

/// The lines of a list of records (see `lyric_lines`).
fn lyric_lines_of(items: &Vec<Json>) -> (r: Vec<LyricLine>)
    ensures
        line_views(r@) == lyric_lines(items@),
{
    let mut lines: Vec<LyricLine> = Vec::new();
    let mut i: usize = 0;
    while i < items.len()
        invariant
            i <= items.len(),
            line_views(lines@) == lyric_lines(items@.subrange(0, i as int)),
        decreases items.len() - i,
    {
        proof {
            let sub = items@.subrange(0, i + 1);
            assert(sub.drop_last() =~= items@.subrange(0, i as int));
            assert(sub.last() == items@[i as int]);
        }
        match kuwo_lyric_line_from_item(&items[i]) {
            Some(l) => {
                let ghost before = lines@;
                let ghost lv = l@;
                lines.push(l);
                assert(line_views(lines@) =~= line_views(before).push(lv));
            },
            None => {},
        }
        i += 1;
    }
    assert(items@.subrange(0, items.len() as int) =~= items@);
    lines
}

/// The lyrics of the first of `keys` that `value` has and that holds some
/// (see `lyrics_at_keys`).
fn lyrics_at_keys_exec(value: &Json, keys: &Vec<Vec<char>>) -> (r: Option<KuwoLyrics>)
    ensures
        lyrics_view(r) == lyrics_at_keys(*value, views(keys@)),
    decreases *value, 0nat,
{
    let mut i: usize = 0;
    assert(views(keys@).skip(0) =~= views(keys@));
    while i < keys.len()
        invariant
            i <= keys.len(),
            lyrics_at_keys(*value, views(keys@)) == lyrics_at_keys(
                *value,
                views(keys@).skip(i as int),
            ),
        decreases keys.len() - i,
    {
        let ghost k = views(keys@).skip(i as int);
        assert(k[0] == keys@[i as int]@);
        assert(k.skip(1) =~= views(keys@).skip(i + 1));
        let name = string_of(&keys[i]);
        match get_member(value, name.as_str()) {
            Some(x) => {
                proof {
                    lemma_get_decreases(*value, keys@[i as int]@);
                }
                let found = extract_kuwo_lyrics_from_json(x);
                if found.is_some() {
                    return found;
                }
            },
            None => {},
        }
        i += 1;
    }
    None
}

/// The lyrics of a Kuwo document (see `kuwo_lyrics`).
pub fn extract_kuwo_lyrics_from_json(value: &Json) -> (r: Option<KuwoLyrics>)
    ensures
        lyrics_view(r) == kuwo_lyrics(*value),
    decreases *value, 1nat,
{
    match value {
        Json::Str(s) => {
            let t = trim_exec(&chars_of(s.as_str()));
            if t.len() == 0 {
                None
            } else {
                Some(KuwoLyrics::Text(string_of(&t)))
            }
        },
        Json::Array(items) => {
            let lines = lyric_lines_of(items);
            assert(line_views(lines@).len() == lines@.len());
            if lines.len() > 0 {
                return Some(KuwoLyrics::Lines(lines));
            }
            let mut j: usize = 0;
            assert(items@.skip(0) =~= items@);
            while j < items.len()
                invariant
                    *value == Json::Array(*items),
                    j <= items.len(),
                    lyric_lines(items@).len() == 0,
                    first_lyrics(items@) == first_lyrics(items@.skip(j as int)),
                decreases items.len() - j,
            {
                proof {
                    assert(decreases_to!(*value => (*value)->Array_0));
                    assert(decreases_to!(*items => items[j as int]));
                    assert(items@.skip(j as int)[0] == items@[j as int]);
                    assert(items@.skip(j as int).skip(1) =~= items@.skip(j + 1));
                }
                let found = extract_kuwo_lyrics_from_json(&items[j]);
                if found.is_some() {
                    return found;
                }
                j += 1;
            }
            None
        },
        Json::Object(_) => {
            let found = lyrics_at_keys_exec(value, &content_keys_exec());
            if found.is_some() {
                return found;
            }
            match kuwo_lyric_line_from_item(value) {
                Some(l) => {
                    let ghost lv = l@;
                    let lines = vec![l];
                    assert(line_views(lines@) =~= seq![lv]);
                    return Some(KuwoLyrics::Lines(lines));
                },
                None => {},
            }
            lyrics_at_keys_exec(value, &nested_keys_exec())
        },
        _ => None,
    }
}

/// The position of the first `a` or `b` in `s` at or after `from`.
pub open spec fn first_of(s: Seq<char>, a: char, b: char, from: int) -> Option<int>
    decreases s.len() - from,
{
    if from < 0 || from >= s.len() {
        None
    } else if s[from] == a || s[from] == b {
        Some(from)
    } else {
        first_of(s, a, b, from + 1)
    }
}

/// The position of the last `a` or `b` in `s` before `upto`.
pub open spec fn last_of(s: Seq<char>, a: char, b: char, upto: int) -> Option<int>
    decreases upto,
{
    if upto <= 0 || upto > s.len() {
        None
    } else if s[upto - 1] == a || s[upto - 1] == b {
        Some(upto - 1)
    } else {
        last_of(s, a, b, upto - 1)
    }
}

proof fn lemma_first_of(s: Seq<char>, a: char, b: char, from: int)
    requires
        0 <= from,
    ensures
        first_of(s, a, b, from) matches Some(k) ==> from <= k < s.len() && (s[k] == a || s[k]
            == b),
    decreases s.len() - from,
{
    if from < s.len() && !(s[from] == a || s[from] == b) {
        lemma_first_of(s, a, b, from + 1);
    }
}

proof fn lemma_last_of(s: Seq<char>, a: char, b: char, upto: int)
    requires
        upto <= s.len(),
    ensures
        last_of(s, a, b, upto) matches Some(k) ==> 0 <= k < upto,
    decreases upto,
{
    if upto > 0 && !(s[upto - 1] == a || s[upto - 1] == b) {
        lemma_last_of(s, a, b, upto - 1);
    }
}

fn first_of_exec(s: &Vec<char>, a: char, b: char) -> (r: Option<usize>)
    ensures
        match first_of(s@, a, b, 0) {
            Some(k) => r == Some(k as usize),
            None => r is None,
        },
{
    let mut i: usize = 0;
    while i < s.len()
        invariant
            i <= s.len(),
            first_of(s@, a, b, 0) == first_of(s@, a, b, i as int),
        decreases s.len() - i,
    {
        if s[i] == a || s[i] == b {
            return Some(i);
        }
        i += 1;
    }
    None
}

fn last_of_exec(s: &Vec<char>, a: char, b: char) -> (r: Option<usize>)
    ensures
        match last_of(s@, a, b, s.len() as int) {
            Some(k) => r == Some(k as usize),
            None => r is None,
        },
{
    let mut i: usize = s.len();
    while i > 0
        invariant
            i <= s.len(),
            last_of(s@, a, b, s.len() as int) == last_of(s@, a, b, i as int),
        decreases i,
    {
        if s[i - 1] == a || s[i - 1] == b {
            return Some(i - 1);
        }
        i -= 1;
    }
    None
}

/// The JSON text inside a reply that may wrap it in a call: the trimmed
/// reply when it starts with `{` or `[`, else what runs from its first `{`
/// or `[` to its last `}` or `]`.
pub open spec fn jsonp_body(text: Seq<char>) -> Option<Seq<char>> {
    let t = trim(text);
    if t.len() > 0 && (t[0] == '{' || t[0] == '[') {
        Some(t)
    } else {
        match (first_of(t, '{', '[', 0), last_of(t, '}', ']', t.len() as int)) {
            (Some(a), Some(b)) => Some(t.subrange(a, b + 1)),
            _ => None,
        }
    }
}

/// The reply can be cut as `jsonp_body` says: its last closing bracket does
/// not stand two or more characters before its first opening one.
pub open spec fn jsonp_readable(text: Seq<char>) -> bool {
    let t = trim(text);
    match (first_of(t, '{', '[', 0), last_of(t, '}', ']', t.len() as int)) {
        (Some(a), Some(b)) => a <= b + 1,
        _ => true,
    }
}

/// The lyrics of a JSON or JSONP reply.
pub open spec fn jsonp_lyrics(text: Seq<char>) -> Option<LyricsView> {
    match jsonp_body(text) {
        Some(body) => match parsed_json(body) {
            Some(j) => kuwo_lyrics(j),
            None => None,
        },
        None => None,
    }
}

/// Tests `jsonp_readable`.
pub fn jsonp_text_readable(text: &str) -> (r: bool)
    ensures
        r == jsonp_readable(text@),
{
    let t = trim_exec(&chars_of(text));
    proof {
        lemma_first_of(t@, '{', '[', 0);
        lemma_last_of(t@, '}', ']', t.len() as int);
    }
    match (first_of_exec(&t, '{', '['), last_of_exec(&t, '}', ']')) {
        (Some(a), Some(b)) => a <= b + 1,
        _ => true,
    }
}

/// The lyrics of a JSON or JSONP reply (see `jsonp_lyrics`).
pub fn parse_json_or_jsonp_lyrics(text: &str) -> (r: Option<KuwoLyrics>)
    requires
        jsonp_readable(text@),
    ensures
        lyrics_view(r) == jsonp_lyrics(text@),
{
    let t = trim_exec(&chars_of(text));
    let body: Vec<char> = if t.len() > 0 && (t[0] == '{' || t[0] == '[') {
        t
    } else {
        match (first_of_exec(&t, '{', '['), last_of_exec(&t, '}', ']')) {
            (Some(a), Some(b)) => {
                proof {
                    lemma_first_of(t@, '{', '[', 0);
                    lemma_last_of(t@, '}', ']', t.len() as int);
                }
                crate::text::slice_chars(&t, a, b + 1)
            },
            _ => {
                return None;
            },
        }
    };
    let body_text = string_of(&body);
    match parse_json(body_text.as_str()) {
        Some(j) => extract_kuwo_lyrics_from_json(&j),
        None => None,
    }
}

/// The time text and the words of an LRC line `[time]words`, trimmed, when
/// the line starts with `[`, has a `]`, and has words after it.
pub open spec fn lrc_parts(line: Seq<char>) -> Option<(Seq<char>, Seq<char>)> {
    let t = trim(line);
    if t.len() == 0 || t[0] != '[' {
        None
    } else {
        match first_of(t, ']', ']', 0) {
            Some(e) => {
                let words = trim(t.subrange(e + 1, t.len() as int));
                if words.len() == 0 {
                    None
                } else {
                    Some((t.subrange(1, e), words))
                }
            },
            None => None,
        }
    }
}

/// Splits an LRC line into its time text and its words (see `lrc_parts`);
/// reading the time as seconds is floating-point work left to the caller.
pub fn lrc_line_parts(line: &str) -> (r: Option<(String, String)>)
    ensures
        match lrc_parts(line@) {
            Some((time, words)) => r matches Some(p) && p.0@ == time && p.1@ == words,
            None => r is None,
        },
{
    let t = trim_exec(&chars_of(line));
    if t.len() == 0 || t[0] != '[' {
        return None;
    }
    match first_of_exec(&t, ']', ']') {
        Some(e) => {
            proof {
                lemma_first_of(t@, ']', ']', 0);
            }
            let len = t.len();
            let words = trim_exec(&crate::text::slice_chars(&t, e + 1, len));
            if words.len() == 0 {
                return None;
            }
            let time = crate::text::slice_chars(&t, 1, e);
            Some((string_of(&time), string_of(&words)))
        },
        None => None,
    }
}

/// The line being sung: the last one whose time has been reached, or the
/// first when none has.
pub open spec fn current_line(reached: Seq<bool>) -> int
    decreases reached.len(),
{
    if reached.len() == 0 {
        0
    } else if reached.last() {
        reached.len() - 1
    } else {
        current_line(reached.drop_last())
    }
}

proof fn lemma_current_line(reached: Seq<bool>)
    ensures
        0 <= current_line(reached),
        reached.len() > 0 ==> current_line(reached) < reached.len(),
    decreases reached.len(),
{
    if reached.len() > 0 && !reached.last() {
        lemma_current_line(reached.drop_last());
    }
}

/// Which line is being sung (see `current_line`), given for each timed line
/// whether its time has been reached.
pub fn current_lyric_index(reached: &Vec<bool>) -> (r: usize)
    ensures
        r == current_line(reached@),
{
    let mut i: usize = reached.len();
    assert(reached@.subrange(0, i as int) =~= reached@);
    while i > 0
        invariant
            i <= reached.len(),
            current_line(reached@) == current_line(reached@.subrange(0, i as int)),
        decreases i,
    {
        proof {
            let sub = reached@.subrange(0, i as int);
            assert(sub.drop_last() =~= reached@.subrange(0, i - 1));
        }
        if reached[i - 1] {
            return i - 1;
        }
        i -= 1;
    }
    0
}

/// The three lines the small lyric view shows: the line before the current
/// one, the current one and the one after; with no timed lines, the title,
/// a "now playing" note and the artist (or a "no lyrics" note).
pub open spec fn lyric_window_lines(
    lines: Seq<Seq<char>>,
    reached: Seq<bool>,
    title: Seq<char>,
    artist: Seq<char>,
) -> Seq<Seq<char>> {
    if lines.len() == 0 {
        seq![
            title,
            "正在播放"@,
            if artist.len() == 0 {
                "暂无歌词"@
            } else {
                artist
            },
        ]
    } else {
        let c = current_line(reached);
        seq![
            if c >= 1 {
                lines[c - 1]
            } else {
                Seq::empty()
            },
            if c < lines.len() {
                lines[c]
            } else {
                "正在播放"@
            },
            if c + 1 < lines.len() {
                lines[c + 1]
            } else {
                Seq::empty()
            },
        ]
    }
}

/// The small lyric view's lines (see `lyric_window_lines`): `lines` are the
/// words of the timed lines in order, `reached[i]` tells whether line `i`'s
/// time has come.
pub fn lyric_window(lines: &Vec<String>, reached: &Vec<bool>, title: String, artist: String) -> (r:
    Vec<String>)
    requires
        reached.len() == lines.len(),
    ensures
        r@.map_values(|s: String| s@) == lyric_window_lines(
            lines@.map_values(|s: String| s@),
            reached@,
            title@,
            artist@,
        ),
{
    let ghost lv = lines@.map_values(|s: String| s@);
    let mut out: Vec<String> = Vec::new();
    if lines.len() == 0 {
        let artist_line = if chars_of(artist.as_str()).len() == 0 {
            "暂无歌词".to_string()
        } else {
            artist
        };
        out.push(title);
        out.push("正在播放".to_string());
        out.push(artist_line);
        assert(out@.map_values(|s: String| s@) =~= lyric_window_lines(lv, reached@, title@, artist@));
        return out;
    }
    let c = current_lyric_index(reached);
    proof {
        lemma_current_line(reached@);
    }
    if c >= 1 {
        out.push(lines[c - 1].clone());
    } else {
        out.push(String::new());
    }
    out.push(lines[c].clone());
    if c + 1 < lines.len() {
        out.push(lines[c + 1].clone());
    } else {
        out.push(String::new());
    }
    assert(out@.map_values(|s: String| s@) =~= lyric_window_lines(lv, reached@, title@, artist@));
    out
}

/// The non-blank lines of a text, trimmed, in order.
pub open spec fn plain_lines(lines: Seq<Seq<char>>) -> Seq<Seq<char>>
    decreases lines.len(),
{
    if lines.len() == 0 {
        Seq::empty()
    } else {
        let rest = plain_lines(lines.drop_last());
        let t = trim(lines.last());
        if t.len() > 0 {
            rest.push(t)
        } else {
            rest
        }
    }
}

/// Untimed lyrics as the lyric view lists them: the text's non-blank lines,
/// trimmed (see `plain_lines`).
pub fn plain_lyric_lines(raw: &str) -> (r: Vec<String>)
    ensures
        r@.map_values(|s: String| s@) == plain_lines(lines_of(raw@)),
{
    let lines = lines_chars(&chars_of(raw));
    let mut out: Vec<String> = Vec::new();
    let mut i: usize = 0;
    while i < lines.len()
        invariant
            i <= lines.len(),
            views(lines@) == lines_of(raw@),
            out@.map_values(|s: String| s@) == plain_lines(views(lines@).subrange(0, i as int)),
        decreases lines.len() - i,
    {
        proof {
            let sub = views(lines@).subrange(0, i + 1);
            assert(sub.drop_last() =~= views(lines@).subrange(0, i as int));
            assert(sub.last() == lines@[i as int]@);
        }
        let t = trim_exec(&lines[i]);
        if t.len() > 0 {
            let ghost before = out@.map_values(|s: String| s@);
            out.push(string_of(&t));
            assert(out@.map_values(|s: String| s@) =~= before.push(t@));
        }
        i += 1;
    }
    assert(views(lines@).subrange(0, lines.len() as int) =~= views(lines@));
    out
}

} // verus!
