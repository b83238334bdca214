//! Reading the metadata of source scripts: the name in their header, the
//! variables they declare, the native engine a file name selects, and the
//! platforms a source searches first.
use vstd::prelude::*;
use crate::engine::{NativeSourceAdapter, SourceMeta};
use crate::json::{parse_json, parsed_json, Json};
use crate::markup::{lit, push_if_absent};
use crate::text::{
    append_chars, ascii_lower, clone_chars, ascii_lower_exec, chars_list_of, chars_of, contains, contains_chars,
    contains_exec, eq_ignore_ascii_case, eq_ignore_ascii_case_exec, find, find_exec,
    lemma_find_from, replace_all, replace_all_exec, seq_eq, slice_chars, starts_with,
    starts_with_exec, string_of, string_views, strings_of, trim, trim_exec, trim_set,
    trim_set_exec, views,
};

verus! {

/// What a source script declares, by its characters.
pub struct SourceMetaView {
    pub name: Seq<char>,
    pub api_url: Seq<char>,
    pub api_key: Seq<char>,
    pub platforms: Seq<Seq<char>>,
    pub adapter: Option<NativeSourceAdapter>,
    pub can_search: bool,
}

impl View for SourceMeta {
    type V = SourceMetaView;

    open spec fn view(&self) -> SourceMetaView {
        SourceMetaView {
            name: self.name@,
            api_url: self.api_url@,
            api_key: self.api_key@,
            platforms: string_views(self.platforms@),
            adapter: self.adapter,
            can_search: self.can_search,
        }
    }
}

/// A line without the `\r` of a `\r\n` ending.
pub open spec fn strip_cr(l: Seq<char>) -> Seq<char> {
    if l.len() > 0 && l.last() == '\r' {
        l.drop_last()
    } else {
        l
    }
}

/// `str::lines`: the text split at `\n` (and `\r\n`), without an empty
/// last line after a final line ending.
pub open spec fn lines_of(s: Seq<char>) -> Seq<Seq<char>>
    decreases s.len(),
{
    if s.len() == 0 {
        Seq::empty()
    } else {
        match find(s, "\n"@) {
            Some(p) => if 0 <= p && p + 1 <= s.len() {
                seq![strip_cr(s.take(p))] + lines_of(s.skip(p + 1))
            } else {
                Seq::empty()
            },
            None => seq![s],
        }
    }
}

pub(crate) fn lines_chars(s: &Vec<char>) -> (r: Vec<Vec<char>>)
    ensures
        views(r@) == lines_of(s@),
{
    let nl = lit("\n");
    proof {
        reveal_strlit("\n");
    }
    let mut rest = slice_chars(s, 0, s.len());
    assert(rest@ =~= s@);
    let mut out: Vec<Vec<char>> = Vec::new();
    assert(views(out@) + lines_of(rest@) =~= lines_of(s@));
    while rest.len() > 0
        invariant
            nl@ == "\n"@,
            nl.len() == 1,
            views(out@) + lines_of(rest@) == lines_of(s@),
        decreases rest.len(),
    {
        let ghost before = views(out@);
        match find_exec(&rest, &nl) {
            Some(p) => {
                proof {
                    lemma_find_from(rest@, nl@, 0);
                }
                let mut line = slice_chars(&rest, 0, p);
                assert(line@ =~= rest@.take(p as int));
                if line.len() > 0 && line[line.len() - 1] == '\r' {
                    let n = line.len() - 1;
                    line = slice_chars(&line, 0, n);
                    assert(line@ =~= rest@.take(p as int).drop_last());
                }
                let len = rest.len();
                let next = slice_chars(&rest, p + 1, len);
                assert(next@ =~= rest@.skip(p + 1));
                out.push(line);
                assert(views(out@) =~= before.push(strip_cr(rest@.take(p as int))));
                assert(views(out@) + lines_of(next@) =~= before + lines_of(rest@));
                rest = next;
            },
            None => {
                let line = slice_chars(&rest, 0, rest.len());
                assert(line@ =~= rest@);
                out.push(line);
                assert(views(out@) =~= before.push(rest@));
                assert(views(out@) =~= before + lines_of(rest@));
                return out;
            },
        }
    }
    assert(views(out@) + lines_of(rest@) =~= views(out@));
    out
}

/// The inner text of the first pair of `q` characters in `rest`.
pub open spec fn quoted_inner(rest: Seq<char>, q: char) -> Option<Seq<char>> {
    match find(rest, seq![q]) {
        Some(st) => match find(rest.skip(st + 1), seq![q]) {
            Some(e) => Some(rest.skip(st + 1).take(e)),
            None => None,
        },
        None => None,
    }
}

/// A character that ends a bare value.
pub open spec fn is_value_stop(c: char) -> bool {
    c == ' ' || c == ';' || c == ',' || c == '\n' || c == '\r'
}

/// The leading part of `s` before a value-ending character.
pub open spec fn bare_value(s: Seq<char>) -> Seq<char>
    decreases s.len(),
{
    if s.len() == 0 || is_value_stop(s[0]) {
        Seq::empty()
    } else {
        seq![s[0]] + bare_value(s.skip(1))
    }
}

/// What one line says of a variable declared `key` (the name and ` =`):
/// nothing (go on with the next line), or the answer: the inner text of
/// `JSON.parse('…')`, a quoted string (none when it is not closed), the
/// inner text of ``JSON.parse(`…`)``, or a bare value.
pub open spec fn js_var_line(line: Seq<char>, key: Seq<char>) -> Option<Option<Seq<char>>> {
    let t = trim(line);
    if starts_with(t, "//"@) || starts_with(t, "*"@) {
        None
    } else {
        match find(t, key) {
            None => None,
            Some(idx) => {
                let rest = trim(t.skip(idx + key.len()));
                let parsed = if starts_with(rest, "JSON.parse("@) {
                    match quoted_inner(rest, '\'') {
                        Some(inner) => Some(replace_all(inner, "\\'"@, "'"@)),
                        None => None,
                    }
                } else {
                    None
                };
                if parsed is Some {
                    Some(parsed)
                } else if rest.len() > 0 && (rest[0] == '"' || rest[0] == '\'' || rest[0] == '`') {
                    match find(rest.skip(1), seq![rest[0]]) {
                        Some(e) => Some(Some(rest.skip(1).take(e))),
                        None => Some(None),
                    }
                } else if contains(rest, "JSON.parse(`"@) && quoted_inner(rest, '`') is Some {
                    Some(quoted_inner(rest, '`'))
                } else {
                    let v = bare_value(rest);
                    if v.len() > 0 && v != "="@ {
                        Some(Some(v))
                    } else {
                        None
                    }
                }
            },
        }
    }
}

/// The answer of the first line that gives one.
pub open spec fn js_var_lines(lines: Seq<Seq<char>>, key: Seq<char>) -> Option<Seq<char>>
    decreases lines.len(),
{
    if lines.len() == 0 {
        None
    } else {
        match js_var_line(lines[0], key) {
            Some(answer) => answer,
            None => js_var_lines(lines.skip(1), key),
        }
    }
}

/// The value a script gives the variable `var_name` (`const`, `let` or
/// `var` `NAME = value`), line by line, comment lines skipped.
pub open spec fn js_var(content: Seq<char>, var_name: Seq<char>) -> Option<Seq<char>> {
    js_var_lines(lines_of(content), var_name + " ="@)
}

fn quoted_inner_chars(rest: &Vec<char>, q: char) -> (r: Option<Vec<char>>)
    ensures
        match quoted_inner(rest@, q) {
            Some(v) => r is Some && r->0@ == v,
            None => r is None,
        },
{
    let qv: Vec<char> = vec![q];
    assert(qv@ =~= seq![q]);
    match find_exec(rest, &qv) {
        Some(st) => {
            proof {
                lemma_find_from(rest@, qv@, 0);
            }
            let len = rest.len();
            let after = slice_chars(rest, st + 1, len);
            assert(after@ =~= rest@.skip(st + 1));
            match find_exec(&after, &qv) {
                Some(e) => {
                    proof {
                        lemma_find_from(after@, qv@, 0);
                    }
                    let inner = slice_chars(&after, 0, e);
                    assert(inner@ =~= after@.take(e as int));
                    Some(inner)
                },
                None => None,
            }
        },
        None => None,
    }
}

fn bare_value_chars(s: &Vec<char>) -> (r: Vec<char>)
    ensures
        r@ == bare_value(s@),
{
    let mut i: usize = 0;
    assert(s@.skip(0) =~= s@);
    assert(s@.take(0) + bare_value(s@.skip(0)) =~= bare_value(s@));
    while i < s.len() && !(s[i] == ' ' || s[i] == ';' || s[i] == ',' || s[i] == '\n' || s[i]
        == '\r')
        invariant
            i <= s.len(),
            s@.take(i as int) + bare_value(s@.skip(i as int)) == bare_value(s@),
        decreases s.len() - i,
    {
        assert(s@.skip(i as int).skip(1) =~= s@.skip(i + 1));
        assert(s@.take(i + 1) =~= s@.take(i as int) + seq![s@[i as int]]);
        assert(s@.take(i + 1) + bare_value(s@.skip(i + 1)) =~= s@.take(i as int) + bare_value(
            s@.skip(i as int),
        ));
        i += 1;
    }
    let r = slice_chars(s, 0, i);
    assert(r@ =~= s@.take(i as int));
    assert(bare_value(s@.skip(i as int)) =~= Seq::<char>::empty());
    assert(r@ =~= bare_value(s@));
    r
}

fn js_var_line_chars(line: &Vec<char>, key: &Vec<char>) -> (r: Option<Option<Vec<char>>>)
    ensures
        match js_var_line(line@, key@) {
            Some(Some(v)) => r matches Some(Some(w)) && w@ == v,
            Some(None) => r matches Some(None),
            None => r is None,
        },
{
    let t = trim_exec(line);
    if starts_with_exec(&t, &lit("//")) || starts_with_exec(&t, &lit("*")) {
        return None;
    }
    let idx = match find_exec(&t, key) {
        Some(i) => i,
        None => {
            return None;
        },
    };
    proof {
        lemma_find_from(t@, key@, 0);
    }
    let len = t.len();
    let tail = slice_chars(&t, idx + key.len(), len);
    assert(tail@ =~= t@.skip(idx + key.len()));
    let rest = trim_exec(&tail);
    if starts_with_exec(&rest, &lit("JSON.parse(")) {
        match quoted_inner_chars(&rest, '\'') {
            Some(inner) => {
                proof {
                    reveal_strlit("\\'");
                }
                return Some(Some(replace_all_exec(&inner, &lit("\\'"), &lit("'"))));
            },
            None => {},
        }
    }
    if rest.len() > 0 && (rest[0] == '"' || rest[0] == '\'' || rest[0] == '`') {
        let q: Vec<char> = vec![rest[0]];
        assert(q@ =~= seq![rest@[0]]);
        let rlen = rest.len();
        let body = slice_chars(&rest, 1, rlen);
        assert(body@ =~= rest@.skip(1));
        return match find_exec(&body, &q) {
            Some(e) => {
                proof {
                    lemma_find_from(body@, q@, 0);
                }
                let v = slice_chars(&body, 0, e);
                assert(v@ =~= body@.skip(0).take(e as int));
                assert(v@ =~= rest@.skip(1).take(e as int));
                Some(Some(v))
            },
            None => Some(None),
        };
    }
    if contains_exec(&rest, &lit("JSON.parse(`")) {
        match quoted_inner_chars(&rest, '`') {
            Some(inner) => {
                return Some(Some(inner));
            },
            None => {},
        }
    }
    let v = bare_value_chars(&rest);
    proof {
        reveal_strlit("=");
    }
    if v.len() > 0 && !seq_eq(&v, &lit("=")) {
        Some(Some(v))
    } else {
        None
    }
}


fn js_var_chars(content: &Vec<char>, var_name: &Vec<char>) -> (r: Option<Vec<char>>)
    ensures
        match js_var(content@, var_name@) {
            Some(v) => r is Some && r->0@ == v,
            None => r is None,
        },
{
    let lines = lines_chars(content);
    let mut key = slice_chars(var_name, 0, var_name.len());
    append_chars(&mut key, &lit(" ="));
    assert(key@ =~= var_name@ + " ="@);
    let ghost all = views(lines@);
    let mut i: usize = 0;
    assert(all.skip(0) =~= all);
    while i < lines.len()
        invariant
            all == views(lines@),
            all == lines_of(content@),
            key@ == var_name@ + " ="@,
            i <= lines.len(),
            js_var_lines(all, key@) == js_var_lines(all.skip(i as int), key@),
        decreases lines.len() - i,
    {
        assert(all.skip(i as int)[0] == lines@[i as int]@);
        assert(all.skip(i as int).skip(1) =~= all.skip(i + 1));
        match js_var_line_chars(&lines[i], &key) {
            Some(answer) => {
                return answer;
            },
            None => {},
        }
        i += 1;
    }
    None
}

/// The value a script gives the variable `var_name` (see `js_var`).
pub fn extract_js_var(content: &str, var_name: &str) -> (r: Option<String>)
    ensures
        match js_var(content@, var_name@) {
            Some(v) => r is Some && r->0@ == v,
            None => r is None,
        },
{
    match js_var_chars(&chars_of(content), &chars_of(var_name)) {
        Some(v) => Some(string_of(&v)),
        None => None,
    }
}

/// The name after the first `@name` among the lines of `lines`, trimmed of
/// spaces and `*`; lines whose `@name` is followed by nothing are passed.
pub open spec fn name_in_lines(lines: Seq<Seq<char>>) -> Option<Seq<char>>
    decreases lines.len(),
{
    if lines.len() == 0 {
        None
    } else {
        let t = trim(lines[0]);
        match find(t, "@name"@) {
            Some(idx) => {
                let rest = trim(t.skip(idx + 5));
                if rest.len() > 0 {
                    Some(trim(trim_set(rest, seq!['*'])))
                } else {
                    name_in_lines(lines.skip(1))
                }
            },
            None => name_in_lines(lines.skip(1)),
        }
    }
}

/// The source name a script's header gives (`@name` in its first 30
/// lines).
pub open spec fn source_name(content: Seq<char>) -> Option<Seq<char>> {
    let lines = lines_of(content);
    name_in_lines(
        if lines.len() > 30 {
            lines.take(30)
        } else {
            lines
        },
    )
}

/// The `@name` of a script's header (see `source_name`).
pub fn extract_source_name(content: &str) -> (r: Option<String>)
    ensures
        match source_name(content@) {
            Some(v) => r is Some && r->0@ == v,
            None => r is None,
        },
{
    let lines = lines_chars(&chars_of(content));
    let n: usize = if lines.len() > 30 {
        30
    } else {
        lines.len()
    };
    let ghost head = if views(lines@).len() > 30 {
        views(lines@).take(30)
    } else {
        views(lines@)
    };
    let at_name = lit("@name");
    proof {
        reveal_strlit("@name");
    }
    let mut i: usize = 0;
    assert(head.skip(0) =~= head);
    assert(name_in_lines(head) == source_name(content@));
    while i < n
        invariant
            name_in_lines(head) == source_name(content@),
            head.len() == n,
            n <= lines.len(),
            forall|k: int| 0 <= k < n ==> head[k] == (#[trigger] lines@[k])@,
            at_name@ == "@name"@,
            at_name.len() == 5,
            i <= n,
            name_in_lines(head) == name_in_lines(head.skip(i as int)),
        decreases n - i,
    {
        assert(head.skip(i as int)[0] == lines@[i as int]@);
        assert(head.skip(i as int).skip(1) =~= head.skip(i + 1));
        let t = trim_exec(&lines[i]);
        match find_exec(&t, &at_name) {
            Some(idx) => {
                proof {
                    lemma_find_from(t@, at_name@, 0);
                }
                let len = t.len();
                let tail = slice_chars(&t, idx + 5, len);
                assert(tail@ =~= t@.skip(idx + 5));
                let rest = trim_exec(&tail);
                if rest.len() > 0 {
                    let stars: Vec<char> = vec!['*'];
                    assert(stars@ =~= seq!['*']);
                    return Some(string_of(&trim_exec(&trim_set_exec(&rest, &stars))));
                }
            },
            None => {},
        }
        i += 1;
    }
    None
}

/// The native engine a script's file name selects (matched without regard
/// to ASCII case): Kugou, Netease or Bilibili.
pub open spec fn native_adapter(file_name: Seq<char>) -> Option<NativeSourceAdapter> {
    let lower = ascii_lower(file_name);
    if contains(lower, "kugou"@) || contains(lower, "kg_"@) || lower == "kg.js"@ {
        Some(NativeSourceAdapter::Kugou)
    } else if contains(lower, "netease"@) || contains(lower, "wangyi"@) || contains(lower, "wy_"@)
        || lower == "wy.js"@ {
        Some(NativeSourceAdapter::Netease)
    } else if contains(lower, "bilibili"@) || contains(lower, "bili"@) {
        Some(NativeSourceAdapter::Bilibili)
    } else {
        None
    }
}

/// The native engine a script's file name selects (see `native_adapter`).
pub fn detect_native_adapter(file_name: &str) -> (r: Option<NativeSourceAdapter>)
    ensures
        r == native_adapter(file_name@),
{
    let lower = ascii_lower_exec(&chars_of(file_name));
    if contains_exec(&lower, &lit("kugou")) || contains_exec(&lower, &lit("kg_")) || seq_eq(
        &lower,
        &lit("kg.js"),
    ) {
        Some(NativeSourceAdapter::Kugou)
    } else if contains_exec(&lower, &lit("netease")) || contains_exec(&lower, &lit("wangyi"))
        || contains_exec(&lower, &lit("wy_")) || seq_eq(&lower, &lit("wy.js")) {
        Some(NativeSourceAdapter::Netease)
    } else if contains_exec(&lower, &lit("bilibili")) || contains_exec(&lower, &lit("bili")) {
        Some(NativeSourceAdapter::Bilibili)
    } else {
        None
    }
}

/// A script handles searches: it names a search route or action
/// (matched without regard to ASCII case).
pub open spec fn supports_search(content: Seq<char>) -> bool {
    let lower = ascii_lower(content);
    ||| contains(lower, "/api/v1/search"@)
    ||| contains(lower, "case 'search'"@)
    ||| contains(lower, "case \"search\""@)
    ||| contains(lower, "case 'musicsearch'"@)
    ||| contains(lower, "case \"musicsearch\""@)
    ||| contains(lower, "searchmusic"@)
    ||| contains(lower, "musicsearch"@)
}

/// Whether a script handles searches (see `supports_search`).
pub fn source_supports_search(content: &str) -> (r: bool)
    ensures
        r == supports_search(content@),
{
    let lower = ascii_lower_exec(&chars_of(content));
    contains_exec(&lower, &lit("/api/v1/search")) || contains_exec(&lower, &lit("case 'search'"))
        || contains_exec(&lower, &lit("case \"search\"")) || contains_exec(
        &lower,
        &lit("case 'musicsearch'"),
    ) || contains_exec(&lower, &lit("case \"musicsearch\"")) || contains_exec(
        &lower,
        &lit("searchmusic"),
    ) || contains_exec(&lower, &lit("musicsearch"))
}


/// The names of an object's members, in order.
pub open spec fn member_names(members: Seq<(String, Json)>) -> Seq<Seq<char>> {
    members.map_values(|m: (String, Json)| m.0@)
}

/// The platforms a `MUSIC_QUALITY` declaration lists: the keys of its JSON
/// object (in the parsed map's order), else `kw` alone.
pub open spec fn platforms_of(quality: Option<Seq<char>>) -> Seq<Seq<char>> {
    match quality {
        Some(q) => match parsed_json(q) {
            Some(Json::Object(members)) => member_names(members@),
            _ => seq!["kw"@],
        },
        None => seq!["kw"@],
    }
}

/// The platform a native engine serves.
pub open spec fn adapter_platforms(a: NativeSourceAdapter) -> Seq<Seq<char>> {
    match a {
        NativeSourceAdapter::Kugou => seq!["kg"@],
        NativeSourceAdapter::Netease => seq!["wy"@],
        NativeSourceAdapter::Bilibili => seq!["bilibili"@],
        _ => seq!["kw"@],
    }
}

/// What a script declares: its name (from its header, else the file
/// name) and, for the `xiaowo` file, a native engine's file, or a script
/// with an `API_URL`, its declaration.
pub open spec fn source_meta(content: Seq<char>, file_name: Seq<char>) -> (
    Seq<char>,
    Option<SourceMetaView>,
) {
    let name = match source_name(content) {
        Some(n) => n,
        None => file_name,
    };
    if eq_ignore_ascii_case(file_name, "xiaowo"@) {
        (
            name,
            Some(
                SourceMetaView {
                    name,
                    api_url: Seq::empty(),
                    api_key: Seq::empty(),
                    platforms: seq!["kw"@],
                    adapter: Some(NativeSourceAdapter::Xiaowo),
                    can_search: true,
                },
            ),
        )
    } else {
        match native_adapter(file_name) {
            Some(a) => (
                name,
                Some(
                    SourceMetaView {
                        name,
                        api_url: Seq::empty(),
                        api_key: Seq::empty(),
                        platforms: adapter_platforms(a),
                        adapter: Some(a),
                        can_search: true,
                    },
                ),
            ),
            None => match js_var(content, "API_URL"@) {
                None => (name, None),
                Some(url) => (
                    name,
                    Some(
                        SourceMetaView {
                            name,
                            api_url: trim_set(url, seq!['"']),
                            api_key: match js_var(content, "API_KEY"@) {
                                Some(k) => trim_set(k, seq!['"']),
                                None => Seq::empty(),
                            },
                            platforms: platforms_of(js_var(content, "MUSIC_QUALITY"@)),
                            adapter: None,
                            can_search: supports_search(content),
                        },
                    ),
                ),
            },
        }
    }
}

fn one_string(s: &str) -> (r: Vec<String>)
    ensures
        string_views(r@) == seq![s@],
{
    let mut v: Vec<String> = Vec::new();
    v.push(string_of(&chars_of(s)));
    assert(string_views(v@) =~= seq![s@]);
    v
}

fn platforms_chars(quality: Option<String>) -> (r: Vec<String>)
    ensures
        string_views(r@) == platforms_of(opt_chars(quality)),
{
    match quality {
        Some(q) => match parse_json(q.as_str()) {
            Some(Json::Object(members)) => {
                let mut out: Vec<String> = Vec::new();
                let mut i: usize = 0;
                while i < members.len()
                    invariant
                        i <= members.len(),
                        string_views(out@) == member_names(members@.take(i as int)),
                    decreases members.len() - i,
                {
                    let ghost before = string_views(out@);
                    out.push(members[i].0.clone());
                    assert(string_views(out@) =~= before.push(members@[i as int].0@));
                    assert(member_names(members@.take(i + 1)) =~= member_names(
                        members@.take(i as int),
                    ).push(members@[i as int].0@));
                    i += 1;
                }
                assert(members@.take(members.len() as int) =~= members@);
                out
            },
            _ => one_string("kw"),
        },
        None => one_string("kw"),
    }
}

/// A text that may be absent, by its characters.
pub open spec fn opt_chars(o: Option<String>) -> Option<Seq<char>> {
    match o {
        Some(s) => Some(s@),
        None => None,
    }
}

/// Reads a script's name and declaration (see `source_meta`).
pub fn parse_source_content(content: &str, file_name: &str) -> (r: (String, Option<SourceMeta>))
    ensures
        r.0@ == source_meta(content@, file_name@).0,
        match source_meta(content@, file_name@).1 {
            Some(m) => r.1 matches Some(x) && x@ == m,
            None => r.1 is None,
        },
{
    let name = match extract_source_name(content) {
        Some(n) => n,
        None => string_of(&chars_of(file_name)),
    };
    let file = chars_of(file_name);
    if eq_ignore_ascii_case_exec(&file, &lit("xiaowo")) {
        let meta = SourceMeta {
            name: name.clone(),
            api_url: String::new(),
            api_key: String::new(),
            platforms: one_string("kw"),
            adapter: Some(NativeSourceAdapter::Xiaowo),
            can_search: true,
        };
        return (name, Some(meta));
    }
    match detect_native_adapter(file_name) {
        Some(a) => {
            let plat = match a {
                NativeSourceAdapter::Kugou => one_string("kg"),
                NativeSourceAdapter::Netease => one_string("wy"),
                NativeSourceAdapter::Bilibili => one_string("bilibili"),
                _ => one_string("kw"),
            };
            let meta = SourceMeta {
                name: name.clone(),
                api_url: String::new(),
                api_key: String::new(),
                platforms: plat,
                adapter: Some(a),
                can_search: true,
            };
            (name, Some(meta))
        },
        None => {
            let quote: Vec<char> = vec!['"'];
            assert(quote@ =~= seq!['"']);
            match extract_js_var(content, "API_URL") {
                None => (name, None),
                Some(url) => {
                    let key = match extract_js_var(content, "API_KEY") {
                        Some(k) => string_of(&trim_set_exec(&chars_of(k.as_str()), &quote)),
                        None => String::new(),
                    };
                    let meta = SourceMeta {
                        name: name.clone(),
                        api_url: string_of(&trim_set_exec(&chars_of(url.as_str()), &quote)),
                        api_key: key,
                        platforms: platforms_chars(extract_js_var(content, "MUSIC_QUALITY")),
                        adapter: None,
                        can_search: source_supports_search(content),
                    };
                    (name, Some(meta))
                },
            }
        },
    }
}

/// The platforms searched first, in this order, when a source lists them.
pub open spec fn known_platforms() -> Seq<Seq<char>> {
    seq!["kw"@, "tx"@, "wy"@, "kg"@, "mg"@]
}

/// The keys of `keys` that `p` lists, in the order of `keys`.
pub open spec fn known_present(p: Seq<Seq<char>>, keys: Seq<Seq<char>>) -> Seq<Seq<char>>
    decreases keys.len(),
{
    if keys.len() == 0 {
        Seq::empty()
    } else {
        let r = known_present(p, keys.drop_last());
        if p.contains(keys.last()) {
            r.push(keys.last())
        } else {
            r
        }
    }
}

/// `acc` followed by the items not already in it, in order, once each.
pub open spec fn with_new(acc: Seq<Seq<char>>, items: Seq<Seq<char>>) -> Seq<Seq<char>>
    decreases items.len(),
{
    if items.len() == 0 {
        acc
    } else {
        push_if_absent(with_new(acc, items.drop_last()), items.last())
    }
}

/// The two platforms a source searches: the known ones first (`kw`, `tx`,
/// `wy`, `kg`, `mg`), then the others in the source's order.
pub open spec fn preferred_platforms(p: Seq<Seq<char>>) -> Seq<Seq<char>> {
    let all = with_new(known_present(p, known_platforms()), p);
    if all.len() > 2 {
        all.take(2)
    } else {
        all
    }
}

/// The (at most two) platforms a source is searched on (see
/// `preferred_platforms`).
pub fn preferred_search_platforms(platforms: &[String]) -> (r: Vec<String>)
    ensures
        string_views(r@) == preferred_platforms(string_views(platforms@)),
{
    let mut plats: Vec<Vec<char>> = Vec::new();
    let mut k: usize = 0;
    while k < platforms.len()
        invariant
            k <= platforms.len(),
            views(plats@) == string_views(platforms@.take(k as int)),
        decreases platforms.len() - k,
    {
        let ghost before = views(plats@);
        plats.push(chars_of(platforms[k].as_str()));
        assert(views(plats@) =~= before.push(platforms@[k as int]@));
        assert(string_views(platforms@.take(k + 1)) =~= string_views(platforms@.take(k as int)).push(
            platforms@[k as int]@,
        ));
        k += 1;
    }
    assert(platforms@.take(platforms.len() as int) =~= platforms@);
    let ghost p = string_views(platforms@);
    let mut keys: Vec<Vec<char>> = Vec::new();
    keys.push(lit("kw"));
    keys.push(lit("tx"));
    keys.push(lit("wy"));
    keys.push(lit("kg"));
    keys.push(lit("mg"));
    assert(views(keys@) =~= known_platforms());
    let mut out: Vec<Vec<char>> = Vec::new();
    let mut i: usize = 0;
    while i < keys.len()
        invariant
            views(plats@) == p,
            i <= keys.len(),
            views(out@) == known_present(p, views(keys@).take(i as int)),
        decreases keys.len() - i,
    {
        proof {
            let sub = views(keys@).take(i + 1);
            assert(sub.drop_last() =~= views(keys@).take(i as int));
            assert(sub.last() == keys@[i as int]@);
        }
        if contains_chars(&plats, &keys[i]) {
            let ghost before = views(out@);
            out.push(clone_chars(&keys[i]));
            assert(views(out@) =~= before.push(keys@[i as int]@));
        }
        i += 1;
    }
    assert(views(keys@).take(keys.len() as int) =~= known_platforms());
    let ghost start = views(out@);
    let mut j: usize = 0;
    while j < plats.len()
        invariant
            views(plats@) == p,
            j <= plats.len(),
            views(out@) == with_new(start, p.take(j as int)),
        decreases plats.len() - j,
    {
        proof {
            let sub = p.take(j + 1);
            assert(sub.drop_last() =~= p.take(j as int));
            assert(sub.last() == plats@[j as int]@);
        }
        if !contains_chars(&out, &plats[j]) {
            let ghost before = views(out@);
            out.push(clone_chars(&plats[j]));
            assert(views(out@) =~= before.push(plats@[j as int]@));
        }
        j += 1;
    }
    assert(p.take(plats.len() as int) =~= p);
    if out.len() > 2 {
        let mut two: Vec<Vec<char>> = Vec::new();
        two.push(clone_chars(&out[0]));
        two.push(clone_chars(&out[1]));
        assert(views(two@) =~= views(out@).take(2));
        strings_of(&two)
    } else {
        strings_of(&out)
    }
}

/// The quality asked for when fetching a song's link: `128k` on every
/// platform.
pub fn preferred_quality_for_platform(meta: &SourceMeta, platform: &str) -> (r: String)
    ensures
        r@ == "128k"@,
{
    string_of(&lit("128k"))
}

} // verus!
