//! Reading links, attributes and tokens out of shared-playlist text: pasted
//! labels, HTML pages and escaped JSON.
use vstd::prelude::*;
use crate::text::{
    append_chars, chars_list_of, chars_of, contains, contains_chars, contains_exec, find,
    find_exec, is_ascii_alphanumeric, is_ascii_alphanumeric_exec, is_whitespace,
    is_whitespace_exec, lemma_find_from, replace_all, replace_all_exec, seq_eq, slice_chars,
    starts_with, starts_with_exec, string_of, string_views, strings_of, trim, trim_exec, trim_set,
    trim_set_exec, views,
};

verus! {

/// The characters of a literal.
pub fn lit(s: &str) -> (r: Vec<char>)
    ensures
        r@ == s@,
{
    chars_of(s)
}

fn replace_lit(s: &Vec<char>, p: &str, r: &str) -> (out: Vec<char>)
    requires
        p@.len() > 0,
    ensures
        out@ == replace_all(s@, p@, r@),
{
    let pv = lit(p);
    let rv = lit(r);
    replace_all_exec(s, &pv, &rv)
}

/// The seven HTML entities that shared pages escape, decoded in turn.
pub open spec fn html_decoded(s: Seq<char>) -> Seq<char> {
    replace_all(
        replace_all(
            replace_all(
                replace_all(
                    replace_all(
                        replace_all(replace_all(s, "&amp;"@, "&"@), "&quot;"@, "\""@),
                        "&#39;"@,
                        "'"@,
                    ),
                    "&#x27;"@,
                    "'"@,
                ),
                "&#x2F;"@,
                "/"@,
            ),
            "&lt;"@,
            "<"@,
        ),
        "&gt;"@,
        ">"@,
    )
}

/// JSON-escaped slashes `\/` turned back into `/`.
pub open spec fn unescaped_slashes(s: Seq<char>) -> Seq<char> {
    replace_all(s, "\\/"@, "/"@)
}

pub fn decode_html_chars(s: &Vec<char>) -> (r: Vec<char>)
    ensures
        r@ == html_decoded(s@),
{
    proof {
        reveal_strlit("&amp;");
        reveal_strlit("&quot;");
        reveal_strlit("&#39;");
        reveal_strlit("&#x27;");
        reveal_strlit("&#x2F;");
        reveal_strlit("&lt;");
        reveal_strlit("&gt;");
    }
    let a = replace_lit(s, "&amp;", "&");
    let b = replace_lit(&a, "&quot;", "\"");
    let c = replace_lit(&b, "&#39;", "'");
    let d = replace_lit(&c, "&#x27;", "'");
    let e = replace_lit(&d, "&#x2F;", "/");
    let f = replace_lit(&e, "&lt;", "<");
    replace_lit(&f, "&gt;", ">")
}

pub fn unescape_slashes_chars(s: &Vec<char>) -> (r: Vec<char>)
    ensures
        r@ == unescaped_slashes(s@),
{
    proof {
        reveal_strlit("\\/");
    }
    replace_lit(s, "\\/", "/")
}

/// Decodes the basic HTML entities of shared pages.
pub fn decode_basic_html(value: &str) -> (r: String)
    ensures
        r@ == html_decoded(value@),
{
    let v = chars_of(value);
    string_of(&decode_html_chars(&v))
}

/// The characters that end a link inside text.
pub open spec fn is_url_stop(c: char) -> bool {
    c == '"' || c == '\'' || c == '`' || is_whitespace(c) || c == '<' || c == ')' || c == ']'
}

/// The length of the longest prefix of `s` without a link-ending character.
pub open spec fn url_span(s: Seq<char>) -> nat
    decreases s.len(),
{
    if s.len() == 0 || is_url_stop(s[0]) {
        0
    } else {
        1 + url_span(s.skip(1))
    }
}

pub proof fn lemma_url_span_bound(s: Seq<char>)
    ensures
        url_span(s) <= s.len(),
    decreases s.len(),
{
    if s.len() > 0 && !is_url_stop(s[0]) {
        lemma_url_span_bound(s.skip(1));
    }
}

fn url_span_exec(s: &Vec<char>, from: usize) -> (r: usize)
    requires
        from <= s.len(),
    ensures
        r == url_span(s@.skip(from as int)),
        from + r <= s.len(),
{
    let mut i = from;
    assert(s@.skip(from as int).skip(0) =~= s@.skip(from as int));
    while i < s.len() && !(s[i] == '"' || s[i] == '\'' || s[i] == '`' || is_whitespace_exec(s[i])
        || s[i] == '<' || s[i] == ')' || s[i] == ']')
        invariant
            from <= i <= s.len(),
            url_span(s@.skip(from as int)) == (i - from) + url_span(s@.skip(i as int)),
        decreases s.len() - i,
    {
        assert(s@.skip(i as int).skip(1) =~= s@.skip(i + 1));
        i += 1;
    }
    i - from
}

/// The first link in `text`: from the first `http` up to the first
/// link-ending character, with entities and escaped slashes decoded.
pub open spec fn url_like(text: Seq<char>) -> Option<Seq<char>> {
    match find(text, "http"@) {
        None => None,
        Some(start) => {
            let rest = text.skip(start);
            Some(unescaped_slashes(html_decoded(rest.take(url_span(rest) as int))))
        },
    }
}

fn url_like_chars(text: &Vec<char>) -> (r: Option<Vec<char>>)
    ensures
        match url_like(text@) {
            Some(u) => r is Some && r->0@ == u,
            None => r is None,
        },
{
    let http = lit("http");
    match find_exec(text, &http) {
        None => None,
        Some(start) => {
            proof {
                lemma_find_from(text@, http@, 0);
            }
            let n = url_span_exec(text, start);
            let raw = slice_chars(text, start, start + n);
            assert(raw@ =~= text@.skip(start as int).take(n as int));
            Some(unescape_slashes_chars(&decode_html_chars(&raw)))
        },
    }
}

/// The first link-like part of `text`, decoded.
pub fn extract_url_like(text: &str) -> (r: Option<String>)
    ensures
        match url_like(text@) {
            Some(u) => r is Some && r->0@ == u,
            None => r is None,
        },
{
    let v = chars_of(text);
    match url_like_chars(&v) {
        Some(u) => Some(string_of(&u)),
        None => None,
    }
}

/// The quoting and closing characters stripped from a pasted link.
pub open spec fn share_link_edges() -> Seq<char> {
    seq!['"', '\'', '`', '<', '>', ')', ']', '}', '，', '。']
}

/// A pasted share text normalised to a link: the first link in it (or the
/// whole trimmed text), stripped of quotes and brackets at both ends; a link
/// only when it starts with `http://` or `https://`.
pub open spec fn share_url(input: Seq<char>) -> Option<Seq<char>> {
    let trimmed = trim(input);
    let found = match url_like(trimmed) {
        Some(u) => u,
        None => trimmed,
    };
    let url = trim_set(trim(found), share_link_edges());
    if starts_with(url, "http://"@) || starts_with(url, "https://"@) {
        Some(unescaped_slashes(html_decoded(url)))
    } else {
        None
    }
}

/// Turns pasted share text into a playlist link.
pub fn normalize_share_url(input: &str) -> (r: Option<String>)
    ensures
        match share_url(input@) {
            Some(u) => r is Some && r->0@ == u,
            None => r is None,
        },
{
    let v = chars_of(input);
    let trimmed = trim_exec(&v);
    let found = match url_like_chars(&trimmed) {
        Some(u) => u,
        None => trimmed,
    };
    let edges: Vec<char> = vec!['"', '\'', '`', '<', '>', ')', ']', '}', '，', '。'];
    assert(edges@ =~= share_link_edges());
    let url = trim_set_exec(&trim_exec(&found), &edges);
    let http = lit("http://");
    let https = lit("https://");
    if starts_with_exec(&url, &http) || starts_with_exec(&url, &https) {
        Some(string_of(&unescape_slashes_chars(&decode_html_chars(&url))))
    } else {
        None
    }
}

/// A cover link made absolute and secure: `//host` gains `https:` and an
/// `http://` link becomes `https://`.
pub open spec fn secure_cover(v: Seq<char>) -> Seq<char> {
    if starts_with(v, "//"@) {
        "https:"@ + v
    } else if starts_with(v, "http://"@) {
        "https://"@ + v.skip(7)
    } else {
        v
    }
}

fn secure_cover_chars(v: &Vec<char>) -> (r: Vec<char>)
    ensures
        r@ == secure_cover(v@),
{
    proof {
        reveal_strlit("http://");
    }
    let slashes = lit("//");
    let http = lit("http://");
    if starts_with_exec(v, &slashes) {
        let mut out = lit("https:");
        append_chars(&mut out, v);
        out
    } else if starts_with_exec(v, &http) {
        let mut out = lit("https://");
        let rest = slice_chars(v, 7, v.len());
        assert(rest@ =~= v@.skip(7));
        append_chars(&mut out, &rest);
        out
    } else {
        let mut out: Vec<char> = Vec::new();
        append_chars(&mut out, v);
        assert(out@ =~= v@);
        out
    }
}

/// A trimmed cover link made secure.
pub open spec fn normalized_cover(value: Seq<char>) -> Seq<char> {
    secure_cover(trim(value))
}

pub fn normalize_cover_url(value: String) -> (r: String)
    ensures
        r@ == normalized_cover(value@),
{
    let v = chars_of(value.as_str());
    string_of(&secure_cover_chars(&trim_exec(&v)))
}

/// A Kugou cover template: `{size}` / `{SIZE}` filled with 400, trimmed and
/// made secure.
pub open spec fn kugou_cover(value: Seq<char>) -> Seq<char> {
    secure_cover(trim(replace_all(replace_all(value, "{size}"@, "400"@), "{SIZE}"@, "400"@)))
}

pub fn normalize_kugou_cover_url(value: String) -> (r: String)
    ensures
        r@ == kugou_cover(value@),
{
    proof {
        reveal_strlit("{size}");
        reveal_strlit("{SIZE}");
    }
    let v = chars_of(value.as_str());
    let a = replace_lit(&v, "{size}", "400");
    let b = replace_lit(&a, "{SIZE}", "400");
    string_of(&secure_cover_chars(&trim_exec(&b)))
}


/// A character of a share token (`gcid_…`, `collection_…`).
pub open spec fn is_token_char(c: char) -> bool {
    is_ascii_alphanumeric(c) || c == '_'
}

/// The length of the longest prefix of token characters.
pub open spec fn token_len(s: Seq<char>) -> nat
    decreases s.len(),
{
    if s.len() > 0 && is_token_char(s[0]) {
        1 + token_len(s.skip(1))
    } else {
        0
    }
}

pub proof fn lemma_token_len_bound(s: Seq<char>)
    ensures
        token_len(s) <= s.len(),
    decreases s.len(),
{
    if s.len() > 0 && is_token_char(s[0]) {
        lemma_token_len_bound(s.skip(1));
    }
}

fn token_len_exec(s: &Vec<char>) -> (r: usize)
    ensures
        r == token_len(s@),
        r <= s.len(),
{
    let mut i: usize = 0;
    assert(s@.skip(0) =~= s@);
    while i < s.len() && (is_ascii_alphanumeric_exec(s[i]) || s[i] == '_')
        invariant
            i <= s.len(),
            token_len(s@) == i + token_len(s@.skip(i as int)),
        decreases s.len() - i,
    {
        assert(s@.skip(i as int).skip(1) =~= s@.skip(i + 1));
        i += 1;
    }
    i
}

/// `acc` with `t` appended unless it is already there.
pub open spec fn push_if_absent(acc: Seq<Seq<char>>, t: Seq<char>) -> Seq<Seq<char>> {
    if acc.contains(t) {
        acc
    } else {
        acc.push(t)
    }
}

/// The tokens that follow each occurrence of `prefix` in `rest`, scanning
/// left to right and resuming after each token (or one character past an
/// empty one), each kept once in first-seen order after those in `acc`.
pub open spec fn tokens_after(rest: Seq<char>, prefix: Seq<char>, acc: Seq<Seq<char>>) -> Seq<
    Seq<char>,
>
    decreases rest.len(),
{
    if prefix.len() == 0 {
        acc
    } else {
        match find(rest, prefix) {
            None => acc,
            Some(pos) => {
                if pos < 0 || pos + prefix.len() > rest.len() {
                    acc
                } else {
                    let tail = rest.skip(pos + prefix.len());
                    let n = token_len(tail);
                    proof {
                        lemma_token_len_bound(tail);
                    }
                    if n > 0 {
                        tokens_after(
                            tail.skip(n as int),
                            prefix,
                            push_if_absent(acc, tail.take(n as int)),
                        )
                    } else if tail.len() > 0 {
                        tokens_after(tail.skip(1), prefix, acc)
                    } else {
                        acc
                    }
                }
            },
        }
    }
}

/// The scan of `tokens_after` never steps into the middle of a multi-byte
/// character: every empty token is followed by an ASCII character.  (The
/// scan resumes one byte past an empty token; on any other input it would
/// cut a character apart.)
pub open spec fn token_scan_safe(rest: Seq<char>, prefix: Seq<char>) -> bool
    decreases rest.len(),
{
    if prefix.len() == 0 {
        true
    } else {
        match find(rest, prefix) {
            None => true,
            Some(pos) => {
                if pos < 0 || pos + prefix.len() > rest.len() {
                    true
                } else {
                    let tail = rest.skip(pos + prefix.len());
                    let n = token_len(tail);
                    proof {
                        lemma_token_len_bound(tail);
                    }
                    if n > 0 {
                        token_scan_safe(tail.skip(n as int), prefix)
                    } else {
                        tail.len() > 0 && tail[0] < '\u{80}' && token_scan_safe(
                            tail.skip(1),
                            prefix,
                        )
                    }
                }
            },
        }
    }
}

/// The text in which share tokens are looked for: entities decoded and
/// escaped slashes undone.
pub open spec fn token_text(text: Seq<char>) -> Seq<char> {
    unescaped_slashes(html_decoded(text))
}

/// The distinct tokens that follow `prefix` in the decoded `text`.
pub open spec fn token_values(text: Seq<char>, prefix: Seq<char>) -> Seq<Seq<char>> {
    tokens_after(token_text(text), prefix, Seq::empty())
}

fn token_values_chars(text: &Vec<char>, prefix: &Vec<char>) -> (r: Vec<Vec<char>>)
    requires
        prefix.len() > 0,
        token_scan_safe(token_text(text@), prefix@),
    ensures
        views(r@) == token_values(text@, prefix@),
{
    let decoded = unescape_slashes_chars(&decode_html_chars(text));
    let mut rest = decoded;
    let mut acc: Vec<Vec<char>> = Vec::new();
    assert(views(acc@) =~= Seq::<Seq<char>>::empty());
    loop
        invariant
            prefix.len() > 0,
            tokens_after(rest@, prefix@, views(acc@)) == token_values(text@, prefix@),
            token_scan_safe(rest@, prefix@),
        decreases rest.len(),
    {
        let found = find_exec(&rest, prefix);
        match found {
            None => {
                return acc;
            },
            Some(pos) => {
                proof {
                    lemma_find_from(rest@, prefix@, 0);
                }
                let tail = slice_chars(&rest, pos + prefix.len(), rest.len());
                assert(tail@ =~= rest@.skip(pos + prefix.len()));
                let n = token_len_exec(&tail);
                if n > 0 {
                    let tok = slice_chars(&tail, 0, n);
                    assert(tok@ =~= tail@.take(n as int));
                    let ghost before = views(acc@);
                    if !contains_chars(&acc, &tok) {
                        acc.push(tok);
                        assert(views(acc@) =~= before.push(tail@.take(n as int)));
                    }
                    let next = slice_chars(&tail, n, tail.len());
                    assert(next@ =~= tail@.skip(n as int));
                    rest = next;
                } else {
                    let next = slice_chars(&tail, 1, tail.len());
                    assert(next@ =~= tail@.skip(1));
                    rest = next;
                }
            },
        }
    }
}

/// The distinct share tokens (`prefix` excluded) that follow `prefix` in
/// the decoded text, in first-seen order.
pub fn extract_token_values(text: &str, prefix: &str) -> (r: Vec<String>)
    requires
        prefix@.len() > 0,
        token_scan_safe(token_text(text@), prefix@),
    ensures
        string_views(r@) == token_values(text@, prefix@),
{
    let t = chars_of(text);
    let p = chars_of(prefix);
    strings_of(&token_values_chars(&t, &p))
}

/// Each token with `prefix` put back in front.
pub open spec fn prefixed(prefix: Seq<char>, tokens: Seq<Seq<char>>) -> Seq<Seq<char>> {
    tokens.map_values(|t: Seq<char>| prefix + t)
}

fn prefixed_chars(prefix: &Vec<char>, tokens: &Vec<Vec<char>>) -> (r: Vec<Vec<char>>)
    ensures
        views(r@) == prefixed(prefix@, views(tokens@)),
{
    let mut out: Vec<Vec<char>> = Vec::new();
    let mut i: usize = 0;
    while i < tokens.len()
        invariant
            i <= tokens.len(),
            out.len() == i,
            views(out@) == prefixed(prefix@, views(tokens@.subrange(0, i as int))),
        decreases tokens.len() - i,
    {
        let mut item: Vec<char> = Vec::new();
        append_chars(&mut item, prefix);
        append_chars(&mut item, &tokens[i]);
        let ghost prev = out@;
        out.push(item);
        assert forall|k: int| 0 <= k <= i implies views(out@)[k] == prefixed(
            prefix@,
            views(tokens@.subrange(0, i + 1)),
        )[k] by {
            if k < i {
                assert(prev[k] == out@[k]);
                assert(views(prev)[k] == prefixed(prefix@, views(tokens@.subrange(0, i as int)))[k]);
            }
        }
        i += 1;
        assert(views(out@) =~= prefixed(prefix@, views(tokens@.subrange(0, i as int))));
    }
    assert(tokens@.subrange(0, tokens.len() as int) =~= tokens@);
    out
}

/// The `gcid_…` share identifiers in a text.
pub open spec fn gcid_values(text: Seq<char>) -> Seq<Seq<char>> {
    prefixed("gcid_"@, token_values(text, "gcid_"@))
}

/// The `collection_…` identifiers in a text.
pub open spec fn collection_ids(text: Seq<char>) -> Seq<Seq<char>> {
    prefixed("collection_"@, token_values(text, "collection_"@))
}

fn gcid_values_chars(text: &Vec<char>) -> (r: Vec<Vec<char>>)
    requires
        token_scan_safe(token_text(text@), "gcid_"@),
    ensures
        views(r@) == gcid_values(text@),
{
    proof {
        reveal_strlit("gcid_");
    }
    let p = lit("gcid_");
    prefixed_chars(&p, &token_values_chars(text, &p))
}

fn collection_ids_chars(text: &Vec<char>) -> (r: Vec<Vec<char>>)
    requires
        token_scan_safe(token_text(text@), "collection_"@),
    ensures
        views(r@) == collection_ids(text@),
{
    proof {
        reveal_strlit("collection_");
    }
    let p = lit("collection_");
    prefixed_chars(&p, &token_values_chars(text, &p))
}

/// The `gcid_…` share identifiers in a text, each once.
pub fn extract_gcid_values(text: &str) -> (r: Vec<String>)
    requires
        token_scan_safe(token_text(text@), "gcid_"@),
    ensures
        string_views(r@) == gcid_values(text@),
{
    strings_of(&gcid_values_chars(&chars_of(text)))
}

/// The `collection_…` identifiers in a text, each once.
pub fn extract_collection_ids(text: &str) -> (r: Vec<String>)
    requires
        token_scan_safe(token_text(text@), "collection_"@),
    ensures
        string_views(r@) == collection_ids(text@),
{
    strings_of(&collection_ids_chars(&chars_of(text)))
}

/// A candidate link kept once, and only when it is not blank.
pub open spec fn pushed_unique(values: Seq<Seq<char>>, value: Seq<char>) -> Seq<Seq<char>> {
    if trim(value).len() > 0 && !values.contains(value) {
        values.push(value)
    } else {
        values
    }
}

/// Adds `value` unless it is blank or already present.
pub fn push_unique(values: &mut Vec<String>, value: String)
    ensures
        string_views(final(values)@) == pushed_unique(string_views(old(values)@), value@),
{
    let v = chars_of(value.as_str());
    let existing = chars_list_of(values);
    if trim_exec(&v).len() > 0 && !contains_chars(&existing, &v) {
        let ghost before = values@;
        values.push(value);
        assert(string_views(values@) =~= string_views(before).push(v@));
    }
}

fn push_unique_chars(values: &mut Vec<Vec<char>>, value: Vec<char>)
    ensures
        views(final(values)@) == pushed_unique(views(old(values)@), value@),
{
    if trim_exec(&value).len() > 0 && !contains_chars(values, &value) {
        let ghost before = values@;
        let ghost vv = value@;
        values.push(value);
        assert(views(values@) =~= views(before).push(vv));
    }
}

/// `pushed_unique` applied to each item in turn.
pub open spec fn pushed_all(values: Seq<Seq<char>>, items: Seq<Seq<char>>) -> Seq<Seq<char>>
    decreases items.len(),
{
    if items.len() == 0 {
        values
    } else {
        pushed_all(pushed_unique(values, items[0]), items.skip(1))
    }
}

fn push_all_chars(values: &mut Vec<Vec<char>>, items: &Vec<Vec<char>>)
    ensures
        views(final(values)@) == pushed_all(views(old(values)@), views(items@)),
{
    let mut i: usize = 0;
    assert(views(items@).skip(0) =~= views(items@));
    while i < items.len()
        invariant
            i <= items.len(),
            pushed_all(views(values@), views(items@).skip(i as int)) == pushed_all(
                views(old(values)@),
                views(items@),
            ),
        decreases items.len() - i,
    {
        let item = slice_chars(&items[i], 0, items[i].len());
        assert(item@ =~= items@[i as int]@);
        assert(views(items@).skip(i as int)[0] == item@);
        assert(views(items@).skip(i as int).skip(1) =~= views(items@).skip(i + 1));
        push_unique_chars(values, item);
        i += 1;
    }
}


/// A link that points at Kugou.
pub open spec fn kugou_link(c: Seq<char>) -> bool {
    contains(c, "kugou.com"@) || contains(c, "pubsongscdn.kugou.com"@) || contains(
        c,
        "t1.kugou.com"@,
    )
}

/// The characters stripped from both ends of a Kugou link found in a page.
pub open spec fn link_edges() -> Seq<char> {
    seq!['\\', '"', '\'']
}

/// The Kugou links that start at each `http` of `rest`, each decoded and
/// kept once, after those of `acc`; the scan resumes four characters past
/// each `http`.
pub open spec fn kugou_urls_after(rest: Seq<char>, acc: Seq<Seq<char>>) -> Seq<Seq<char>>
    decreases rest.len(),
{
    match find(rest, "http"@) {
        None => acc,
        Some(pos) => {
            if pos < 0 || pos + 4 > rest.len() {
                acc
            } else {
                let next = match url_like(rest.skip(pos)) {
                    Some(c) => if kugou_link(c) {
                        push_if_absent(acc, html_decoded(trim_set(c, link_edges())))
                    } else {
                        acc
                    },
                    None => acc,
                };
                kugou_urls_after(rest.skip(pos + 4), next)
            }
        },
    }
}

/// The Kugou links of a page, in first-seen order.
pub open spec fn kugou_urls(text: Seq<char>) -> Seq<Seq<char>> {
    kugou_urls_after(text, Seq::empty())
}

fn kugou_urls_chars(text: &Vec<char>) -> (r: Vec<Vec<char>>)
    ensures
        views(r@) == kugou_urls(text@),
{
    proof {
        reveal_strlit("http");
    }
    let http = lit("http");
    let k1 = lit("kugou.com");
    let k2 = lit("pubsongscdn.kugou.com");
    let k3 = lit("t1.kugou.com");
    let edges: Vec<char> = vec!['\\', '"', '\''];
    assert(edges@ =~= link_edges());
    let mut rest = slice_chars(text, 0, text.len());
    assert(rest@ =~= text@);
    let mut acc: Vec<Vec<char>> = Vec::new();
    assert(views(acc@) =~= Seq::<Seq<char>>::empty());
    loop
        invariant
            http@ == "http"@,
            http@.len() == 4,
            k1@ == "kugou.com"@,
            k2@ == "pubsongscdn.kugou.com"@,
            k3@ == "t1.kugou.com"@,
            edges@ == link_edges(),
            kugou_urls_after(rest@, views(acc@)) == kugou_urls(text@),
        decreases rest.len(),
    {
        match find_exec(&rest, &http) {
            None => {
                return acc;
            },
            Some(pos) => {
                proof {
                    lemma_find_from(rest@, http@, 0);
                }
                let from = slice_chars(&rest, pos, rest.len());
                assert(from@ =~= rest@.skip(pos as int));
                match url_like_chars(&from) {
                    Some(c) => {
                        if contains_exec(&c, &k1) || contains_exec(&c, &k2) || contains_exec(
                            &c,
                            &k3,
                        ) {
                            let url = decode_html_chars(&trim_set_exec(&c, &edges));
                            let ghost before = views(acc@);
                            if !contains_chars(&acc, &url) {
                                let ghost u = url@;
                                acc.push(url);
                                assert(views(acc@) =~= before.push(u));
                            }
                        }
                    },
                    None => {},
                }
                let next = slice_chars(&rest, pos + 4, rest.len());
                assert(next@ =~= rest@.skip(pos + 4));
                rest = next;
            },
        }
    }
}

/// The distinct Kugou links found in a page.
pub fn extract_kugou_urls(text: &str) -> (r: Vec<String>)
    ensures
        string_views(r@) == kugou_urls(text@),
{
    strings_of(&kugou_urls_chars(&chars_of(text)))
}

/// The web song-list page of a `gcid_…` identifier.
pub open spec fn songlist_link(gcid: Seq<char>) -> Seq<char> {
    "https://www.kugou.com/songlist/"@ + gcid + "/?src_cid="@ + gcid
}

/// The address that lists the songs of a `collection_…` identifier.
pub open spec fn collection_link(id: Seq<char>) -> Seq<char> {
    "https://pubsongscdn.kugou.com/v2/get_other_list_file?srcappid=2919&clientver=20000&clienttime=1780992177049&mid=1fb95e3ddf2a3557b2c5ba9dff1d6186&uuid=1780992177049&dfid=1u0bY23Rg3184bpf3n37fOPQ&appid=1058&type=0&module=playlist&page=1&pagesize=500&global_collection_id="@
        + id
}

/// The texts whose share tokens can be scanned without cutting a character.
pub open spec fn candidate_scan_safe(input_url: Seq<char>, final_url: Seq<char>, text: Seq<char>) -> bool {
    &&& token_scan_safe(token_text(input_url), "gcid_"@)
    &&& token_scan_safe(token_text(final_url), "gcid_"@)
    &&& token_scan_safe(token_text(text), "gcid_"@)
    &&& token_scan_safe(token_text(input_url), "collection_"@)
    &&& token_scan_safe(token_text(final_url), "collection_"@)
    &&& token_scan_safe(token_text(text), "collection_"@)
}

/// Where the songs of a shared playlist may be found: the link the share
/// redirected to, the Kugou links of its page, the song-list pages of the
/// `gcid_…` identifiers (of the input link, the final link, then the page),
/// and the listing addresses of the `collection_…` identifiers (of the page,
/// the final link, then the input link); each once and none blank.
pub open spec fn candidate_urls(input_url: Seq<char>, final_url: Seq<char>, text: Seq<char>) -> Seq<
    Seq<char>,
> {
    let a = pushed_unique(Seq::empty(), final_url);
    let b = pushed_all(a, kugou_urls(text));
    let c = pushed_all(
        b,
        (gcid_values(input_url) + gcid_values(final_url) + gcid_values(text)).map_values(
            |g: Seq<char>| songlist_link(g),
        ),
    );
    pushed_all(
        c,
        (collection_ids(text) + collection_ids(final_url) + collection_ids(input_url)).map_values(
            |id: Seq<char>| collection_link(id),
        ),
    )
}

fn songlist_links_chars(ids: &Vec<Vec<char>>) -> (r: Vec<Vec<char>>)
    ensures
        views(r@) == views(ids@).map_values(|g: Seq<char>| songlist_link(g)),
{
    let head = lit("https://www.kugou.com/songlist/");
    let mid = lit("/?src_cid=");
    let mut out: Vec<Vec<char>> = Vec::new();
    let mut i: usize = 0;
    while i < ids.len()
        invariant
            head@ == "https://www.kugou.com/songlist/"@,
            mid@ == "/?src_cid="@,
            i <= ids.len(),
            out.len() == i,
            forall|k: int| 0 <= k < i ==> out@[k]@ == songlist_link(ids@[k]@),
        decreases ids.len() - i,
    {
        let mut item: Vec<char> = Vec::new();
        append_chars(&mut item, &head);
        append_chars(&mut item, &ids[i]);
        append_chars(&mut item, &mid);
        append_chars(&mut item, &ids[i]);
        out.push(item);
        i += 1;
    }
    assert(views(out@) =~= views(ids@).map_values(|g: Seq<char>| songlist_link(g)));
    out
}

fn collection_links_chars(ids: &Vec<Vec<char>>) -> (r: Vec<Vec<char>>)
    ensures
        views(r@) == views(ids@).map_values(|g: Seq<char>| collection_link(g)),
{
    let head = lit(
        "https://pubsongscdn.kugou.com/v2/get_other_list_file?srcappid=2919&clientver=20000&clienttime=1780992177049&mid=1fb95e3ddf2a3557b2c5ba9dff1d6186&uuid=1780992177049&dfid=1u0bY23Rg3184bpf3n37fOPQ&appid=1058&type=0&module=playlist&page=1&pagesize=500&global_collection_id=",
    );
    let mut out: Vec<Vec<char>> = Vec::new();
    let mut i: usize = 0;
    while i < ids.len()
        invariant
            head@
                == "https://pubsongscdn.kugou.com/v2/get_other_list_file?srcappid=2919&clientver=20000&clienttime=1780992177049&mid=1fb95e3ddf2a3557b2c5ba9dff1d6186&uuid=1780992177049&dfid=1u0bY23Rg3184bpf3n37fOPQ&appid=1058&type=0&module=playlist&page=1&pagesize=500&global_collection_id="@,
            i <= ids.len(),
            out.len() == i,
            forall|k: int| 0 <= k < i ==> out@[k]@ == collection_link(ids@[k]@),
        decreases ids.len() - i,
    {
        let mut item: Vec<char> = Vec::new();
        append_chars(&mut item, &head);
        append_chars(&mut item, &ids[i]);
        out.push(item);
        i += 1;
    }
    assert(views(out@) =~= views(ids@).map_values(|g: Seq<char>| collection_link(g)));
    out
}

fn concat3(a: Vec<Vec<char>>, b: Vec<Vec<char>>, c: Vec<Vec<char>>) -> (r: Vec<Vec<char>>)
    ensures
        views(r@) == views(a@) + views(b@) + views(c@),
{
    let mut out = a;
    let mut b = b;
    let mut c = c;
    let ghost (va, vb, vc) = (out@, b@, c@);
    out.append(&mut b);
    out.append(&mut c);
    assert(out@ =~= va + vb + vc);
    assert(views(out@) =~= views(va) + views(vb) + views(vc));
    out
}

/// The links to try, in order, when a shared playlist page holds no songs.
pub fn kugou_playlist_candidate_urls(input_url: &str, final_url: &str, text: &str) -> (r: Vec<
    String,
>)
    requires
        candidate_scan_safe(input_url@, final_url@, text@),
    ensures
        string_views(r@) == candidate_urls(input_url@, final_url@, text@),
{
    let input_v = chars_of(input_url);
    let final_v = chars_of(final_url);
    let text_v = chars_of(text);
    let mut urls: Vec<Vec<char>> = Vec::new();
    let final_copy = slice_chars(&final_v, 0, final_v.len());
    assert(final_copy@ =~= final_url@);
    assert(views(urls@) =~= Seq::<Seq<char>>::empty());
    push_unique_chars(&mut urls, final_copy);
    push_all_chars(&mut urls, &kugou_urls_chars(&text_v));
    let gcids = concat3(
        gcid_values_chars(&input_v),
        gcid_values_chars(&final_v),
        gcid_values_chars(&text_v),
    );
    push_all_chars(&mut urls, &songlist_links_chars(&gcids));
    let cids = concat3(
        collection_ids_chars(&text_v),
        collection_ids_chars(&final_v),
        collection_ids_chars(&input_v),
    );
    push_all_chars(&mut urls, &collection_links_chars(&cids));
    strings_of(&urls)
}

fn token_scan_ok(text: &Vec<char>, prefix: &Vec<char>) -> (r: bool)
    requires
        prefix.len() > 0,
    ensures
        r == token_scan_safe(token_text(text@), prefix@),
{
    let mut rest = unescape_slashes_chars(&decode_html_chars(text));
    loop
        invariant
            prefix.len() > 0,
            token_scan_safe(rest@, prefix@) == token_scan_safe(token_text(text@), prefix@),
        decreases rest.len(),
    {
        match find_exec(&rest, prefix) {
            None => {
                return true;
            },
            Some(pos) => {
                proof {
                    lemma_find_from(rest@, prefix@, 0);
                }
                let len = rest.len();
                let tail = slice_chars(&rest, pos + prefix.len(), len);
                assert(tail@ =~= rest@.skip(pos + prefix.len()));
                let n = token_len_exec(&tail);
                let tlen = tail.len();
                if n > 0 {
                    let next = slice_chars(&tail, n, tlen);
                    assert(next@ =~= tail@.skip(n as int));
                    rest = next;
                } else if tail.len() > 0 && '\u{80}' > tail[0] {
                    let next = slice_chars(&tail, 1, tlen);
                    assert(next@ =~= tail@.skip(1));
                    rest = next;
                } else {
                    return false;
                }
            },
        }
    }
}

/// Whether `kugou_playlist_candidate_urls` may scan these texts (see
/// `candidate_scan_safe`).
pub fn candidate_urls_readable(input_url: &str, final_url: &str, text: &str) -> (r: bool)
    ensures
        r == candidate_scan_safe(input_url@, final_url@, text@),
{
    let gcid = lit("gcid_");
    let coll = lit("collection_");
    proof {
        reveal_strlit("gcid_");
        reveal_strlit("collection_");
    }
    let i = chars_of(input_url);
    let f = chars_of(final_url);
    let t = chars_of(text);
    token_scan_ok(&i, &gcid) && token_scan_ok(&f, &gcid) && token_scan_ok(&t, &gcid)
        && token_scan_ok(&i, &coll) && token_scan_ok(&f, &coll) && token_scan_ok(&t, &coll)
}

/// The value of the first `prefix…delimiter` attribute, decoded and trimmed;
/// nothing when it is missing, unterminated or blank.
pub open spec fn html_attr(text: Seq<char>, prefix: Seq<char>, delimiter: char) -> Option<
    Seq<char>,
> {
    match find(text, prefix) {
        None => None,
        Some(pos) => {
            let tail = text.skip(pos + prefix.len());
            match find(tail, seq![delimiter]) {
                None => None,
                Some(end) => {
                    let v = trim(html_decoded(tail.take(end)));
                    if v.len() == 0 {
                        None
                    } else {
                        Some(v)
                    }
                },
            }
        },
    }
}

pub fn html_attr_chars(text: &Vec<char>, prefix: &Vec<char>, delimiter: char) -> (r: Option<Vec<char>>)
    ensures
        match html_attr(text@, prefix@, delimiter) {
            Some(v) => r is Some && r->0@ == v,
            None => r is None,
        },
{
    match find_exec(text, prefix) {
        None => None,
        Some(pos) => {
            proof {
                lemma_find_from(text@, prefix@, 0);
            }
            let len = text.len();
            let tail = slice_chars(text, pos + prefix.len(), len);
            assert(tail@ =~= text@.skip(pos + prefix.len()));
            let d: Vec<char> = vec![delimiter];
            assert(d@ =~= seq![delimiter]);
            match find_exec(&tail, &d) {
                None => None,
                Some(end) => {
                    proof {
                        lemma_find_from(tail@, d@, 0);
                    }
                    let raw = slice_chars(&tail, 0, end);
                    assert(raw@ =~= tail@.take(end as int));
                    let v = trim_exec(&decode_html_chars(&raw));
                    if v.len() == 0 {
                        None
                    } else {
                        Some(v)
                    }
                },
            }
        },
    }
}

/// Reads an HTML attribute value like `attr="value"`.
pub fn extract_html_attr(text: &str, prefix: &str, delimiter: char) -> (r: Option<String>)
    ensures
        match html_attr(text@, prefix@, delimiter) {
            Some(v) => r is Some && r->0@ == v,
            None => r is None,
        },
{
    match html_attr_chars(&chars_of(text), &chars_of(prefix), delimiter) {
        Some(v) => Some(string_of(&v)),
        None => None,
    }
}

/// `Artist - Title` split at the first ` - ` into trimmed halves; without
/// the separator the artist is empty and the whole text is the title.
pub open spec fn artist_title(inner: Seq<char>) -> (Seq<char>, Seq<char>) {
    match find(inner, " - "@) {
        Some(pos) => (trim(inner.take(pos)), trim(inner.skip(pos + 3))),
        None => (Seq::empty(), inner),
    }
}

/// The trimmed text inside the first `<tag>…</tag>`, split as
/// `artist_title`; two empty texts when there is no such element.
pub open spec fn html_inner_text(text: Seq<char>, tag: Seq<char>) -> (Seq<char>, Seq<char>) {
    let open = "<"@ + tag + ">"@;
    let close = "</"@ + tag + ">"@;
    match find(text, open) {
        None => (Seq::empty(), Seq::empty()),
        Some(start) => {
            let inner_start = start + open.len();
            match find(text.skip(inner_start), close) {
                None => (Seq::empty(), Seq::empty()),
                Some(end) => artist_title(trim(text.subrange(inner_start, inner_start + end))),
            }
        },
    }
}

fn artist_title_chars(inner: &Vec<char>) -> (r: (Vec<char>, Vec<char>))
    ensures
        (r.0@, r.1@) == artist_title(inner@),
{
    proof {
        reveal_strlit(" - ");
    }
    let sep = lit(" - ");
    match find_exec(inner, &sep) {
        Some(pos) => {
            proof {
                lemma_find_from(inner@, sep@, 0);
            }
            let left = slice_chars(inner, 0, pos);
            let right = slice_chars(inner, pos + 3, inner.len());
            assert(left@ =~= inner@.take(pos as int));
            assert(right@ =~= inner@.skip(pos + 3));
            (trim_exec(&left), trim_exec(&right))
        },
        None => {
            let whole = slice_chars(inner, 0, inner.len());
            assert(whole@ =~= inner@);
            (Vec::new(), whole)
        },
    }
}

pub fn html_inner_text_chars(text: &Vec<char>, tag: &Vec<char>) -> (r: (Vec<char>, Vec<char>))
    ensures
        (r.0@, r.1@) == html_inner_text(text@, tag@),
{
    let mut open = lit("<");
    append_chars(&mut open, tag);
    append_chars(&mut open, &lit(">"));
    let mut close = lit("</");
    append_chars(&mut close, tag);
    append_chars(&mut close, &lit(">"));
    match find_exec(text, &open) {
        None => (Vec::new(), Vec::new()),
        Some(start) => {
            proof {
                lemma_find_from(text@, open@, 0);
            }
            let len = text.len();
            assert(start + open.len() <= len);
            let inner_start = start + open.len();
            let after = slice_chars(text, inner_start, text.len());
            assert(after@ =~= text@.skip(inner_start as int));
            match find_exec(&after, &close) {
                None => (Vec::new(), Vec::new()),
                Some(end) => {
                    proof {
                        lemma_find_from(after@, close@, 0);
                    }
                    let raw = slice_chars(text, inner_start, inner_start + end);
                    artist_title_chars(&trim_exec(&raw))
                },
            }
        },
    }
}

/// The inner text of the first matching element, split into artist and
/// title.
pub fn extract_html_inner_text(text: &str, tag: &str) -> (r: (String, String))
    ensures
        (r.0@, r.1@) == html_inner_text(text@, tag@),
{
    let (a, t) = html_inner_text_chars(&chars_of(text), &chars_of(tag));
    (string_of(&a), string_of(&t))
}


/// The number of bytes UTF-8 takes for a character.
pub open spec fn char_width(c: char) -> nat {
    if '\u{80}' > c {
        1
    } else if '\u{800}' > c {
        2
    } else if '\u{10000}' > c {
        3
    } else {
        4
    }
}

pub fn char_width_exec(c: char) -> (r: usize)
    ensures
        r == char_width(c),
{
    if '\u{80}' > c {
        1
    } else if '\u{800}' > c {
        2
    } else if '\u{10000}' > c {
        3
    } else {
        4
    }
}

/// The number of bytes UTF-8 takes for a text (`str::len`).
pub open spec fn utf8_len(s: Seq<char>) -> nat
    decreases s.len(),
{
    if s.len() == 0 {
        0
    } else {
        utf8_len(s.drop_last()) + char_width(s.last())
    }
}

proof fn lemma_utf8_len_prefix(s: Seq<char>, i: int, j: int)
    requires
        0 <= i <= j <= s.len(),
    ensures
        utf8_len(s.take(i)) <= utf8_len(s.take(j)),
    decreases j - i,
{
    if i < j {
        lemma_utf8_len_prefix(s, i, j - 1);
        assert(s.take(j).drop_last() =~= s.take(j - 1));
    }
}

/// Whether a text takes more than `limit` bytes in UTF-8.
pub fn utf8_longer_than(s: &Vec<char>, limit: usize) -> (r: bool)
    ensures
        r == (utf8_len(s@) > limit),
{
    let mut i: usize = 0;
    let mut count: usize = 0;
    assert(s@.take(0) =~= Seq::<char>::empty());
    while i < s.len()
        invariant
            i <= s.len(),
            count == utf8_len(s@.take(i as int)),
            count <= limit,
        decreases s.len() - i,
    {
        assert(s@.take(i + 1).drop_last() =~= s@.take(i as int));
        let w = char_width_exec(s[i]);
        if w > limit - count {
            proof {
                lemma_utf8_len_prefix(s@, i + 1, s.len() as int);
                assert(s@.take(s.len() as int) =~= s@);
            }
            return true;
        }
        count = count + w;
        i += 1;
    }
    assert(s@.take(s.len() as int) =~= s@);
    false
}

/// How many leading characters of `s` fit in `n` bytes.
pub open spec fn window_chars(s: Seq<char>, n: nat) -> nat
    decreases s.len(),
{
    if s.len() == 0 || char_width(s[0]) > n {
        0
    } else {
        1 + window_chars(s.skip(1), (n - char_width(s[0])) as nat)
    }
}

/// The first `n` bytes of `s` end between two characters (or `s` is
/// shorter than `n` bytes).
pub open spec fn window_on_boundary(s: Seq<char>, n: nat) -> bool
    decreases s.len(),
{
    if s.len() == 0 || n == 0 {
        true
    } else if char_width(s[0]) > n {
        false
    } else {
        window_on_boundary(s.skip(1), (n - char_width(s[0])) as nat)
    }
}

proof fn lemma_window_bound(s: Seq<char>, n: nat)
    ensures
        window_chars(s, n) <= s.len(),
    decreases s.len(),
{
    if s.len() > 0 && char_width(s[0]) <= n {
        lemma_window_bound(s.skip(1), (n - char_width(s[0])) as nat);
    }
}

fn window_chars_exec(s: &Vec<char>, from: usize, n: usize) -> (r: (usize, bool))
    requires
        from <= s.len(),
    ensures
        r.0 == window_chars(s@.skip(from as int), n as nat),
        r.1 == window_on_boundary(s@.skip(from as int), n as nat),
        from + r.0 <= s.len(),
{
    let mut i = from;
    let mut left = n;
    assert(s@.skip(from as int).skip(0) =~= s@.skip(from as int));
    while i < s.len() && left > 0 && char_width_exec(s[i]) <= left
        invariant
            from <= i <= s.len(),
            left <= n,
            window_chars(s@.skip(from as int), n as nat) == (i - from) + window_chars(
                s@.skip(i as int),
                left as nat,
            ),
            window_on_boundary(s@.skip(from as int), n as nat) == window_on_boundary(
                s@.skip(i as int),
                left as nat,
            ),
        decreases s.len() - i,
    {
        assert(s@.skip(i as int).skip(1) =~= s@.skip(i + 1));
        left = left - char_width_exec(s[i]);
        i += 1;
    }
    proof {
        let t = s@.skip(i as int);
        if left == 0 && t.len() > 0 {
            assert(char_width(t[0]) > 0);
        }
    }
    let ok = i == s.len() || left == 0;
    (i - from, ok)
}

/// The first link within 500 bytes after `key`, if `key` occurs.
pub open spec fn image_after(text: Seq<char>, key: Seq<char>) -> Option<Seq<char>> {
    match find(text, key) {
        None => None,
        Some(pos) => {
            let rest = text.skip(pos);
            url_like(rest.take(window_chars(rest, 500) as int))
        },
    }
}

/// The 500-byte window after `key` can be cut out of `text`.
pub open spec fn image_window_safe(text: Seq<char>, key: Seq<char>) -> bool {
    match find(text, key) {
        None => true,
        Some(pos) => window_on_boundary(text.skip(pos), 500),
    }
}

/// The page image named by `og:image`, else by `twitter:image`.
pub open spec fn first_image(text: Seq<char>) -> Option<Seq<char>> {
    match image_after(text, "og:image"@) {
        Some(u) => Some(u),
        None => image_after(text, "twitter:image"@),
    }
}

/// The windows that `first_image` reads end between characters.
pub open spec fn first_image_safe(text: Seq<char>) -> bool {
    &&& image_window_safe(text, "og:image"@)
    &&& (image_after(text, "og:image"@) is None ==> image_window_safe(text, "twitter:image"@))
}

fn image_after_chars(text: &Vec<char>, key: &Vec<char>) -> (r: (Option<Vec<char>>, bool))
    ensures
        r.1 == image_window_safe(text@, key@),
        r.1 ==> match image_after(text@, key@) {
            Some(u) => r.0 is Some && r.0->0@ == u,
            None => r.0 is None,
        },
{
    match find_exec(text, key) {
        None => (None, true),
        Some(pos) => {
            proof {
                lemma_find_from(text@, key@, 0);
            }
            let (n, ok) = window_chars_exec(text, pos, 500);
            if !ok {
                return (None, false);
            }
            let window = slice_chars(text, pos, pos + n);
            assert(window@ =~= text@.skip(pos as int).take(n as int));
            (url_like_chars(&window), true)
        },
    }
}

/// The share page's preview image (`og:image`, else `twitter:image`).
pub fn extract_first_image(text: &str) -> (r: Option<String>)
    requires
        first_image_safe(text@),
    ensures
        match first_image(text@) {
            Some(u) => r is Some && r->0@ == u,
            None => r is None,
        },
{
    let v = chars_of(text);
    let (og, _) = image_after_chars(&v, &lit("og:image"));
    match og {
        Some(u) => Some(string_of(&u)),
        None => {
            let (tw, _) = image_after_chars(&v, &lit("twitter:image"));
            match tw {
                Some(u) => Some(string_of(&u)),
                None => None,
            }
        },
    }
}

/// Whether `extract_first_image` may read `text` (its windows end between
/// characters).
pub fn first_image_readable(text: &str) -> (r: bool)
    ensures
        r == first_image_safe(text@),
{
    let v = chars_of(text);
    let (og, og_ok) = image_after_chars(&v, &lit("og:image"));
    if !og_ok {
        return false;
    }
    if og.is_some() {
        return true;
    }
    let (_, tw_ok) = image_after_chars(&v, &lit("twitter:image"));
    tw_ok
}

} // verus!
