//! The JSON documents that music services and shared pages return, held as
//! plain values, and the readings the engine makes of them.
use vstd::prelude::*;
use crate::text::{append_chars, chars_of, seq_eq, slice_chars, string_of, views};

verus! {

/// A parsed JSON value.  Numbers keep the text `serde_json` prints for
/// them; object members keep the order of the parsed map (sorted by key).
pub enum Json {
    Null,
    Bool(bool),
    Number(String),
    Str(String),
    Array(Vec<Json>),
    Object(Vec<(String, Json)>),
}

/// The value of the first member named `key`.
pub open spec fn member(members: Seq<(String, Json)>, key: Seq<char>) -> Option<Json>
    decreases members.len(),
{
    if members.len() == 0 {
        None
    } else if members[0].0@ == key {
        Some(members[0].1)
    } else {
        member(members.skip(1), key)
    }
}

/// `Value::get` with a key: the member of an object, nothing otherwise.
pub open spec fn get(v: Json, key: Seq<char>) -> Option<Json> {
    match v {
        Json::Object(members) => member(members@, key),
        _ => None,
    }
}

/// `Value::as_str`.
pub open spec fn as_str(v: Json) -> Option<Seq<char>> {
    match v {
        Json::Str(s) => Some(s@),
        _ => None,
    }
}

/// `Value::as_array`.
pub open spec fn as_array(v: Json) -> Option<Seq<Json>> {
    match v {
        Json::Array(items) => Some(items@),
        _ => None,
    }
}

/// The member `key` of `v` (an object), by reference.
pub fn get_member<'a>(v: &'a Json, key: &str) -> (r: Option<&'a Json>)
    ensures
        match get(*v, key@) {
            Some(x) => r is Some && *r->0 == x,
            None => r is None,
        },
{
    match v {
        Json::Object(members) => {
            let k = chars_of(key);
            let mut i: usize = 0;
            assert(members@.skip(0) =~= members@);
            while i < members.len()
                invariant
                    *v == Json::Object(*members),
                    k@ == key@,
                    i <= members.len(),
                    member(members@, key@) == member(members@.skip(i as int), key@),
                decreases members.len() - i,
            {
                let name = chars_of(members[i].0.as_str());
                assert(members@.skip(i as int)[0] == members@[i as int]);
                assert(members@.skip(i as int).skip(1) =~= members@.skip(i + 1));
                if seq_eq(&name, &k) {
                    return Some(&members[i].1);
                }
                i += 1;
            }
            None
        },
        _ => None,
    }
}


/// The index of the first member named `key`, or -1.
pub open spec fn member_index(members: Seq<(String, Json)>, key: Seq<char>, from: int) -> int
    decreases members.len() - from,
{
    if from < 0 || from >= members.len() {
        -1
    } else if members[from].0@ == key {
        from
    } else {
        member_index(members, key, from + 1)
    }
}

/// Texts joined by `sep` (`[T]::join`).
pub open spec fn joined(parts: Seq<Seq<char>>, sep: Seq<char>) -> Seq<char>
    decreases parts.len(),
{
    if parts.len() == 0 {
        Seq::empty()
    } else if parts.len() == 1 {
        parts[0]
    } else {
        joined(parts.drop_last(), sep) + sep + parts.last()
    }
}

/// A value read as display text: strings and numbers as they are, arrays
/// as the non-empty texts of their items joined by `, `, objects as the
/// first non-empty text among their `name`, `title`, `artist` and `singer`
/// members, anything else as the empty text.
pub open spec fn json_text(v: Json) -> Seq<char>
    decreases v, 0nat,
{
    match v {
        Json::Str(s) => s@,
        Json::Number(n) => n@,
        Json::Array(items) => joined(item_texts(items@), ", "@),
        Json::Object(members) => object_text(members@),
        _ => Seq::empty(),
    }
}

/// The non-empty texts of a list of values, in order.
pub open spec fn item_texts(items: Seq<Json>) -> Seq<Seq<char>>
    decreases items, 0nat,
{
    if items.len() == 0 {
        Seq::empty()
    } else {
        let rest = item_texts(items.drop_last());
        let t = json_text(items.last());
        if t.len() > 0 {
            rest.push(t)
        } else {
            rest
        }
    }
}

/// The text of member `key`, or the empty text.
pub open spec fn member_text(members: Seq<(String, Json)>, key: Seq<char>) -> Seq<char>
    decreases members, 1nat,
{
    let i = member_index(members, key, 0);
    if 0 <= i < members.len() {
        json_text(members[i].1)
    } else {
        Seq::empty()
    }
}

/// The text of an object: its first non-empty `name`, `title`, `artist` or
/// `singer`.
pub open spec fn object_text(members: Seq<(String, Json)>) -> Seq<char>
    decreases members, 2nat,
{
    let a = member_text(members, "name"@);
    let b = member_text(members, "title"@);
    let c = member_text(members, "artist"@);
    let d = member_text(members, "singer"@);
    if a.len() > 0 {
        a
    } else if b.len() > 0 {
        b
    } else if c.len() > 0 {
        c
    } else {
        d
    }
}


/// The value `member` finds is the value of one of the members.
pub proof fn lemma_member_in(members: Seq<(String, Json)>, key: Seq<char>)
    ensures
        member(members, key) matches Some(x) ==> exists|i: int|
            0 <= i < members.len() && members[i].1 == x,
    decreases members.len(),
{
    if members.len() > 0 && members[0].0@ != key {
        lemma_member_in(members.skip(1), key);
        if member(members, key) is Some {
            let x = member(members, key)->0;
            let i = choose|i: int| 0 <= i < members.skip(1).len() && members.skip(1)[i].1 == x;
            assert(members[i + 1].1 == x);
        }
    }
}

/// A member's value is smaller than the object it belongs to.
pub proof fn lemma_get_decreases(v: Json, key: Seq<char>)
    ensures
        get(v, key) matches Some(x) ==> decreases_to!(v => x),
{
    if let Json::Object(members) = v {
        lemma_member_in(members@, key);
        if get(v, key) is Some {
            let x = get(v, key)->0;
            let i = choose|i: int| 0 <= i < members@.len() && members@[i].1 == x;
            assert(decreases_to!(v => v->Object_0));
            assert(decreases_to!(members => members[i]));
            assert(decreases_to!(members[i] => members[i].1));
        }
    }
}

/// `member_index` is -1 or a position in `[from, len)`.
pub proof fn lemma_member_index_range(members: Seq<(String, Json)>, key: Seq<char>, from: int)
    requires
        0 <= from,
    ensures
        member_index(members, key, from) == -1 || (from <= member_index(members, key, from)
            < members.len() && members[member_index(members, key, from)].0@ == key),
    decreases members.len() - from,
{
    if from < members.len() && members[from].0@ != key {
        lemma_member_index_range(members, key, from + 1);
    }
}

/// The position of the first member named `key`.
pub fn member_position(members: &Vec<(String, Json)>, key: &Vec<char>) -> (r: Option<usize>)
    ensures
        match r {
            Some(i) => member_index(members@, key@, 0) == i && i < members.len(),
            None => member_index(members@, key@, 0) == -1,
        },
{
    let mut i: usize = 0;
    while i < members.len()
        invariant
            i <= members.len(),
            member_index(members@, key@, 0) == member_index(members@, key@, i as int),
        decreases members.len() - i,
    {
        let name = chars_of(members[i].0.as_str());
        if seq_eq(&name, key) {
            return Some(i);
        }
        i += 1;
    }
    None
}

/// Texts joined by `sep`.
pub fn join_chars(parts: &Vec<Vec<char>>, sep: &Vec<char>) -> (r: Vec<char>)
    ensures
        r@ == joined(views(parts@), sep@),
{
    let mut out: Vec<char> = Vec::new();
    let mut i: usize = 0;
    while i < parts.len()
        invariant
            i <= parts.len(),
            out@ == joined(views(parts@.subrange(0, i as int)), sep@),
        decreases parts.len() - i,
    {
        proof {
            let next = views(parts@.subrange(0, i + 1));
            assert(next.drop_last() =~= views(parts@.subrange(0, i as int)));
            assert(next.last() == parts@[i as int]@);
            if i == 0 {
                assert(next.len() == 1);
            }
        }
        if i > 0 {
            append_chars(&mut out, sep);
        }
        append_chars(&mut out, &parts[i]);
        i += 1;
        proof {
            if i == 1 {
                assert(out@ =~= parts@[0]@);
            }
        }
    }
    assert(parts@.subrange(0, parts.len() as int) =~= parts@);
    out
}

fn json_text_chars(value: &Json) -> (r: Vec<char>)
    ensures
        r@ == json_text(*value),
    decreases *value, 1nat,
{
    match value {
        Json::Str(s) => chars_of(s.as_str()),
        Json::Number(n) => chars_of(n.as_str()),
        Json::Array(items) => {
            let mut texts: Vec<Vec<char>> = Vec::new();
            let mut i: usize = 0;
            while i < items.len()
                invariant
                    *value == Json::Array(*items),
                    i <= items.len(),
                    views(texts@) == item_texts(items@.subrange(0, i as int)),
                decreases items.len() - i,
            {
                proof {
                    assert(decreases_to!(*value => (*value)->Array_0));
                    assert(decreases_to!(*items => items[i as int]));
                }
                let t = json_text_chars(&items[i]);
                proof {
                    let sub = items@.subrange(0, i + 1);
                    assert(sub.drop_last() =~= items@.subrange(0, i as int));
                    assert(sub.last() == items@[i as int]);
                }
                if t.len() > 0 {
                    let ghost before = texts@;
                    let ghost tv = t@;
                    texts.push(t);
                    assert(views(texts@) =~= views(before).push(tv));
                }
                i += 1;
            }
            assert(items@.subrange(0, items.len() as int) =~= items@);
            join_chars(&texts, &chars_of(", "))
        },
        Json::Object(members) => {
            let a = member_text_chars(value, members, &chars_of("name"));
            if a.len() > 0 {
                return a;
            }
            let b = member_text_chars(value, members, &chars_of("title"));
            if b.len() > 0 {
                return b;
            }
            let c = member_text_chars(value, members, &chars_of("artist"));
            if c.len() > 0 {
                return c;
            }
            member_text_chars(value, members, &chars_of("singer"))
        },
        _ => Vec::new(),
    }
}

fn member_text_chars(value: &Json, members: &Vec<(String, Json)>, key: &Vec<char>) -> (r: Vec<
    char,
>)
    requires
        *value == Json::Object(*members),
    ensures
        r@ == member_text(members@, key@),
    decreases *value, 0nat,
{
    match member_position(members, key) {
        Some(i) => {
            proof {
                assert(decreases_to!(*value => (*value)->Object_0));
                assert(decreases_to!(*members => members[i as int]));
                assert(decreases_to!(members[i as int] => members[i as int].1));
            }
            json_text_chars(&members[i].1)
        },
        None => Vec::new(),
    }
}

/// Reads a JSON value as display text (see `json_text`).
pub fn json_value_to_string(value: &Json) -> (r: String)
    ensures
        r@ == json_text(*value),
{
    string_of(&json_text_chars(value))
}


/// `serde_json::Value`, carried through the conversion below.
#[verifier::external_type_specification]
#[verifier::external_body]
pub struct ExJsonValue(serde_json::Value);

/// The document `serde_json::from_str::<serde_json::Value>` parses from a
/// text (nothing when the text is not JSON).  A function of the text alone:
/// object members come out of `serde_json`'s default map sorted by key.
pub uninterp spec fn parsed_json(text: Seq<char>) -> Option<Json>;

/// Converts a `serde_json::Value` to `Json` variant for variant: numbers
/// by their `Display` text, object members in the map's order.
#[verifier::external_body]
fn json_of(v: &serde_json::Value) -> Json {
    match v {
        serde_json::Value::Null => Json::Null,
        serde_json::Value::Bool(b) => Json::Bool(*b),
        serde_json::Value::Number(n) => Json::Number(n.to_string()),
        serde_json::Value::String(s) => Json::Str(s.clone()),
        serde_json::Value::Array(a) => Json::Array(a.iter().map(json_of).collect()),
        serde_json::Value::Object(m) => Json::Object(
            m.iter().map(|(k, x)| (k.clone(), json_of(x))).collect(),
        ),
    }
}

/// Converts a `Json` back to a `serde_json::Value` variant for variant:
/// number texts parsed by `serde_json`'s `Number: FromStr`, object members
/// in their order.
#[verifier::external_body]
fn value_of(v: &Json) -> serde_json::Value {
    match v {
        Json::Null => serde_json::Value::Null,
        Json::Bool(b) => serde_json::Value::Bool(*b),
        Json::Number(n) => n.parse::<serde_json::Number>().map(serde_json::Value::Number).unwrap_or(
            serde_json::Value::Null,
        ),
        Json::Str(s) => serde_json::Value::String(s.clone()),
        Json::Array(a) => serde_json::Value::Array(a.iter().map(value_of).collect()),
        Json::Object(m) => serde_json::Value::Object(
            m.iter().map(|(k, x)| (k.clone(), value_of(x))).collect(),
        ),
    }
}

/// The compact text `serde_json` writes for a value (`Value`'s `Display`):
/// a function of the value alone.
pub uninterp spec fn json_display(v: Json) -> Seq<char>;

/// `serde_json::Value`'s `Display` (`to_string`): the contract claims only
/// that the text is `json_display` of the value.
#[verifier::external_body]
pub(crate) fn display_json(v: &Json) -> (r: String)
    ensures
        r@ == json_display(*v),
{
    value_of(v).to_string()
}

/// `serde_json::from_str::<serde_json::Value>`: the contract claims only that
/// the result is `parsed_json` of the text (`None` where `serde_json` reports
/// an error).
#[verifier::external_body]
fn from_json_text(text: &str) -> (r: Option<Json>)
    ensures
        r == parsed_json(text@),
{
    match serde_json::from_str::<serde_json::Value>(text) {
        Ok(v) => Some(json_of(&v)),
        Err(_) => None,
    }
}

/// Reads a text (a service's answer, a page's embedded data, a settings
/// file) as a JSON document: `parsed_json` of the text.
pub fn parse_json(text: &str) -> (r: Option<Json>)
    ensures
        r == parsed_json(text@),
{
    from_json_text(text)
}

} // verus!
