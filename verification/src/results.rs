//! The list of search results the user sees: merging batches without
//! repeats, and its sort orders.
use vstd::prelude::*;
use crate::engine::{chars_le, chars_le_exec};
use crate::links::{decimal, decimal_chars};
use crate::markup::lit;
use crate::songs::{lemma_result_views_push, result_views, SongResult, SongResultView};
use crate::text::{append_chars, chars_of, contains_chars, seq_eq, trim, trim_exec, views};

verus! {

/// The key under which two results count as the same song: source id,
/// platform and id, or, for a result without id, title, artist and
/// platform.
pub open spec fn result_key(s: SongResultView) -> Seq<char> {
    if trim(s.id).len() == 0 {
        "fallback::"@ + s.title + "::"@ + s.artist + "::"@ + s.platform
    } else {
        decimal(s.source_id as nat) + "::"@ + s.platform + "::"@ + s.id
    }
}

/// The key of a result (see `result_key`).
pub fn search_result_key(song: &SongResult) -> (r: String)
    ensures
        r@ == result_key(song@),
{
    let k = result_key_chars(song);
    crate::text::string_of(&k)
}

fn result_key_chars(song: &SongResult) -> (r: Vec<char>)
    ensures
        r@ == result_key(song@),
{
    let id = chars_of(song.id.as_str());
    if trim_exec(&id).len() == 0 {
        let mut k = lit("fallback::");
        append_chars(&mut k, &chars_of(song.title.as_str()));
        append_chars(&mut k, &lit("::"));
        append_chars(&mut k, &chars_of(song.artist.as_str()));
        append_chars(&mut k, &lit("::"));
        append_chars(&mut k, &chars_of(song.platform.as_str()));
        k
    } else {
        let mut k = decimal_chars(song.source_id as u64);
        append_chars(&mut k, &lit("::"));
        append_chars(&mut k, &chars_of(song.platform.as_str()));
        append_chars(&mut k, &lit("::"));
        append_chars(&mut k, &id);
        k
    }
}

/// Whether some result of `s` has the key `k`.
pub open spec fn has_key(s: Seq<SongResultView>, k: Seq<char>) -> bool {
    exists|j: int| 0 <= j < s.len() && result_key(#[trigger] s[j]) == k
}

/// `current` followed by the results of `incoming` whose key is not yet
/// in the list, in order.
pub open spec fn merged(current: Seq<SongResultView>, incoming: Seq<SongResultView>) -> Seq<
    SongResultView,
>
    decreases incoming.len(),
{
    if incoming.len() == 0 {
        current
    } else {
        let r = merged(current, incoming.drop_last());
        if has_key(r, result_key(incoming.last())) {
            r
        } else {
            r.push(incoming.last())
        }
    }
}

/// Adds to `current` the results of `incoming` it does not hold yet (see
/// `merged`).
pub fn merge_search_results(current: &mut Vec<SongResult>, incoming: Vec<SongResult>)
    ensures
        result_views(final(current)@) == merged(result_views(old(current)@), result_views(incoming@)),
{
    let ghost start = result_views(current@);
    let ghost inc = result_views(incoming@);
    let mut keys: Vec<Vec<char>> = Vec::new();
    let mut k: usize = 0;
    while k < current.len()
        invariant
            k <= current.len(),
            start == result_views(current@),
            keys.len() == k,
            forall|j: int| 0 <= j < k ==> (#[trigger] keys@[j])@ == result_key(start[j]),
        decreases current.len() - k,
    {
        keys.push(result_key_chars(&current[k]));
        k += 1;
    }
    let mut i: usize = 0;
    assert(inc.take(0) =~= Seq::<SongResultView>::empty());
    while i < incoming.len()
        invariant
            i <= incoming.len(),
            inc == result_views(incoming@),
            result_views(current@) == merged(start, inc.take(i as int)),
            keys.len() == current.len(),
            forall|j: int|
                0 <= j < current.len() ==> (#[trigger] keys@[j])@ == result_key(
                    result_views(current@)[j],
                ),
        decreases incoming.len() - i,
    {
        proof {
            let sub = inc.take(i + 1);
            assert(sub.drop_last() =~= inc.take(i as int));
            assert(sub.last() == incoming@[i as int]@);
        }
        let key = result_key_chars(&incoming[i]);
        let ghost cur = result_views(current@);
        let seen = contains_chars(&keys, &key);
        proof {
            if seen {
                let idx = choose|idx: int| 0 <= idx < views(keys@).len() && views(keys@)[idx] == key@;
                assert(views(keys@)[idx] == keys@[idx]@);
                assert(has_key(cur, key@));
            } else {
                assert forall|j: int| 0 <= j < cur.len() implies result_key(#[trigger] cur[j]) != key@ by {
                    assert(views(keys@)[j] == keys@[j]@);
                }
            }
        }
        if !seen {
            let ghost before = current@;
            let item = incoming[i].copied();
            let ghost iv = item;
            current.push(item);
            proof {
                lemma_result_views_push(before, iv);
            }
            let ghost kv = key@;
            keys.push(key);
            assert forall|j: int| 0 <= j < current.len() implies (#[trigger] keys@[j])@ == result_key(
                result_views(current@)[j],
            ) by {
                if j < current.len() - 1 {
                    assert(result_views(current@)[j] == cur[j]);
                }
            }
        }
        i += 1;
    }
    assert(inc.take(i as int) =~= inc);
}

/// The results without repeats: each key kept at its first result.
pub fn dedupe_search_results(results: Vec<SongResult>) -> (r: Vec<SongResult>)
    ensures
        result_views(r@) == merged(Seq::empty(), result_views(results@)),
{
    let mut out: Vec<SongResult> = Vec::new();
    assert(result_views(out@) =~= Seq::<SongResultView>::empty());
    merge_search_results(&mut out, results);
    out
}

/// How highly a platform's audio ranks: 3 for `kw`, `kg` and `tx`, 2 for
/// `wy` and `mg`, 1 otherwise.
pub open spec fn platform_rank(platform: Seq<char>) -> i32 {
    if platform == "kw"@ || platform == "kg"@ || platform == "tx"@ {
        3
    } else if platform == "wy"@ || platform == "mg"@ {
        2
    } else {
        1
    }
}

/// The rank of a result's audio quality (see `platform_rank`).
pub fn quality_rank(song: &SongResult) -> (r: i32)
    ensures
        r == platform_rank(song@.platform),
{
    let p = chars_of(song.platform.as_str());
    if seq_eq(&p, &lit("kw")) || seq_eq(&p, &lit("kg")) || seq_eq(&p, &lit("tx")) {
        3
    } else if seq_eq(&p, &lit("wy")) || seq_eq(&p, &lit("mg")) {
        2
    } else {
        1
    }
}


/// The orders the result list can be sorted in (sorting by length works
/// on the lengths' numbers and is left to the caller).
#[derive(PartialEq, Eq, Structural, Clone, Copy, Debug)]
pub enum ResultOrder {
    /// As the sources answered.
    Source,
    /// Best platform first, then higher score, then lower source id.
    Quality,
    /// Higher score first, then lower source id, then title.
    Match,
    /// By title, then artist, then source id.
    Title,
}

/// -1, 0 or 1 as `a` is below, equal to or above `b`.
pub open spec fn compare_int(a: int, b: int) -> int {
    if a < b {
        -1
    } else if a > b {
        1
    } else {
        0
    }
}

/// -1, 0 or 1 as text `a` comes before, equals or comes after `b`.
pub open spec fn compare_text(a: Seq<char>, b: Seq<char>) -> int {
    if a == b {
        0
    } else if chars_le(a, b) {
        -1
    } else {
        1
    }
}

/// `c`, or `d` when `c` is a tie.
pub open spec fn then_by(c: int, d: int) -> int {
    if c != 0 {
        c
    } else {
        d
    }
}

/// How result `a` compares with `b` in an order.
pub open spec fn result_compare(order: ResultOrder, a: SongResultView, b: SongResultView) -> int {
    match order {
        ResultOrder::Source => 0,
        ResultOrder::Quality => then_by(
            compare_int(platform_rank(b.platform) as int, platform_rank(a.platform) as int),
            then_by(compare_int(b.score as int, a.score as int), compare_int(a.source_id as int, b.source_id as int)),
        ),
        ResultOrder::Match => then_by(
            compare_int(b.score as int, a.score as int),
            then_by(compare_int(a.source_id as int, b.source_id as int), compare_text(a.title, b.title)),
        ),
        ResultOrder::Title => then_by(
            compare_text(a.title, b.title),
            then_by(compare_text(a.artist, b.artist), compare_int(a.source_id as int, b.source_id as int)),
        ),
    }
}

/// Where `x` goes among sorted `s`: before the first result it comes
/// strictly before.
pub open spec fn result_pos(order: ResultOrder, s: Seq<SongResultView>, x: SongResultView, from: int) -> int
    decreases s.len() - from,
{
    if from < 0 || from >= s.len() {
        s.len() as int
    } else if result_compare(order, x, s[from]) < 0 {
        from
    } else {
        result_pos(order, s, x, from + 1)
    }
}

/// `s` in `order`, results that tie kept in their order (a stable sort).
pub open spec fn sorted_results(order: ResultOrder, s: Seq<SongResultView>) -> Seq<SongResultView>
    decreases s.len(),
{
    if s.len() == 0 {
        s
    } else {
        let r = sorted_results(order, s.drop_last());
        r.insert(result_pos(order, r, s.last(), 0), s.last())
    }
}

fn compare_int_exec(a: i128, b: i128) -> (r: i8)
    ensures
        r as int == compare_int(a as int, b as int),
{
    if a < b {
        -1
    } else if a > b {
        1
    } else {
        0
    }
}

fn compare_text_exec(a: &String, b: &String) -> (r: i8)
    ensures
        r as int == compare_text(a@, b@),
{
    let av = chars_of(a.as_str());
    let bv = chars_of(b.as_str());
    if seq_eq(&av, &bv) {
        0
    } else if chars_le_exec(&av, &bv) {
        -1
    } else {
        1
    }
}

fn result_compare_exec(order: ResultOrder, a: &SongResult, b: &SongResult) -> (r: i8)
    ensures
        r as int == result_compare(order, a@, b@),
{
    match order {
        ResultOrder::Source => 0,
        ResultOrder::Quality => {
            let c = compare_int_exec(quality_rank(b) as i128, quality_rank(a) as i128);
            if c != 0 {
                return c;
            }
            let d = compare_int_exec(b.score as i128, a.score as i128);
            if d != 0 {
                return d;
            }
            compare_int_exec(a.source_id as i128, b.source_id as i128)
        },
        ResultOrder::Match => {
            let c = compare_int_exec(b.score as i128, a.score as i128);
            if c != 0 {
                return c;
            }
            let d = compare_int_exec(a.source_id as i128, b.source_id as i128);
            if d != 0 {
                return d;
            }
            compare_text_exec(&a.title, &b.title)
        },
        ResultOrder::Title => {
            let c = compare_text_exec(&a.title, &b.title);
            if c != 0 {
                return c;
            }
            let d = compare_text_exec(&a.artist, &b.artist);
            if d != 0 {
                return d;
            }
            compare_int_exec(a.source_id as i128, b.source_id as i128)
        },
    }
}


/// The results in `order` (see `sorted_results`).
pub fn sort_search_results(results: Vec<SongResult>, order: ResultOrder) -> (r: Vec<SongResult>)
    ensures
        result_views(r@) == sorted_results(order, result_views(results@)),
{
    let ghost orig = result_views(results@);
    let mut out: Vec<SongResult> = Vec::new();
    let mut k: usize = 0;
    assert(orig.take(0) =~= Seq::<SongResultView>::empty());
    assert(result_views(out@) =~= Seq::<SongResultView>::empty());
    while k < results.len()
        invariant
            k <= results.len(),
            orig == result_views(results@),
            result_views(out@) == sorted_results(order, orig.take(k as int)),
        decreases results.len() - k,
    {
        proof {
            let sub = orig.take(k + 1);
            assert(sub.drop_last() =~= orig.take(k as int));
            assert(sub.last() == results@[k as int]@);
        }
        let ghost before = result_views(out@);
        let x = &results[k];
        let mut p: usize = 0;
        while p < out.len() && result_compare_exec(order, x, &out[p]) >= 0
            invariant
                p <= out.len(),
                before == result_views(out@),
                result_pos(order, before, x@, 0) == result_pos(order, before, x@, p as int),
            decreases out.len() - p,
        {
            assert(before[p as int] == out@[p as int]@);
            p += 1;
        }
        proof {
            if p < out.len() {
                assert(before[p as int] == out@[p as int]@);
            }
        }
        let item = x.copied();
        let ghost iv = item@;
        out.insert(p, item);
        assert(result_views(out@) =~= before.insert(p as int, iv));
        k += 1;
    }
    assert(orig.take(k as int) =~= orig);
    out
}

} // verus!
