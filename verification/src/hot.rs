//! Hot search words and the lists gathered from several sources at once.
use vstd::prelude::*;
use crate::engine::{meta_views, NativeSourceAdapter, SourceMeta};
use crate::sources::SourceMetaView;
use crate::text::string_views;

verus! {

/// A word many people search for, and the source that listed it.
pub struct HotItem {
    pub title: String,
    pub source: String,
    pub source_id: usize,
}

pub struct HotItemView {
    pub title: Seq<char>,
    pub source: Seq<char>,
    pub source_id: usize,
}

impl View for HotItem {
    type V = HotItemView;

    open spec fn view(&self) -> HotItemView {
        HotItemView { title: self.title@, source: self.source@, source_id: self.source_id }
    }
}

/// The views of a list of hot words.
pub open spec fn hot_views(v: Seq<HotItem>) -> Seq<HotItemView> {
    v.map_values(|h: HotItem| h@)
}

/// Words listed by one source.
pub open spec fn hot_items_of(titles: Seq<Seq<char>>, source: Seq<char>, source_id: usize) -> Seq<
    HotItemView,
> {
    titles.map_values(|t: Seq<char>| HotItemView { title: t, source, source_id })
}

/// A declaration whose web service lists hot words: no native engine, and
/// a service address.
pub open spec fn lists_hot_words(m: Option<SourceMetaView>) -> bool {
    m matches Some(x) && x.adapter is None && x.api_url.len() > 0
}

/// A declaration of the native Kuwo engine.
pub open spec fn is_kuwo_engine(m: Option<SourceMetaView>) -> bool {
    m matches Some(x) && x.adapter == Some(NativeSourceAdapter::Xiaowo)
}

/// The ids below `n` whose web service lists hot words, in order.
pub open spec fn hot_ids(metas: Seq<Option<SourceMetaView>>, n: int) -> Seq<usize>
    decreases n,
{
    if n <= 0 {
        Seq::empty()
    } else if lists_hot_words(metas[n - 1]) {
        hot_ids(metas, n - 1).push((n - 1) as usize)
    } else {
        hot_ids(metas, n - 1)
    }
}

/// The ids below `n` of the native Kuwo engine, in order.
pub open spec fn kuwo_ids(metas: Seq<Option<SourceMetaView>>, n: int) -> Seq<usize>
    decreases n,
{
    if n <= 0 {
        Seq::empty()
    } else if is_kuwo_engine(metas[n - 1]) {
        kuwo_ids(metas, n - 1).push((n - 1) as usize)
    } else {
        kuwo_ids(metas, n - 1)
    }
}

/// The ids whose web service is asked for hot words, in id order.
pub fn hot_word_sources(metas: &Vec<Option<SourceMeta>>) -> (r: Vec<usize>)
    ensures
        r@ == hot_ids(meta_views(metas@), metas@.len() as int),
{
    let mut out: Vec<usize> = Vec::new();
    let mut i: usize = 0;
    while i < metas.len()
        invariant
            i <= metas.len(),
            out@ == hot_ids(meta_views(metas@), i as int),
        decreases metas.len() - i,
    {
        let keeps = match &metas[i] {
            Some(m) => m.adapter.is_none() && crate::text::chars_of(m.api_url.as_str()).len() > 0,
            None => false,
        };
        proof {
            assert(meta_views(metas@)[i as int] == match metas@[i as int] {
                Some(x) => Some(x@),
                None => None::<SourceMetaView>,
            });
        }
        if keeps {
            out.push(i);
        }
        i += 1;
    }
    out
}

/// The ids of the native Kuwo engine, whose charts stand in for hot words
/// when no web service lists any, in id order.
pub fn kuwo_engine_sources(metas: &Vec<Option<SourceMeta>>) -> (r: Vec<usize>)
    ensures
        r@ == kuwo_ids(meta_views(metas@), metas@.len() as int),
{
    let mut out: Vec<usize> = Vec::new();
    let mut i: usize = 0;
    while i < metas.len()
        invariant
            i <= metas.len(),
            out@ == kuwo_ids(meta_views(metas@), i as int),
        decreases metas.len() - i,
    {
        let keeps = match &metas[i] {
            Some(m) => m.adapter == Some(NativeSourceAdapter::Xiaowo),
            None => false,
        };
        proof {
            assert(meta_views(metas@)[i as int] == match metas@[i as int] {
                Some(x) => Some(x@),
                None => None::<SourceMetaView>,
            });
        }
        if keeps {
            out.push(i);
        }
        i += 1;
    }
    out
}

/// Adds the words one source listed, in order.
pub fn add_hot_words(out: &mut Vec<HotItem>, titles: &Vec<String>, source: &str, source_id: usize)
    ensures
        hot_views(final(out)@) == hot_views(old(out)@) + hot_items_of(
            string_views(titles@),
            source@,
            source_id,
        ),
{
    let ghost before = hot_views(out@);
    let mut i: usize = 0;
    while i < titles.len()
        invariant
            i <= titles.len(),
            hot_views(out@) == before + hot_items_of(
                string_views(titles@).take(i as int),
                source@,
                source_id,
            ),
        decreases titles.len() - i,
    {
        let item = HotItem {
            title: titles[i].clone(),
            source: source.to_string(),
            source_id,
        };
        let ghost prev = out@;
        out.push(item);
        proof {
            assert(hot_views(out@) =~= hot_views(prev).push(item@));
            assert(string_views(titles@).take(i + 1) =~= string_views(titles@).take(
                i as int,
            ).push(titles@[i as int]@));
            assert(hot_items_of(string_views(titles@).take(i + 1), source@, source_id)
                =~= hot_items_of(string_views(titles@).take(i as int), source@, source_id).push(
                item@,
            ));
        }
        i += 1;
    }
    assert(string_views(titles@).take(titles@.len() as int) =~= string_views(titles@));
}

/// How many of `n` words fit before a list of `len` holds `limit`.
pub open spec fn room(n: nat, len: nat, limit: nat) -> nat {
    if len >= limit {
        0
    } else if n <= limit - len {
        n
    } else {
        (limit - len) as nat
    }
}

/// Adds the first words one source listed, as many as fit before the list
/// holds `limit` (see `room`).
pub fn add_hot_words_upto(
    out: &mut Vec<HotItem>,
    titles: &Vec<String>,
    source: &str,
    source_id: usize,
    limit: usize,
)
    ensures
        hot_views(final(out)@) == hot_views(old(out)@) + hot_items_of(
            string_views(titles@).take(room(titles@.len(), old(out)@.len(), limit as nat) as int),
            source@,
            source_id,
        ),
{
    let k: usize = if out.len() >= limit {
        0
    } else if titles.len() <= limit - out.len() {
        titles.len()
    } else {
        limit - out.len()
    };
    let ghost before = hot_views(out@);
    let mut i: usize = 0;
    while i < k
        invariant
            k <= titles.len(),
            i <= k,
            hot_views(out@) == before + hot_items_of(
                string_views(titles@).take(i as int),
                source@,
                source_id,
            ),
        decreases k - i,
    {
        let item = HotItem {
            title: titles[i].clone(),
            source: source.to_string(),
            source_id,
        };
        let ghost prev = out@;
        out.push(item);
        proof {
            assert(hot_views(out@) =~= hot_views(prev).push(item@));
            assert(string_views(titles@).take(i + 1) =~= string_views(titles@).take(
                i as int,
            ).push(titles@[i as int]@));
            assert(hot_items_of(string_views(titles@).take(i + 1), source@, source_id)
                =~= hot_items_of(string_views(titles@).take(i as int), source@, source_id).push(
                item@,
            ));
        }
        i += 1;
    }
}

/// Adds the items one source answered with; says whether the list now
/// holds at least `limit`, so that gathering can stop.
pub fn gather_until<T>(out: &mut Vec<T>, items: Vec<T>, limit: usize) -> (enough: bool)
    ensures
        final(out)@ == old(out)@ + items@,
        enough == (final(out)@.len() >= limit),
{
    let mut items = items;
    out.append(&mut items);
    out.len() >= limit
}

/// Keeps the first `limit` items.
pub fn keep_first<T>(v: &mut Vec<T>, limit: usize)
    ensures
        final(v)@ == if limit < old(v)@.len() {
            old(v)@.take(limit as int)
        } else {
            old(v)@
        },
{
    v.truncate(limit);
}

} // verus!
