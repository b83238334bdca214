//! The order in which a search asks the sources, and what it reports.
use vstd::prelude::*;
use crate::engine::{
    copy_sources, lemma_source_views_push, meta_views, source_views, SourceEngine, SourceInfo,
    NativeSourceAdapter, SourceInfoView, SourceMeta,
};
use crate::sources::SourceMetaView;
use crate::songs::{lemma_result_views_push, result_views, SongResult, SongResultView};
use crate::markup::lit;
use crate::text::{chars_of, eq_ignore_ascii_case, eq_ignore_ascii_case_exec, string_of};

verus! {

/// The most sources searched at once.
pub const MAX_SEARCH_CONCURRENT: usize = 6;

/// A source named (or filed) `xiaowo`, in any ASCII case.
pub open spec fn is_xiaowo(s: SourceInfoView) -> bool {
    eq_ignore_ascii_case(s.name, "xiaowo"@) || eq_ignore_ascii_case(s.file_name, "xiaowo"@)
}

/// Where a source with `score` goes among `s` sorted by falling score:
/// after every source that scores at least as much.
pub open spec fn score_pos(s: Seq<SourceInfoView>, score: i32, from: int) -> int
    decreases s.len() - from,
{
    if from < 0 || from >= s.len() {
        s.len() as int
    } else if s[from].score < score {
        from
    } else {
        score_pos(s, score, from + 1)
    }
}

/// `s` by falling score, sources with equal scores in their order (a
/// stable sort).
pub open spec fn by_score(s: Seq<SourceInfoView>) -> Seq<SourceInfoView>
    decreases s.len(),
{
    if s.len() == 0 {
        s
    } else {
        let r = by_score(s.drop_last());
        r.insert(score_pos(r, s.last().score, 0), s.last())
    }
}

/// Whether the declaration of a source lets it be searched.
pub open spec fn searchable(m: Option<SourceMetaView>) -> bool {
    match m {
        Some(x) => x.adapter is Some || x.can_search,
        None => false,
    }
}

/// The declaration of the source with `id` among `metas`.
pub open spec fn meta_at(metas: Seq<Option<SourceMetaView>>, id: usize) -> Option<SourceMetaView> {
    if id < metas.len() {
        metas[id as int]
    } else {
        None
    }
}

/// The enabled `xiaowo` sources, in order.
pub open spec fn enabled_xiaowo(s: Seq<SourceInfoView>) -> Seq<SourceInfoView>
    decreases s.len(),
{
    if s.len() == 0 {
        s
    } else {
        let r = enabled_xiaowo(s.drop_last());
        if s.last().enabled && is_xiaowo(s.last()) {
            r.push(s.last())
        } else {
            r
        }
    }
}

/// The sources of `s` that have a declaration, in order.
pub open spec fn declared(s: Seq<SourceInfoView>, metas: Seq<Option<SourceMetaView>>) -> Seq<
    SourceInfoView,
>
    decreases s.len(),
{
    if s.len() == 0 {
        s
    } else {
        let r = declared(s.drop_last(), metas);
        if meta_at(metas, s.last().id) is Some {
            r.push(s.last())
        } else {
            r
        }
    }
}

/// The other enabled sources whose declaration lets them be searched, in
/// order.
pub open spec fn enabled_others(s: Seq<SourceInfoView>, metas: Seq<Option<SourceMetaView>>) -> Seq<
    SourceInfoView,
>
    decreases s.len(),
{
    if s.len() == 0 {
        s
    } else {
        let r = enabled_others(s.drop_last(), metas);
        let x = s.last();
        if x.enabled && !is_xiaowo(x) && searchable(meta_at(metas, x.id)) {
            r.push(x)
        } else {
            r
        }
    }
}

/// The sources searched first, one after another: the enabled `xiaowo`
/// sources that have a declaration, by falling score.
pub open spec fn priority_sources(
    s: Seq<SourceInfoView>,
    metas: Seq<Option<SourceMetaView>>,
) -> Seq<SourceInfoView> {
    declared(by_score(enabled_xiaowo(s)), metas)
}

/// The sources searched afterwards: the other enabled sources whose
/// declaration lets them be searched, by falling score.
pub open spec fn remaining_sources(
    s: Seq<SourceInfoView>,
    metas: Seq<Option<SourceMetaView>>,
) -> Seq<SourceInfoView> {
    by_score(enabled_others(s, metas))
}

/// `s` cut into runs of `n` (the last one shorter).
pub open spec fn chunks(s: Seq<SourceInfoView>, n: nat) -> Seq<Seq<SourceInfoView>>
    decreases s.len(),
{
    if n == 0 || s.len() == 0 {
        Seq::empty()
    } else if s.len() <= n {
        seq![s]
    } else {
        seq![s.take(n as int)] + chunks(s.skip(n as int), n)
    }
}

/// The sources of a search: those asked one by one first, then the rounds
/// asked together.
pub struct SearchPlan {
    pub priority: Vec<SourceInfo>,
    pub rounds: Vec<Vec<SourceInfo>>,
}

fn insert_by_score(out: &mut Vec<SourceInfo>, item: SourceInfo)
    ensures
        source_views(final(out)@) == source_views(old(out)@).insert(
            score_pos(source_views(old(out)@), item@.score, 0),
            item@,
        ),
{
    let ghost before = source_views(out@);
    let mut p: usize = 0;
    while p < out.len() && out[p].score >= item.score
        invariant
            p <= out.len(),
            before == source_views(out@),
            score_pos(before, item@.score, 0) == score_pos(before, item@.score, p as int),
        decreases out.len() - p,
    {
        assert(before[p as int] == out@[p as int]@);
        p += 1;
    }
    proof {
        if p < out.len() {
            assert(before[p as int] == out@[p as int]@);
        }
    }
    let ghost old_out = out@;
    let ghost iv = item@;
    out.insert(p, item);
    assert(source_views(out@) =~= before.insert(p as int, iv));
}

fn sort_by_score(list: Vec<SourceInfo>) -> (r: Vec<SourceInfo>)
    ensures
        source_views(r@) == by_score(source_views(list@)),
{
    let ghost orig = source_views(list@);
    let mut out: Vec<SourceInfo> = Vec::new();
    let mut k: usize = 0;
    assert(orig.take(0) =~= Seq::<SourceInfoView>::empty());
    assert(source_views(out@) =~= Seq::<SourceInfoView>::empty());
    while k < list.len()
        invariant
            k <= list.len(),
            orig == source_views(list@),
            source_views(out@) == by_score(orig.take(k as int)),
        decreases list.len() - k,
    {
        proof {
            let sub = orig.take(k + 1);
            assert(sub.drop_last() =~= orig.take(k as int));
            assert(sub.last() == list@[k as int]@);
        }
        insert_by_score(&mut out, list[k].copied());
        k += 1;
    }
    assert(orig.take(k as int) =~= orig);
    out
}

fn chunk_sources(list: &Vec<SourceInfo>, n: usize) -> (r: Vec<Vec<SourceInfo>>)
    requires
        n > 0,
    ensures
        round_views(r@) == chunks(source_views(list@), n as nat),
{
    let ghost all = source_views(list@);
    let mut out: Vec<Vec<SourceInfo>> = Vec::new();
    let mut start: usize = 0;
    assert(all.skip(0) =~= all);
    assert(round_views(out@) =~= Seq::<Seq<SourceInfoView>>::empty());
    while start < list.len()
        invariant
            n > 0,
            start <= list.len(),
            all == source_views(list@),
            round_views(out@) + chunks(all.skip(start as int), n as nat)
                == chunks(all, n as nat),
        decreases list.len() - start,
    {
        let end = if list.len() - start <= n {
            list.len()
        } else {
            start + n
        };
        let mut chunk: Vec<SourceInfo> = Vec::new();
        let mut i = start;
        while i < end
            invariant
                start <= i <= end <= list.len(),
                all == source_views(list@),
                source_views(chunk@) == all.subrange(start as int, i as int),
            decreases end - i,
        {
            let ghost before = chunk@;
            let item = list[i].copied();
            let ghost iv = item;
            chunk.push(item);
            proof {
                lemma_source_views_push(before, iv);
                assert(all.subrange(start as int, i + 1) =~= all.subrange(start as int, i as int).push(
                    all[i as int],
                ));
            }
            i += 1;
        }
        let ghost cv = source_views(chunk@);
        let ghost prev = out@;
        out.push(chunk);
        proof {
            let rest = all.skip(start as int);
            if rest.len() <= n {
                assert(cv =~= rest);
                assert(all.skip(end as int).len() == 0);
                assert(chunks(all.skip(end as int), n as nat) =~= Seq::<Seq<SourceInfoView>>::empty());
            } else {
                assert(cv =~= rest.take(n as int));
                assert(rest.skip(n as int) =~= all.skip(end as int));
            }
            assert(round_views(out@) =~= round_views(prev).push(cv));
        }
        start = end;
        assert(round_views(out@) + chunks(all.skip(start as int), n as nat)
            =~= chunks(all, n as nat));
    }
    assert(chunks(all.skip(start as int), n as nat) =~= Seq::<Seq<SourceInfoView>>::empty());
    assert(round_views(out@) =~= chunks(all, n as nat));
    out
}


fn is_xiaowo_exec(s: &SourceInfo) -> (r: bool)
    ensures
        r == is_xiaowo(s@),
{
    let x = lit("xiaowo");
    eq_ignore_ascii_case_exec(&chars_of(s.name.as_str()), &x) || eq_ignore_ascii_case_exec(
        &chars_of(s.file_name.as_str()),
        &x,
    )
}

fn meta_state(metas: &Vec<Option<SourceMeta>>, id: usize) -> (r: (bool, bool))
    ensures
        r.0 == (meta_at(meta_views(metas@), id) is Some),
        r.1 == searchable(meta_at(meta_views(metas@), id)),
{
    if id < metas.len() {
        match &metas[id] {
            Some(m) => (true, m.adapter.is_some() || m.can_search),
            None => (false, false),
        }
    } else {
        (false, false)
    }
}

fn filter_enabled_xiaowo(s: &Vec<SourceInfo>) -> (r: Vec<SourceInfo>)
    ensures
        source_views(r@) == enabled_xiaowo(source_views(s@)),
{
    let ghost all = source_views(s@);
    let mut out: Vec<SourceInfo> = Vec::new();
    let mut i: usize = 0;
    assert(all.take(0) =~= Seq::<SourceInfoView>::empty());
    assert(source_views(out@) =~= Seq::<SourceInfoView>::empty());
    while i < s.len()
        invariant
            i <= s.len(),
            all == source_views(s@),
            source_views(out@) == enabled_xiaowo(all.take(i as int)),
        decreases s.len() - i,
    {
        proof {
            let sub = all.take(i + 1);
            assert(sub.drop_last() =~= all.take(i as int));
            assert(sub.last() == s@[i as int]@);
        }
        if s[i].enabled && is_xiaowo_exec(&s[i]) {
            let ghost before = out@;
            let item = s[i].copied();
            let ghost iv = item;
            out.push(item);
            proof {
                lemma_source_views_push(before, iv);
            }
        }
        i += 1;
    }
    assert(all.take(i as int) =~= all);
    out
}

fn filter_declared(s: &Vec<SourceInfo>, metas: &Vec<Option<SourceMeta>>) -> (r: Vec<SourceInfo>)
    ensures
        source_views(r@) == declared(source_views(s@), meta_views(metas@)),
{
    let ghost all = source_views(s@);
    let ghost mv = meta_views(metas@);
    let mut out: Vec<SourceInfo> = Vec::new();
    let mut i: usize = 0;
    assert(all.take(0) =~= Seq::<SourceInfoView>::empty());
    assert(source_views(out@) =~= Seq::<SourceInfoView>::empty());
    while i < s.len()
        invariant
            i <= s.len(),
            all == source_views(s@),
            mv == meta_views(metas@),
            source_views(out@) == declared(all.take(i as int), mv),
        decreases s.len() - i,
    {
        proof {
            let sub = all.take(i + 1);
            assert(sub.drop_last() =~= all.take(i as int));
            assert(sub.last() == s@[i as int]@);
        }
        let (has, _) = meta_state(metas, s[i].id);
        if has {
            let ghost before = out@;
            let item = s[i].copied();
            let ghost iv = item;
            out.push(item);
            proof {
                lemma_source_views_push(before, iv);
            }
        }
        i += 1;
    }
    assert(all.take(i as int) =~= all);
    out
}

fn filter_others(s: &Vec<SourceInfo>, metas: &Vec<Option<SourceMeta>>) -> (r: Vec<SourceInfo>)
    ensures
        source_views(r@) == enabled_others(source_views(s@), meta_views(metas@)),
{
    let ghost all = source_views(s@);
    let ghost mv = meta_views(metas@);
    let mut out: Vec<SourceInfo> = Vec::new();
    let mut i: usize = 0;
    assert(all.take(0) =~= Seq::<SourceInfoView>::empty());
    assert(source_views(out@) =~= Seq::<SourceInfoView>::empty());
    while i < s.len()
        invariant
            i <= s.len(),
            all == source_views(s@),
            mv == meta_views(metas@),
            source_views(out@) == enabled_others(all.take(i as int), mv),
        decreases s.len() - i,
    {
        proof {
            let sub = all.take(i + 1);
            assert(sub.drop_last() =~= all.take(i as int));
            assert(sub.last() == s@[i as int]@);
        }
        let (_, can) = meta_state(metas, s[i].id);
        if s[i].enabled && !is_xiaowo_exec(&s[i]) && can {
            let ghost before = out@;
            let item = s[i].copied();
            let ghost iv = item;
            out.push(item);
            proof {
                lemma_source_views_push(before, iv);
            }
        }
        i += 1;
    }
    assert(all.take(i as int) =~= all);
    out
}

/// The views of rounds of sources.
pub open spec fn round_views(r: Seq<Vec<SourceInfo>>) -> Seq<Seq<SourceInfoView>> {
    r.map_values(|c: Vec<SourceInfo>| source_views(c@))
}

/// The plan of a search over `sources` with the declarations `metas` (by
/// id): the priority sources one by one, then the remaining ones in rounds
/// of `MAX_SEARCH_CONCURRENT`.
pub fn plan_search(sources: &Vec<SourceInfo>, metas: &Vec<Option<SourceMeta>>) -> (r: SearchPlan)
    ensures
        source_views(r.priority@) == priority_sources(source_views(sources@), meta_views(metas@)),
        round_views(r.rounds@) == chunks(
            remaining_sources(source_views(sources@), meta_views(metas@)),
            MAX_SEARCH_CONCURRENT as nat,
        ),
{
    let first = sort_by_score(filter_enabled_xiaowo(sources));
    let priority = filter_declared(&first, metas);
    let rest = sort_by_score(filter_others(sources, metas));
    let rounds = chunk_sources(&rest, MAX_SEARCH_CONCURRENT);
    SearchPlan { priority, rounds }
}


/// A result as its source reports it: marked with the source's id and score.
pub open spec fn stamped(r: SongResultView, source: SourceInfoView) -> SongResultView {
    SongResultView { source_id: source.id, score: source.score, ..r }
}

/// Each result marked as coming from `source`.
pub open spec fn stamped_all(v: Seq<SongResultView>, source: SourceInfoView) -> Seq<SongResultView> {
    v.map_values(|r: SongResultView| stamped(r, source))
}

/// Marks each result as coming from `source` (its id and score).
pub fn stamp_results(results: Vec<SongResult>, source: &SourceInfo) -> (r: Vec<SongResult>)
    ensures
        result_views(r@) == stamped_all(result_views(results@), source@),
{
    let mut out: Vec<SongResult> = Vec::new();
    let mut rest = results;
    let ghost all = result_views(rest@);
    let mut i: usize = 0;
    while i < rest.len()
        invariant
            i <= rest.len(),
            result_views(rest@) == all,
            result_views(out@) == stamped_all(all.subrange(0, i as int), source@),
        decreases rest.len() - i,
    {
        let mut item = rest[i].copied();
        item.source_id = source.id;
        item.score = source.score;
        proof {
            lemma_result_views_push(out@, item);
            assert(stamped_all(all.subrange(0, i + 1), source@) =~= stamped_all(
                all.subrange(0, i as int),
                source@,
            ).push(stamped(all[i as int], source@)));
        }
        out.push(item);
        i += 1;
    }
    assert(all.subrange(0, rest.len() as int) =~= all);
    out
}

/// The results one source found, reported as soon as it answers.
pub struct SearchBatch {
    pub results: Vec<SongResult>,
    pub from_source: Option<String>,
}

/// What a search answers: every result, how many there are, the source
/// named as the one that found results, and how long it took.
pub struct SearchResponse {
    pub results: Vec<SongResult>,
    pub total: usize,
    pub from_source: Option<String>,
    pub elapsed_ms: u64,
}

/// What a search has gathered so far: the source named as the one that
/// found results, and every result in the order the sources answered.
pub struct SearchTally {
    pub found_source: Option<String>,
    pub results: Vec<SongResult>,
}

impl SearchTally {
    /// Nothing gathered yet.
    pub fn new() -> (r: SearchTally)
        ensures
            r.found_source is None,
            r.results@.len() == 0,
    {
        SearchTally { found_source: None, results: Vec::new() }
    }

    fn gather(&mut self, source: &SourceInfo, results: Vec<SongResult>) -> (batch: Option<
        SearchBatch,
    >)
        ensures
            final(self).found_source == old(self).found_source,
            result_views(final(self).results@) == result_views(old(self).results@) + stamped_all(
                result_views(results@),
                source@,
            ),
            match batch {
                Some(b) => results@.len() > 0 && result_views(b.results@) == stamped_all(
                    result_views(results@),
                    source@,
                ) && b.from_source == Some(source.name),
                None => results@.len() == 0,
            },
    {
        let stamped = stamp_results(results, source);
        let mut i: usize = 0;
        let ghost before = result_views(self.results@);
        while i < stamped.len()
            invariant
                i <= stamped.len(),
                self.found_source == old(self).found_source,
                result_views(self.results@) == before + result_views(stamped@).subrange(
                    0,
                    i as int,
                ),
            decreases stamped.len() - i,
        {
            let item = stamped[i].copied();
            proof {
                lemma_result_views_push(self.results@, item);
                assert(result_views(stamped@).subrange(0, i + 1) =~= result_views(
                    stamped@,
                ).subrange(0, i as int).push(item@));
            }
            self.results.push(item);
            i += 1;
        }
        assert(result_views(stamped@).subrange(0, stamped.len() as int) =~= result_views(
            stamped@,
        ));
        assert(result_views(stamped@).len() == stamped@.len());
        if stamped.len() > 0 {
            Some(SearchBatch { results: stamped, from_source: Some(source.name.clone()) })
        } else {
            None
        }
    }

    /// A priority source answered: its results, marked as its own, join the
    /// gathered ones and form a batch to report when there are any; a source
    /// that found results becomes the named one.
    pub fn record_priority(&mut self, source: &SourceInfo, results: Vec<SongResult>) -> (batch:
        Option<SearchBatch>)
        ensures
            result_views(final(self).results@) == result_views(old(self).results@) + stamped_all(
                result_views(results@),
                source@,
            ),
            match batch {
                Some(b) => results@.len() > 0 && result_views(b.results@) == stamped_all(
                    result_views(results@),
                    source@,
                ) && b.from_source == Some(source.name),
                None => results@.len() == 0,
            },
            final(self).found_source == if results@.len() > 0 {
                Some(source.name)
            } else {
                old(self).found_source
            },
    {
        let found = results.len() > 0;
        let batch = self.gather(source, results);
        if found {
            self.found_source = Some(source.name.clone());
        }
        batch
    }

    /// A source of a round answered: as `record_priority`, but it becomes
    /// the named source only when none is named yet.
    pub fn record_round(&mut self, source: &SourceInfo, results: Vec<SongResult>) -> (batch:
        Option<SearchBatch>)
        ensures
            result_views(final(self).results@) == result_views(old(self).results@) + stamped_all(
                result_views(results@),
                source@,
            ),
            match batch {
                Some(b) => results@.len() > 0 && result_views(b.results@) == stamped_all(
                    result_views(results@),
                    source@,
                ) && b.from_source == Some(source.name),
                None => results@.len() == 0,
            },
            final(self).found_source == if results@.len() > 0 && old(self).found_source is None {
                Some(source.name)
            } else {
                old(self).found_source
            },
    {
        let found = results.len() > 0;
        let batch = self.gather(source, results);
        if found && self.found_source.is_none() {
            self.found_source = Some(source.name.clone());
        }
        batch
    }

    /// A native source answered a further search: its results, marked as its
    /// own, join the gathered ones; no source is named.
    pub fn record_more(&mut self, source: &SourceInfo, results: Vec<SongResult>)
        ensures
            result_views(final(self).results@) == result_views(old(self).results@) + stamped_all(
                result_views(results@),
                source@,
            ),
            final(self).found_source == old(self).found_source,
    {
        let _ = self.gather(source, results);
    }

    /// The answer: every gathered result, their number, the named source
    /// and the time taken.
    pub fn finish(self, elapsed_ms: u64) -> (r: SearchResponse)
        ensures
            result_views(r.results@) == result_views(self.results@),
            r.total == self.results@.len(),
            r.from_source == self.found_source,
            r.elapsed_ms == elapsed_ms,
    {
        let total = self.results.len();
        SearchResponse {
            results: self.results,
            total,
            from_source: self.found_source,
            elapsed_ms,
        }
    }
}

/// The pages (or, for Netease, the offsets) a further search asks a native
/// engine for: the `offset`-th hundred results picks the batch.
pub open spec fn more_pages_spec(adapter: NativeSourceAdapter, offset: usize) -> Seq<int> {
    let b = (offset / 100) as int;
    match adapter {
        NativeSourceAdapter::Xiaowo => seq![3 * b, 3 * b + 1, 3 * b + 2],
        NativeSourceAdapter::Netease => seq![300 * b, 300 * b + 100, 300 * b + 200],
        _ => seq![3 * b + 1, 3 * b + 2, 3 * b + 3],
    }
}

/// The pages or offsets of a further search (see `more_pages_spec`).
pub fn more_pages(adapter: NativeSourceAdapter, offset: usize) -> (r: Vec<usize>)
    requires
        (offset / 100) * 300 + 200 <= usize::MAX,
    ensures
        r@.map_values(|p: usize| p as int) == more_pages_spec(adapter, offset),
{
    let b = offset / 100;
    let mut r: Vec<usize> = Vec::new();
    match adapter {
        NativeSourceAdapter::Xiaowo => {
            r.push(3 * b);
            r.push(3 * b + 1);
            r.push(3 * b + 2);
        },
        NativeSourceAdapter::Netease => {
            r.push(300 * b);
            r.push(300 * b + 100);
            r.push(300 * b + 200);
        },
        _ => {
            r.push(3 * b + 1);
            r.push(3 * b + 2);
            r.push(3 * b + 3);
        },
    }
    assert(r@.map_values(|p: usize| p as int) =~= more_pages_spec(adapter, offset));
    r
}

/// The enabled sources, in order, whose declaration names a native engine.
pub open spec fn native_enabled(s: Seq<SourceInfoView>, metas: Seq<Option<SourceMetaView>>) -> Seq<
    SourceInfoView,
>
    decreases s.len(),
{
    if s.len() == 0 {
        s
    } else {
        let r = native_enabled(s.drop_last(), metas);
        let x = s.last();
        if x.enabled && (meta_at(metas, x.id) matches Some(m) && m.adapter is Some) {
            r.push(x)
        } else {
            r
        }
    }
}

/// The sources a further search asks (see `native_enabled`).
pub fn plan_more(sources: &Vec<SourceInfo>, metas: &Vec<Option<SourceMeta>>) -> (r: Vec<SourceInfo>)
    ensures
        source_views(r@) == native_enabled(source_views(sources@), meta_views(metas@)),
{
    let ghost all = source_views(sources@);
    let ghost mv = meta_views(metas@);
    let mut out: Vec<SourceInfo> = Vec::new();
    let mut i: usize = 0;
    assert(all.take(0) =~= Seq::<SourceInfoView>::empty());
    assert(source_views(out@) =~= Seq::<SourceInfoView>::empty());
    while i < sources.len()
        invariant
            i <= sources.len(),
            all == source_views(sources@),
            mv == meta_views(metas@),
            source_views(out@) == native_enabled(all.take(i as int), mv),
        decreases sources.len() - i,
    {
        proof {
            let sub = all.take(i + 1);
            assert(sub.drop_last() =~= all.take(i as int));
            assert(sub.last() == sources@[i as int]@);
        }
        let id = sources[i].id;
        let native = if id < metas.len() {
            match &metas[id] {
                Some(m) => m.adapter.is_some(),
                None => false,
            }
        } else {
            false
        };
        if sources[i].enabled && native {
            let ghost before = out@;
            let item = sources[i].copied();
            let ghost iv = item;
            out.push(item);
            proof {
                lemma_source_views_push(before, iv);
            }
        }
        i += 1;
    }
    assert(all.take(i as int) =~= all);
    out
}


/// The enabled sources run by the native Kuwo engine, in display order:
/// the ones whose charts and playlists are gathered.
pub open spec fn chart_enabled(s: Seq<SourceInfoView>, metas: Seq<Option<SourceMetaView>>) -> Seq<
    SourceInfoView,
>
    decreases s.len(),
{
    if s.len() == 0 {
        s
    } else {
        let r = chart_enabled(s.drop_last(), metas);
        let x = s.last();
        if x.enabled && (meta_at(metas, x.id) matches Some(m) && m.adapter == Some(
            NativeSourceAdapter::Xiaowo,
        )) {
            r.push(x)
        } else {
            r
        }
    }
}

/// The sources whose charts and playlists are gathered (see
/// `chart_enabled`).
pub fn plan_charts(sources: &Vec<SourceInfo>, metas: &Vec<Option<SourceMeta>>) -> (r: Vec<
    SourceInfo,
>)
    ensures
        source_views(r@) == chart_enabled(source_views(sources@), meta_views(metas@)),
{
    let ghost all = source_views(sources@);
    let ghost mv = meta_views(metas@);
    let mut out: Vec<SourceInfo> = Vec::new();
    let mut i: usize = 0;
    assert(all.take(0) =~= Seq::<SourceInfoView>::empty());
    assert(source_views(out@) =~= Seq::<SourceInfoView>::empty());
    while i < sources.len()
        invariant
            i <= sources.len(),
            all == source_views(sources@),
            mv == meta_views(metas@),
            source_views(out@) == chart_enabled(all.take(i as int), mv),
        decreases sources.len() - i,
    {
        proof {
            let sub = all.take(i + 1);
            assert(sub.drop_last() =~= all.take(i as int));
            assert(sub.last() == sources@[i as int]@);
        }
        let id = sources[i].id;
        let kuwo = if id < metas.len() {
            match &metas[id] {
                Some(m) => m.adapter == Some(NativeSourceAdapter::Xiaowo),
                None => false,
            }
        } else {
            false
        };
        if sources[i].enabled && kuwo {
            let ghost before = out@;
            let item = sources[i].copied();
            let ghost iv = item;
            out.push(item);
            proof {
                lemma_source_views_push(before, iv);
            }
        }
        i += 1;
    }
    assert(all.take(i as int) =~= all);
    out
}


/// What asking one page of a walk through a service's pages gave.
#[derive(PartialEq, Eq, Structural, Clone, Copy, Debug)]
pub enum PageOutcome {
    /// No JSON answer came.
    Unanswered,
    /// The answer held no list of songs (or an empty one).
    NoList,
    /// A list was read; `true` when it says more pages may follow (it was
    /// full, or brought ids not seen before).
    Listed(bool),
}

/// Whether a walk through an engine's pages goes on to the next page after
/// `outcome`.  A listed page goes on when it says more may follow.  Kuwo
/// (`Xiaowo`) stops at a page without answer or list; the others skip a
/// page without answer; Kugou skips a page without list in a first search
/// and stops at one when asked for more (`more`); Netease and Bilibili stop
/// at one.
pub open spec fn walk_goes_on(adapter: NativeSourceAdapter, more: bool, outcome: PageOutcome) -> bool {
    match outcome {
        PageOutcome::Listed(further) => further,
        PageOutcome::Unanswered => !(adapter is Xiaowo),
        PageOutcome::NoList => adapter is Kugou && !more,
    }
}

/// Whether a walk through an engine's pages goes on (see `walk_goes_on`).
pub fn next_page_wanted(adapter: NativeSourceAdapter, more: bool, outcome: PageOutcome) -> (r: bool)
    ensures
        r == walk_goes_on(adapter, more, outcome),
{
    match outcome {
        PageOutcome::Listed(further) => further,
        PageOutcome::Unanswered => match adapter {
            NativeSourceAdapter::Xiaowo => false,
            _ => true,
        },
        PageOutcome::NoList => match adapter {
            NativeSourceAdapter::Kugou => !more,
            _ => false,
        },
    }
}

/// Whether the walk through Kuwo's recommended playlists goes on: only
/// after a page that was read and says more follow.
pub open spec fn playlist_walk_goes_on(outcome: PageOutcome) -> bool {
    outcome matches PageOutcome::Listed(further) && further
}

/// Whether the walk through Kuwo's playlists goes on (see
/// `playlist_walk_goes_on`).
pub fn next_playlist_page_wanted(outcome: PageOutcome) -> (r: bool)
    ensures
        r == playlist_walk_goes_on(outcome),
{
    match outcome {
        PageOutcome::Listed(further) => further,
        _ => false,
    }
}

} // verus!
