//! Properties that hold across the engine's operations.
use vstd::prelude::*;
use crate::engine::{
    chars_le, lemma_chars_le_total, lemma_chars_le_trans, lemma_position_of, lemma_sort_by_stem, position_of, scanned_sources, score_room,
    scored, sort_by_stem, with_xiaowo, xiaowo_entry, ScannedView, ScriptFile, SourceEngine,
    SourceInfoView,
};
use crate::share::{deduped, song_key};
use crate::songs::SongDetailView;
use crate::text::{
    ascii_lower, ends_with, find, lemma_find_from, matches_at,
    eq_ignore_ascii_case, is_ascii_alphanumeric, is_whitespace, lemma_trim_ends, lemma_trim_fixed,
    starts_with, trim, trim_end_class, trim_start_class,
};
use crate::files::{alnum_only, audio_extension, download_extension, without_leading_dots};
use crate::markup::{normalized_cover, secure_cover};
use crate::favorites::{same_song, song_position, toggled_songs, FavoriteSongView};
use crate::player::{next_step, prev_step, PlayMode, QueueStep};
use crate::results::{
    compare_text, has_key, merged, platform_rank, result_compare, result_key, result_pos,
    sorted_results, ResultOrder,
};
use crate::links::{audio_format, audio_formats, before_query, format_by_ending};
use crate::songs::SongResultView;
use crate::details::{backfilled, blank, needs_kuwo_backfill, SongInfoView};
use crate::catalog::or_empty;
use crate::json::{get, Json};
use crate::links::str_of;
use crate::search::{
    by_score, chunks, declared, enabled_others, enabled_xiaowo, is_xiaowo, meta_at,
    priority_sources, remaining_sources, score_pos, searchable, MAX_SEARCH_CONCURRENT,
};
use crate::sources::SourceMetaView;
use crate::searchers::{
    script_first, script_next, ScriptRequest,
    bilibili_id, bilibili_result, bilibili_scan, kugou_result, kugou_scan, netease_id,
    netease_result, netease_scan, text_of, xiaowo_id, xiaowo_result, xiaowo_scan,
};

verus! {

/// After a scan the sources are numbered by position, come in text order
/// of their file names, and one of them is filed as `xiaowo`.
pub proof fn lemma_scan_order(files: Seq<ScriptFile>)
    requires
        files.len() < usize::MAX,
    ensures
        forall|i: int|
            0 <= i < scanned_sources(files).len() ==> #[trigger] scanned_sources(files)[i].id == i,
        forall|i: int, j: int|
            0 <= i < j < scanned_sources(files).len() ==> chars_le(
                #[trigger] scanned_sources(files)[i].file_name,
                #[trigger] scanned_sources(files)[j].file_name,
            ),
        exists|i: int|
            0 <= i < scanned_sources(files).len() && eq_ignore_ascii_case(
                #[trigger] scanned_sources(files)[i].file_name,
                "xiaowo"@,
            ),
{
    let w = with_xiaowo(files);
    let sorted = sort_by_stem(w);
    lemma_sort_by_stem(w);
    let s = scanned_sources(files);
    assert(w.len() <= files.len() + 1);
    assert forall|i: int| 0 <= i < s.len() implies #[trigger] s[i].id == i by {
        assert(s[i].id == i as usize);
    }
    assert forall|i: int, j: int| 0 <= i < j < s.len() implies chars_le(
        #[trigger] s[i].file_name,
        #[trigger] s[j].file_name,
    ) by {
        assert(s[i].file_name == sorted[i].stem);
        assert(s[j].file_name == sorted[j].stem);
    }
    let read = files.map_values(|f: ScriptFile| crate::engine::scanned_of(f));
    let k: int = if exists|i: int|
        0 <= i < read.len() && eq_ignore_ascii_case(#[trigger] read[i].stem, "xiaowo"@) {
        choose|i: int| 0 <= i < read.len() && eq_ignore_ascii_case(#[trigger] read[i].stem, "xiaowo"@)
    } else {
        0
    };
    let x: ScannedView = if exists|i: int|
        0 <= i < read.len() && eq_ignore_ascii_case(#[trigger] read[i].stem, "xiaowo"@) {
        read[k]
    } else {
        xiaowo_entry()
    };
    assert(eq_ignore_ascii_case(x.stem, "xiaowo"@)) by {
        reveal_strlit("xiaowo");
    }
    assert(w.contains(x)) by {
        if exists|i: int|
            0 <= i < read.len() && eq_ignore_ascii_case(#[trigger] read[i].stem, "xiaowo"@) {
            assert(w[k] == x);
        } else {
            assert(w[0] == x);
        }
    }
    assert(sorted.contains(x));
    let m = choose|m: int| 0 <= m < sorted.len() && sorted[m] == x;
    assert(s[m].file_name == x.stem);
}

/// Switching to a source that exists makes it the active one.
pub proof fn lemma_switch_then_active(before: SourceEngine, after: SourceEngine, id: usize)
    requires
        position_of(before.sources_view(), id) is Some,
        after.sources_view() == before.sources_view(),
        after.active_id() == id,
    ensures
        position_of(after.sources_view(), after.active_id()) matches Some(i) && after.sources_view()[i].id
            == id,
{
    lemma_position_of(after.sources_view(), id);
}

/// A found and a missed search of the same source leave its score as it
/// was.
pub proof fn lemma_score_up_then_down(s: Seq<SourceInfoView>, id: usize)
    requires
        score_room(s, id, true),
    ensures
        scored(scored(s, id, true), id, false) == s,
{
    lemma_position_of(s, id);
    let up = scored(s, id, true);
    match position_of(s, id) {
        None => {},
        Some(i) => {
            lemma_position_of(up, id);
            assert(up[i].id == id);
            assert forall|j: int| 0 <= j < i implies up[j].id != id by {
                assert(up[j] == s[j]);
            }
            assert(position_of(up, id) == Some(i));
            assert(scored(up, id, false) =~= s);
        },
    }
}

/// The keys of the songs `deduped` keeps all occur among the songs given.
proof fn lemma_deduped_keys(s: Seq<SongDetailView>)
    ensures
        forall|i: int|
            0 <= i < deduped(s).len() ==> exists|j: int|
                0 <= j < s.len() && song_key(#[trigger] deduped(s)[i]) == song_key(s[j]),
    decreases s.len(),
{
    if s.len() > 0 {
        let prev = s.drop_last();
        lemma_deduped_keys(prev);
        let d = deduped(s);
        let r = deduped(prev);
        assert forall|i: int| 0 <= i < d.len() implies exists|j: int|
            0 <= j < s.len() && song_key(#[trigger] d[i]) == song_key(s[j]) by {
            if i < r.len() {
                assert(d[i] == r[i]);
                let j = choose|j: int| 0 <= j < prev.len() && song_key(r[i]) == song_key(prev[j]);
                assert(s[j] == prev[j]);
            } else {
                assert(d[i] == s.last());
                assert(song_key(d[i]) == song_key(s[s.len() - 1]));
            }
        }
    }
}

/// After removing repeats no two songs share a title and artist.
pub proof fn lemma_deduped_distinct(s: Seq<SongDetailView>)
    ensures
        forall|i: int, j: int|
            0 <= i < j < deduped(s).len() ==> song_key(#[trigger] deduped(s)[i]) != song_key(
                #[trigger] deduped(s)[j],
            ),
    decreases s.len(),
{
    if s.len() > 0 {
        let prev = s.drop_last();
        lemma_deduped_distinct(prev);
        lemma_deduped_keys(prev);
        let d = deduped(s);
        let r = deduped(prev);
        assert forall|i: int, j: int| 0 <= i < j < d.len() implies song_key(#[trigger] d[i])
            != song_key(#[trigger] d[j]) by {
            if j < r.len() {
                assert(d[i] == r[i] && d[j] == r[j]);
            } else {
                assert(d[j] == s.last());
                assert(d[i] == r[i]);
                let k = choose|k: int| 0 <= k < prev.len() && song_key(r[i]) == song_key(prev[k]);
                assert(s[k] == prev[k]);
                if song_key(d[i]) == song_key(d[j]) {
                    assert(0 <= k < s.len() - 1 && song_key(s[k]) == song_key(s.last()));
                }
            }
        }
    }
}


proof fn lemma_song_position(s: Seq<FavoriteSongView>, x: FavoriteSongView, from: int)
    requires
        0 <= from,
    ensures
        match song_position(s, x, from) {
            Some(i) => from <= i < s.len() && same_song(s[i], x),
            None => forall|j: int| from <= j < s.len() ==> !same_song(#[trigger] s[j], x),
        },
    decreases s.len() - from,
{
    if from < s.len() && !same_song(s[from], x) {
        lemma_song_position(s, x, from + 1);
    }
}

/// Toggling a song that is not a favourite twice leaves the favourites as
/// they were.
pub proof fn lemma_toggle_song_twice(s: Seq<FavoriteSongView>, x: FavoriteSongView)
    requires
        song_position(s, x, 0) is None,
    ensures
        toggled_songs(toggled_songs(s, x), x) == s,
{
    let once = seq![x] + s;
    assert(toggled_songs(s, x) == once);
    assert(same_song(once[0], x));
    assert(song_position(once, x, 0) == Some(0int));
    assert(once.remove(0) =~= s);
}

/// A toggled song is a favourite afterwards exactly when no favourite was
/// the same song before.
pub proof fn lemma_toggle_song_membership(s: Seq<FavoriteSongView>, x: FavoriteSongView)
    ensures
        song_position(s, x, 0) is None ==> toggled_songs(s, x)[0] == x,
        song_position(s, x, 0) is Some ==> toggled_songs(s, x).len() + 1 == s.len(),
{
    lemma_song_position(s, x, 0);
}

/// After removing repeats, no two results share a key.
pub proof fn lemma_dedupe_results_distinct(s: Seq<SongResultView>)
    ensures
        forall|i: int, j: int|
            0 <= i < j < merged(Seq::empty(), s).len() ==> result_key(
                #[trigger] merged(Seq::empty(), s)[i],
            ) != result_key(#[trigger] merged(Seq::empty(), s)[j]),
    decreases s.len(),
{
    if s.len() > 0 {
        lemma_dedupe_results_distinct(s.drop_last());
        let r = merged(Seq::empty(), s.drop_last());
        let m = merged(Seq::empty(), s);
        assert forall|i: int, j: int| 0 <= i < j < m.len() implies result_key(#[trigger] m[i])
            != result_key(#[trigger] m[j]) by {
            if j < r.len() {
                assert(m[i] == r[i] && m[j] == r[j]);
            } else {
                assert(m[i] == r[i]);
                assert(m[j] == s.last());
                if result_key(m[i]) == result_key(m[j]) {
                    assert(has_key(r, result_key(s.last())));
                }
            }
        }
    }
}

/// Merging keeps the results already listed, in their places.
pub proof fn lemma_merge_keeps_current(current: Seq<SongResultView>, incoming: Seq<SongResultView>)
    ensures
        merged(current, incoming).len() >= current.len(),
        merged(current, incoming).take(current.len() as int) == current,
    decreases incoming.len(),
{
    if incoming.len() > 0 {
        lemma_merge_keeps_current(current, incoming.drop_last());
        let r = merged(current, incoming.drop_last());
        assert(r.push(incoming.last()).take(current.len() as int) =~= r.take(current.len() as int));
    } else {
        assert(current.take(current.len() as int) =~= current);
    }
}

/// After a merge, every incoming result's key is listed.
proof fn lemma_merged_covers(current: Seq<SongResultView>, incoming: Seq<SongResultView>)
    ensures
        forall|k: int|
            0 <= k < incoming.len() ==> has_key(
                merged(current, incoming),
                result_key(#[trigger] incoming[k]),
            ),
    decreases incoming.len(),
{
    if incoming.len() > 0 {
        let t = incoming.drop_last();
        lemma_merged_covers(current, t);
        let r = merged(current, t);
        let m = merged(current, incoming);
        assert forall|k: int| 0 <= k < incoming.len() implies has_key(
            m,
            result_key(#[trigger] incoming[k]),
        ) by {
            if k < t.len() {
                assert(incoming[k] == t[k]);
                assert(has_key(r, result_key(t[k])));
                let j = choose|j: int| 0 <= j < r.len() && result_key(#[trigger] r[j]) == result_key(
                    t[k],
                );
                assert(m[j] == r[j]);
            } else if !has_key(r, result_key(incoming.last())) {
                assert(m[r.len() as int] == incoming.last());
            }
        }
    }
}

/// Merging results whose keys are all listed changes nothing.
proof fn lemma_merge_known(listed: Seq<SongResultView>, incoming: Seq<SongResultView>)
    requires
        forall|k: int| 0 <= k < incoming.len() ==> has_key(listed, result_key(#[trigger] incoming[k])),
    ensures
        merged(listed, incoming) == listed,
    decreases incoming.len(),
{
    if incoming.len() > 0 {
        let t = incoming.drop_last();
        assert forall|k: int| 0 <= k < t.len() implies has_key(listed, result_key(#[trigger] t[k])) by {
            assert(t[k] == incoming[k]);
        }
        lemma_merge_known(listed, t);
        assert(has_key(listed, result_key(incoming[incoming.len() - 1])));
    }
}

/// Merging the same batch a second time adds nothing: a batch that comes
/// twice is listed once.
pub proof fn lemma_merge_twice(current: Seq<SongResultView>, incoming: Seq<SongResultView>)
    ensures
        merged(merged(current, incoming), incoming) == merged(current, incoming),
{
    lemma_merged_covers(current, incoming);
    lemma_merge_known(merged(current, incoming), incoming);
}

proof fn lemma_score_pos_range(s: Seq<SourceInfoView>, score: i32, from: int)
    requires
        0 <= from <= s.len(),
    ensures
        from <= score_pos(s, score, from) <= s.len(),
    decreases s.len() - from,
{
    if from < s.len() && s[from].score >= score {
        lemma_score_pos_range(s, score, from + 1);
    }
}

/// Ordering by score keeps the number of sources and what holds of each.
proof fn lemma_by_score_keeps(s: Seq<SourceInfoView>, p: spec_fn(SourceInfoView) -> bool)
    requires
        forall|i: int| 0 <= i < s.len() ==> p(#[trigger] s[i]),
    ensures
        by_score(s).len() == s.len(),
        forall|i: int| 0 <= i < by_score(s).len() ==> p(#[trigger] by_score(s)[i]),
    decreases s.len(),
{
    if s.len() > 0 {
        let t = s.drop_last();
        assert forall|i: int| 0 <= i < t.len() implies p(#[trigger] t[i]) by {
            assert(t[i] == s[i]);
        }
        lemma_by_score_keeps(t, p);
        let r = by_score(t);
        let pos = score_pos(r, s.last().score, 0);
        lemma_score_pos_range(r, s.last().score, 0);
        r.insert_ensures(pos, s.last());
        let m = r.insert(pos, s.last());
        assert(p(s[s.len() - 1]));
        assert forall|i: int| 0 <= i < m.len() implies p(#[trigger] m[i]) by {
            if i < pos {
                assert(m[i] == r[i]);
            } else if i > pos {
                assert(m[(i - 1) + 1] == r[i - 1]);
            }
        }
    }
}

proof fn lemma_enabled_xiaowo_all(s: Seq<SourceInfoView>)
    ensures
        forall|i: int|
            0 <= i < enabled_xiaowo(s).len() ==> (#[trigger] enabled_xiaowo(s)[i]).enabled
                && is_xiaowo(enabled_xiaowo(s)[i]),
    decreases s.len(),
{
    if s.len() > 0 {
        lemma_enabled_xiaowo_all(s.drop_last());
        let r = enabled_xiaowo(s.drop_last());
        let m = enabled_xiaowo(s);
        assert forall|i: int| 0 <= i < m.len() implies (#[trigger] m[i]).enabled && is_xiaowo(
            m[i],
        ) by {
            if i < r.len() {
                assert(m[i] == r[i]);
            }
        }
    }
}

proof fn lemma_declared_all(
    s: Seq<SourceInfoView>,
    metas: Seq<Option<SourceMetaView>>,
    p: spec_fn(SourceInfoView) -> bool,
)
    requires
        forall|i: int| 0 <= i < s.len() ==> p(#[trigger] s[i]),
    ensures
        forall|i: int|
            0 <= i < declared(s, metas).len() ==> p(#[trigger] declared(s, metas)[i]) && meta_at(
                metas,
                declared(s, metas)[i].id,
            ) is Some,
    decreases s.len(),
{
    if s.len() > 0 {
        let t = s.drop_last();
        assert forall|i: int| 0 <= i < t.len() implies p(#[trigger] t[i]) by {
            assert(t[i] == s[i]);
        }
        lemma_declared_all(t, metas, p);
        assert(p(s[s.len() - 1]));
    }
}

proof fn lemma_enabled_others_all(s: Seq<SourceInfoView>, metas: Seq<Option<SourceMetaView>>)
    ensures
        forall|i: int|
            0 <= i < enabled_others(s, metas).len() ==> {
                let x = #[trigger] enabled_others(s, metas)[i];
                x.enabled && !is_xiaowo(x) && searchable(meta_at(metas, x.id))
            },
    decreases s.len(),
{
    if s.len() > 0 {
        lemma_enabled_others_all(s.drop_last(), metas);
    }
}

proof fn lemma_chunks_cover(s: Seq<SourceInfoView>, n: nat)
    requires
        n > 0,
    ensures
        chunks(s, n).flatten() == s,
        forall|i: int| 0 <= i < chunks(s, n).len() ==> 0 < (#[trigger] chunks(s, n)[i]).len() <= n,
    decreases s.len(),
{
    let c = chunks(s, n);
    if s.len() == 0 {
    } else if s.len() <= n {
        assert(c.drop_first() =~= Seq::<Seq<SourceInfoView>>::empty());
        assert(c.drop_first().flatten() =~= Seq::<SourceInfoView>::empty());
        assert(c.first() == s);
        assert(c.flatten() == c.first() + c.drop_first().flatten());
        assert(c.flatten() =~= s);
    } else {
        let rest = s.skip(n as int);
        lemma_chunks_cover(rest, n);
        assert(c.first() == s.take(n as int));
        assert(c.drop_first() =~= chunks(rest, n));
        assert(s.take(n as int) + rest =~= s);
        assert forall|i: int| 0 <= i < c.len() implies 0 < (#[trigger] c[i]).len() <= n by {
            if i > 0 {
                assert(c[i] == chunks(rest, n)[i - 1]);
            }
        }
    }
}

proof fn lemma_score_pos_after(s: Seq<SourceInfoView>, score: i32, from: int)
    requires
        0 <= from <= s.len(),
    ensures
        forall|k: int| from <= k < score_pos(s, score, from) ==> (#[trigger] s[k]).score >= score,
        score_pos(s, score, from) < s.len() ==> s[score_pos(s, score, from)].score < score,
    decreases s.len() - from,
{
    if from < s.len() {
        lemma_score_pos_after(s, score, from + 1);
    }
}

/// Sources ordered by score come by falling score.
pub proof fn lemma_by_score_falling(s: Seq<SourceInfoView>)
    ensures
        forall|i: int, j: int|
            0 <= i < j < by_score(s).len() ==> (#[trigger] by_score(s)[i]).score
                >= (#[trigger] by_score(s)[j]).score,
    decreases s.len(),
{
    if s.len() > 0 {
        let t = s.drop_last();
        let x = s.last();
        lemma_by_score_falling(t);
        let r = by_score(t);
        let p = score_pos(r, x.score, 0);
        lemma_score_pos_range(r, x.score, 0);
        lemma_score_pos_after(r, x.score, 0);
        r.insert_ensures(p, x);
        let m = r.insert(p, x);
        assert forall|i: int, j: int| 0 <= i < j < m.len() implies (#[trigger] m[i]).score
            >= (#[trigger] m[j]).score by {
            if j < p {
                assert(m[i] == r[i] && m[j] == r[j]);
            } else if j == p {
                assert(m[i] == r[i]);
            } else if i < p {
                assert(m[i] == r[i]);
                assert(m[(j - 1) + 1] == r[j - 1]);
                assert(r[i].score >= r[j - 1].score);
            } else if i == p {
                assert(m[(j - 1) + 1] == r[j - 1]);
                assert(r[p].score >= r[j - 1].score);
            } else {
                assert(m[(i - 1) + 1] == r[i - 1]);
                assert(m[(j - 1) + 1] == r[j - 1]);
                assert(r[i - 1].score >= r[j - 1].score);
            }
        }
    }
}

/// A search asks each source in one place only: those asked one by one
/// first are enabled `xiaowo` sources with a declaration; those asked in
/// rounds are the other enabled sources whose declaration lets them be
/// searched, so no source is in both; and the rounds, one after another,
/// give those sources in their order, each round holding at least one and
/// at most `MAX_SEARCH_CONCURRENT` of them.
pub proof fn lemma_search_plan(s: Seq<SourceInfoView>, metas: Seq<Option<SourceMetaView>>)
    ensures
        forall|i: int|
            0 <= i < priority_sources(s, metas).len() ==> {
                let x = #[trigger] priority_sources(s, metas)[i];
                x.enabled && is_xiaowo(x) && meta_at(metas, x.id) is Some
            },
        forall|i: int|
            0 <= i < remaining_sources(s, metas).len() ==> {
                let x = #[trigger] remaining_sources(s, metas)[i];
                x.enabled && !is_xiaowo(x) && searchable(meta_at(metas, x.id))
            },
        chunks(remaining_sources(s, metas), MAX_SEARCH_CONCURRENT as nat).flatten()
            == remaining_sources(s, metas),
        forall|i: int|
            0 <= i < chunks(remaining_sources(s, metas), MAX_SEARCH_CONCURRENT as nat).len() ==> 0
                < (#[trigger] chunks(
                remaining_sources(s, metas),
                MAX_SEARCH_CONCURRENT as nat,
            )[i]).len() <= MAX_SEARCH_CONCURRENT,
{
    let px = |x: SourceInfoView| x.enabled && is_xiaowo(x);
    lemma_enabled_xiaowo_all(s);
    let xs = enabled_xiaowo(s);
    assert forall|i: int| 0 <= i < xs.len() implies px(#[trigger] xs[i]) by {}
    lemma_by_score_keeps(xs, px);
    lemma_declared_all(by_score(xs), metas, px);
    let po = |x: SourceInfoView| x.enabled && !is_xiaowo(x) && searchable(meta_at(metas, x.id));
    lemma_enabled_others_all(s, metas);
    let os = enabled_others(s, metas);
    assert forall|i: int| 0 <= i < os.len() implies po(#[trigger] os[i]) by {}
    lemma_by_score_keeps(os, po);
    lemma_chunks_cover(remaining_sources(s, metas), MAX_SEARCH_CONCURRENT as nat);
    let pr = priority_sources(s, metas);
    assert forall|i: int| 0 <= i < pr.len() implies ({
        let x = #[trigger] pr[i];
        x.enabled && is_xiaowo(x) && meta_at(metas, x.id) is Some
    }) by {
        assert(px(pr[i]));
    }
    let rm = remaining_sources(s, metas);
    assert forall|i: int| 0 <= i < rm.len() implies ({
        let x = #[trigger] rm[i];
        x.enabled && !is_xiaowo(x) && searchable(meta_at(metas, x.id))
    }) by {
        assert(po(rm[i]));
    }
}

proof fn lemma_result_pos_range(
    order: ResultOrder,
    s: Seq<SongResultView>,
    x: SongResultView,
    from: int,
)
    requires
        0 <= from <= s.len(),
    ensures
        from <= result_pos(order, s, x, from) <= s.len(),
    decreases s.len() - from,
{
    if from < s.len() {
        lemma_result_pos_range(order, s, x, from + 1);
    }
}

/// Sorting the results neither drops nor adds any: the sorted list holds
/// the same results, each as often.
pub proof fn lemma_sort_keeps_results(order: ResultOrder, s: Seq<SongResultView>)
    ensures
        sorted_results(order, s).to_multiset() == s.to_multiset(),
    decreases s.len(),
{
    if s.len() > 0 {
        let t = s.drop_last();
        lemma_sort_keeps_results(order, t);
        let r = sorted_results(order, t);
        lemma_result_pos_range(order, r, s.last(), 0);
        vstd::seq_lib::to_multiset_insert(r, result_pos(order, r, s.last(), 0), s.last());
        vstd::seq_lib::to_multiset_build(t, s.last());
        assert(t.push(s.last()) =~= s);
    }
}

proof fn lemma_chars_le_antisym(a: Seq<char>, b: Seq<char>)
    requires
        chars_le(a, b),
        chars_le(b, a),
    ensures
        a == b,
    decreases a.len(),
{
    if a.len() > 0 {
        assert(b.len() > 0);
        assert(a[0] == b[0]);
        lemma_chars_le_antisym(a.skip(1), b.skip(1));
        assert(a.skip(1) == b.skip(1));
        assert(a.skip(1).len() == a.len() - 1);
        assert(b.skip(1).len() == b.len() - 1);
        assert(a.len() == b.len());
        assert forall|i: int| 0 <= i < a.len() implies a[i] == b[i] by {
            if i > 0 {
                assert(a[i] == a.skip(1)[i - 1]);
                assert(b[i] == b.skip(1)[i - 1]);
            }
        }
    } else {
        assert(b.len() == 0);
    }
    assert(a =~= b);
}

proof fn lemma_text_order(a: Seq<char>, b: Seq<char>, c: Seq<char>)
    ensures
        compare_text(a, b) == -compare_text(b, a),
        compare_text(a, b) < 0 && compare_text(b, c) < 0 ==> compare_text(a, c) < 0,
{
    lemma_chars_le_total(a, b);
    if chars_le(a, b) && chars_le(b, a) {
        lemma_chars_le_antisym(a, b);
    }
    if compare_text(a, b) < 0 && compare_text(b, c) < 0 {
        lemma_chars_le_trans(a, b, c);
        if a == c {
            lemma_chars_le_antisym(a, b);
        }
    }
}

proof fn lemma_result_order(order: ResultOrder, a: SongResultView, b: SongResultView, c: SongResultView)
    ensures
        result_compare(order, a, b) == -result_compare(order, b, a),
        result_compare(order, a, b) < 0 && result_compare(order, b, c) < 0 ==> result_compare(
            order,
            a,
            c,
        ) < 0,
{
    lemma_text_order(a.title, b.title, c.title);
    lemma_text_order(a.artist, b.artist, c.artist);
}

/// No result of `r` comes strictly before one listed ahead of it.
pub open spec fn results_in_order(order: ResultOrder, r: Seq<SongResultView>) -> bool {
    forall|i: int, j: int|
        0 <= i < j < r.len() ==> result_compare(order, #[trigger] r[j], #[trigger] r[i]) >= 0
}

proof fn lemma_result_pos_after(order: ResultOrder, s: Seq<SongResultView>, x: SongResultView, from: int)
    requires
        0 <= from <= s.len(),
    ensures
        forall|k: int|
            from <= k < result_pos(order, s, x, from) ==> result_compare(order, x, #[trigger] s[k])
                >= 0,
        result_pos(order, s, x, from) < s.len() ==> result_compare(
            order,
            x,
            s[result_pos(order, s, x, from)],
        ) < 0,
    decreases s.len() - from,
{
    if from < s.len() {
        lemma_result_pos_after(order, s, x, from + 1);
    }
}

/// Sorted results come in the order asked for: no result comes strictly
/// before one listed ahead of it.
pub proof fn lemma_sorted_results_in_order(order: ResultOrder, s: Seq<SongResultView>)
    ensures
        results_in_order(order, sorted_results(order, s)),
    decreases s.len(),
{
    if s.len() > 0 {
        let t = s.drop_last();
        let x = s.last();
        lemma_sorted_results_in_order(order, t);
        let r = sorted_results(order, t);
        let p = result_pos(order, r, x, 0);
        lemma_result_pos_range(order, r, x, 0);
        lemma_result_pos_after(order, r, x, 0);
        r.insert_ensures(p, x);
        let m = r.insert(p, x);
        assert forall|i: int, j: int| 0 <= i < j < m.len() implies result_compare(
            order,
            #[trigger] m[j],
            #[trigger] m[i],
        ) >= 0 by {
            if j < p {
                assert(m[i] == r[i] && m[j] == r[j]);
            } else if j == p {
                assert(m[i] == r[i]);
            } else if i < p {
                assert(m[i] == r[i]);
                assert(m[(j - 1) + 1] == r[j - 1]);
                assert(result_compare(order, r[j - 1], r[i]) >= 0);
            } else if i == p {
                assert(m[(j - 1) + 1] == r[j - 1]);
                lemma_result_order(order, r[j - 1], x, r[p]);
                lemma_result_order(order, r[p], x, r[p]);
                if j - 1 > p {
                    assert(result_compare(order, r[j - 1], r[p]) >= 0);
                }
            } else {
                assert(m[(i - 1) + 1] == r[i - 1]);
                assert(m[(j - 1) + 1] == r[j - 1]);
                assert(result_compare(order, r[j - 1], r[i - 1]) >= 0);
            }
        }
    }
}

/// Ordering sources by score neither drops nor adds any.
pub proof fn lemma_by_score_keeps_sources(s: Seq<SourceInfoView>)
    ensures
        by_score(s).to_multiset() == s.to_multiset(),
    decreases s.len(),
{
    if s.len() > 0 {
        let t = s.drop_last();
        lemma_by_score_keeps_sources(t);
        let r = by_score(t);
        lemma_score_pos_range(r, s.last().score, 0);
        vstd::seq_lib::to_multiset_insert(r, score_pos(r, s.last().score, 0), s.last());
        vstd::seq_lib::to_multiset_build(t, s.last());
        assert(t.push(s.last()) =~= s);
    }
}

/// The player only ever starts a track that is in the queue.
pub proof fn lemma_steps_stay_in_queue(len: nat, current: Option<usize>, mode: PlayMode, pick: usize)
    ensures
        next_step(len, current, mode, pick) matches QueueStep::Play(i) ==> i < len,
        prev_step(len, current) matches QueueStep::Play(i) ==> i < len,
{
}


/// Completing a song's details from Kuwo's keeps what was found: lyrics, a
/// cover or an album that were not blank stay as they were, the id, title,
/// artist, length and platform stay, and the lyrics are blank afterwards
/// only when both sides had none.
pub proof fn lemma_backfill_keeps_found(found: SongInfoView, kuwo: SongInfoView)
    ensures
        !blank(found.lyrics) ==> backfilled(Some(found), kuwo).lyrics == found.lyrics,
        !blank(found.cover_url) ==> backfilled(Some(found), kuwo).cover_url == found.cover_url,
        !blank(found.album) ==> backfilled(Some(found), kuwo).album == found.album,
        backfilled(Some(found), kuwo).id == found.id,
        backfilled(Some(found), kuwo).title == found.title,
        backfilled(Some(found), kuwo).artist == found.artist,
        backfilled(Some(found), kuwo).duration == found.duration,
        backfilled(Some(found), kuwo).platform == found.platform,
        blank(backfilled(Some(found), kuwo).lyrics) ==> blank(found.lyrics) && blank(kuwo.lyrics),
{
}

/// A song with lyrics already is never completed from Kuwo: the backfill
/// is asked for only when there are no lyrics.
pub proof fn lemma_backfill_only_without_lyrics(platform: Seq<char>, found: SongInfoView)
    ensures
        needs_kuwo_backfill(platform, Some(found)) ==> blank(found.lyrics),
        needs_kuwo_backfill(platform, Some(found)) ==> platform == "kw"@,
{
}


/// The ids of a list of results.
pub open spec fn result_ids(r: Seq<SongResultView>) -> Seq<Seq<char>> {
    r.map_values(|x: SongResultView| x.id)
}

/// No two results share an id, and none has an id seen before.
pub open spec fn fresh_ids(results: Seq<SongResultView>, seen: Seq<Seq<char>>) -> bool {
    &&& forall|i: int, j: int|
        0 <= i < j < results.len() ==> #[trigger] results[i].id != #[trigger] results[j].id
    &&& forall|i: int| 0 <= i < results.len() ==> !seen.contains(#[trigger] results[i].id)
}

/// Adding a result whose id is not among those seen (which are the ones
/// seen before followed by the results' own) keeps the ids fresh.
proof fn lemma_fresh_push(
    results: Seq<SongResultView>,
    seen: Seq<Seq<char>>,
    all_seen: Seq<Seq<char>>,
    r: SongResultView,
)
    requires
        fresh_ids(results, seen),
        all_seen == seen + result_ids(results),
        !all_seen.contains(r.id),
    ensures
        fresh_ids(results.push(r), seen),
        all_seen.push(r.id) == seen + result_ids(results.push(r)),
{
    let n = results.push(r);
    assert forall|i: int, j: int| 0 <= i < j < n.len() implies #[trigger] n[i].id != #[trigger] n[j].id by {
        if j == results.len() {
            assert(all_seen[seen.len() + i] == results[i].id);
        }
    }
    assert forall|i: int| 0 <= i < n.len() implies !seen.contains(#[trigger] n[i].id) by {
        if i == results.len() && seen.contains(r.id) {
            let k = choose|k: int| 0 <= k < seen.len() && seen[k] == r.id;
            assert(all_seen[k] == r.id);
        }
    }
    assert(all_seen.push(r.id) =~= seen + result_ids(n));
}

/// A page of Kugou's search answer never repeats a song, nor brings back one
/// seen on an earlier page; the ids seen afterwards are those seen before
/// followed by the page's.
pub proof fn lemma_kugou_page_fresh(items: Seq<Json>, seen: Seq<Seq<char>>)
    ensures
        fresh_ids(kugou_scan(items, seen).results, seen),
        kugou_scan(items, seen).seen == seen + result_ids(kugou_scan(items, seen).results),
    decreases items.len(),
{
    if items.len() == 0 {
        assert(seen + result_ids(Seq::empty()) =~= seen);
    } else {
        lemma_kugou_page_fresh(items.drop_last(), seen);
        let p = kugou_scan(items.drop_last(), seen);
        let item = items.last();
        let hash = or_empty(str_of(get(item, "hash"@)));
        if !(hash.len() == 0 || p.seen.contains(hash)) {
            lemma_fresh_push(p.results, seen, p.seen, kugou_result(item, hash));
        }
    }
}

/// A page of Netease's search records never repeats a song, nor brings
/// back one seen on an earlier page; the ids seen afterwards are those seen
/// before followed by the page's.
pub proof fn lemma_netease_page_fresh(items: Seq<Json>, rates: Seq<u32>, seen: Seq<Seq<char>>)
    ensures
        fresh_ids(netease_scan(items, rates, seen).results, seen),
        netease_scan(items, rates, seen).seen == seen + result_ids(
            netease_scan(items, rates, seen).results,
        ),
    decreases items.len(),
{
    if items.len() == 0 {
        assert(seen + result_ids(Seq::empty()) =~= seen);
    } else {
        lemma_netease_page_fresh(items.drop_last(), rates, seen);
        let p = netease_scan(items.drop_last(), rates, seen);
        let item = items.last();
        let id = netease_id(item);
        if !(id.len() == 0 || p.seen.contains(id)) {
            lemma_fresh_push(
                p.results,
                seen,
                p.seen,
                netease_result(item, id, rates[items.len() - 1]),
            );
        }
    }
}

/// A page of Kuwo's search records never repeats a song, nor brings back one
/// seen on an earlier page; the ids seen afterwards are those seen before
/// followed by the page's.
pub proof fn lemma_xiaowo_page_fresh(
    items: Seq<Json>,
    goods: Seq<Option<u32>>,
    seen: Seq<Seq<char>>,
    source_name: Seq<char>,
)
    ensures
        fresh_ids(xiaowo_scan(items, goods, seen, source_name).results, seen),
        xiaowo_scan(items, goods, seen, source_name).seen == seen + result_ids(
            xiaowo_scan(items, goods, seen, source_name).results,
        ),
    decreases items.len(),
{
    if items.len() == 0 {
        assert(seen + result_ids(Seq::empty()) =~= seen);
    } else {
        lemma_xiaowo_page_fresh(items.drop_last(), goods, seen, source_name);
        let p = xiaowo_scan(items.drop_last(), goods, seen, source_name);
        let item = items.last();
        let id = xiaowo_id(item);
        if !(id.len() == 0 || text_of(get(item, "NAME"@)).len() == 0 || p.seen.contains(id)) {
            lemma_fresh_push(
                p.results,
                seen,
                p.seen,
                xiaowo_result(item, id, source_name, goods[items.len() - 1]),
            );
        }
    }
}

/// A page of Bilibili's search answer never repeats a video, nor brings
/// back one seen on an earlier page; every video it gives is among the ids
/// seen afterwards, which begin with those seen before.
pub proof fn lemma_bilibili_page_fresh(items: Seq<Json>, seen: Seq<Seq<char>>)
    ensures
        fresh_ids(bilibili_scan(items, seen).results, seen),
        forall|i: int|
            0 <= i < bilibili_scan(items, seen).results.len() ==> bilibili_scan(
                items,
                seen,
            ).seen.contains(#[trigger] bilibili_scan(items, seen).results[i].id),
        bilibili_scan(items, seen).seen.take(seen.len() as int) == seen,
        seen.len() <= bilibili_scan(items, seen).seen.len(),
    decreases items.len(),
{
    if items.len() == 0 {
        assert(seen.take(seen.len() as int) =~= seen);
    } else {
        lemma_bilibili_page_fresh(items.drop_last(), seen);
        let p = bilibili_scan(items.drop_last(), seen);
        let item = items.last();
        let id = bilibili_id(item);
        if !(id.len() == 0 || p.seen.contains(id)) {
            let q = bilibili_scan(items, seen);
            assert(q.seen == p.seen.push(id));
            assert(q.seen.take(seen.len() as int) =~= p.seen.take(seen.len() as int));
            assert forall|i: int| 0 <= i < q.results.len() implies q.seen.contains(
                #[trigger] q.results[i].id,
            ) by {
                if i < p.results.len() {
                    assert(q.results[i] == p.results[i]);
                    let k = choose|k: int| 0 <= k < p.seen.len() && p.seen[k] == p.results[i].id;
                    assert(q.seen[k] == p.results[i].id);
                } else {
                    assert(q.seen[p.seen.len() as int] == id);
                }
            }
            if text_of(get(item, "title"@)).len() > 0 {
                let r = bilibili_result(item, id);
                assert forall|i: int, j: int|
                    0 <= i < j < q.results.len() implies #[trigger] q.results[i].id
                    != #[trigger] q.results[j].id by {
                    if j == p.results.len() {
                        assert(p.seen.contains(p.results[i].id));
                    }
                }
                assert forall|i: int| 0 <= i < q.results.len() implies !seen.contains(
                    #[trigger] q.results[i].id,
                ) by {
                    if i == p.results.len() && seen.contains(id) {
                        let k = choose|k: int| 0 <= k < seen.len() && seen[k] == id;
                        assert(p.seen.take(seen.len() as int)[k] == id);
                        assert(p.seen[k] == id);
                    }
                }
            }
        }
    }
}


/// Where a request stands in a script-service search: `GET` then `POST`
/// for each platform in turn.
pub open spec fn script_rank(r: ScriptRequest) -> int {
    match r {
        ScriptRequest::Get(i) => 2 * i,
        ScriptRequest::Post(i) => 2 * i + 1,
        ScriptRequest::Finished => -1,
    }
}

/// A script-service search asks only platforms of its list, each at most
/// once by `GET` and once by `POST`, in order: every request comes after
/// the one before it, and it stops as soon as results were gathered.
pub proof fn lemma_script_requests(platforms: nat, last: ScriptRequest, found: bool)
    requires
        platforms <= usize::MAX,
        0 <= script_rank(last) < 2 * platforms,
    ensures
        script_rank(script_first(platforms)) < 2 * platforms,
        script_next(platforms, last, found) is Finished || (script_rank(last) < script_rank(
            script_next(platforms, last, found),
        ) < 2 * platforms),
        found ==> script_next(platforms, last, found) is Finished,
{
}


proof fn lemma_alnum_concat(a: Seq<char>, b: Seq<char>)
    ensures
        alnum_only(a + b) == alnum_only(a) + alnum_only(b),
    decreases b.len(),
{
    if b.len() == 0 {
        assert(a + b =~= a);
        assert(alnum_only(a) + alnum_only(b) =~= alnum_only(a));
    } else {
        lemma_alnum_concat(a, b.drop_last());
        assert((a + b).drop_last() =~= a + b.drop_last());
        assert((a + b).last() == b.last());
        if is_ascii_alphanumeric(b.last()) {
            assert(alnum_only(a) + alnum_only(b.drop_last()).push(b.last()) =~= (alnum_only(a)
                + alnum_only(b.drop_last())).push(b.last()));
        }
    }
}

proof fn lemma_alnum_skip_first(s: Seq<char>)
    requires
        s.len() > 0,
        !is_ascii_alphanumeric(s[0]),
    ensures
        alnum_only(s.skip(1)) == alnum_only(s),
{
    let h = seq![s[0]];
    assert(h + s.skip(1) =~= s);
    lemma_alnum_concat(h, s.skip(1));
    assert(h.drop_last() =~= Seq::<char>::empty());
    assert(h.last() == s[0]);
    assert(alnum_only(h.drop_last()) =~= Seq::<char>::empty());
    assert(alnum_only(h) =~= Seq::<char>::empty());
    assert(alnum_only(h) + alnum_only(s.skip(1)) =~= alnum_only(s.skip(1)));
}

proof fn lemma_alnum_trim_start(s: Seq<char>)
    ensures
        alnum_only(trim_start_class(s, true, Seq::empty())) == alnum_only(s),
    decreases s.len(),
{
    if s.len() > 0 && is_whitespace(s[0]) {
        lemma_alnum_trim_start(s.skip(1));
        lemma_alnum_skip_first(s);
    }
}

proof fn lemma_alnum_trim_end(s: Seq<char>)
    ensures
        alnum_only(trim_end_class(s, true, Seq::empty())) == alnum_only(s),
    decreases s.len(),
{
    if s.len() > 0 && is_whitespace(s.last()) {
        lemma_alnum_trim_end(s.drop_last());
    }
}

proof fn lemma_alnum_dots(s: Seq<char>)
    ensures
        alnum_only(without_leading_dots(s)) == alnum_only(s),
    decreases s.len(),
{
    if s.len() > 0 && s[0] == '.' {
        lemma_alnum_dots(s.skip(1));
        lemma_alnum_skip_first(s);
    }
}

/// The extension a download is saved under is the one the audio cache
/// uses: trimming and leading dots change nothing, since only letters and
/// digits are kept.
pub proof fn lemma_download_extension_is_audio_extension(format: Seq<char>)
    ensures
        download_extension(format) == audio_extension(format),
{
    let e = Seq::<char>::empty();
    let r = trim_start_class(format, true, e);
    lemma_alnum_trim_start(format);
    lemma_alnum_trim_end(r);
    lemma_alnum_dots(trim(format));
}

/// Making a cover link secure twice gives what doing it once gives.
pub proof fn lemma_cover_idempotent(value: Seq<char>)
    ensures
        normalized_cover(normalized_cover(value)) == normalized_cover(value),
{
    reveal_strlit("https:");
    reveal_strlit("https://");
    reveal_strlit("http://");
    reveal_strlit("//");
    let t = trim(value);
    lemma_trim_ends(value);
    let w = secure_cover(t);
    if starts_with(t, "//"@) {
        assert(w == "https:"@ + t);
        assert(w[0] == 'h');
        assert(w.last() == t.last());
    } else if starts_with(t, "http://"@) {
        assert(w == "https://"@ + t.skip(7));
        assert(w[0] == 'h');
        if t.len() > 7 {
            assert(w.last() == t.last());
        } else {
            assert(w.last() == '/');
        }
    }
    lemma_trim_fixed(w);
    assert(trim(w) == w);
    if starts_with(t, "//"@) || starts_with(t, "http://"@) {
        assert(w[0] == 'h' && w[4] == 's');
        if w.len() >= 2 {
            assert(w.take(2)[0] == w[0]);
        }
        if w.len() >= 7 {
            assert(w.take(7)[4] == w[4]);
        }
        assert(!starts_with(w, "//"@));
        assert(!starts_with(w, "http://"@));
    }
}


/// Sequential play walks the queue in order: after track `c` comes track
/// `c + 1` while there is one, and playback stops after the last track.
/// Repeating one track plays the same track again; shuffle plays a track
/// of the queue; going back plays the previous track (the first stays).
pub proof fn lemma_queue_steps(len: nat, c: usize, pick: usize)
    ensures
        c + 1 < len ==> next_step(len, Some(c), PlayMode::Sequential, pick) == QueueStep::Play(
            (c + 1) as usize,
        ),
        0 < len <= c + 1 ==> next_step(len, Some(c), PlayMode::Sequential, pick) == QueueStep::Stop,
        c < len ==> next_step(len, Some(c), PlayMode::RepeatOne, pick) == QueueStep::Play(c),
        0 < len ==> (next_step(len, Some(c), PlayMode::Shuffle, pick) matches QueueStep::Play(i)
            && i < len && (pick < len ==> i == pick)),
        0 < c <= len ==> prev_step(len, Some(c)) == QueueStep::Play((c - 1) as usize),
        0 < len ==> prev_step(len, Some(0)) == QueueStep::Play(0),
        next_step(0, Some(c), PlayMode::Sequential, pick) == QueueStep::Nothing,
{
}

/// In the `Match` order a higher score comes first; among equal scores a
/// lower source id; among those, titles in text order.
pub proof fn lemma_match_order(a: SongResultView, b: SongResultView)
    ensures
        a.score > b.score ==> result_compare(ResultOrder::Match, a, b) < 0,
        a.score == b.score && a.source_id < b.source_id ==> result_compare(ResultOrder::Match, a, b)
            < 0,
        a.score == b.score && a.source_id == b.source_id ==> (result_compare(
            ResultOrder::Match,
            a,
            b,
        ) == 0 <==> a.title == b.title),
        a.score == b.score && a.source_id == b.source_id ==> (result_compare(
            ResultOrder::Match,
            a,
            b,
        ) < 0 <==> a.title != b.title && chars_le(a.title, b.title)),
{
}

/// In the `Quality` order the better platform comes first; on equal
/// platforms a higher score; then a lower source id; titles do not count.
pub proof fn lemma_quality_order(a: SongResultView, b: SongResultView)
    ensures
        platform_rank(a.platform) > platform_rank(b.platform) ==> result_compare(
            ResultOrder::Quality,
            a,
            b,
        ) < 0,
        platform_rank(a.platform) == platform_rank(b.platform) && a.score > b.score
            ==> result_compare(ResultOrder::Quality, a, b) < 0,
        platform_rank(a.platform) == platform_rank(b.platform) && a.score == b.score && a.source_id
            < b.source_id ==> result_compare(ResultOrder::Quality, a, b) < 0,
        platform_rank(a.platform) == platform_rank(b.platform) && a.score == b.score && a.source_id
            == b.source_id ==> result_compare(ResultOrder::Quality, a, b) == 0,
{
}

/// In the `Title` order titles come in text order; equal titles by artist
/// in text order; equal titles and artists by lower source id.
pub proof fn lemma_title_order(a: SongResultView, b: SongResultView)
    ensures
        a.title != b.title ==> (result_compare(ResultOrder::Title, a, b) < 0 <==> chars_le(
            a.title,
            b.title,
        )),
        a.title == b.title && a.artist != b.artist ==> (result_compare(ResultOrder::Title, a, b) < 0
            <==> chars_le(a.artist, b.artist)),
        a.title == b.title && a.artist == b.artist && a.source_id < b.source_id ==> result_compare(
            ResultOrder::Title,
            a,
            b,
        ) < 0,
{
    lemma_text_order(a.title, b.title, b.title);
    lemma_text_order(a.artist, b.artist, b.artist);
    lemma_chars_le_total(a.title, b.title);
    lemma_chars_le_total(a.artist, b.artist);
}

/// Sorted by `Match`, scores never rise down the list, and results with
/// the same score and source come in text order of their titles.
pub proof fn lemma_match_sorted_titles(s: Seq<SongResultView>)
    ensures
        forall|i: int, j: int|
            0 <= i < j < sorted_results(ResultOrder::Match, s).len() ==> (#[trigger] sorted_results(
                ResultOrder::Match,
                s,
            )[i]).score >= (#[trigger] sorted_results(ResultOrder::Match, s)[j]).score,
        forall|i: int, j: int|
            0 <= i < j < sorted_results(ResultOrder::Match, s).len() && (#[trigger] sorted_results(
                ResultOrder::Match,
                s,
            )[i]).score == (#[trigger] sorted_results(ResultOrder::Match, s)[j]).score
                && sorted_results(ResultOrder::Match, s)[i].source_id == sorted_results(
                ResultOrder::Match,
                s,
            )[j].source_id ==> chars_le(
                sorted_results(ResultOrder::Match, s)[i].title,
                sorted_results(ResultOrder::Match, s)[j].title,
            ),
{
    let r = sorted_results(ResultOrder::Match, s);
    lemma_sorted_results_in_order(ResultOrder::Match, s);
    assert forall|i: int, j: int| 0 <= i < j < r.len() implies (#[trigger] r[i]).score >= (
    #[trigger] r[j]).score by {
        assert(result_compare(ResultOrder::Match, r[j], r[i]) >= 0);
        lemma_match_order(r[j], r[i]);
    }
    assert forall|i: int, j: int|
        0 <= i < j < r.len() && (#[trigger] r[i]).score == (#[trigger] r[j]).score
            && r[i].source_id == r[j].source_id implies chars_le(r[i].title, r[j].title) by {
        assert(result_compare(ResultOrder::Match, r[j], r[i]) >= 0);
        lemma_match_order(r[j], r[i]);
        lemma_chars_le_total(r[i].title, r[j].title);
        if r[i].title == r[j].title {
            lemma_chars_le_total(r[i].title, r[i].title);
        }
    }
}

/// Favourites with an id are the same song when id and platform match;
/// two without ids when both title and artist match, so a song by another
/// artist under the same title is a different song.
pub proof fn lemma_same_song_rule(a: FavoriteSongView, b: FavoriteSongView)
    ensures
        a.id.len() == 0 && b.id.len() == 0 ==> (same_song(a, b) <==> a.title == b.title && a.artist
            == b.artist),
        a.id.len() > 0 ==> (same_song(a, b) <==> a.id == b.id && a.platform == b.platform),
        same_song(a, b) == same_song(b, a),
{
}

/// Toggling a song that no favourite matches puts it first and keeps every
/// favourite; for songs without ids, one matches only with the same title
/// and artist.
pub proof fn lemma_toggle_new_song(s: Seq<FavoriteSongView>, x: FavoriteSongView)
    requires
        forall|i: int| 0 <= i < s.len() ==> !same_song(#[trigger] s[i], x),
    ensures
        toggled_songs(s, x) == seq![x] + s,
{
    lemma_song_position(s, x, 0);
}

/// A favourite without id is kept when a song of the same title but
/// another artist (also without id) is toggled.
pub proof fn lemma_toggle_other_artist(s: Seq<FavoriteSongView>, x: FavoriteSongView)
    requires
        x.id.len() == 0,
        forall|i: int|
            0 <= i < s.len() ==> (#[trigger] s[i]).id.len() == 0 && (s[i].title != x.title
                || s[i].artist != x.artist),
    ensures
        toggled_songs(s, x).len() == s.len() + 1,
        toggled_songs(s, x)[0] == x,
        forall|i: int| 0 <= i < s.len() ==> toggled_songs(s, x)[i + 1] == #[trigger] s[i],
{
    assert forall|i: int| 0 <= i < s.len() implies !same_song(#[trigger] s[i], x) by {}
    lemma_toggle_new_song(s, x);
}

proof fn lemma_two_endings(c: Seq<char>, p: Seq<char>, q: Seq<char>)
    requires
        ends_with(c, p),
        ends_with(c, q),
        p.len() <= q.len(),
    ensures
        q.skip(q.len() - p.len()) == p,
{
    assert(q.skip(q.len() - p.len()) =~= c.skip(c.len() - p.len()));
}

/// The six audio formats a link's ending names.
pub open spec fn known_format(f: Seq<char>) -> bool {
    f == "flac"@ || f == "m4a"@ || f == "aac"@ || f == "ogg"@ || f == "wav"@ || f == "mp3"@
}

proof fn lemma_one_ending(c: Seq<char>, f: Seq<char>, g: Seq<char>)
    requires
        known_format(f),
        known_format(g),
        f != g,
        ends_with(c, "."@ + g),
    ensures
        !ends_with(c, "."@ + f),
{
    reveal_strlit(".");
    reveal_strlit("flac");
    reveal_strlit("m4a");
    reveal_strlit("aac");
    reveal_strlit("ogg");
    reveal_strlit("wav");
    reveal_strlit("mp3");
    let p = "."@ + f;
    let q = "."@ + g;
    if ends_with(c, p) {
        assert(p[0] == '.' && q[0] == '.');
        if p.len() == q.len() {
            lemma_two_endings(c, p, q);
            assert(q.skip(0) =~= q);
            assert(f =~= p.skip(1));
            assert(g =~= q.skip(1));
        } else if p.len() > q.len() {
            lemma_two_endings(c, q, p);
            assert(f == "flac"@);
            assert(p.skip(1)[0] == 'f');
            assert(p.skip(p.len() - q.len())[0] == q[0]);
        } else {
            lemma_two_endings(c, p, q);
            assert(g == "flac"@);
            assert(q.skip(1)[0] == 'f');
            assert(q.skip(q.len() - p.len())[0] == p[0]);
        }
    }
}

proof fn lemma_format_found(clean: Seq<char>, fs: Seq<Seq<char>>, k: int)
    requires
        0 <= k < fs.len(),
        ends_with(clean, "."@ + fs[k]),
        forall|j: int| 0 <= j < k ==> !ends_with(clean, "."@ + #[trigger] fs[j]),
    ensures
        format_by_ending(clean, fs) == Some(fs[k]),
    decreases k,
{
    if k > 0 {
        let t = fs.skip(1);
        assert forall|j: int| 0 <= j < k - 1 implies !ends_with(clean, "."@ + #[trigger] t[j]) by {
            assert(t[j] == fs[j + 1]);
        }
        assert(t[k - 1] == fs[k]);
        assert(!ends_with(clean, "."@ + fs[0]));
        lemma_format_found(clean, t, k - 1);
    }
}

proof fn lemma_no_query(path: Seq<char>)
    requires
        forall|i: int| 0 <= i < path.len() ==> path[i] != '?',
    ensures
        before_query(path) == path,
{
    reveal_strlit("?");
    lemma_find_from(path, "?"@, 0);
    if let Some(k) = find(path, "?"@) {
        assert(path.subrange(k, k + 1)[0] == path[k]);
    }
}

proof fn lemma_query_cut(path: Seq<char>, query: Seq<char>)
    requires
        forall|i: int| 0 <= i < path.len() ==> path[i] != '?',
    ensures
        before_query(path + "?"@ + query) == path,
{
    reveal_strlit("?");
    let u = path + "?"@ + query;
    lemma_find_from(u, "?"@, 0);
    assert(u.subrange(path.len() as int, path.len() + 1int) =~= "?"@);
    assert(matches_at(u, "?"@, path.len() as int));
    match find(u, "?"@) {
        Some(k) => {
            if k < path.len() {
                assert(u.subrange(k, k + 1)[0] == u[k]);
                assert(u[k] == path[k]);
            }
            assert(k == path.len());
            assert(u.take(k) =~= path);
        },
        None => {},
    }
}

/// A link whose path (the part before any `?`), in lower case, ends in
/// `.flac`, `.m4a`, `.aac`, `.ogg`, `.wav` or `.mp3`, and for which the
/// service named no format, is taken to be of that format.
pub proof fn lemma_format_from_link(path: Seq<char>, query: Seq<char>, ext: Seq<char>)
    requires
        known_format(ext),
        forall|i: int| 0 <= i < path.len() ==> path[i] != '?',
        ends_with(ascii_lower(path), "."@ + ext),
    ensures
        audio_format(path, None) == ext,
        audio_format(path + "?"@ + query, None) == ext,
        audio_format(path, Some(Seq::empty())) == ext,
{
    reveal_strlit("flac");
    reveal_strlit("m4a");
    reveal_strlit("aac");
    reveal_strlit("ogg");
    reveal_strlit("wav");
    reveal_strlit("mp3");
    lemma_no_query(path);
    lemma_query_cut(path, query);
    let clean = ascii_lower(path);
    let fs = seq!["flac"@, "m4a"@, "aac"@, "ogg"@, "wav"@, "mp3"@];
    let k: int = if ext == "flac"@ {
        0
    } else if ext == "m4a"@ {
        1
    } else if ext == "aac"@ {
        2
    } else if ext == "ogg"@ {
        3
    } else if ext == "wav"@ {
        4
    } else {
        5
    };
    assert(fs[k] == ext);
    assert forall|j: int| 0 <= j < k implies !ends_with(clean, "."@ + #[trigger] fs[j]) by {
        lemma_one_ending(clean, fs[j], ext);
    }
    lemma_format_found(clean, fs, k);
    assert(audio_formats() == fs);
}


proof fn lemma_format_none(clean: Seq<char>, fs: Seq<Seq<char>>)
    requires
        forall|j: int| 0 <= j < fs.len() ==> !ends_with(clean, "."@ + #[trigger] fs[j]),
    ensures
        format_by_ending(clean, fs) is None,
    decreases fs.len(),
{
    if fs.len() > 0 {
        let t = fs.skip(1);
        assert forall|j: int| 0 <= j < t.len() implies !ends_with(clean, "."@ + #[trigger] t[j]) by {
            assert(t[j] == fs[j + 1]);
        }
        assert(!ends_with(clean, "."@ + fs[0]));
        lemma_format_none(clean, t);
    }
}

/// A format the service names is kept as it is; a link that ends in none
/// of the six known extensions, with no format named, is taken as `mp3`.
pub proof fn lemma_format_named_or_default(url: Seq<char>, named: Seq<char>)
    ensures
        named.len() > 0 ==> audio_format(url, Some(named)) == named,
        (forall|f: Seq<char>| known_format(f) ==> !ends_with(
            ascii_lower(before_query(url)),
            "."@ + f,
        )) ==> audio_format(url, None) == "mp3"@,
{
    reveal_strlit("flac");
    reveal_strlit("m4a");
    reveal_strlit("aac");
    reveal_strlit("ogg");
    reveal_strlit("wav");
    reveal_strlit("mp3");
    let clean = ascii_lower(before_query(url));
    let fs = audio_formats();
    if forall|f: Seq<char>| known_format(f) ==> !ends_with(clean, "."@ + f) {
        assert forall|j: int| 0 <= j < fs.len() implies !ends_with(clean, "."@ + #[trigger] fs[j]) by {
            assert(known_format(fs[j]));
        }
        lemma_format_none(clean, fs);
    }
}

} // verus!
