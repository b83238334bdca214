//! The registry of music sources: which sources there are, in what order,
//! which of them are enabled, how well each has answered, and which one is
//! active.
use vstd::prelude::*;
use crate::markup::lit;
use crate::search::{
    chart_enabled, chunks, plan_charts, plan_more, plan_search, native_enabled, priority_sources, remaining_sources,
    round_views, SearchPlan, MAX_SEARCH_CONCURRENT,
};
use crate::sources::{parse_source_content, source_meta, SourceMetaView};
use crate::text::{
    chars_of, clone_chars, eq_ignore_ascii_case, eq_ignore_ascii_case_exec, seq_eq, string_of,
    string_views,
};

use crate::hot::{hot_ids, hot_word_sources, kuwo_engine_sources, kuwo_ids};

verus! {

/// A music source as the user sees it.
pub struct SourceInfo {
    pub id: usize,
    pub name: String,
    pub file_name: String,
    pub score: i32,
    pub enabled: bool,
}

pub struct SourceInfoView {
    pub id: usize,
    pub name: Seq<char>,
    pub file_name: Seq<char>,
    pub score: i32,
    pub enabled: bool,
}

impl View for SourceInfo {
    type V = SourceInfoView;

    open spec fn view(&self) -> SourceInfoView {
        SourceInfoView {
            id: self.id,
            name: self.name@,
            file_name: self.file_name@,
            score: self.score,
            enabled: self.enabled,
        }
    }
}

impl SourceInfo {
    /// A field-by-field copy.
    pub fn copied(&self) -> (r: SourceInfo)
        ensures
            r@ == self@,
    {
        SourceInfo {
            id: self.id,
            name: self.name.clone(),
            file_name: self.file_name.clone(),
            score: self.score,
            enabled: self.enabled,
        }
    }
}

/// The views of a list of sources.
pub open spec fn source_views(v: Seq<SourceInfo>) -> Seq<SourceInfoView> {
    v.map_values(|s: SourceInfo| s@)
}

/// The views of a list with one more source.
pub proof fn lemma_source_views_push(v: Seq<SourceInfo>, x: SourceInfo)
    ensures
        source_views(v.push(x)) == source_views(v).push(x@),
{
    assert(source_views(v.push(x)) =~= source_views(v).push(x@));
}

/// Copies of a list of sources.
pub fn copy_sources(v: &Vec<SourceInfo>) -> (r: Vec<SourceInfo>)
    ensures
        source_views(r@) == source_views(v@),
{
    let mut out: Vec<SourceInfo> = Vec::new();
    let mut i: usize = 0;
    while i < v.len()
        invariant
            i <= v.len(),
            out.len() == i,
            source_views(out@) == source_views(v@.take(i as int)),
        decreases v.len() - i,
    {
        let ghost before = out@;
        out.push(v[i].copied());
        assert forall|k: int| 0 <= k <= i implies source_views(out@)[k] == source_views(
            v@.take(i + 1),
        )[k] by {
            if k < i {
                assert(source_views(before)[k] == source_views(v@.take(i as int))[k]);
                assert(before[k] == out@[k]);
            }
        }
        assert(source_views(out@) =~= source_views(v@.take(i + 1)));
        i += 1;
    }
    assert(v@.take(v.len() as int) =~= v@);
    out
}

/// The source engines the application runs natively rather than through a
/// script's web service.
#[derive(PartialEq, Eq, Structural, Clone, Copy, Debug)]
pub enum NativeSourceAdapter {
    Xiaowo,
    Kugou,
    Netease,
    Bilibili,
}

/// What a source script declares: its service, key, platforms and engine.
pub struct SourceMeta {
    pub name: String,
    pub api_url: String,
    pub api_key: String,
    pub platforms: Vec<String>,
    pub adapter: Option<NativeSourceAdapter>,
    pub can_search: bool,
}

/// The first position at or after `from` whose source has `id`.
pub open spec fn position_from(s: Seq<SourceInfoView>, id: usize, from: int) -> Option<int>
    decreases s.len() - from,
{
    if from < 0 || from >= s.len() {
        None
    } else if s[from].id == id {
        Some(from)
    } else {
        position_from(s, id, from + 1)
    }
}

/// The first position whose source has `id`.
pub open spec fn position_of(s: Seq<SourceInfoView>, id: usize) -> Option<int> {
    position_from(s, id, 0)
}

proof fn lemma_position_from(s: Seq<SourceInfoView>, id: usize, from: int)
    requires
        0 <= from,
    ensures
        match position_from(s, id, from) {
            Some(i) => from <= i < s.len() && s[i].id == id && forall|j: int|
                from <= j < i ==> s[j].id != id,
            None => forall|j: int| from <= j < s.len() ==> s[j].id != id,
        },
    decreases s.len() - from,
{
    if from < s.len() && s[from].id != id {
        lemma_position_from(s, id, from + 1);
    }
}

/// `position_of` finds the first position with `id`, and only it.
pub proof fn lemma_position_of(s: Seq<SourceInfoView>, id: usize)
    ensures
        match position_of(s, id) {
            Some(i) => 0 <= i < s.len() && s[i].id == id && forall|j: int|
                0 <= j < i ==> s[j].id != id,
            None => forall|j: int| 0 <= j < s.len() ==> s[j].id != id,
        },
{
    lemma_position_from(s, id, 0);
}

/// The first position whose source has `id`.
pub fn find_position(sources: &Vec<SourceInfo>, id: usize) -> (r: Option<usize>)
    ensures
        match position_of(source_views(sources@), id) {
            Some(i) => r matches Some(j) && j == i,
            None => r is None,
        },
{
    let ghost s = source_views(sources@);
    let mut i: usize = 0;
    while i < sources.len()
        invariant
            s == source_views(sources@),
            i <= sources.len(),
            position_of(s, id) == position_from(s, id, i as int),
        decreases sources.len() - i,
    {
        if sources[i].id == id {
            return Some(i);
        }
        i += 1;
    }
    None
}

/// The order after moving the source with `id`: `up` and `down` swap it
/// with its neighbour, `top` puts it first; nothing changes when there is
/// no such source, no such neighbour, or another action.
pub open spec fn moved(s: Seq<SourceInfoView>, id: usize, action: Seq<char>) -> Seq<SourceInfoView> {
    match position_of(s, id) {
        None => s,
        Some(i) => if action == "up"@ && i > 0 {
            s.update(i, s[i - 1]).update(i - 1, s[i])
        } else if action == "down"@ && i + 1 < s.len() {
            s.update(i, s[i + 1]).update(i + 1, s[i])
        } else if action == "top"@ && i > 0 {
            seq![s[i]] + s.remove(i)
        } else {
            s
        },
    }
}

/// The scores after a search of the source with `id` found something
/// (`found`) or not: its score goes up or down by one.
pub open spec fn scored(s: Seq<SourceInfoView>, id: usize, found: bool) -> Seq<SourceInfoView> {
    match position_of(s, id) {
        None => s,
        Some(i) => s.update(
            i,
            SourceInfoView {
                score: (if found {
                    s[i].score + 1
                } else {
                    s[i].score - 1
                }) as i32,
                ..s[i]
            },
        ),
    }
}

/// The score of the source with `id` can move in the given direction
/// without leaving `i32`.
pub open spec fn score_room(s: Seq<SourceInfoView>, id: usize, found: bool) -> bool {
    match position_of(s, id) {
        None => true,
        Some(i) => if found {
            s[i].score < i32::MAX
        } else {
            s[i].score > i32::MIN
        },
    }
}

/// No two sources share an id.
pub open spec fn distinct_ids(s: Seq<SourceInfoView>) -> bool {
    forall|i: int, j: int| 0 <= i < j < s.len() ==> #[trigger] s[i].id != #[trigger] s[j].id
}

/// Moving a source keeps the same sources: only their order changes.
pub proof fn lemma_move_keeps_sources(s: Seq<SourceInfoView>, id: usize, action: Seq<char>)
    ensures
        moved(s, id, action).len() == s.len(),
        forall|x: SourceInfoView| #[trigger] moved(s, id, action).contains(x) <==> s.contains(x),
{
    lemma_position_of(s, id);
    let m = moved(s, id, action);
    match position_of(s, id) {
        None => {},
        Some(i) => {
            if action == "up"@ && i > 0 {
                assert forall|x: SourceInfoView| #[trigger] m.contains(x) <==> s.contains(x) by {
                    if m.contains(x) {
                        let k = choose|k: int| 0 <= k < m.len() && m[k] == x;
                        if k == i {
                            assert(s[i - 1] == x);
                        } else if k == i - 1 {
                            assert(s[i] == x);
                        } else {
                            assert(s[k] == x);
                        }
                    }
                    if s.contains(x) {
                        let k = choose|k: int| 0 <= k < s.len() && s[k] == x;
                        if k == i {
                            assert(m[i - 1] == x);
                        } else if k == i - 1 {
                            assert(m[i] == x);
                        } else {
                            assert(m[k] == x);
                        }
                    }
                }
            } else if action == "down"@ && i + 1 < s.len() {
                assert forall|x: SourceInfoView| #[trigger] m.contains(x) <==> s.contains(x) by {
                    if m.contains(x) {
                        let k = choose|k: int| 0 <= k < m.len() && m[k] == x;
                        if k == i {
                            assert(s[i + 1] == x);
                        } else if k == i + 1 {
                            assert(s[i] == x);
                        } else {
                            assert(s[k] == x);
                        }
                    }
                    if s.contains(x) {
                        let k = choose|k: int| 0 <= k < s.len() && s[k] == x;
                        if k == i {
                            assert(m[i + 1] == x);
                        } else if k == i + 1 {
                            assert(m[i] == x);
                        } else {
                            assert(m[k] == x);
                        }
                    }
                }
            } else if action == "top"@ && i > 0 {
                assert forall|x: SourceInfoView| #[trigger] m.contains(x) <==> s.contains(x) by {
                    if m.contains(x) {
                        let k = choose|k: int| 0 <= k < m.len() && m[k] == x;
                        if k == 0 {
                            assert(s[i] == x);
                        } else if k <= i {
                            assert(s[k - 1] == x);
                        } else {
                            assert(s[k] == x);
                        }
                    }
                    if s.contains(x) {
                        let k = choose|k: int| 0 <= k < s.len() && s[k] == x;
                        if k == i {
                            assert(m[0] == x);
                        } else if k < i {
                            assert(m[k + 1] == x);
                        } else {
                            assert(m[k] == x);
                        }
                    }
                }
            }
        },
    }
}

/// Where the source at position `k` after a move stood before it.
pub open spec fn moved_from(s: Seq<SourceInfoView>, id: usize, action: Seq<char>, k: int) -> int {
    match position_of(s, id) {
        None => k,
        Some(i) => if action == "up"@ && i > 0 {
            if k == i {
                i - 1
            } else if k == i - 1 {
                i
            } else {
                k
            }
        } else if action == "down"@ && i + 1 < s.len() {
            if k == i {
                i + 1
            } else if k == i + 1 {
                i
            } else {
                k
            }
        } else if action == "top"@ && i > 0 {
            if k == 0 {
                i
            } else if k <= i {
                k - 1
            } else {
                k
            }
        } else {
            k
        },
    }
}

/// A move keeps the ids distinct and within `0..n`.
pub proof fn lemma_move_keeps_ids(s: Seq<SourceInfoView>, id: usize, action: Seq<char>)
    requires
        distinct_ids(s),
        forall|i: int| 0 <= i < s.len() ==> #[trigger] s[i].id < s.len(),
    ensures
        distinct_ids(moved(s, id, action)),
        forall|i: int|
            0 <= i < moved(s, id, action).len() ==> #[trigger] moved(s, id, action)[i].id < s.len(),
{
    lemma_position_of(s, id);
    lemma_move_keeps_sources(s, id, action);
    let m = moved(s, id, action);
    assert forall|k: int| 0 <= k < m.len() implies 0 <= #[trigger] moved_from(s, id, action, k)
        < s.len() && m[k] == s[moved_from(s, id, action, k)] by {}
    assert forall|a: int, b: int| 0 <= a < b < m.len() implies #[trigger] m[a].id
        != #[trigger] m[b].id by {
        let fa = moved_from(s, id, action, a);
        let fb = moved_from(s, id, action, b);
        assert(m[a] == s[fa]);
        assert(m[b] == s[fb]);
        assert(fa != fb);
        if fa < fb {
            assert(s[fa].id != s[fb].id);
        } else {
            assert(s[fb].id != s[fa].id);
        }
    }
    assert forall|i: int| 0 <= i < m.len() implies #[trigger] m[i].id < s.len() by {
        assert(m[i] == s[moved_from(s, id, action, i)]);
    }
}

/// Moving a source up and then down again restores the order, when the
/// ids are distinct and the source was not already first.
pub proof fn lemma_up_then_down(s: Seq<SourceInfoView>, id: usize)
    requires
        distinct_ids(s),
        position_of(s, id) matches Some(i) && i > 0,
    ensures
        moved(moved(s, id, "up"@), id, "down"@) == s,
{
    lemma_position_of(s, id);
    let i = position_of(s, id)->0;
    let up = moved(s, id, "up"@);
    reveal_strlit("up");
    assert(up == s.update(i, s[i - 1]).update(i - 1, s[i]));
    lemma_position_of(up, id);
    assert(up[i - 1].id == id);
    assert(position_of(up, id) == Some(i - 1)) by {
        match position_of(up, id) {
            Some(k) => {
                if k < i - 1 {
                    assert(up[k] == s[k]);
                    assert(s[k].id != s[i].id);
                }
            },
            None => {},
        }
    }
    reveal_strlit("up");
    reveal_strlit("down");
    assert("down"@.len() != "up"@.len());
    assert(up.len() == s.len());
    let back = up.update(i - 1, up[i]).update(i, up[i - 1]);
    assert(moved(up, id, "down"@) == back);
    assert(back =~= s);
}

/// A source script the application found: the stem of its file name and
/// its text (none when it could not be read).
pub struct ScriptFile {
    pub stem: String,
    pub content: Option<String>,
}

/// A script read for the registry: its stem, its name and its declaration.
pub struct ScannedView {
    pub stem: Seq<char>,
    pub name: Seq<char>,
    pub meta: Option<SourceMetaView>,
}

struct Scanned {
    stem: String,
    name: String,
    meta: Option<SourceMeta>,
}

impl View for Scanned {
    type V = ScannedView;

    closed spec fn view(&self) -> ScannedView {
        ScannedView {
            stem: self.stem@,
            name: self.name@,
            meta: match self.meta {
                Some(m) => Some(m@),
                None => None,
            },
        }
    }
}

/// What the registry reads of one script: an unreadable one keeps its stem
/// as its name and has no declaration.
pub open spec fn scanned_of(f: ScriptFile) -> ScannedView {
    match f.content {
        Some(c) => ScannedView {
            stem: f.stem@,
            name: source_meta(c@, f.stem@).0,
            meta: source_meta(c@, f.stem@).1,
        },
        None => ScannedView { stem: f.stem@, name: f.stem@, meta: None },
    }
}

/// The registry's own `xiaowo` entry.
pub open spec fn xiaowo_entry() -> ScannedView {
    ScannedView {
        stem: "xiaowo"@,
        name: "xiaowo"@,
        meta: source_meta(Seq::empty(), "xiaowo"@).1,
    }
}

/// The scripts read, with the `xiaowo` entry put first when no stem is
/// `xiaowo` (in any ASCII case).
pub open spec fn with_xiaowo(files: Seq<ScriptFile>) -> Seq<ScannedView> {
    let read = files.map_values(|f: ScriptFile| scanned_of(f));
    if exists|i: int| 0 <= i < read.len() && eq_ignore_ascii_case(#[trigger] read[i].stem, "xiaowo"@) {
        read
    } else {
        seq![xiaowo_entry()] + read
    }
}

/// Text order (`str`'s `Ord`): `a` comes no later than `b`.
pub open spec fn chars_le(a: Seq<char>, b: Seq<char>) -> bool
    decreases a.len(),
{
    if a.len() == 0 {
        true
    } else if b.len() == 0 {
        false
    } else if a[0] != b[0] {
        a[0] < b[0]
    } else {
        chars_le(a.skip(1), b.skip(1))
    }
}

pub proof fn lemma_chars_le_total(a: Seq<char>, b: Seq<char>)
    ensures
        chars_le(a, b) || chars_le(b, a),
    decreases a.len(),
{
    if a.len() > 0 && b.len() > 0 && a[0] == b[0] {
        lemma_chars_le_total(a.skip(1), b.skip(1));
    }
}

pub proof fn lemma_chars_le_trans(a: Seq<char>, b: Seq<char>, c: Seq<char>)
    requires
        chars_le(a, b),
        chars_le(b, c),
    ensures
        chars_le(a, c),
    decreases a.len(),
{
    if a.len() > 0 && b.len() > 0 && c.len() > 0 && a[0] == b[0] && b[0] == c[0] {
        lemma_chars_le_trans(a.skip(1), b.skip(1), c.skip(1));
    }
}

/// Where a script with `stem` goes among `s` (sorted): after every script
/// whose stem comes no later.
pub open spec fn insert_pos(s: Seq<ScannedView>, stem: Seq<char>, from: int) -> int
    decreases s.len() - from,
{
    if from < 0 || from >= s.len() {
        s.len() as int
    } else if !chars_le(s[from].stem, stem) {
        from
    } else {
        insert_pos(s, stem, from + 1)
    }
}

/// `s` sorted by stem, keeping scripts with equal stems in their order
/// (a stable sort, as `sort_by` is).
pub open spec fn sort_by_stem(s: Seq<ScannedView>) -> Seq<ScannedView>
    decreases s.len(),
{
    if s.len() == 0 {
        s
    } else {
        let r = sort_by_stem(s.drop_last());
        r.insert(insert_pos(r, s.last().stem, 0), s.last())
    }
}

/// Stems come in text order.
pub open spec fn sorted_by_stem(s: Seq<ScannedView>) -> bool {
    forall|i: int, j: int| 0 <= i < j < s.len() ==> chars_le(#[trigger] s[i].stem, #[trigger] s[j].stem)
}

proof fn lemma_insert_pos(s: Seq<ScannedView>, stem: Seq<char>, from: int)
    requires
        0 <= from <= s.len(),
    ensures
        from <= insert_pos(s, stem, from) <= s.len(),
        forall|k: int| from <= k < insert_pos(s, stem, from) ==> chars_le(#[trigger] s[k].stem, stem),
        insert_pos(s, stem, from) < s.len() ==> !chars_le(s[insert_pos(s, stem, from)].stem, stem),
    decreases s.len() - from,
{
    if from < s.len() && chars_le(s[from].stem, stem) {
        lemma_insert_pos(s, stem, from + 1);
    }
}

/// Sorting keeps the stems in text order and the same scripts.
pub proof fn lemma_sort_by_stem(s: Seq<ScannedView>)
    ensures
        sorted_by_stem(sort_by_stem(s)),
        sort_by_stem(s).len() == s.len(),
        forall|x: ScannedView| #[trigger] sort_by_stem(s).contains(x) <==> s.contains(x),
    decreases s.len(),
{
    if s.len() > 0 {
        let prev = s.drop_last();
        lemma_sort_by_stem(prev);
        let r = sort_by_stem(prev);
        let x = s.last();
        let p = insert_pos(r, x.stem, 0);
        lemma_insert_pos(r, x.stem, 0);
        let n = r.insert(p, x);
        assert forall|i: int, j: int| 0 <= i < j < n.len() implies chars_le(
            #[trigger] n[i].stem,
            #[trigger] n[j].stem,
        ) by {
            if j < p {
                assert(n[i] == r[i] && n[j] == r[j]);
            } else if j == p {
                assert(n[i] == r[i]);
            } else if i < p {
                assert(n[i] == r[i] && n[j] == r[j - 1]);
                if i < j - 1 {
                    assert(chars_le(r[i].stem, r[j - 1].stem));
                }
            } else if i == p {
                assert(n[j] == r[j - 1]);
                assert(!chars_le(r[p].stem, x.stem));
                lemma_chars_le_total(r[p].stem, x.stem);
                if j - 1 > p {
                    assert(chars_le(r[p].stem, r[j - 1].stem));
                    lemma_chars_le_trans(x.stem, r[p].stem, r[j - 1].stem);
                }
            } else {
                assert(n[i] == r[i - 1] && n[j] == r[j - 1]);
            }
        }
        assert forall|y: ScannedView| #[trigger] n.contains(y) <==> s.contains(y) by {
            if n.contains(y) {
                let k = choose|k: int| 0 <= k < n.len() && n[k] == y;
                if k < p {
                    assert(r[k] == y);
                    assert(r.contains(y));
                    let m = choose|m: int| 0 <= m < prev.len() && prev[m] == y;
                    assert(s[m] == y);
                } else if k == p {
                    assert(s[s.len() - 1] == y);
                } else {
                    assert(r[k - 1] == y);
                    assert(r.contains(y));
                    let m = choose|m: int| 0 <= m < prev.len() && prev[m] == y;
                    assert(s[m] == y);
                }
            }
            if s.contains(y) {
                let k = choose|k: int| 0 <= k < s.len() && s[k] == y;
                if k == s.len() - 1 {
                    assert(n[p] == y);
                } else {
                    assert(prev[k] == y);
                    assert(prev.contains(y));
                    assert(r.contains(y));
                    let m = choose|m: int| 0 <= m < r.len() && r[m] == y;
                    if m < p {
                        assert(n[m] == y);
                    } else {
                        assert(n[m + 1] == y);
                    }
                }
            }
        }
    }
}

/// The sources the registry lists for `files`: sorted by stem, numbered by
/// position, named as read, enabled, with score 0.
pub open spec fn scanned_sources(files: Seq<ScriptFile>) -> Seq<SourceInfoView> {
    let sorted = sort_by_stem(with_xiaowo(files));
    Seq::new(
        sorted.len(),
        |i: int|
            SourceInfoView {
                id: i as usize,
                name: sorted[i].name,
                file_name: sorted[i].stem,
                score: 0,
                enabled: true,
            },
    )
}

/// The declarations of those sources, by id.
pub open spec fn scanned_metas(files: Seq<ScriptFile>) -> Seq<Option<SourceMetaView>> {
    let sorted = sort_by_stem(with_xiaowo(files));
    Seq::new(sorted.len(), |i: int| sorted[i].meta)
}

fn read_script(f: &ScriptFile) -> (r: Scanned)
    ensures
        r@ == scanned_of(*f),
{
    match &f.content {
        Some(c) => {
            let (name, meta) = parse_source_content(c.as_str(), f.stem.as_str());
            Scanned { stem: f.stem.clone(), name, meta }
        },
        None => Scanned { stem: f.stem.clone(), name: f.stem.clone(), meta: None },
    }
}

pub fn chars_le_exec(a: &Vec<char>, b: &Vec<char>) -> (r: bool)
    ensures
        r == chars_le(a@, b@),
{
    let mut i: usize = 0;
    assert(a@.skip(0) =~= a@ && b@.skip(0) =~= b@);
    loop
        invariant
            i <= a.len(),
            i <= b.len(),
            chars_le(a@, b@) == chars_le(a@.skip(i as int), b@.skip(i as int)),
        decreases a.len() - i,
    {
        if i == a.len() {
            return true;
        }
        if i == b.len() {
            return false;
        }
        if a[i] != b[i] {
            return a[i] < b[i];
        }
        assert(a@.skip(i as int).skip(1) =~= a@.skip(i + 1));
        assert(b@.skip(i as int).skip(1) =~= b@.skip(i + 1));
        i += 1;
    }
}

spec fn scanned_views(v: Seq<Scanned>) -> Seq<ScannedView> {
    v.map_values(|x: Scanned| x@)
}

fn copy_strings(v: &Vec<String>) -> (r: Vec<String>)
    ensures
        r@ == v@,
{
    let mut out: Vec<String> = Vec::new();
    let mut i: usize = 0;
    while i < v.len()
        invariant
            i <= v.len(),
            out@ == v@.take(i as int),
        decreases v.len() - i,
    {
        out.push(v[i].clone());
        assert(out@ =~= v@.take(i + 1));
        i += 1;
    }
    assert(v@.take(v.len() as int) =~= v@);
    out
}

impl SourceMeta {
    /// A field-by-field copy.
    pub fn copied(&self) -> (r: SourceMeta)
        ensures
            r@ == self@,
    {
        SourceMeta {
            name: self.name.clone(),
            api_url: self.api_url.clone(),
            api_key: self.api_key.clone(),
            platforms: copy_strings(&self.platforms),
            adapter: self.adapter,
            can_search: self.can_search,
        }
    }
}

/// The declarations, by their characters.
pub open spec fn meta_views(v: Seq<Option<SourceMeta>>) -> Seq<Option<SourceMetaView>> {
    v.map_values(
        |m: Option<SourceMeta>|
            match m {
                Some(x) => Some(x@),
                None => None,
            },
    )
}

proof fn lemma_scanned_push(v: Seq<Scanned>, x: Scanned)
    ensures
        scanned_views(v.push(x)) == scanned_views(v).push(x@),
{
    assert(scanned_views(v.push(x)) =~= scanned_views(v).push(x@));
}

proof fn lemma_scanned_front(v: Seq<Scanned>)
    requires
        v.len() > 0,
    ensures
        scanned_views(v.remove(0)) == scanned_views(v).skip(1),
        scanned_views(v)[0] == v[0]@,
{
    assert(scanned_views(v.remove(0)) =~= scanned_views(v).skip(1));
}

fn sort_scanned(list: Vec<Scanned>) -> (r: Vec<Scanned>)
    ensures
        scanned_views(r@) == sort_by_stem(scanned_views(list@)),
{
    let ghost orig = scanned_views(list@);
    let n = list.len();
    let mut rest = list;
    let mut out: Vec<Scanned> = Vec::new();
    let mut k: usize = 0;
    assert(orig.take(0) =~= Seq::<ScannedView>::empty());
    assert(scanned_views(out@) =~= Seq::<ScannedView>::empty());
    assert(scanned_views(rest@) =~= orig.skip(0));
    while rest.len() > 0
        invariant
            k <= orig.len(),
            orig.len() == n,
            k + rest.len() == orig.len(),
            scanned_views(rest@) == orig.skip(k as int),
            scanned_views(out@) == sort_by_stem(orig.take(k as int)),
        decreases rest.len(),
    {
        let ghost before = scanned_views(out@);
        let ghost old_rest = rest@;
        let item = rest.remove(0);
        proof {
            lemma_scanned_front(old_rest);
            assert(orig.skip(k as int).skip(1) =~= orig.skip(k + 1));
            assert(orig.skip(k as int)[0] == orig[k as int]);
        }
        let stem = chars_of(item.stem.as_str());
        let mut p: usize = 0;
        while p < out.len() && chars_le_exec(&chars_of(out[p].stem.as_str()), &stem)
            invariant
                p <= out.len(),
                before == scanned_views(out@),
                insert_pos(before, stem@, 0) == insert_pos(before, stem@, p as int),
            decreases out.len() - p,
        {
            assert(before[p as int] == out@[p as int]@);
            p += 1;
        }
        proof {
            if p < out.len() {
                assert(before[p as int] == out@[p as int]@);
            }
            let sub = orig.take(k + 1);
            assert(sub.drop_last() =~= orig.take(k as int));
            assert(sub.last() == orig[k as int]);
        }
        out.insert(p, item);
        assert(scanned_views(out@) =~= before.insert(p as int, orig[k as int]));
        k += 1;
    }
    assert(orig.skip(k as int).len() == 0);
    assert(orig.take(k as int) =~= orig);
    out
}

fn read_scripts(files: &Vec<ScriptFile>) -> (r: Vec<Scanned>)
    ensures
        scanned_views(r@) == with_xiaowo(files@),
{
    let ghost read = files@.map_values(|f: ScriptFile| scanned_of(f));
    let mut out: Vec<Scanned> = Vec::new();
    let mut found = false;
    let mut i: usize = 0;
    let x = lit("xiaowo");
    while i < files.len()
        invariant
            x@ == "xiaowo"@,
            i <= files.len(),
            read == files@.map_values(|f: ScriptFile| scanned_of(f)),
            scanned_views(out@) == read.take(i as int),
            found == exists|j: int| 0 <= j < i && eq_ignore_ascii_case(#[trigger] read[j].stem, "xiaowo"@),
        decreases files.len() - i,
    {
        let item = read_script(&files[i]);
        let is_x = eq_ignore_ascii_case_exec(&chars_of(item.stem.as_str()), &x);
        proof {
            assert(read[i as int] == item@);
            if found {
                let j = choose|j: int| 0 <= j < i && eq_ignore_ascii_case(#[trigger] read[j].stem, "xiaowo"@);
                assert(0 <= j < i + 1);
            }
            if is_x {
                assert(eq_ignore_ascii_case(read[i as int].stem, "xiaowo"@));
            }
        }
        found = found || is_x;
        let ghost before = out@;
        out.push(item);
        proof {
            lemma_scanned_push(before, item);
            assert(read.take(i + 1) =~= read.take(i as int).push(read[i as int]));
        }
        i += 1;
    }
    assert(read.take(files.len() as int) =~= read);
    if !found {
        let (_, meta) = parse_source_content("", "xiaowo");
        let entry = Scanned {
            stem: string_of(&lit("xiaowo")),
            name: string_of(&lit("xiaowo")),
            meta,
        };
        proof {
            assert(""@ =~= Seq::<char>::empty()) by {
                reveal_strlit("");
            }
        }
        assert(entry@ == xiaowo_entry());
        out.insert(0, entry);
        assert(scanned_views(out@) =~= seq![xiaowo_entry()] + read);
    }
    out
}

/// The sources, their script declarations (by id) and the active source.
pub struct SourceEngine {
    sources: Vec<SourceInfo>,
    metas: Vec<Option<SourceMeta>>,
    active: usize,
}

impl SourceEngine {
    /// The sources in display order.
    pub closed spec fn sources_view(&self) -> Seq<SourceInfoView> {
        source_views(self.sources@)
    }

    /// The id of the active source.
    pub closed spec fn active_id(&self) -> usize {
        self.active
    }

    /// How many declarations the engine holds (one per id).
    pub closed spec fn meta_count(&self) -> nat {
        self.metas@.len()
    }

    /// Whether the source with `id` has a script declaration.
    pub closed spec fn has_meta(&self, id: usize) -> bool {
        id < self.metas@.len() && self.metas@[id as int] is Some
    }

    /// The engine's invariant: the ids are `0..n` in some order, one
    /// declaration slot per id.
    pub open spec fn wf(&self) -> bool {
        &&& self.meta_count() == self.sources_view().len()
        &&& forall|i: int|
            0 <= i < self.sources_view().len() ==> #[trigger] self.sources_view()[i].id
                < self.sources_view().len()
        &&& forall|i: int, j: int|
            0 <= i < j < self.sources_view().len() ==> #[trigger] self.sources_view()[i].id
                != #[trigger] self.sources_view()[j].id
    }

    /// The sources in display order.
    pub fn get_sources(&self) -> (r: Vec<SourceInfo>)
        ensures
            source_views(r@) == self.sources_view(),
    {
        copy_sources(&self.sources)
    }

    /// The active source, if a source has the active id.
    pub fn get_active_source(&self) -> (r: Option<SourceInfo>)
        ensures
            match position_of(self.sources_view(), self.active_id()) {
                Some(i) => r matches Some(s) && s@ == self.sources_view()[i],
                None => r is None,
            },
    {
        match find_position(&self.sources, self.active) {
            Some(i) => {
                proof {
                    lemma_position_of(self.sources_view(), self.active);
                    assert(self.sources_view()[i as int] == self.sources@[i as int]@);
                }
                Some(self.sources[i].copied())
            },
            None => None,
        }
    }

    /// Makes the source with `id` active, if there is one; says whether it
    /// did.
    pub fn switch_source(&mut self, id: usize) -> (r: bool)
        requires
            old(self).wf(),
        ensures
            final(self).wf(),
            final(self).sources_view() == old(self).sources_view(),
            r == (position_of(old(self).sources_view(), id) is Some),
            final(self).active_id() == if r {
                id
            } else {
                old(self).active_id()
            },
            forall|k: usize| #[trigger] final(self).has_meta(k) == old(self).has_meta(k),
    {
        match find_position(&self.sources, id) {
            Some(_) => {
                self.active = id;
                true
            },
            None => false,
        }
    }

    /// Enables or disables the source with `source_id`; enabling also makes
    /// `source_id` active.  Returns the sources.
    pub fn set_source_enabled(&mut self, source_id: usize, enabled: bool) -> (r: Vec<SourceInfo>)
        requires
            old(self).wf(),
        ensures
            final(self).wf(),
            source_views(r@) == final(self).sources_view(),
            final(self).sources_view() == match position_of(old(self).sources_view(), source_id) {
                Some(i) => old(self).sources_view().update(
                    i,
                    SourceInfoView { enabled, ..old(self).sources_view()[i] },
                ),
                None => old(self).sources_view(),
            },
            final(self).active_id() == if enabled {
                source_id
            } else {
                old(self).active_id()
            },
            forall|k: usize| #[trigger] final(self).has_meta(k) == old(self).has_meta(k),
    {
        proof {
            lemma_position_of(self.sources_view(), source_id);
        }
        match find_position(&self.sources, source_id) {
            Some(i) => {
                let mut s = self.sources[i].copied();
                s.enabled = enabled;
                self.sources.set(i, s);
                assert(self.sources_view() =~= old(self).sources_view().update(
                    i as int,
                    SourceInfoView { enabled, ..old(self).sources_view()[i as int] },
                ));
            },
            None => {},
        }
        if enabled {
            self.active = source_id;
        }
        copy_sources(&self.sources)
    }

    /// Moves the source with `source_id` one place up or down, or to the
    /// top (`action` is `up`, `down` or `top`).  Returns the sources.
    pub fn move_source(&mut self, source_id: usize, action: &str) -> (r: Vec<SourceInfo>)
        requires
            old(self).wf(),
        ensures
            final(self).wf(),
            final(self).sources_view() == moved(old(self).sources_view(), source_id, action@),
            source_views(r@) == final(self).sources_view(),
            final(self).active_id() == old(self).active_id(),
            forall|k: usize| #[trigger] final(self).has_meta(k) == old(self).has_meta(k),
    {
        let ghost s = self.sources_view();
        proof {
            lemma_position_of(s, source_id);
            lemma_move_keeps_sources(s, source_id, action@);
        }
        let index = match find_position(&self.sources, source_id) {
            Some(i) => i,
            None => {
                return copy_sources(&self.sources);
            },
        };
        let act = chars_of(action);
        let len = self.sources.len();
        if seq_eq(&act, &lit("up")) && index > 0 {
            let a = self.sources[index].copied();
            let b = self.sources[index - 1].copied();
            self.sources.set(index, b);
            self.sources.set(index - 1, a);
            assert(self.sources_view() =~= s.update(index as int, s[index - 1]).update(
                index - 1,
                s[index as int],
            ));
        } else if seq_eq(&act, &lit("down")) && index + 1 < len {
            let a = self.sources[index].copied();
            let b = self.sources[index + 1].copied();
            self.sources.set(index, b);
            self.sources.set(index + 1, a);
            assert(self.sources_view() =~= s.update(index as int, s[index + 1]).update(
                index + 1,
                s[index as int],
            ));
        } else if seq_eq(&act, &lit("top")) && index > 0 {
            let ghost before = self.sources@;
            let item = self.sources.remove(index);
            self.sources.insert(0, item);
            assert(self.sources_view() =~= seq![s[index as int]] + s.remove(index as int));
        }
        proof {
            lemma_move_keeps_ids(s, source_id, action@);
        }
        copy_sources(&self.sources)
    }

    /// Whether the score of the source with `source_id` can move one step
    /// up (`found`) or down without leaving `i32` (see `score_room`).
    pub fn can_score(&self, source_id: usize, found: bool) -> (r: bool)
        requires
            self.wf(),
        ensures
            r == score_room(self.sources_view(), source_id, found),
    {
        proof {
            lemma_position_of(self.sources_view(), source_id);
        }
        match find_position(&self.sources, source_id) {
            Some(i) => {
                assert(self.sources_view()[i as int] == self.sources@[i as int]@);
                if found {
                    self.sources[i].score < i32::MAX
                } else {
                    self.sources[i].score > i32::MIN
                }
            },
            None => true,
        }
    }

    /// Scores the source (see `score_source`) when its score has room, and
    /// says whether it did; a score at the edge of `i32` is left as it is.
    pub fn score_source_checked(&mut self, source_id: usize, found: bool) -> (r: bool)
        requires
            old(self).wf(),
        ensures
            final(self).wf(),
            r == score_room(old(self).sources_view(), source_id, found),
            r ==> final(self).sources_view() == scored(old(self).sources_view(), source_id, found),
            !r ==> final(self).sources_view() == old(self).sources_view(),
            final(self).active_id() == old(self).active_id(),
            forall|k: usize| #[trigger] final(self).has_meta(k) == old(self).has_meta(k),
    {
        if self.can_score(source_id, found) {
            self.score_source(source_id, found);
            true
        } else {
            false
        }
    }

    /// Raises the score of the source with `source_id` by one when a search
    /// of it found something, and lowers it by one when not.
    pub fn score_source(&mut self, source_id: usize, found: bool)
        requires
            old(self).wf(),
            score_room(old(self).sources_view(), source_id, found),
        ensures
            final(self).wf(),
            final(self).sources_view() == scored(old(self).sources_view(), source_id, found),
            final(self).active_id() == old(self).active_id(),
            forall|k: usize| #[trigger] final(self).has_meta(k) == old(self).has_meta(k),
    {
        let ghost s = self.sources_view();
        proof {
            lemma_position_of(s, source_id);
        }
        match find_position(&self.sources, source_id) {
            Some(i) => {
                let mut item = self.sources[i].copied();
                if found {
                    item.score = item.score + 1;
                } else {
                    item.score = item.score - 1;
                }
                self.sources.set(i, item);
                assert(self.sources_view() =~= scored(s, source_id, found));
            },
            None => {},
        }
    }

    /// The declarations, by id.
    pub closed spec fn metas_view(&self) -> Seq<Option<SourceMetaView>> {
        meta_views(self.metas@)
    }

    /// Reads the source scripts anew (see `scanned_sources`); the active id
    /// stays as it was.
    pub fn scan_sources(&mut self, scripts: &Vec<ScriptFile>)
        ensures
            final(self).wf(),
            final(self).sources_view() == scanned_sources(scripts@),
            final(self).metas_view() == scanned_metas(scripts@),
            final(self).active_id() == old(self).active_id(),
    {
        let sorted = sort_scanned(read_scripts(scripts));
        let ghost sv = scanned_views(sorted@);
        let n = sorted.len();
        assert(sv == sort_by_stem(with_xiaowo(scripts@)));
        let mut rest = sorted;
        let mut sources: Vec<SourceInfo> = Vec::new();
        let mut metas: Vec<Option<SourceMeta>> = Vec::new();
        let mut i: usize = 0;
        assert(scanned_views(rest@) =~= sv.skip(0));
        while rest.len() > 0
            invariant
                i <= sv.len(),
                sv.len() == n,
                i + rest.len() == sv.len(),
                scanned_views(rest@) == sv.skip(i as int),
                sources.len() == i,
                metas.len() == i,
                forall|k: int|
                    0 <= k < i ==> (#[trigger] sources@[k])@ == (SourceInfoView {
                        id: k as usize,
                        name: sv[k].name,
                        file_name: sv[k].stem,
                        score: 0,
                        enabled: true,
                    }),
                forall|k: int| 0 <= k < i ==> #[trigger] meta_views(metas@)[k] == sv[k].meta,
            decreases rest.len(),
        {
            let ghost old_rest = rest@;
            let item = rest.remove(0);
            proof {
                lemma_scanned_front(old_rest);
                assert(sv.skip(i as int).skip(1) =~= sv.skip(i + 1));
                assert(sv.skip(i as int)[0] == sv[i as int]);
            }
            let ghost before = metas@;
            let ghost iv = item@;
            let ghost im = item.meta;
            sources.push(
                SourceInfo { id: i, name: item.name, file_name: item.stem, score: 0, enabled: true },
            );
            metas.push(item.meta);
            assert(metas@[i as int] == im);
            assert(iv.meta == match im {
                Some(m) => Some(m@),
                None => None,
            });
            assert(meta_views(metas@)[i as int] == iv.meta);
            assert forall|k: int| 0 <= k < i + 1 implies #[trigger] meta_views(metas@)[k]
                == sv[k].meta by {
                if k < i {
                    assert(metas@[k] == before[k]);
                    assert(meta_views(before)[k] == sv[k].meta);
                    assert(meta_views(metas@)[k] == meta_views(before)[k]);
                }
            }
            i += 1;
        }
        self.sources = sources;
        self.metas = metas;
        assert(self.sources_view() =~= scanned_sources(scripts@));
        assert(self.metas_view() =~= scanned_metas(scripts@));
    }

    /// An engine with the sources of `scripts` (see `scan_sources`), the
    /// first id active.
    pub fn new(scripts: &Vec<ScriptFile>) -> (r: SourceEngine)
        ensures
            r.wf(),
            r.sources_view() == scanned_sources(scripts@),
            r.metas_view() == scanned_metas(scripts@),
            r.active_id() == 0,
    {
        let mut e = SourceEngine { sources: Vec::new(), metas: Vec::new(), active: 0 };
        e.scan_sources(scripts);
        e
    }

    /// The declaration of the source with `id`.
    pub fn meta_of(&self, id: usize) -> (r: Option<SourceMeta>)
        ensures
            match if id < self.metas_view().len() {
                self.metas_view()[id as int]
            } else {
                None
            } {
                Some(m) => r matches Some(x) && x@ == m,
                None => r is None,
            },
    {
        if id < self.metas.len() {
            match &self.metas[id] {
                Some(m) => Some(m.copied()),
                None => None,
            }
        } else {
            None
        }
    }

    /// The ids whose web service is asked for hot words (see `hot_ids`).
    pub fn hot_word_source_ids(&self) -> (r: Vec<usize>)
        ensures
            r@ == hot_ids(self.metas_view(), self.metas_view().len() as int),
    {
        hot_word_sources(&self.metas)
    }

    /// The ids of the native Kuwo engine (see `kuwo_ids`).
    pub fn kuwo_engine_source_ids(&self) -> (r: Vec<usize>)
        ensures
            r@ == kuwo_ids(self.metas_view(), self.metas_view().len() as int),
    {
        kuwo_engine_sources(&self.metas)
    }

    /// The sources whose charts and playlists are gathered (see
    /// `chart_enabled`).
    pub fn chart_plan(&self) -> (r: Vec<SourceInfo>)
        ensures
            source_views(r@) == chart_enabled(self.sources_view(), self.metas_view()),
    {
        plan_charts(&self.sources, &self.metas)
    }

    /// The order in which a search asks the sources (see `plan_search`).
    pub fn search_plan(&self) -> (r: SearchPlan)
        ensures
            source_views(r.priority@) == priority_sources(self.sources_view(), self.metas_view()),
            round_views(r.rounds@) == chunks(
                remaining_sources(self.sources_view(), self.metas_view()),
                MAX_SEARCH_CONCURRENT as nat,
            ),
    {
        plan_search(&self.sources, &self.metas)
    }

    /// The sources a further search asks (see `plan_more`).
    pub fn more_plan(&self) -> (r: Vec<SourceInfo>)
        ensures
            source_views(r@) == native_enabled(self.sources_view(), self.metas_view()),
    {
        plan_more(&self.sources, &self.metas)
    }
}

} // verus!
