//! Laws of a whole orchestration run.
//!
//! A driver performs the outside work level by level: it walks the
//! current root and feeds the entries in, then extracts the kept batch
//! and feeds the per-job results back.  [`run`] folds the session's
//! transition functions over such a feed, so everything proved of it
//! holds of any driver that follows the protocol, whatever its walks
//! and extractions report.

use vstd::prelude::*;

use crate::data::{EntryView, StatusView};
use crate::ignores::{is_boundary, list_matches, spec_pruned};
use crate::kinds::classify_spec;
use crate::unpack::{
    cur_root, distinct_paths, init_view, job_ok, job_sources, keep_entry, lemma_scan_fold,
    lemma_scan_tr_wf, lemma_unpack_tr_wf, outcome_sources, scan_fold, scan_tr, spec_statuses,
    unpack_tr, wf, ConfigView, Phase, SessionView,
};

verus! {

/// What a driver feeds the session in one level: the entries its walk
/// reported, then — where a batch was kept — one optional error per
/// job of the batch.
#[verifier::ext_equal]
pub ghost struct LevelFeed {
    pub entries: Seq<EntryView>,
    pub errs: Seq<Option<Seq<char>>>,
}

/// One level of the driver protocol: a scan, then the dispatch of the
/// kept batch if there is one.
pub open spec fn step_level(s: SessionView, f: LevelFeed) -> SessionView {
    let s1 = scan_tr(s, f.entries);
    if s1.phase == Phase::Dispatching {
        unpack_tr(s1, f.errs)
    } else {
        s1
    }
}

/// A whole driven run: levels are fed while the session still scans.
pub open spec fn run(s: SessionView, feed: Seq<LevelFeed>) -> SessionView
    decreases feed.len(),
{
    if feed.len() == 0 || s.phase != Phase::Scanning {
        s
    } else {
        run(step_level(s, feed[0]), feed.skip(1))
    }
}

proof fn lemma_scan_fold_no_archives(
    s: SessionView,
    processed: Seq<Seq<char>>,
    entries: Seq<EntryView>,
)
    requires
        forall|i: int|
            0 <= i < entries.len() ==> (entries[i].is_dir || classify_spec(entries[i].path)
                is None),
    ensures
        scan_fold(s, processed, entries).jobs.len() == 0,
    decreases entries.len(),
{
    if entries.len() > 0 {
        assert(!keep_entry(s, processed, entries[0]));
        assert(forall|i: int|
            0 <= i < entries.skip(1).len() ==> (entries.skip(1)[i].is_dir || classify_spec(
                entries.skip(1)[i].path,
            ) is None));
        lemma_scan_fold_no_archives(s, processed, entries.skip(1));
    }
}

/// A run over a tree with no archives produces nothing: when every
/// entry of the first scan is a directory or no archive, the run ends
/// at once with an empty outcome list, whatever the depth budget and
/// whatever the rest of the feed holds.
pub proof fn lemma_no_archives_empty(c: ConfigView, feed: Seq<LevelFeed>)
    ensures
        (forall|i: int|
            feed.len() > 0 ==> 0 <= i < feed[0].entries.len() ==> (feed[0].entries[i].is_dir
                || classify_spec(feed[0].entries[i].path) is None)) ==> run(
            init_view(c),
            feed,
        ).outcomes.len() == 0,
{
    let s0 = init_view(c);
    if forall|i: int|
        feed.len() > 0 ==> 0 <= i < feed[0].entries.len() ==> (feed[0].entries[i].is_dir
            || classify_spec(feed[0].entries[i].path) is None) {
        if feed.len() > 0 {
            lemma_scan_fold_no_archives(s0, s0.processed, feed[0].entries);
            let s1 = scan_tr(s0, feed[0].entries);
            assert(s1.phase == Phase::Done);
            assert(run(s1, feed.skip(1)) == s1);
        }
    }
}

proof fn lemma_run_wf(s: SessionView, feed: Seq<LevelFeed>)
    requires
        wf(s),
    ensures
        wf(run(s, feed)),
    decreases feed.len(),
{
    if feed.len() == 0 || s.phase != Phase::Scanning {
    } else {
        let s1 = scan_tr(s, feed[0].entries);
        lemma_scan_tr_wf(s, feed[0].entries);
        if s1.phase == Phase::Dispatching {
            lemma_unpack_tr_wf(s1, feed[0].errs);
            lemma_run_wf(unpack_tr(s1, feed[0].errs), feed.skip(1));
        } else {
            lemma_run_wf(s1, feed.skip(1));
        }
    }
}

proof fn lemma_init_wf(c: ConfigView)
    ensures
        wf(init_view(c)),
{
    let s = init_view(c);
    assert(outcome_sources(s.outcomes) + job_sources(s.pending) =~= Seq::<Seq<char>>::empty());
}

/// No archive source path appears more than once across the outcome
/// list of one run, whatever the driver's walks and extractions report
/// and however deep the run goes.
pub proof fn lemma_outcomes_distinct(c: ConfigView, feed: Seq<LevelFeed>)
    ensures
        distinct_paths(outcome_sources(run(init_view(c), feed).outcomes)),
{
    lemma_init_wf(c);
    lemma_run_wf(init_view(c), feed);
    let t = run(init_view(c), feed);
    let all = outcome_sources(t.outcomes) + job_sources(t.pending);
    assert forall|a: int, b: int|
        0 <= a < b < outcome_sources(t.outcomes).len() implies outcome_sources(t.outcomes)[a]
        != outcome_sources(t.outcomes)[b] by {
        assert(all[a] == outcome_sources(t.outcomes)[a]);
        assert(all[b] == outcome_sources(t.outcomes)[b]);
    }
}

/// Equal in every field but the depth budget.
pub open spec fn eq_except_budget(s1: SessionView, s2: SessionView) -> bool {
    &&& s1.folder == s2.folder
    &&& s1.unpack_folder == s2.unpack_folder
    &&& s1.patterns == s2.patterns
    &&& s1.extract_template == s2.extract_template
    &&& s1.level == s2.level
    &&& s1.processed == s2.processed
    &&& s1.pending == s2.pending
    &&& s1.outcomes == s2.outcomes
    &&& s1.phase == s2.phase
}

/// The run from `s` on `feed` never ends through its depth budget: at
/// every dispatched level the budget still has room, so the run either
/// ends by a scan that keeps nothing or exhausts the feed.
pub open spec fn no_budget_stop(s: SessionView, feed: Seq<LevelFeed>) -> bool
    decreases feed.len(),
{
    if feed.len() == 0 || s.phase != Phase::Scanning {
        true
    } else {
        let s1 = scan_tr(s, feed[0].entries);
        if s1.phase == Phase::Dispatching {
            s1.level < s1.unpack_level && no_budget_stop(unpack_tr(s1, feed[0].errs), feed.skip(1))
        } else {
            no_budget_stop(s1, feed.skip(1))
        }
    }
}

proof fn lemma_scan_fold_budget(
    s1: SessionView,
    s2: SessionView,
    processed: Seq<Seq<char>>,
    entries: Seq<EntryView>,
)
    requires
        eq_except_budget(s1, s2),
    ensures
        scan_fold(s1, processed, entries) == scan_fold(s2, processed, entries),
    decreases entries.len(),
{
    if entries.len() > 0 {
        let e = entries[0];
        assert(keep_entry(s1, processed, e) == keep_entry(s2, processed, e));
        if keep_entry(s1, processed, e) {
            lemma_scan_fold_budget(s1, s2, processed.push(e.path), entries.skip(1));
        } else {
            lemma_scan_fold_budget(s1, s2, processed, entries.skip(1));
        }
    }
}

/// Monotonic termination: when a run stops before its depth budget
/// bites — its last scan keeps nothing, or the feed ends first — then
/// the same feed under any larger budget yields the identical outcome
/// list: the extra budget is a no-op.
pub proof fn lemma_budget_noop(s1: SessionView, s2: SessionView, feed: Seq<LevelFeed>)
    ensures
        (eq_except_budget(s1, s2) && s1.unpack_level <= s2.unpack_level && no_budget_stop(
            s1,
            feed,
        )) ==> run(s1, feed).outcomes == run(s2, feed).outcomes,
    decreases feed.len(),
{
    if eq_except_budget(s1, s2) && s1.unpack_level <= s2.unpack_level && no_budget_stop(s1, feed) {
        if feed.len() == 0 || s1.phase != Phase::Scanning {
        } else {
            lemma_scan_fold_budget(s1, s2, s1.processed, feed[0].entries);
            let t1 = scan_tr(s1, feed[0].entries);
            let t2 = scan_tr(s2, feed[0].entries);
            assert(eq_except_budget(t1, t2));
            if t1.phase == Phase::Dispatching {
                let u1 = unpack_tr(t1, feed[0].errs);
                let u2 = unpack_tr(t2, feed[0].errs);
                assert(t1.level < t1.unpack_level);
                assert(t2.level < t2.unpack_level);
                assert(eq_except_budget(u1, u2));
                lemma_budget_noop(u1, u2, feed.skip(1));
            } else {
                lemma_budget_noop(t1, t2, feed.skip(1));
            }
        }
    }
}

/// A path none of whose component prefixes below both roots matches
/// the ignore list.
pub open spec fn clear_of_ignores(s: SessionView, t: Seq<char>) -> bool {
    forall|m: int|
        is_boundary(t, m) && m > s.folder.len() && m > s.unpack_folder.len() ==> !list_matches(
            s.patterns,
            t.take(m),
        )
}

/// Every recorded or pending source path is clear of the ignore list.
pub open spec fn ignores_respected(s: SessionView) -> bool {
    &&& (forall|i: int|
        0 <= i < s.outcomes.len() ==> clear_of_ignores(s, s.outcomes[i].archive_file))
    &&& (forall|i: int| 0 <= i < s.pending.len() ==> clear_of_ignores(s, s.pending[i].path))
}

proof fn lemma_scan_tr_ignores(s: SessionView, entries: Seq<EntryView>)
    requires
        ignores_respected(s),
    ensures
        ignores_respected(scan_tr(s, entries)),
{
    lemma_scan_fold(s, s.processed, entries);
    let t = scan_tr(s, entries);
    assert forall|i: int| 0 <= i < t.pending.len() implies clear_of_ignores(
        t,
        t.pending[i].path,
    ) by {
        assert(job_ok(s, t.pending[i]));
        let p = t.pending[i].path;
        assert forall|m: int|
            is_boundary(p, m) && m > t.folder.len() && m > t.unpack_folder.len()
            implies !list_matches(t.patterns, p.take(m)) by {
            assert(m > cur_root(s).len());
            assert(!spec_pruned(cur_root(s).len() as int, s.patterns, p));
        }
    }
    assert forall|i: int| 0 <= i < t.outcomes.len() implies clear_of_ignores(
        t,
        t.outcomes[i].archive_file,
    ) by {
        assert(clear_of_ignores(s, s.outcomes[i].archive_file));
    }
}

proof fn lemma_unpack_tr_ignores(s: SessionView, errs: Seq<Option<Seq<char>>>)
    requires
        ignores_respected(s),
    ensures
        ignores_respected(unpack_tr(s, errs)),
{
    let t = unpack_tr(s, errs);
    assert forall|i: int| 0 <= i < t.outcomes.len() implies clear_of_ignores(
        t,
        t.outcomes[i].archive_file,
    ) by {
        if i < s.outcomes.len() {
            assert(t.outcomes[i] == s.outcomes[i]);
            assert(clear_of_ignores(s, s.outcomes[i].archive_file));
        } else {
            let k = i - s.outcomes.len();
            assert(t.outcomes[i] == spec_statuses(s.pending, errs)[k]);
            assert(t.outcomes[i].archive_file == s.pending[k].path);
            assert(clear_of_ignores(s, s.pending[k].path));
        }
    }
}

proof fn lemma_run_ignores(s: SessionView, feed: Seq<LevelFeed>)
    requires
        ignores_respected(s),
    ensures
        ignores_respected(run(s, feed)),
    decreases feed.len(),
{
    if feed.len() == 0 || s.phase != Phase::Scanning {
    } else {
        let s1 = scan_tr(s, feed[0].entries);
        lemma_scan_tr_ignores(s, feed[0].entries);
        if s1.phase == Phase::Dispatching {
            lemma_unpack_tr_ignores(s1, feed[0].errs);
            lemma_run_ignores(unpack_tr(s1, feed[0].errs), feed.skip(1));
        } else {
            lemma_run_ignores(s1, feed.skip(1));
        }
    }
}

/// Ignore-list effectiveness: a source path with a component prefix
/// below both roots that the ignore list matches never appears in any
/// outcome of a run, whatever the depth.
pub proof fn lemma_ignores_effective(c: ConfigView, feed: Seq<LevelFeed>, i: int, m: int)
    ensures
        (0 <= i < run(init_view(c), feed).outcomes.len() && is_boundary(
            run(init_view(c), feed).outcomes[i].archive_file,
            m,
        ) && m > c.folder.len() && m > c.unpack_folder.len()) ==> !list_matches(
            c.patterns,
            run(init_view(c), feed).outcomes[i].archive_file.take(m),
        ),
{
    let s0 = init_view(c);
    lemma_run_ignores(s0, feed);
    lemma_run_config(s0, feed);
}

proof fn lemma_run_config(s: SessionView, feed: Seq<LevelFeed>)
    ensures
        run(s, feed).folder == s.folder,
        run(s, feed).unpack_folder == s.unpack_folder,
        run(s, feed).patterns == s.patterns,
        run(s, feed).unpack_level == s.unpack_level,
        run(s, feed).extract_template == s.extract_template,
    decreases feed.len(),
{
    if feed.len() == 0 || s.phase != Phase::Scanning {
    } else {
        lemma_run_config(step_level(s, feed[0]), feed.skip(1));
    }
}

} // verus!
