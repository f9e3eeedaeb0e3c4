//! The extraction orchestrator.
//!
//! One run advances through levels: scan a root for archives, dispatch
//! the discovered batch for extraction, then — while the depth budget
//! remains — re-scan the output root for archives that the extractions
//! uncovered, skipping every source path already processed.  The walk
//! and the byte-level extraction are external collaborators: a driver
//! performs them and feeds their results back through [`Session`],
//! which holds every decision of the run and is verified against the
//! transition functions below.

use vstd::prelude::*;

use crate::data::{EntryView, FileEntry, JobView, NoWalkList, StatusView, UnpackJob, UnpackStatus};
use crate::ignores::{all_valid, spec_pruned};
use crate::kinds::{classify_spec, ArchiveKind};
use crate::paths::{
    spec_apply_template, spec_file_name, spec_has_file_name, spec_join, spec_parent,
    spec_strip_prefix, apply_template, join_path, split_file_by_name, strip_prefix,
};

verus! {

/// The immutable configuration of one orchestration run.
#[derive(Debug, Clone, PartialEq)]
pub struct DeepWalk {
    /// Root folder of the initial scan.
    pub folder: String,
    /// Base of all extraction targets, re-scanned at deeper levels.
    pub unpack_folder: String,
    /// Patterns that exclude files and directories from every scan.
    pub no_walk: NoWalkList,
    /// Number of discovery/extraction cycles; 1 means extract the
    /// discovered archives only and do not re-scan the output.
    pub unpack_level: u32,
    /// Destination-naming template; each `{FILENAME}` in it is replaced
    /// by the archive's bare file name.
    pub extract_template: String,
}

#[verifier::ext_equal]
pub ghost struct ConfigView {
    pub folder: Seq<char>,
    pub unpack_folder: Seq<char>,
    pub patterns: Seq<Seq<char>>,
    pub unpack_level: u32,
    pub extract_template: Seq<char>,
}

impl View for DeepWalk {
    type V = ConfigView;

    open spec fn view(&self) -> ConfigView {
        ConfigView {
            folder: self.folder@,
            unpack_folder: self.unpack_folder@,
            patterns: self.no_walk.patterns(),
            unpack_level: self.unpack_level,
            extract_template: self.extract_template@,
        }
    }
}

impl DeepWalk {
    /// A builder holding the default configuration.
    pub fn new() -> (r: DeepWalkBuilder)
        ensures
            r@.folder == "."@,
            r@.unpack_folder == "deep_unpack"@,
            r@.patterns == default_patterns(),
            r@.unpack_level == 1u32,
            r@.extract_template == "__${FILENAME}$__"@,
    {
        DeepWalkBuilder {
            folder: String::from_str("."),
            unpack_folder: String::from_str("deep_unpack"),
            no_walk: default_no_walk_list(),
            unpack_level: 1,
            extract_template: String::from_str("__${FILENAME}$__"),
        }
    }
}

/// The built-in ignore patterns: common version-control, metadata and
/// build-output directories.
pub open spec fn default_patterns() -> Seq<Seq<char>> {
    seq!["\\.git$"@, "\\.hg$"@, "\\.svn$"@, "\\.DS_Store$"@, "node_modules$"@, "target$"@]
}

/// The built-in ignore list.
pub fn default_no_walk_list() -> (r: NoWalkList)
    ensures
        r.patterns() == default_patterns(),
{
    let mut ignores: Vec<String> = Vec::new();
    ignores.push(String::from_str("\\.git$"));
    ignores.push(String::from_str("\\.hg$"));
    ignores.push(String::from_str("\\.svn$"));
    ignores.push(String::from_str("\\.DS_Store$"));
    ignores.push(String::from_str("node_modules$"));
    ignores.push(String::from_str("target$"));
    proof {
        assert(ignores.deep_view() =~~= default_patterns());
    }
    NoWalkList { ignores }
}

/// Builder for [`DeepWalk`]: every knob starts at its default and each
/// setter replaces one of them.
#[derive(Debug, Clone, PartialEq)]
pub struct DeepWalkBuilder {
    pub folder: String,
    pub unpack_folder: String,
    pub no_walk: NoWalkList,
    pub unpack_level: u32,
    pub extract_template: String,
}

impl View for DeepWalkBuilder {
    type V = ConfigView;

    open spec fn view(&self) -> ConfigView {
        ConfigView {
            folder: self.folder@,
            unpack_folder: self.unpack_folder@,
            patterns: self.no_walk.patterns(),
            unpack_level: self.unpack_level,
            extract_template: self.extract_template@,
        }
    }
}

impl DeepWalkBuilder {
    /// The ignore list a builder starts from.
    pub fn default_no_walk(&self) -> (r: NoWalkList)
        ensures
            r.patterns() == default_patterns(),
    {
        default_no_walk_list()
    }

    pub fn folder(self, v: &str) -> (r: Self)
        ensures
            r@ == (ConfigView { folder: v@, ..self@ }),
    {
        DeepWalkBuilder { folder: v.to_owned(), ..self }
    }

    pub fn unpack_folder(self, v: &str) -> (r: Self)
        ensures
            r@ == (ConfigView { unpack_folder: v@, ..self@ }),
    {
        DeepWalkBuilder { unpack_folder: v.to_owned(), ..self }
    }

    pub fn no_walk(self, v: NoWalkList) -> (r: Self)
        ensures
            r@ == (ConfigView { patterns: v.patterns(), ..self@ }),
    {
        DeepWalkBuilder { no_walk: v, ..self }
    }

    pub fn unpack_level(self, v: u32) -> (r: Self)
        ensures
            r@ == (ConfigView { unpack_level: v, ..self@ }),
    {
        DeepWalkBuilder { unpack_level: v, ..self }
    }

    pub fn extract_template(self, v: &str) -> (r: Self)
        ensures
            r@ == (ConfigView { extract_template: v@, ..self@ }),
    {
        DeepWalkBuilder { extract_template: v.to_owned(), ..self }
    }

    /// The finished configuration.
    pub fn build(&self) -> (r: DeepWalk)
        ensures
            r@ == self@,
    {
        DeepWalk {
            folder: self.folder.clone(),
            unpack_folder: self.unpack_folder.clone(),
            no_walk: NoWalkList { ignores: clone_strings(&self.no_walk.ignores) },
            unpack_level: self.unpack_level,
            extract_template: self.extract_template.clone(),
        }
    }
}

/// An element-wise copy of a list of strings.
fn clone_strings(v: &Vec<String>) -> (r: Vec<String>)
    ensures
        r.deep_view() == v.deep_view(),
{
    let mut r: Vec<String> = Vec::new();
    let mut i: usize = 0;
    while i < v.len()
        invariant
            i <= v.len(),
            r@.len() == i,
            forall|k: int| 0 <= k < i ==> r@[k]@ == v@[k]@,
        decreases v.len() - i,
    {
        let c = v[i].clone();
        r.push(c);
        i = i + 1;
    }
    proof {
        assert(r.deep_view() =~= v.deep_view());
    }
    r
}

/// The error surfaced before any scanning begins.
#[derive(Debug, Clone, Copy, PartialEq, Eq)]
pub enum ConfigError {
    /// Some ignore pattern is not a valid regular expression.
    InvalidIgnorePattern,
}

/// A view of an optional borrowed path.
pub open spec fn opt_view(o: Option<&str>) -> Option<Seq<char>> {
    match o {
        Some(s) => Some(s@),
        None => None,
    }
}

/// Where a discovered archive is unpacked.  With a scan root, the
/// archive's position relative to that root is mirrored under the
/// output root; a source that is not under the root falls back to the
/// output root itself.  The final directory name substitutes the bare
/// file name into the template; a path with no usable file name falls
/// back to the output root.
pub open spec fn spec_resolve_dest(
    src: Seq<char>,
    scan_root: Option<Seq<char>>,
    out_root: Seq<char>,
    template: Seq<char>,
) -> Seq<char> {
    let base = match scan_root {
        Some(r) => match spec_strip_prefix(src, r) {
            Some(rel) => spec_join(out_root, rel),
            None => out_root,
        },
        None => src,
    };
    if !spec_has_file_name(base) {
        out_root
    } else {
        spec_join(spec_parent(base), spec_apply_template(template, spec_file_name(base)))
    }
}

/// Computes the extraction target directory for one discovered archive.
pub fn resolve_dest(src: &str, scan_root: Option<&str>, out_root: &str, template: &str) -> (r:
    String)
    ensures
        r@ == spec_resolve_dest(src@, opt_view(scan_root), out_root@, template@),
{
    let base: String = match scan_root {
        Some(root) => match strip_prefix(src, root) {
            Some(rel) => join_path(out_root, rel.as_str()),
            None => out_root.to_owned(),
        },
        None => src.to_owned(),
    };
    match split_file_by_name(base.as_str()) {
        Ok((name, parent)) => {
            let sub = apply_template(template, name.as_str());
            join_path(parent.as_str(), sub.as_str())
        },
        Err(_) => out_root.to_owned(),
    }
}

/// The orchestrator's control state: scanning a root, dispatching a
/// batch, or finished.
#[derive(Debug, Copy, Clone, PartialEq, Eq, Structural)]
pub enum Phase {
    Scanning,
    Dispatching,
    Done,
}

#[verifier::ext_equal]
pub ghost struct SessionView {
    pub folder: Seq<char>,
    pub unpack_folder: Seq<char>,
    pub patterns: Seq<Seq<char>>,
    pub unpack_level: u32,
    pub extract_template: Seq<char>,
    pub level: u32,
    pub processed: Seq<Seq<char>>,
    pub pending: Seq<JobView>,
    pub outcomes: Seq<StatusView>,
    pub phase: Phase,
}

/// The root that the next scan walks: the configured folder at level 1,
/// the output root at every deeper level.
pub open spec fn cur_root(s: SessionView) -> Seq<char> {
    if s.level == 1 {
        s.folder
    } else {
        s.unpack_folder
    }
}

/// The scan root handed to destination resolution: present at level 1,
/// absent for re-scans of the output tree.
pub open spec fn scan_root_opt(s: SessionView) -> Option<Seq<char>> {
    if s.level == 1 {
        Some(s.folder)
    } else {
        None
    }
}

/// Whether a reported entry becomes a job: a regular file that the
/// registry classifies as an archive, that the ignore list does not
/// prune under the current root, and whose path was not processed yet.
pub open spec fn keep_entry(s: SessionView, processed: Seq<Seq<char>>, e: EntryView) -> bool {
    &&& !e.is_dir
    &&& classify_spec(e.path) is Some
    &&& !spec_pruned(cur_root(s).len() as int, s.patterns, e.path)
    &&& !processed.contains(e.path)
}

/// The job made of one kept entry.
pub open spec fn entry_job(s: SessionView, e: EntryView) -> JobView {
    JobView {
        archive_kind: classify_spec(e.path)->0,
        path: e.path,
        unpack_into: spec_resolve_dest(
            e.path,
            scan_root_opt(s),
            s.unpack_folder,
            s.extract_template,
        ),
    }
}

#[verifier::ext_equal]
pub ghost struct ScanOut {
    pub jobs: Seq<JobView>,
    pub processed: Seq<Seq<char>>,
}

/// One scan's selection, walked left to right: each kept entry becomes
/// a job and its path joins the processed set at once, so a duplicate
/// later in the same batch is dropped as well.
pub open spec fn scan_fold(s: SessionView, processed: Seq<Seq<char>>, entries: Seq<EntryView>)
    -> ScanOut
    decreases entries.len(),
{
    if entries.len() == 0 {
        ScanOut { jobs: Seq::<JobView>::empty(), processed }
    } else {
        let e = entries[0];
        if keep_entry(s, processed, e) {
            let rest = scan_fold(s, processed.push(e.path), entries.skip(1));
            ScanOut { jobs: seq![entry_job(s, e)] + rest.jobs, processed: rest.processed }
        } else {
            scan_fold(s, processed, entries.skip(1))
        }
    }
}

/// The scan transition: the kept entries become the pending batch; a
/// scan that keeps nothing ends the run.
pub open spec fn scan_tr(s: SessionView, entries: Seq<EntryView>) -> SessionView {
    let out = scan_fold(s, s.processed, entries);
    SessionView {
        processed: out.processed,
        pending: out.jobs,
        phase: if out.jobs.len() == 0 {
            Phase::Done
        } else {
            Phase::Dispatching
        },
        ..s
    }
}

/// The outcome recorded for one dispatched job: success keeps the
/// resolved destination, failure keeps the error message.
pub open spec fn spec_status_of(job: JobView, err: Option<Seq<char>>) -> StatusView {
    match err {
        None => StatusView { archive_file: job.path, extract_to: Some(job.unpack_into), err: None },
        Some(e) => StatusView { archive_file: job.path, extract_to: None, err: Some(e) },
    }
}

/// One outcome per job of the batch, in batch order.
pub open spec fn spec_statuses(jobs: Seq<JobView>, errs: Seq<Option<Seq<char>>>) -> Seq<
    StatusView,
> {
    Seq::new(
        jobs.len(),
        |i: int|
            spec_status_of(
                jobs[i],
                if 0 <= i < errs.len() {
                    errs[i]
                } else {
                    None
                },
            ),
    )
}

/// The dispatch transition: the batch's outcomes are appended, and the
/// run either advances to the next level's scan or ends when the depth
/// budget is spent.
pub open spec fn unpack_tr(s: SessionView, errs: Seq<Option<Seq<char>>>) -> SessionView {
    SessionView {
        outcomes: s.outcomes + spec_statuses(s.pending, errs),
        pending: Seq::<JobView>::empty(),
        level: if s.level >= s.unpack_level {
            s.level
        } else {
            (s.level + 1) as u32
        },
        phase: if s.level >= s.unpack_level {
            Phase::Done
        } else {
            Phase::Scanning
        },
        ..s
    }
}

/// The state a run starts in.
pub open spec fn init_view(c: ConfigView) -> SessionView {
    SessionView {
        folder: c.folder,
        unpack_folder: c.unpack_folder,
        patterns: c.patterns,
        unpack_level: c.unpack_level,
        extract_template: c.extract_template,
        level: 1,
        processed: Seq::<Seq<char>>::empty(),
        pending: Seq::<JobView>::empty(),
        outcomes: Seq::<StatusView>::empty(),
        phase: Phase::Scanning,
    }
}

/// The source paths of a job batch, in order.
pub open spec fn job_sources(jobs: Seq<JobView>) -> Seq<Seq<char>> {
    jobs.map_values(|j: JobView| j.path)
}

/// The source paths of an outcome list, in order.
pub open spec fn outcome_sources(os: Seq<StatusView>) -> Seq<Seq<char>> {
    os.map_values(|o: StatusView| o.archive_file)
}

/// No path occurs twice.
pub open spec fn distinct_paths(ps: Seq<Seq<char>>) -> bool {
    forall|a: int, b: int| 0 <= a < b < ps.len() ==> ps[a] != ps[b]
}

/// Well-formedness of a session: no source path occurs twice across the
/// outcomes and the pending batch, every such path is in the processed
/// set, and a batch is pending exactly while dispatching.
pub open spec fn wf(s: SessionView) -> bool {
    &&& distinct_paths(outcome_sources(s.outcomes) + job_sources(s.pending))
    &&& (forall|i: int|
        0 <= i < (outcome_sources(s.outcomes) + job_sources(s.pending)).len() ==> s.processed
            .contains((outcome_sources(s.outcomes) + job_sources(s.pending))[i]))
    &&& (s.phase != Phase::Dispatching ==> s.pending.len() == 0)
}

/// What one scan's selection guarantees of every job it keeps.
pub open spec fn job_ok(s: SessionView, j: JobView) -> bool {
    &&& classify_spec(j.path) == Some(j.archive_kind)
    &&& !spec_pruned(cur_root(s).len() as int, s.patterns, j.path)
    &&& j.unpack_into == spec_resolve_dest(
        j.path,
        scan_root_opt(s),
        s.unpack_folder,
        s.extract_template,
    )
}

pub proof fn lemma_scan_fold(s: SessionView, processed: Seq<Seq<char>>, entries: Seq<EntryView>)
    ensures
        scan_fold(s, processed, entries).processed == processed + job_sources(
            scan_fold(s, processed, entries).jobs,
        ),
        distinct_paths(job_sources(scan_fold(s, processed, entries).jobs)),
        forall|i: int|
            0 <= i < scan_fold(s, processed, entries).jobs.len() ==> !processed.contains(
                scan_fold(s, processed, entries).jobs[i].path,
            ),
        forall|i: int|
            0 <= i < scan_fold(s, processed, entries).jobs.len() ==> job_ok(
                s,
                scan_fold(s, processed, entries).jobs[i],
            ),
    decreases entries.len(),
{
    if entries.len() == 0 {
        assert(scan_fold(s, processed, entries).processed =~= processed + job_sources(
            Seq::<JobView>::empty(),
        ));
    } else {
        let e = entries[0];
        let out = scan_fold(s, processed, entries);
        if keep_entry(s, processed, e) {
            let rest = scan_fold(s, processed.push(e.path), entries.skip(1));
            lemma_scan_fold(s, processed.push(e.path), entries.skip(1));
            assert(job_sources(out.jobs) =~= seq![e.path] + job_sources(rest.jobs));
            assert(out.processed =~= processed + job_sources(out.jobs));
            assert forall|i: int| 0 <= i < out.jobs.len() implies !processed.contains(
                out.jobs[i].path,
            ) by {
                if i > 0 {
                    assert(out.jobs[i] == rest.jobs[i - 1]);
                    assert(!processed.push(e.path).contains(rest.jobs[i - 1].path));
                    assert forall|x: Seq<char>| processed.contains(x) implies processed.push(
                        e.path,
                    ).contains(x) by {
                        let w = choose|w: int| 0 <= w < processed.len() && processed[w] == x;
                        assert(processed.push(e.path)[w] == x);
                    }
                }
            }
            assert forall|a: int, b: int|
                0 <= a < b < job_sources(out.jobs).len() implies job_sources(out.jobs)[a]
                != job_sources(out.jobs)[b] by {
                if a == 0 {
                    assert(job_sources(out.jobs)[b] == rest.jobs[b - 1].path);
                    assert(!processed.push(e.path).contains(rest.jobs[b - 1].path));
                    assert(processed.push(e.path)[processed.len() as int] == e.path);
                }
            }
            assert forall|i: int| 0 <= i < out.jobs.len() implies job_ok(s, out.jobs[i]) by {
                if i == 0 {
                    assert(out.jobs[0] == entry_job(s, e));
                } else {
                    assert(out.jobs[i] == rest.jobs[i - 1]);
                }
            }
        } else {
            lemma_scan_fold(s, processed, entries.skip(1));
        }
    }
}

pub proof fn lemma_scan_tr_wf(s: SessionView, entries: Seq<EntryView>)
    requires
        wf(s),
        s.phase == Phase::Scanning,
    ensures
        wf(scan_tr(s, entries)),
{
    lemma_scan_fold(s, s.processed, entries);
    let out = scan_fold(s, s.processed, entries);
    let t = scan_tr(s, entries);
    assert(s.pending.len() == 0);
    assert(outcome_sources(s.outcomes) + job_sources(s.pending) =~= outcome_sources(s.outcomes));
    let all = outcome_sources(t.outcomes) + job_sources(t.pending);
    assert(t.outcomes == s.outcomes);
    assert forall|a: int, b: int| 0 <= a < b < all.len() implies all[a] != all[b] by {
        let no = outcome_sources(s.outcomes).len() as int;
        if a < no && no <= b {
            assert(all[a] == outcome_sources(s.outcomes)[a]);
            assert(all[b] == job_sources(out.jobs)[b - no]);
            assert(s.processed.contains(outcome_sources(s.outcomes)[a]));
            assert(!s.processed.contains(out.jobs[b - no].path));
        }
    }
    assert forall|i: int| 0 <= i < all.len() implies t.processed.contains(all[i]) by {
        let no = outcome_sources(s.outcomes).len() as int;
        assert(t.processed == s.processed + job_sources(out.jobs));
        if i < no {
            assert(s.processed.contains(all[i]));
            let w = choose|w: int| 0 <= w < s.processed.len() && s.processed[w] == all[i];
            assert(t.processed[w] == all[i]);
        } else {
            assert(all[i] == job_sources(out.jobs)[i - no]);
            assert(t.processed[s.processed.len() + i - no] == all[i]);
        }
    }
}

/// The processed-path set only grows: a scan appends the paths of the
/// batch it keeps and removes nothing, and a dispatch leaves the set as
/// it is.
pub proof fn lemma_processed_grows(s: SessionView, entries: Seq<EntryView>, errs: Seq<
    Option<Seq<char>>,
>)
    ensures
        scan_tr(s, entries).processed == s.processed + job_sources(
            scan_tr(s, entries).pending,
        ),
        unpack_tr(s, errs).processed == s.processed,
{
    lemma_scan_fold(s, s.processed, entries);
}

pub proof fn lemma_unpack_tr_wf(s: SessionView, errs: Seq<Option<Seq<char>>>)
    requires
        wf(s),
        s.phase == Phase::Dispatching,
    ensures
        wf(unpack_tr(s, errs)),
{
    let t = unpack_tr(s, errs);
    assert(outcome_sources(t.outcomes) =~= outcome_sources(s.outcomes) + job_sources(s.pending));
    assert(outcome_sources(t.outcomes) + job_sources(t.pending) =~= outcome_sources(s.outcomes)
        + job_sources(s.pending));
}

/// Whether the list holds the given string.
fn contains_string(v: &Vec<String>, x: &String) -> (r: bool)
    ensures
        r == v.deep_view().contains(x@),
{
    let n = v.len();
    let mut i: usize = 0;
    while i < n
        invariant
            i <= n,
            n == v.len(),
            forall|k: int| 0 <= k < i ==> v.deep_view()[k] != x@,
        decreases n - i,
    {
        if v[i].eq(x) {
            proof {
                assert(v.deep_view()[i as int] == x@);
            }
            return true;
        }
        i = i + 1;
    }
    false
}

/// One orchestration run in progress.  A driver performs the outside
/// work: while the phase is `Scanning` it walks [`Session::scan_root`]
/// and hands every entry to [`Session::on_scan`]; while the phase is
/// `Dispatching` it extracts each job of [`Session::pending_jobs`] into
/// the job's destination and hands the per-job error messages to
/// [`Session::on_unpacked`]; when the phase is `Done` the outcomes are
/// complete.
#[derive(Debug)]
pub struct Session {
    pub folder: String,
    pub unpack_folder: String,
    pub no_walk: NoWalkList,
    pub unpack_level: u32,
    pub extract_template: String,
    pub level: u32,
    pub processed: Vec<String>,
    pub pending: Vec<UnpackJob>,
    pub outcomes: Vec<UnpackStatus>,
    pub phase: Phase,
}

impl View for Session {
    type V = SessionView;

    open spec fn view(&self) -> SessionView {
        SessionView {
            folder: self.folder@,
            unpack_folder: self.unpack_folder@,
            patterns: self.no_walk.patterns(),
            unpack_level: self.unpack_level,
            extract_template: self.extract_template@,
            level: self.level,
            processed: self.processed.deep_view(),
            pending: self.pending.deep_view(),
            outcomes: self.outcomes.deep_view(),
            phase: self.phase,
        }
    }
}

impl Session {
    /// Starts a run from a configuration.  Fails, before any scanning,
    /// exactly when some ignore pattern is not a valid regular
    /// expression.
    pub fn new(config: DeepWalk) -> (r: Result<Session, ConfigError>)
        ensures
            (r is Ok) <==> all_valid(config@.patterns),
            (r is Err) ==> r == Err::<Session, ConfigError>(ConfigError::InvalidIgnorePattern),
            r is Ok ==> (r->Ok_0)@ == init_view(config@) && wf((r->Ok_0)@),
    {
        if !config.no_walk.all_patterns_valid() {
            return Err(ConfigError::InvalidIgnorePattern);
        }
        let s = Session {
            folder: config.folder,
            unpack_folder: config.unpack_folder,
            no_walk: config.no_walk,
            unpack_level: config.unpack_level,
            extract_template: config.extract_template,
            level: 1,
            processed: Vec::new(),
            pending: Vec::new(),
            outcomes: Vec::new(),
            phase: Phase::Scanning,
        };
        proof {
            assert(s@ =~= init_view(config@));
            assert(outcome_sources(s@.outcomes) + job_sources(s@.pending) =~= Seq::<
                Seq<char>,
            >::empty());
        }
        Ok(s)
    }

    /// The root the next scan is to walk.
    pub fn scan_root(&self) -> (r: &String)
        ensures
            r@ == cur_root(self@),
    {
        if self.level == 1 {
            &self.folder
        } else {
            &self.unpack_folder
        }
    }

    /// Whether the run is finished.
    pub fn is_done(&self) -> (r: bool)
        ensures
            r == (self@.phase == Phase::Done),
    {
        self.phase == Phase::Done
    }

    /// The batch awaiting extraction.
    pub fn pending_jobs(&self) -> (r: &Vec<UnpackJob>)
        ensures
            r.deep_view() == self@.pending,
    {
        &self.pending
    }

    /// The outcomes recorded so far, one per dispatched archive.
    pub fn outcomes(&self) -> (r: &Vec<UnpackStatus>)
        ensures
            r.deep_view() == self@.outcomes,
    {
        &self.outcomes
    }

    /// The finished run's outcome list, in dispatch order.
    pub fn into_outcomes(self) -> (r: Vec<UnpackStatus>)
        ensures
            r.deep_view() == self@.outcomes,
    {
        self.outcomes
    }

    /// Feeds one scan's entries into the run: kept entries become the
    /// pending batch and join the processed set; a scan that keeps
    /// nothing finishes the run.
    pub fn on_scan(&mut self, entries: &Vec<FileEntry>)
        requires
            wf(old(self)@),
            old(self)@.phase == Phase::Scanning,
        ensures
            final(self)@ == scan_tr(old(self)@, entries.deep_view()),
            wf(final(self)@),
    {
        let ghost s0 = old(self)@;
        let ghost es = entries.deep_view();
        let root = if self.level == 1 {
            self.folder.clone()
        } else {
            self.unpack_folder.clone()
        };
        let root_len = root.as_str().unicode_len();
        let level_one = self.level == 1;
        let n = entries.len();
        let mut jobs: Vec<UnpackJob> = Vec::new();
        let mut i: usize = 0;
        proof {
            assert(es.skip(0) =~= es);
            assert(jobs.deep_view() + scan_fold(s0, self.processed.deep_view(), es).jobs =~= scan_fold(
                s0,
                s0.processed,
                es,
            ).jobs);
        }
        while i < n
            invariant
                i <= n,
                n == entries@.len(),
                es == entries.deep_view(),
                root@ == cur_root(s0),
                root_len == root@.len(),
                level_one == (s0.level == 1),
                self.folder@ == s0.folder,
                self.unpack_folder@ == s0.unpack_folder,
                self.no_walk.patterns() == s0.patterns,
                self.unpack_level == s0.unpack_level,
                self.extract_template@ == s0.extract_template,
                self.level == s0.level,
                self.phase == s0.phase,
                self.outcomes.deep_view() == s0.outcomes,
                self.pending.deep_view() == s0.pending,
                scan_fold(s0, s0.processed, es).jobs == jobs.deep_view() + scan_fold(
                    s0,
                    self.processed.deep_view(),
                    es.skip(i as int),
                ).jobs,
                scan_fold(s0, s0.processed, es).processed == scan_fold(
                    s0,
                    self.processed.deep_view(),
                    es.skip(i as int),
                ).processed,
            decreases n - i,
        {
            let ghost procd = self.processed.deep_view();
            let ghost tail = es.skip(i as int);
            proof {
                assert(tail[0] == es[i as int]);
                assert(entries.deep_view()[i as int] == entries@[i as int].deep_view());
                assert(tail.skip(1) =~= es.skip(i as int + 1));
            }
            let e = &entries[i];
            let is_file_archive = !e.is_dir && matches!(
                ArchiveKind::for_path(e.path.as_str()),
                Some(_)
            );
            let keep = is_file_archive && !self.no_walk.prunes(root_len, e.path.as_str())
                && !contains_string(&self.processed, &e.path);
            proof {
                assert(keep == keep_entry(s0, procd, tail[0]));
            }
            if keep {
                let kind = match ArchiveKind::for_path(e.path.as_str()) {
                    Some(k) => k,
                    None => ArchiveKind::Zip,
                };
                let dest = if level_one {
                    resolve_dest(
                        e.path.as_str(),
                        Some(root.as_str()),
                        self.unpack_folder.as_str(),
                        self.extract_template.as_str(),
                    )
                } else {
                    resolve_dest(
                        e.path.as_str(),
                        None,
                        self.unpack_folder.as_str(),
                        self.extract_template.as_str(),
                    )
                };
                let ghost jobs0 = jobs.deep_view();
                let job = UnpackJob {
                    archive_kind: kind,
                    path: e.path.clone(),
                    unpack_into: dest,
                };
                proof {
                    assert(job@ =~= entry_job(s0, tail[0]));
                }
                jobs.push(job);
                self.processed.push(e.path.clone());
                proof {
                    assert(jobs.deep_view() =~= jobs0.push(entry_job(s0, tail[0])));
                    assert(self.processed.deep_view() =~= procd.push(tail[0].path));
                    let rest = scan_fold(s0, self.processed.deep_view(), es.skip(i as int + 1));
                    assert(scan_fold(s0, procd, tail).jobs =~= seq![entry_job(s0, tail[0])]
                        + rest.jobs);
                    assert(jobs0 + (seq![entry_job(s0, tail[0])] + rest.jobs) =~= jobs.deep_view()
                        + rest.jobs);
                }
            } else {
                proof {
                    assert(scan_fold(s0, procd, tail) == scan_fold(
                        s0,
                        procd,
                        es.skip(i as int + 1),
                    ));
                }
            }
            i = i + 1;
        }
        proof {
            assert(es.skip(n as int) =~= Seq::<EntryView>::empty());
            assert(jobs.deep_view() + Seq::<JobView>::empty() =~= jobs.deep_view());
        }
        if jobs.len() == 0 {
            self.phase = Phase::Done;
        } else {
            self.phase = Phase::Dispatching;
        }
        self.pending = jobs;
        proof {
            assert(self@ =~= scan_tr(s0, es));
            lemma_scan_tr_wf(s0, es);
        }
    }

    /// Feeds one batch's extraction results back into the run, one
    /// optional error message per pending job, in batch order: each job
    /// gains its outcome, and the run advances to the next level's scan
    /// or ends when the depth budget is spent.
    pub fn on_unpacked(&mut self, errs: &Vec<Option<String>>)
        requires
            wf(old(self)@),
            old(self)@.phase == Phase::Dispatching,
            errs@.len() == old(self)@.pending.len(),
        ensures
            final(self)@ == unpack_tr(old(self)@, errs.deep_view()),
            wf(final(self)@),
    {
        let ghost s0 = old(self)@;
        let ghost evs = errs.deep_view();
        let ghost target = spec_statuses(s0.pending, evs);
        let n = self.pending.len();
        let mut i: usize = 0;
        proof {
            assert(s0.outcomes + target.take(0) =~= s0.outcomes);
        }
        while i < n
            invariant
                i <= n,
                n == self.pending.len(),
                evs == errs.deep_view(),
                evs.len() == n,
                target == spec_statuses(s0.pending, evs),
                self.folder@ == s0.folder,
                self.unpack_folder@ == s0.unpack_folder,
                self.no_walk.patterns() == s0.patterns,
                self.unpack_level == s0.unpack_level,
                self.extract_template@ == s0.extract_template,
                self.level == s0.level,
                self.phase == s0.phase,
                self.processed.deep_view() == s0.processed,
                self.pending.deep_view() == s0.pending,
                self.outcomes.deep_view() == s0.outcomes + target.take(i as int),
            decreases n - i,
        {
            let ghost out0 = self.outcomes.deep_view();
            let job = &self.pending[i];
            let st = match &errs[i] {
                None => UnpackStatus {
                    archive_file: job.path.clone(),
                    extract_to: Some(job.unpack_into.clone()),
                    err: None,
                },
                Some(e) => UnpackStatus {
                    archive_file: job.path.clone(),
                    extract_to: None,
                    err: Some(e.clone()),
                },
            };
            proof {
                assert(errs.deep_view()[i as int] == errs@[i as int].deep_view());
                assert(st@ =~= target[i as int]);
            }
            self.outcomes.push(st);
            proof {
                assert(self.outcomes.deep_view() =~= out0.push(target[i as int]));
                assert(out0.push(target[i as int]) =~= s0.outcomes + target.take(i as int + 1));
            }
            i = i + 1;
        }
        proof {
            assert(target.take(n as int) =~= target);
        }
        self.pending = Vec::new();
        if self.level >= self.unpack_level {
            self.phase = Phase::Done;
        } else {
            self.level = self.level + 1;
            self.phase = Phase::Scanning;
        }
        proof {
            assert(self@ =~= unpack_tr(s0, evs));
            lemma_unpack_tr_wf(s0, evs);
        }
    }
}

} // verus!
