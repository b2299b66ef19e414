//! The decisions of one synchronisation run. The caller performs the outside
//! work that an action names (archiving a link, deleting a bookmark) and
//! reports its outcome back; the run decides what comes next.
use vstd::prelude::*;
use crate::bookmark::{Bookmark, normalize_url, unquoted};

verus! {

/// The switches of one run.
pub struct RunConfig {
    /// Program that archives a link; it is started as `<command> -i <url>`.
    pub command: String,
    /// Directory the archiver runs in; `None` stands for the current one.
    pub output_dir: Option<String>,
    /// Whether each bookmark's link is archived.
    pub do_download: bool,
    /// Whether a bookmark is deleted once archived (or, without archiving, at once).
    pub do_remove_bookmark: bool,
}

/// What the run waits for.
#[derive(PartialEq, Eq, Structural, Clone, Copy, Debug)]
pub enum Phase {
    /// Nothing: the next action may be asked for.
    Ready,
    /// The outcome of archiving the current bookmark's link.
    Archiving,
    /// The outcome of deleting the current bookmark.
    Deleting,
}

/// What a run has done so far, counted by outcome.
#[derive(PartialEq, Eq, Structural, Clone, Copy, Debug)]
pub struct RunReport {
    /// Links archived successfully.
    pub archived: usize,
    /// Links whose archiving failed.
    pub archive_failed: usize,
    /// Bookmarks deleted.
    pub deleted: usize,
    /// Bookmarks whose deletion the service refused.
    pub delete_failed: usize,
    /// Bookmarks left in place.
    pub kept: usize,
}

/// The outside work that the run asks for next.
#[derive(Debug)]
pub enum Action {
    /// Archive this link of the current bookmark.
    Archive { url: String },
    /// Delete the bookmark with this id.
    Delete { id: u64, url: String },
    /// Leave the current bookmark in place; nothing to do but report it.
    Keep { url: String },
    /// Every bookmark has been dealt with.
    Finished,
}

/// Whether a bookmark is deleted, given the switches and whether archiving it
/// succeeded (a skipped archive counts as a success).
pub open spec fn should_delete(do_download: bool, do_remove: bool, archived: bool) -> bool {
    do_remove && (archived || !do_download)
}

/// The positions of the bookmarks deleted in a run, in order, given the
/// archive outcome of each bookmark decided so far.
pub open spec fn deleted_positions(do_download: bool, do_remove: bool, outcomes: Seq<bool>) -> Seq<
    int,
>
    decreases outcomes.len(),
{
    if outcomes.len() == 0 {
        Seq::empty()
    } else {
        let prev = deleted_positions(do_download, do_remove, outcomes.drop_last());
        if should_delete(do_download, do_remove, outcomes.last()) {
            prev.push(outcomes.len() - 1)
        } else {
            prev
        }
    }
}

/// The positions that a run deletes are exactly those of the bookmarks decided
/// so far whose outcome calls for deletion, each once, in increasing order.
pub proof fn lemma_deleted_positions_members(do_download: bool, do_remove: bool, outcomes: Seq<bool>)
    ensures
        forall|k: int|
            deleted_positions(do_download, do_remove, outcomes).contains(k) <==> 0 <= k
                < outcomes.len() && should_delete(do_download, do_remove, outcomes[k]),
        forall|a: int, b: int|
            0 <= a < b < deleted_positions(do_download, do_remove, outcomes).len() ==> deleted_positions(
                do_download,
                do_remove,
                outcomes,
            )[a] < deleted_positions(do_download, do_remove, outcomes)[b],
    decreases outcomes.len(),
{
    if outcomes.len() > 0 {
        let prev = outcomes.drop_last();
        lemma_deleted_positions_members(do_download, do_remove, prev);
        let p = deleted_positions(do_download, do_remove, prev);
        let d = deleted_positions(do_download, do_remove, outcomes);
        assert forall|k: int| d.contains(k) <==> 0 <= k < outcomes.len() && should_delete(
            do_download,
            do_remove,
            outcomes[k],
        ) by {
            if d.contains(k) && k != outcomes.len() - 1 {
                if should_delete(do_download, do_remove, outcomes.last()) {
                    let j = choose|j: int| 0 <= j < d.len() && d[j] == k;
                    assert(p[j] == k);
                }
                assert(p.contains(k));
            }
            if 0 <= k < outcomes.len() - 1 && should_delete(do_download, do_remove, outcomes[k]) {
                assert(prev[k] == outcomes[k]);
                assert(p.contains(k));
                let j = choose|j: int| 0 <= j < p.len() && p[j] == k;
                assert(d[j] == k);
            }
            if k == outcomes.len() - 1 && should_delete(do_download, do_remove, outcomes[k]) {
                assert(d[d.len() - 1] == k);
            }
        }
        assert forall|a: int, b: int| 0 <= a < b < d.len() implies d[a] < d[b] by {
            if b == p.len() {
                assert(p.contains(p[a]));
            }
        }
    }
}

/// With deletion switched off no bookmark is ever deleted, whatever the
/// archive outcomes.
pub proof fn lemma_dry_run_deletes_nothing(do_download: bool, outcomes: Seq<bool>)
    ensures
        deleted_positions(do_download, false, outcomes) == Seq::<int>::empty(),
{
    lemma_deleted_positions_members(do_download, false, outcomes);
    let d = deleted_positions(do_download, false, outcomes);
    if d.len() > 0 {
        assert(d.contains(d[0]));
    }
    assert(d =~= Seq::<int>::empty());
}

/// With archiving switched off and deletion on, every bookmark decided is
/// deleted, once each, in the order of the list.
pub proof fn lemma_delete_only_run_deletes_all(outcomes: Seq<bool>)
    ensures
        deleted_positions(false, true, outcomes) == Seq::new(outcomes.len(), |i: int| i),
    decreases outcomes.len(),
{
    if outcomes.len() > 0 {
        lemma_delete_only_run_deletes_all(outcomes.drop_last());
        assert(deleted_positions(false, true, outcomes) =~= Seq::new(outcomes.len(), |i: int| i));
    } else {
        assert(deleted_positions(false, true, outcomes) =~= Seq::new(outcomes.len(), |i: int| i));
    }
}

/// With archiving switched on, a bookmark whose archive failed is never
/// deleted, whatever happens to the others.
pub proof fn lemma_failed_archive_never_deleted(do_remove: bool, outcomes: Seq<bool>, i: int)
    requires
        0 <= i < outcomes.len(),
        !outcomes[i],
    ensures
        !deleted_positions(true, do_remove, outcomes).contains(i),
{
    lemma_deleted_positions_members(true, do_remove, outcomes);
}

/// The state of a run as a mathematical value.
pub struct RunView {
    pub do_download: bool,
    pub do_remove: bool,
    pub bookmarks: Seq<Bookmark>,
    /// Position of the bookmark being dealt with, or of the next one.
    pub next: nat,
    pub phase: Phase,
    /// The archive outcome of each bookmark whose fate is decided, by position.
    pub outcomes: Seq<bool>,
    /// The positions of the bookmarks whose deletion was asked for, in order.
    pub deletes: Seq<int>,
    pub report: RunReport,
}

impl RunView {
    /// The state is one that a run reaches: the counts and the record of
    /// outcomes and deletions agree with the position reached.
    pub open spec fn well_formed(self) -> bool {
        &&& self.report.deleted + self.report.delete_failed + self.report.kept == self.next
        &&& self.report.archived + self.report.archive_failed <= self.outcomes.len()
        &&& self.next <= self.bookmarks.len()
        &&& self.phase != Phase::Deleting ==> self.outcomes.len() == self.next
        &&& self.phase == Phase::Archiving ==> self.next < self.bookmarks.len() && self.do_download
        &&& self.phase == Phase::Deleting ==> {
            &&& self.next < self.bookmarks.len()
            &&& self.outcomes.len() == self.next + 1
            &&& should_delete(self.do_download, self.do_remove, self.outcomes.last())
        }
        &&& self.deletes == deleted_positions(self.do_download, self.do_remove, self.outcomes)
    }

    /// The link of the bookmark at `next`, as it is used.
    pub open spec fn current_url(self) -> Seq<char> {
        unquoted(self.bookmarks[self.next as int].url@)
    }
}

/// One run over the bookmarks that matched a query.
pub struct SyncRun {
    config: RunConfig,
    bookmarks: Vec<Bookmark>,
    next: usize,
    phase: Phase,
    report: RunReport,
    outcomes: Ghost<Seq<bool>>,
    deletes: Ghost<Seq<int>>,
}

impl View for SyncRun {
    type V = RunView;

    closed spec fn view(&self) -> RunView {
        RunView {
            do_download: self.config.do_download,
            do_remove: self.config.do_remove_bookmark,
            bookmarks: self.bookmarks@,
            next: self.next as nat,
            phase: self.phase,
            outcomes: self.outcomes@,
            deletes: self.deletes@,
            report: self.report,
        }
    }
}

impl SyncRun {
    /// Starts a run over `bookmarks`, in the order given.
    pub fn new(config: RunConfig, bookmarks: Vec<Bookmark>) -> (r: SyncRun)
        ensures
            r@.well_formed(),
            r@.do_download == config.do_download,
            r@.do_remove == config.do_remove_bookmark,
            r@.bookmarks == bookmarks@,
            r@.next == 0,
            r@.phase == Phase::Ready,
            r@.outcomes.len() == 0,
            r@.report == (RunReport {
                archived: 0,
                archive_failed: 0,
                deleted: 0,
                delete_failed: 0,
                kept: 0,
            }),
    {
        SyncRun {
            config,
            bookmarks,
            next: 0,
            phase: Phase::Ready,
            report: RunReport { archived: 0, archive_failed: 0, deleted: 0, delete_failed: 0, kept: 0 },
            outcomes: Ghost(Seq::empty()),
            deletes: Ghost(Seq::empty()),
        }
    }

    /// The program that archives a link.
    pub fn command(&self) -> &String {
        &self.config.command
    }

    /// The directory that the archiver runs in, where one was given.
    pub fn output_dir(&self) -> &Option<String> {
        &self.config.output_dir
    }

    /// What the run has done so far.
    pub fn report(&self) -> (r: RunReport)
        ensures
            r == self@.report,
    {
        self.report
    }

    /// What the run waits for.
    pub fn phase(&self) -> (r: Phase)
        ensures
            r == self@.phase,
    {
        self.phase
    }

    /// Records the archive outcome of the current bookmark and decides its fate.
    fn decide(&mut self, archived: bool) -> (r: Action)
        requires
            old(self)@.well_formed(),
            old(self)@.phase != Phase::Deleting,
            old(self)@.next < old(self)@.bookmarks.len(),
        ensures
            final(self)@.well_formed(),
            final(self)@.bookmarks == old(self)@.bookmarks,
            final(self)@.do_download == old(self)@.do_download,
            final(self)@.do_remove == old(self)@.do_remove,
            final(self)@.outcomes == old(self)@.outcomes.push(archived),
            should_delete(old(self)@.do_download, old(self)@.do_remove, archived) ==> {
                &&& final(self)@.phase == Phase::Deleting
                &&& final(self)@.next == old(self)@.next
                &&& final(self)@.report == old(self)@.report
                &&& r matches Action::Delete { id, url } && id == old(self)@.bookmarks[old(
                    self,
                )@.next as int].id && url@ == old(self)@.current_url()
            },
            !should_delete(old(self)@.do_download, old(self)@.do_remove, archived) ==> {
                &&& final(self)@.phase == Phase::Ready
                &&& final(self)@.next == old(self)@.next + 1
                &&& final(self)@.report == (RunReport { kept: (old(self)@.report.kept + 1) as usize, ..old(self)@.report })
                &&& r matches Action::Keep { url } && url@ == old(self)@.current_url()
            },
    {
        let b = &self.bookmarks[self.next];
        let url = normalize_url(b.url.as_str());
        let ghost old_outcomes = self.outcomes@;
        self.outcomes = Ghost(self.outcomes@.push(archived));
        proof {
            assert(self.outcomes@.drop_last() =~= old_outcomes);
        }
        if self.config.do_remove_bookmark && (archived || !self.config.do_download) {
            let id = b.id;
            self.deletes = Ghost(self.deletes@.push(self.next as int));
            self.phase = Phase::Deleting;
            Action::Delete { id, url }
        } else {
            let len = self.bookmarks.len();
            assert(self.next < len);
            self.next = self.next + 1;
            self.report.kept = self.report.kept + 1;
            self.phase = Phase::Ready;
            Action::Keep { url }
        }
    }

    /// The next action of a run that waits for nothing: archive the current
    /// bookmark's link when archiving is on, else go straight to deleting or
    /// keeping it; `Finished` once every bookmark has been dealt with.
    pub fn next_action(&mut self) -> (r: Action)
        requires
            old(self)@.well_formed(),
            old(self)@.phase == Phase::Ready,
        ensures
            final(self)@.well_formed(),
            final(self)@.bookmarks == old(self)@.bookmarks,
            final(self)@.do_download == old(self)@.do_download,
            final(self)@.do_remove == old(self)@.do_remove,
            old(self)@.next == old(self)@.bookmarks.len() ==> {
                &&& r is Finished
                &&& final(self)@ == old(self)@
            },
            old(self)@.next < old(self)@.bookmarks.len() && old(self)@.do_download ==> {
                &&& final(self)@.phase == Phase::Archiving
                &&& final(self)@.next == old(self)@.next
                &&& final(self)@.outcomes == old(self)@.outcomes
                &&& final(self)@.report == old(self)@.report
                &&& r matches Action::Archive { url } && url@ == old(self)@.current_url()
            },
            old(self)@.next < old(self)@.bookmarks.len() && !old(self)@.do_download ==> {
                &&& final(self)@.outcomes == old(self)@.outcomes.push(true)
                &&& old(self)@.do_remove ==> {
                    &&& final(self)@.phase == Phase::Deleting
                    &&& final(self)@.next == old(self)@.next
                    &&& final(self)@.report == old(self)@.report
                    &&& r matches Action::Delete { id, url } && id == old(self)@.bookmarks[old(
                        self,
                    )@.next as int].id && url@ == old(self)@.current_url()
                }
                &&& !old(self)@.do_remove ==> {
                    &&& final(self)@.phase == Phase::Ready
                    &&& final(self)@.next == old(self)@.next + 1
                    &&& final(self)@.report == (RunReport {
                        kept: (old(self)@.report.kept + 1) as usize,
                        ..old(self)@.report
                    })
                    &&& r matches Action::Keep { url } && url@ == old(self)@.current_url()
                }
            },
    {
        if self.next >= self.bookmarks.len() {
            return Action::Finished;
        }
        if self.config.do_download {
            let url = normalize_url(self.bookmarks[self.next].url.as_str());
            self.phase = Phase::Archiving;
            Action::Archive { url }
        } else {
            self.decide(true)
        }
    }

    /// Takes the outcome of archiving the current bookmark's link: on success
    /// the bookmark is deleted when deletion is on; on failure, or with
    /// deletion off, it is kept and the run moves on to the next bookmark.
    pub fn archive_finished(&mut self, success: bool) -> (r: Action)
        requires
            old(self)@.well_formed(),
            old(self)@.phase == Phase::Archiving,
        ensures
            final(self)@.well_formed(),
            final(self)@.bookmarks == old(self)@.bookmarks,
            final(self)@.do_download == old(self)@.do_download,
            final(self)@.do_remove == old(self)@.do_remove,
            final(self)@.outcomes == old(self)@.outcomes.push(success),
            success ==> final(self)@.report.archived == old(self)@.report.archived + 1,
            success ==> final(self)@.report.archive_failed == old(self)@.report.archive_failed,
            !success ==> final(self)@.report.archived == old(self)@.report.archived,
            !success ==> final(self)@.report.archive_failed == old(self)@.report.archive_failed
                + 1,
            final(self)@.report.deleted == old(self)@.report.deleted,
            final(self)@.report.delete_failed == old(self)@.report.delete_failed,
            success && old(self)@.do_remove ==> {
                &&& final(self)@.phase == Phase::Deleting
                &&& final(self)@.next == old(self)@.next
                &&& final(self)@.report.kept == old(self)@.report.kept
                &&& r matches Action::Delete { id, url } && id == old(self)@.bookmarks[old(
                    self,
                )@.next as int].id && url@ == old(self)@.current_url()
            },
            !(success && old(self)@.do_remove) ==> {
                &&& final(self)@.phase == Phase::Ready
                &&& final(self)@.next == old(self)@.next + 1
                &&& final(self)@.report.kept == old(self)@.report.kept + 1
                &&& r matches Action::Keep { url } && url@ == old(self)@.current_url()
            },
    {
        let len = self.bookmarks.len();
        assert(self.next < len);
        let action = self.decide(success);
        if success {
            self.report.archived = self.report.archived + 1;
        } else {
            self.report.archive_failed = self.report.archive_failed + 1;
        }
        action
    }

    /// Takes the outcome of deleting the current bookmark and moves on to the
    /// next one; a failed deletion does not stop the run.
    pub fn delete_finished(&mut self, success: bool)
        requires
            old(self)@.well_formed(),
            old(self)@.phase == Phase::Deleting,
        ensures
            final(self)@ == (RunView {
                next: old(self)@.next + 1,
                phase: Phase::Ready,
                report: if success {
                    RunReport { deleted: (old(self)@.report.deleted + 1) as usize, ..old(self)@.report }
                } else {
                    RunReport { delete_failed: (old(self)@.report.delete_failed + 1) as usize, ..old(self)@.report }
                },
                ..old(self)@
            }),
            final(self)@.well_formed(),
    {
        let len = self.bookmarks.len();
        assert(self.next < len);
        if success {
            self.report.deleted = self.report.deleted + 1;
        } else {
            self.report.delete_failed = self.report.delete_failed + 1;
        }
        self.next = self.next + 1;
        self.phase = Phase::Ready;
    }
}

/// A finished run without archiving and with deletion on has asked for the
/// deletion of every bookmark of the list, once each, in order.
pub proof fn lemma_finished_delete_only_run(run: RunView)
    requires
        run.well_formed(),
        run.phase == Phase::Ready,
        run.next == run.bookmarks.len(),
        !run.do_download,
        run.do_remove,
    ensures
        run.deletes == Seq::new(run.bookmarks.len(), |i: int| i),
{
    lemma_delete_only_run_deletes_all(run.outcomes);
}

} // verus!
