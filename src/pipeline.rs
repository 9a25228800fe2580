use vstd::prelude::*;
use vstd::string::*;

use crate::scanner::Candidate;

verus! {

/// The flags of a run, fixed for its whole duration.
#[derive(Debug, Clone, Copy, PartialEq, Eq, Structural)]
pub struct RunConfig {
    /// Report each step as it happens.
    pub verbose: bool,
    /// Delete each source directory once its archive is built.
    pub remove: bool,
    /// Report what would be done and touch nothing.
    pub dry_run: bool,
}

/// Where the pipeline stands. Indices count candidates.
#[derive(Debug, Clone, Copy, PartialEq, Eq, Structural)]
pub enum Stage {
    /// The candidate at this index is the next to handle.
    Ready(usize),
    /// The archive of this candidate is being built.
    Archiving(usize),
    /// This candidate's source directory is being removed.
    Removing(usize),
    /// Every candidate has been handled.
    Finished,
    /// A failed archive ended the run.
    Aborted,
}

/// What the surrounding program reports back to the pipeline.
#[derive(Debug, Clone, Copy, PartialEq, Eq, Structural)]
pub enum Event {
    /// Go on: the previous action, if any, needs no answer.
    Proceed,
    /// The archive asked for was written.
    ArchiveSucceeded,
    /// The archive asked for could not be written.
    ArchiveFailed,
    /// The removal supervisor has stopped, whether the tree went or not.
    RemovalFinished,
}

/// What the pipeline asks the surrounding program to do next.
#[derive(Debug, Clone, Copy, PartialEq, Eq, Structural)]
pub enum Action {
    /// Report that this candidate would be archived, and whether it would be
    /// removed; change nothing.
    ReportDryRun { index: usize, would_remove: bool },
    /// Build the archive of this candidate.
    Archive { index: usize },
    /// Remove this candidate's source directory.
    Remove { index: usize },
    /// The run is complete.
    Finish,
    /// The run ends on a failed archive.
    Abort,
}

/// The decision state of a run: its flags, how many candidates it has, and
/// its stage.
#[derive(Debug, Clone, Copy, PartialEq, Eq, Structural)]
pub struct Progress {
    pub dry_run: bool,
    pub remove: bool,
    pub count: usize,
    pub stage: Stage,
}

impl Progress {
    /// Indices stay within the candidates, and a dry run never stands in a
    /// stage that changes the filesystem.
    pub open spec fn wf(self) -> bool {
        match self.stage {
            Stage::Ready(i) => i <= self.count,
            Stage::Archiving(i) => i < self.count && !self.dry_run,
            Stage::Removing(i) => i < self.count && !self.dry_run && self.remove,
            _ => true,
        }
    }

    /// The events that the stage waits for.
    pub open spec fn expects(self, e: Event) -> bool {
        match self.stage {
            Stage::Archiving(_) => e == Event::ArchiveSucceeded || e == Event::ArchiveFailed,
            Stage::Removing(_) => e == Event::RemovalFinished,
            _ => e == Event::Proceed,
        }
    }

    /// Taking up the candidate at index `i`: finish past the last one;
    /// otherwise report it in a dry run, or start its archive.
    pub open spec fn take_up(self, i: int) -> (Progress, Action) {
        if i >= self.count {
            (Progress { stage: Stage::Finished, ..self }, Action::Finish)
        } else if self.dry_run {
            (
                Progress { stage: Stage::Ready((i + 1) as usize), ..self },
                Action::ReportDryRun { index: i as usize, would_remove: self.remove },
            )
        } else {
            (Progress { stage: Stage::Archiving(i as usize), ..self }, Action::Archive { index: i as usize })
        }
    }

    /// The next state and action on event `e`: a built archive is followed
    /// by its removal when removal is on, and by the next candidate
    /// otherwise; a failed archive aborts the run; a finished removal,
    /// whatever its end, moves to the next candidate.
    pub open spec fn next(self, e: Event) -> (Progress, Action) {
        match self.stage {
            Stage::Ready(i) => self.take_up(i as int),
            Stage::Archiving(i) => if e == Event::ArchiveSucceeded {
                if self.remove {
                    (Progress { stage: Stage::Removing(i), ..self }, Action::Remove { index: i })
                } else {
                    self.take_up(i + 1)
                }
            } else {
                (Progress { stage: Stage::Aborted, ..self }, Action::Abort)
            },
            Stage::Removing(i) => self.take_up(i + 1),
            Stage::Finished => (self, Action::Finish),
            Stage::Aborted => (self, Action::Abort),
        }
    }

    /// A fresh run over `count` candidates.
    pub fn start(config: RunConfig, count: usize) -> (r: Progress)
        ensures
            r == (Progress {
                dry_run: config.dry_run,
                remove: config.remove,
                count,
                stage: Stage::Ready(0),
            }),
            r.wf(),
    {
        Progress { dry_run: config.dry_run, remove: config.remove, count, stage: Stage::Ready(0) }
    }

    /// Whether the stage waits for event `e`.
    pub fn accepts(&self, e: Event) -> (r: bool)
        ensures
            r == self.expects(e),
    {
        match self.stage {
            Stage::Archiving(_) => e == Event::ArchiveSucceeded || e == Event::ArchiveFailed,
            Stage::Removing(_) => e == Event::RemovalFinished,
            _ => e == Event::Proceed,
        }
    }

    fn take_up_exec(&mut self, i: usize) -> (a: Action)
        requires
            i <= old(self).count,
        ensures
            (*final(self), a) == old(self).take_up(i as int),
    {
        if i >= self.count {
            self.stage = Stage::Finished;
            Action::Finish
        } else if self.dry_run {
            self.stage = Stage::Ready(i + 1);
            Action::ReportDryRun { index: i, would_remove: self.remove }
        } else {
            self.stage = Stage::Archiving(i);
            Action::Archive { index: i }
        }
    }

    /// Moves the run on by event `e` and returns what to do next.
    pub fn step(&mut self, e: Event) -> (a: Action)
        requires
            old(self).wf(),
            old(self).expects(e),
        ensures
            (*final(self), a) == old(self).next(e),
            final(self).wf(),
    {
        match self.stage {
            Stage::Ready(i) => self.take_up_exec(i),
            Stage::Archiving(i) => {
                if e == Event::ArchiveSucceeded {
                    if self.remove {
                        self.stage = Stage::Removing(i);
                        Action::Remove { index: i }
                    } else {
                        self.take_up_exec(i + 1)
                    }
                } else {
                    self.stage = Stage::Aborted;
                    Action::Abort
                }
            },
            Stage::Removing(i) => self.take_up_exec(i + 1),
            Stage::Finished => Action::Finish,
            Stage::Aborted => Action::Abort,
        }
    }
}

/// The actions a run in state `p` issues on the events `events`, in order,
/// up to the first event that its stage does not wait for.
pub open spec fn run_actions(p: Progress, events: Seq<Event>) -> Seq<Action>
    decreases events.len(),
{
    if events.len() == 0 || !p.expects(events[0]) {
        seq![]
    } else {
        let (q, a) = p.next(events[0]);
        seq![a] + run_actions(q, events.drop_first())
    }
}

/// An action that changes the filesystem.
pub open spec fn mutates(a: Action) -> bool {
    a is Archive || a is Remove
}

/// Every transition keeps the state well formed and the flags unchanged.
pub proof fn lemma_next_wf(p: Progress, e: Event)
    requires
        p.wf(),
        p.expects(e),
    ensures
        p.next(e).0.wf(),
        p.next(e).0.dry_run == p.dry_run,
        p.next(e).0.remove == p.remove,
        p.next(e).0.count == p.count,
{
}

/// A dry run changes nothing: from any well-formed state of a dry run,
/// whatever the events, no action issued builds an archive or removes a
/// directory.
pub proof fn lemma_dry_run_never_mutates(p: Progress, events: Seq<Event>)
    requires
        p.wf(),
        p.dry_run,
    ensures
        forall|k: int| 0 <= k < run_actions(p, events).len() ==> !mutates(
            #[trigger] run_actions(p, events)[k],
        ),
    decreases events.len(),
{
    if events.len() > 0 && p.expects(events[0]) {
        let (q, a) = p.next(events[0]);
        lemma_next_wf(p, events[0]);
        lemma_dry_run_never_mutates(q, events.drop_first());
        let rest = run_actions(q, events.drop_first());
        assert forall|k: int| 0 <= k < run_actions(p, events).len() implies !mutates(
            #[trigger] run_actions(p, events)[k],
        ) by {
            if k > 0 {
                assert(run_actions(p, events)[k] == rest[k - 1]);
            }
        }
    }
}

proof fn lemma_run_actions_len(p: Progress, events: Seq<Event>)
    ensures
        run_actions(p, events).len() <= events.len(),
    decreases events.len(),
{
    if events.len() > 0 && p.expects(events[0]) {
        lemma_run_actions_len(p.next(events[0]).0, events.drop_first());
    }
}

proof fn lemma_remove_follows_archive_from(p: Progress, events: Seq<Event>, k: int, i: usize)
    requires
        p.wf(),
        0 <= k < run_actions(p, events).len(),
        run_actions(p, events)[k] == (Action::Remove { index: i }),
    ensures
        events[k] == Event::ArchiveSucceeded,
        k == 0 ==> p.stage == Stage::Archiving(i),
        k > 0 ==> run_actions(p, events)[k - 1] == (Action::Archive { index: i }),
    decreases events.len(),
{
    let (q, a) = p.next(events[0]);
    lemma_next_wf(p, events[0]);
    let rest = run_actions(q, events.drop_first());
    lemma_run_actions_len(p, events);
    if k > 0 {
        assert(run_actions(p, events)[k] == rest[k - 1]);
        assert(events[k] == events.drop_first()[k - 1]);
        lemma_remove_follows_archive_from(q, events.drop_first(), k - 1, i);
        if k > 1 {
            assert(run_actions(p, events)[k - 1] == rest[k - 2]);
        }
    }
}

/// Removal never precedes a successful archive: in a run from its start,
/// every removal of a candidate comes right after the action that built
/// that candidate's archive, on the event that reported it written.
pub proof fn lemma_remove_only_after_archive(
    config: RunConfig,
    count: usize,
    events: Seq<Event>,
    k: int,
    i: usize,
)
    requires
        0 <= k < run_actions(
            Progress { dry_run: config.dry_run, remove: config.remove, count, stage: Stage::Ready(0) },
            events,
        ).len(),
        run_actions(
            Progress { dry_run: config.dry_run, remove: config.remove, count, stage: Stage::Ready(0) },
            events,
        )[k] == (Action::Remove { index: i }),
    ensures
        k > 0,
        run_actions(
            Progress { dry_run: config.dry_run, remove: config.remove, count, stage: Stage::Ready(0) },
            events,
        )[k - 1] == (Action::Archive { index: i }),
        events[k] == Event::ArchiveSucceeded,
{
    let p = Progress { dry_run: config.dry_run, remove: config.remove, count, stage: Stage::Ready(0) };
    lemma_remove_follows_archive_from(p, events, k, i);
}

/// One run of the pipeline over the candidates of a scan: the flags, the
/// target directory, the candidates, and the decision state.
pub struct Tarballer {
    config: RunConfig,
    root: String,
    candidates: Vec<Candidate>,
    progress: Progress,
}

impl Tarballer {
    pub closed spec fn spec_config(&self) -> RunConfig {
        self.config
    }

    pub closed spec fn spec_root(&self) -> Seq<char> {
        self.root@
    }

    pub closed spec fn spec_candidates(&self) -> Seq<Candidate> {
        self.candidates@
    }

    pub closed spec fn spec_progress(&self) -> Progress {
        self.progress
    }

    /// The decision state covers exactly the candidates and follows the
    /// flags.
    pub open spec fn wf(&self) -> bool {
        &&& self.spec_progress().wf()
        &&& self.spec_progress().count == self.spec_candidates().len()
        &&& self.spec_progress().dry_run == self.spec_config().dry_run
        &&& self.spec_progress().remove == self.spec_config().remove
    }

    /// A run over `candidates` in directory `root`, before its first step.
    pub fn new(config: RunConfig, root: String, candidates: Vec<Candidate>) -> (r: Tarballer)
        ensures
            r.wf(),
            r.spec_config() == config,
            r.spec_root() == root@,
            r.spec_candidates() == candidates@,
            r.spec_progress().stage == Stage::Ready(0),
    {
        let count = candidates.len();
        Tarballer { config, root, candidates, progress: Progress::start(config, count) }
    }

    pub fn config(&self) -> (r: RunConfig)
        ensures
            r == self.spec_config(),
    {
        self.config
    }

    pub fn progress(&self) -> (r: Progress)
        ensures
            r == self.spec_progress(),
    {
        self.progress
    }

    /// How many candidates the run has.
    pub fn len(&self) -> (r: usize)
        ensures
            r == self.spec_candidates().len(),
    {
        self.candidates.len()
    }

    /// The source directory of candidate `i`.
    pub fn source_path(&self, i: usize) -> (r: &String)
        requires
            i < self.spec_candidates().len(),
        ensures
            r@ == self.spec_candidates()[i as int].source_path@,
    {
        &self.candidates[i].source_path
    }

    /// The archive name of candidate `i`.
    pub fn tarball_name(&self, i: usize) -> (r: &String)
        requires
            i < self.spec_candidates().len(),
        ensures
            r@ == self.spec_candidates()[i as int].archive_name@,
    {
        &self.candidates[i].archive_name
    }

    /// Where the archive of candidate `i` is written: in the target
    /// directory, under the candidate's archive name.
    pub fn archive_path(&self, i: usize) -> (r: String)
        requires
            i < self.spec_candidates().len(),
        ensures
            r@ == self.spec_root() + seq!['/'] + self.spec_candidates()[i as int].archive_name@,
    {
        tarball_path(&self.root, &self.candidates[i].archive_name)
    }

    /// Whether the run waits for event `e`.
    pub fn accepts(&self, e: Event) -> (r: bool)
        ensures
            r == self.spec_progress().expects(e),
    {
        self.progress.accepts(e)
    }

    /// Moves the run on by event `e` and returns what to do next; the
    /// target directory and candidates stay as they were.
    pub fn step(&mut self, e: Event) -> (a: Action)
        requires
            old(self).wf(),
            old(self).spec_progress().expects(e),
        ensures
            (final(self).spec_progress(), a) == old(self).spec_progress().next(e),
            final(self).wf(),
            final(self).spec_config() == old(self).spec_config(),
            final(self).spec_root() == old(self).spec_root(),
            final(self).spec_candidates() == old(self).spec_candidates(),
    {
        self.progress.step(e)
    }
}

/// The path of an archive named `tarball_name` in directory `current_dir`.
pub fn tarball_path(current_dir: &String, tarball_name: &String) -> (r: String)
    ensures
        r@ == current_dir@ + seq!['/'] + tarball_name@,
{
    proof {
        reveal_strlit("/");
    }
    current_dir.clone().concat("/").concat(tarball_name.as_str())
}

} // verus!
