//! The orphan cleanup as a state machine.
//!
//! The machine decides; its driver does the outside work. The driver asks
//! [`Scan::pending`] what to do next, does it on [`Scan::subject`], and
//! reports what happened through [`Scan::advance`], until the scan halts.
//! Roots are probed in order, and the first root with exactly one candidate
//! settles the scan: its candidate is removed if it holds no executable
//! file, and left alone otherwise.

use vstd::prelude::*;
use vstd::string::*;
use crate::text::texts;
use crate::entry::{
    any_executable,
    candidates,
    entry_views,
    holds_executable,
    select_candidate,
    Entry,
    EntryView,
    Selection,
};

verus! {

/// Where a scan stands.
#[derive(Clone, Copy, Debug, PartialEq, Eq, Structural)]
pub enum Stage {
    /// The current root is to be listed.
    Probing,
    /// The single candidate of the current root is to be listed.
    Inspecting,
    /// The candidate is safe and is to be removed.
    Removing,
    /// Halted: no root had exactly one candidate.
    NoMatch,
    /// Halted: the candidate holds an executable file and was left alone.
    Unsafe,
    /// Halted: the candidate was removed.
    Removed,
    /// Halted: the current root could not be read.
    RootUnreadable,
    /// Halted: the candidate could not be read.
    TargetUnreadable,
    /// Halted: the candidate could not be removed.
    NotRemoved,
}

/// The outside work that a scan waits for.
#[derive(Clone, Copy, Debug, PartialEq, Eq, Structural)]
pub enum Work {
    /// List the subject if it exists, or report that it is missing.
    ListRoot,
    /// List the children of the subject.
    ListTarget,
    /// Remove the subject with everything in it.
    RemoveTarget,
    /// Nothing: the scan has halted.
    Halt,
}

/// What the driver should tell the user after a step.
#[derive(Clone, Copy, Debug, PartialEq, Eq, Structural)]
pub enum Notice {
    Silent,
    /// The root just listed has more than one candidate.
    Ambiguous,
    /// The candidate holds executable files and stays.
    NotSafe,
    /// The candidate is about to be removed.
    Removing,
}

/// What the outside work came to.
#[derive(Clone, Debug)]
pub enum Event {
    /// The root does not exist.
    Missing,
    /// The directory was read, with these entries.
    Listed(Vec<Entry>),
    /// The directory was removed.
    Removed,
    /// The work failed.
    Failed,
}

/// The mathematical value of an [`Event`].
pub enum EventView {
    Missing,
    Listed(Seq<EntryView>),
    Removed,
    Failed,
}

impl View for Event {
    type V = EventView;

    open spec fn view(&self) -> EventView {
        match self {
            Event::Missing => EventView::Missing,
            Event::Listed(entries) => EventView::Listed(entry_views(entries@)),
            Event::Removed => EventView::Removed,
            Event::Failed => EventView::Failed,
        }
    }
}

/// The mathematical value of a [`Scan`].
pub struct ScanView {
    /// The install roots, in the order in which they are probed.
    pub roots: Seq<Seq<char>>,
    /// The name fragment that selects the directory to remove.
    pub fragment: Seq<char>,
    pub stage: Stage,
    /// The index of the current root; the number of roots after `NoMatch`.
    pub root: nat,
    /// The path of the candidate; empty until one is selected.
    pub target: Seq<char>,
}

/// No further work follows this stage.
pub open spec fn halted(stage: Stage) -> bool {
    stage != Stage::Probing && stage != Stage::Inspecting && stage != Stage::Removing
}

impl ScanView {
    /// The current root is one of the roots whenever it is to be read.
    pub open spec fn valid(self) -> bool {
        &&& self.root <= self.roots.len()
        &&& self.stage != Stage::NoMatch ==> self.root < self.roots.len()
    }

    /// The same scan in another stage.
    pub open spec fn at(self, stage: Stage) -> ScanView {
        ScanView { stage, ..self }
    }

    /// The scan as it turns to the root at index `root`: probing it, or
    /// halted without a match when the roots are used up.
    pub open spec fn probe_from(self, root: nat) -> ScanView {
        if root < self.roots.len() {
            ScanView { stage: Stage::Probing, root, target: Seq::empty(), ..self }
        } else {
            ScanView {
                stage: Stage::NoMatch,
                root: self.roots.len(),
                target: Seq::empty(),
                ..self
            }
        }
    }

    /// The work that the scan waits for.
    pub open spec fn pending(self) -> Work {
        match self.stage {
            Stage::Probing => Work::ListRoot,
            Stage::Inspecting => Work::ListTarget,
            Stage::Removing => Work::RemoveTarget,
            _ => Work::Halt,
        }
    }

    /// The path that the pending work, or the final stage, is about.
    pub open spec fn subject(self) -> Seq<char> {
        match self.stage {
            Stage::Probing | Stage::RootUnreadable => self.roots[self.root as int],
            _ => self.target,
        }
    }

    /// The scan after `event`. An event that does not answer the pending
    /// work changes nothing, and a halted scan stays as it is.
    pub open spec fn step(self, event: EventView) -> ScanView {
        match (self.stage, event) {
            (Stage::Probing, EventView::Missing) => self.probe_from(self.root + 1),
            (Stage::Probing, EventView::Listed(entries)) => {
                let found = candidates(entries, self.fragment);
                if found.len() == 1 {
                    ScanView { stage: Stage::Inspecting, target: found[0].path, ..self }
                } else {
                    self.probe_from(self.root + 1)
                }
            },
            (Stage::Probing, EventView::Failed) => self.at(Stage::RootUnreadable),
            (Stage::Inspecting, EventView::Listed(children)) => if holds_executable(children) {
                self.at(Stage::Unsafe)
            } else {
                self.at(Stage::Removing)
            },
            (Stage::Inspecting, EventView::Failed) => self.at(Stage::TargetUnreadable),
            (Stage::Removing, EventView::Removed) => self.at(Stage::Removed),
            (Stage::Removing, EventView::Failed) => self.at(Stage::NotRemoved),
            _ => self,
        }
    }

    /// What the user is told when `event` arrives.
    pub open spec fn notice(self, event: EventView) -> Notice {
        match (self.stage, event) {
            (Stage::Probing, EventView::Listed(entries)) => if candidates(
                entries,
                self.fragment,
            ).len() > 1 {
                Notice::Ambiguous
            } else {
                Notice::Silent
            },
            (Stage::Inspecting, EventView::Listed(children)) => if holds_executable(children) {
                Notice::NotSafe
            } else {
                Notice::Removing
            },
            _ => Notice::Silent,
        }
    }
}

/// A scan of `roots` for `fragment` before any work was done: probing the
/// first root, or halted without a match where there is no root.
pub open spec fn start(roots: Seq<Seq<char>>, fragment: Seq<char>) -> ScanView {
    (ScanView { roots, fragment, stage: Stage::Probing, root: 0, target: Seq::empty() }).probe_from(
        0,
    )
}

/// A cleanup scan over a list of install roots.
pub struct Scan {
    roots: Vec<String>,
    fragment: String,
    stage: Stage,
    root: usize,
    target: String,
}

impl View for Scan {
    type V = ScanView;

    closed spec fn view(&self) -> ScanView {
        ScanView {
            roots: texts(self.roots@),
            fragment: self.fragment@,
            stage: self.stage,
            root: self.root as nat,
            target: self.target@,
        }
    }
}

impl Scan {
    /// Every scan is valid: its current root is one of its roots until the
    /// roots are used up.
    #[verifier::type_invariant]
    spec fn well_formed(self) -> bool {
        self@.valid()
    }

    /// A scan of `roots`, in order, for `fragment`. It starts at the first
    /// root; with no roots it has halted already.
    pub fn new(roots: Vec<String>, fragment: String) -> (scan: Scan)
        ensures
            scan@.valid(),
            scan@ == start(texts(roots@), fragment@),
    {
        let stage = if roots.len() == 0 {
            Stage::NoMatch
        } else {
            Stage::Probing
        };
        Scan { roots, fragment, stage, root: 0, target: String::new() }
    }

    /// Where the scan stands.
    pub fn stage(&self) -> (stage: Stage)
        ensures
            stage == self@.stage,
    {
        self.stage
    }

    /// The index of the current root.
    pub fn root(&self) -> (root: usize)
        ensures
            root == self@.root,
    {
        self.root
    }

    /// The fragment that the scan looks for.
    pub fn fragment(&self) -> (fragment: &str)
        ensures
            fragment@ == self@.fragment,
    {
        self.fragment.as_str()
    }

    /// The path of the selected candidate; empty while none is selected.
    pub fn target(&self) -> (target: &str)
        ensures
            target@ == self@.target,
    {
        self.target.as_str()
    }

    /// Whether the scan has halted.
    pub fn is_halted(&self) -> (done: bool)
        ensures
            done == halted(self@.stage),
    {
        match self.stage {
            Stage::Probing | Stage::Inspecting | Stage::Removing => false,
            _ => true,
        }
    }

    /// The outside work that the scan waits for.
    pub fn pending(&self) -> (work: Work)
        ensures
            work == self@.pending(),
    {
        match self.stage {
            Stage::Probing => Work::ListRoot,
            Stage::Inspecting => Work::ListTarget,
            Stage::Removing => Work::RemoveTarget,
            _ => Work::Halt,
        }
    }

    /// The path that the pending work is to be done on; after a halt, the
    /// path that the final stage speaks of.
    pub fn subject(&self) -> (path: &str)
        ensures
            path@ == self@.subject(),
    {
        proof {
            use_type_invariant(self);
        }
        match self.stage {
            Stage::Probing | Stage::RootUnreadable => self.roots[self.root].as_str(),
            _ => self.target.as_str(),
        }
    }

    /// Turns to the root after the current one.
    fn next_root(&mut self)
        requires
            old(self)@.stage == Stage::Probing,
        ensures
            final(self)@ == old(self)@.probe_from(old(self)@.root + 1),
    {
        proof {
            use_type_invariant(&*self);
        }
        let count: usize = self.roots.len();
        assert(self@.roots.len() == count);
        self.target = String::new();
        if self.root + 1 < count {
            self.root = self.root + 1;
        } else {
            self.stage = Stage::NoMatch;
            self.root = count;
        }
    }

    /// Takes in what the pending work came to, and moves on.
    pub fn advance(&mut self, event: Event) -> (notice: Notice)
        ensures
            final(self)@.valid(),
            final(self)@ == old(self)@.step(event@),
            notice == old(self)@.notice(event@),
    {
        proof {
            use_type_invariant(&*self);
        }
        match self.stage {
            Stage::Probing => match event {
                Event::Missing => {
                    self.next_root();
                    Notice::Silent
                },
                Event::Listed(entries) => {
                    match select_candidate(&entries, self.fragment.as_str()) {
                        Selection::Nothing => {
                            self.next_root();
                            Notice::Silent
                        },
                        Selection::Ambiguous => {
                            self.next_root();
                            Notice::Ambiguous
                        },
                        Selection::Single(at) => {
                            assert(seq![entries@[at as int]@][0] == entries@[at as int]@);
                            self.target = entries[at].path.clone();
                            self.stage = Stage::Inspecting;
                            Notice::Silent
                        },
                    }
                },
                Event::Failed => {
                    self.stage = Stage::RootUnreadable;
                    Notice::Silent
                },
                Event::Removed => Notice::Silent,
            },
            Stage::Inspecting => match event {
                Event::Listed(children) => {
                    if any_executable(&children) {
                        self.stage = Stage::Unsafe;
                        Notice::NotSafe
                    } else {
                        self.stage = Stage::Removing;
                        Notice::Removing
                    }
                },
                Event::Failed => {
                    self.stage = Stage::TargetUnreadable;
                    Notice::Silent
                },
                _ => Notice::Silent,
            },
            Stage::Removing => match event {
                Event::Removed => {
                    self.stage = Stage::Removed;
                    Notice::Silent
                },
                Event::Failed => {
                    self.stage = Stage::NotRemoved;
                    Notice::Silent
                },
                _ => Notice::Silent,
            },
            _ => Notice::Silent,
        }
    }
}

} // verus!
