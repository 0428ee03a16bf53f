//! The dashboard: its title, the monitored endpoints and the highlighted row.
use vstd::prelude::*;
use crate::probe::Status;
use crate::selection::{
    next_selection,
    previous_selection,
    selection_valid,
    spec_next,
    spec_previous,
};

verus! {

/// One monitored endpoint. Its place in the dashboard's list is its identity.
#[derive(Debug)]
pub struct System {
    pub name: String,
    /// A host, without a port.
    pub address: String,
    pub status: Status,
    /// The ports to try, in order.
    pub ports: Vec<String>,
}

/// The configuration a dashboard starts from.
#[derive(Debug)]
pub struct Data {
    pub title: String,
    pub systems: Vec<System>,
}

/// The status of every endpoint after one poll round, by endpoint index.
#[derive(Debug)]
pub struct PollResult {
    pub statuses: Vec<Status>,
}

/// A command from the input layer.
#[derive(Clone, Copy, Debug, PartialEq, Eq, Structural)]
pub enum Command {
    Quit,
    SelectNext,
    SelectPrevious,
}

/// Whether the interactive loop goes on.
#[derive(Clone, Copy, Debug, PartialEq, Eq, Structural)]
pub enum LoopState {
    Running,
    Terminated,
}

pub struct App {
    /// The highlighted row.
    pub selected: Option<usize>,
    pub title: String,
    pub systems: Vec<System>,
}

/// The endpoints after a round's statuses are applied: every status replaced when
/// the round covers exactly these endpoints, nothing changed otherwise.
pub open spec fn spec_apply(systems: Seq<System>, statuses: Seq<Status>) -> Seq<System> {
    if statuses.len() == systems.len() {
        Seq::new(systems.len(), |i: int| System { status: statuses[i], ..systems[i] })
    } else {
        systems
    }
}

/// The same endpoints, in the same order, save perhaps their statuses.
pub open spec fn same_endpoints(a: Seq<System>, b: Seq<System>) -> bool {
    &&& a.len() == b.len()
    &&& forall|i: int|
        0 <= i < a.len() ==> (#[trigger] a[i]).name == b[i].name && a[i].address == b[i].address
            && a[i].ports == b[i].ports
}

impl App {
    /// A selection is held exactly when there are endpoints, and it names one of them.
    pub open spec fn wf(&self) -> bool {
        selection_valid(self.selected, self.systems@.len() as usize) && self.systems@.len()
            <= usize::MAX
    }

    /// A dashboard over these endpoints, with the first one selected if there is one.
    pub fn new(title: String, systems: Vec<System>) -> (r: App)
        ensures
            r.title == title,
            r.systems == systems,
            r.selected == (if systems@.len() == 0 {
                None
            } else {
                Some(0usize)
            }),
            r.wf(),
    {
        let selected = if systems.len() == 0 {
            None
        } else {
            Some(0)
        };
        App { selected, title, systems }
    }

    /// The dashboard to start from when there is no usable configuration: no endpoints.
    pub fn default() -> (r: App)
        ensures
            r.title@ == "DEFAULT"@,
            r.systems@.len() == 0,
            r.selected is None,
            r.wf(),
    {
        App { selected: None, title: "DEFAULT".to_string(), systems: Vec::new() }
    }

    /// Highlights the next row, wrapping from the last to the first.
    pub fn next(&mut self)
        ensures
            final(self).selected == spec_next(old(self).selected, old(self).systems@.len() as usize),
            final(self).title == old(self).title,
            final(self).systems == old(self).systems,
            old(self).systems@.len() == 0 ==> final(self).selected is None,
            old(self).wf() ==> final(self).wf(),
    {
        self.selected = next_selection(self.selected, self.systems.len());
    }

    /// Highlights the previous row, wrapping from the first to the last.
    pub fn previous(&mut self)
        ensures
            final(self).selected == spec_previous(
                old(self).selected,
                old(self).systems@.len() as usize,
            ),
            final(self).title == old(self).title,
            final(self).systems == old(self).systems,
            old(self).systems@.len() == 0 ==> final(self).selected is None,
            old(self).wf() ==> final(self).wf(),
    {
        self.selected = previous_selection(self.selected, self.systems.len());
    }

    /// Acts on one input command: quitting ends the loop, the others move the selection.
    pub fn handle_command(&mut self, command: Command) -> (r: LoopState)
        ensures
            r == (if command == Command::Quit {
                LoopState::Terminated
            } else {
                LoopState::Running
            }),
            final(self).selected == (match command {
                Command::Quit => old(self).selected,
                Command::SelectNext => spec_next(old(self).selected, old(self).systems@.len() as usize),
                Command::SelectPrevious => spec_previous(
                    old(self).selected,
                    old(self).systems@.len() as usize,
                ),
            }),
            final(self).title == old(self).title,
            final(self).systems == old(self).systems,
            old(self).wf() ==> final(self).wf(),
    {
        match command {
            Command::Quit => LoopState::Terminated,
            Command::SelectNext => {
                self.next();
                LoopState::Running
            },
            Command::SelectPrevious => {
                self.previous();
                LoopState::Running
            },
        }
    }

    /// Applies a whole round's statuses at once. A result that does not cover exactly
    /// these endpoints is refused and changes nothing; the return value says which.
    pub fn apply_poll_result(&mut self, result: &PollResult) -> (applied: bool)
        ensures
            applied == (result.statuses@.len() == old(self).systems@.len()),
            final(self).systems@ == spec_apply(old(self).systems@, result.statuses@),
            final(self).selected == old(self).selected,
            final(self).title == old(self).title,
            old(self).wf() ==> final(self).wf(),
    {
        if result.statuses.len() != self.systems.len() {
            return false;
        }
        let n = self.systems.len();
        let ghost before = self.systems@;
        let mut i: usize = 0;
        while i < n
            invariant
                n == before.len(),
                n == result.statuses@.len(),
                self.systems@.len() == n,
                self.selected == old(self).selected,
                self.title == old(self).title,
                0 <= i <= n,
                forall|j: int|
                    0 <= j < i ==> #[trigger] self.systems@[j] == (System {
                        status: result.statuses@[j],
                        ..before[j]
                    }),
                forall|j: int| i <= j < n ==> #[trigger] self.systems@[j] == before[j],
            decreases n - i,
        {
            self.systems[i].status = result.statuses[i];
            i += 1;
        }
        assert(self.systems@ =~= spec_apply(before, result.statuses@));
        true
    }

    /// The endpoint shown in the detail pane: the selected one, if any.
    pub fn selected_system(&self) -> (r: Option<&System>)
        ensures
            r == (match self.selected {
                Some(i) => if i < self.systems@.len() {
                    Some(&self.systems@[i as int])
                } else {
                    None
                },
                None => None,
            }),
    {
        match self.selected {
            Some(i) => {
                if i < self.systems.len() {
                    Some(&self.systems[i])
                } else {
                    None
                }
            },
            None => None,
        }
    }

    /// The status of each endpoint, in order: what one render shows.
    pub fn statuses(&self) -> (r: Vec<Status>)
        ensures
            r@.len() == self.systems@.len(),
            forall|i: int| 0 <= i < r@.len() ==> r@[i] == self.systems@[i].status,
    {
        let mut r: Vec<Status> = Vec::new();
        let mut i: usize = 0;
        while i < self.systems.len()
            invariant
                0 <= i <= self.systems@.len(),
                r@.len() == i,
                forall|j: int| 0 <= j < i ==> r@[j] == self.systems@[j].status,
            decreases self.systems@.len() - i,
        {
            r.push(self.systems[i].status);
            i += 1;
        }
        r
    }
}

/// Applying a round never leaves a mix of old and new statuses: afterwards every
/// endpoint shows the round's status, or no endpoint has changed. Either way the
/// endpoints themselves stay as they were.
pub proof fn lemma_apply_all_or_nothing(systems: Seq<System>, statuses: Seq<Status>)
    ensures
        same_endpoints(spec_apply(systems, statuses), systems),
        (forall|i: int|
            0 <= i < systems.len() ==> #[trigger] spec_apply(systems, statuses)[i].status
                == statuses[i]) || spec_apply(systems, statuses) == systems,
{
}

} // verus!
