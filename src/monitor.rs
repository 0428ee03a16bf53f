//! The decisions of the interactive loop.
//!
//! The loop itself renders, waits for input and runs the probes; it hands each
//! input command and each endpoint's probe status to a `Monitor`, which says what
//! follows. The dashboard changes only through these calls, and a round's statuses
//! reach it all at once, when the last endpoint has reported.
use vstd::prelude::*;
use crate::dashboard::{spec_apply, App, Command, LoopState};
use crate::probe::Status;
use crate::round::{all_reported, reported, with_report, PollRound};
use crate::schedule::PollSchedule;
use crate::selection::{spec_next, spec_previous};

verus! {

pub struct Monitor {
    pub app: App,
    pub schedule: PollSchedule,
    /// The round in flight, if any.
    pub round: Option<PollRound>,
}

impl Monitor {
    /// A round is in flight exactly when the schedule says so, and it covers every endpoint.
    pub open spec fn wf(&self) -> bool {
        &&& self.app.wf()
        &&& self.schedule.in_flight == self.round is Some
        &&& self.round matches Some(r) ==> r.results@.len() == self.app.systems@.len()
    }

    /// The results of the round in flight after the endpoint at `index` reports `status`.
    pub open spec fn results_after(&self, index: usize, status: Status) -> Seq<Option<Status>> {
        with_report(self.round->Some_0.results@, index, status)
    }

    /// A monitor of `app` that polls every `interval_ms`, counted from `now_ms`.
    pub fn new(app: App, interval_ms: u64, now_ms: u64) -> (r: Monitor)
        requires
            app.wf(),
        ensures
            r.app == app,
            r.schedule == (PollSchedule { interval_ms, anchor_ms: now_ms, in_flight: false }),
            r.round is None,
            r.wf(),
    {
        Monitor { app, schedule: PollSchedule::new(interval_ms, now_ms), round: None }
    }

    /// How long to wait for input at `now_ms` before a round is due.
    pub fn wait_ms(&self, now_ms: u64) -> (r: u64)
        ensures
            r == self.schedule.spec_remaining(now_ms),
    {
        self.schedule.remaining_ms(now_ms)
    }

    /// Acts on one input command; see `App::handle_command`.
    pub fn handle_command(&mut self, command: Command) -> (r: LoopState)
        requires
            old(self).wf(),
        ensures
            r == (if command == Command::Quit {
                LoopState::Terminated
            } else {
                LoopState::Running
            }),
            final(self).app.systems == old(self).app.systems,
            final(self).app.title == old(self).app.title,
            final(self).app.selected == (match command {
                Command::Quit => old(self).app.selected,
                Command::SelectNext => spec_next(
                    old(self).app.selected,
                    old(self).app.systems@.len() as usize,
                ),
                Command::SelectPrevious => spec_previous(
                    old(self).app.selected,
                    old(self).app.systems@.len() as usize,
                ),
            }),
            final(self).schedule == old(self).schedule,
            final(self).round == old(self).round,
            final(self).wf(),
    {
        self.app.handle_command(command)
    }

    /// Starts a round at `now_ms` if one is due, and says whether it did. The caller
    /// then probes every endpoint and reports each status with `record_status`.
    /// A dashboard without endpoints never polls.
    pub fn begin_round(&mut self, now_ms: u64) -> (started: bool)
        requires
            old(self).wf(),
        ensures
            started == (old(self).schedule.spec_due(now_ms) && old(self).app.systems@.len() > 0),
            started ==> final(self).schedule == old(self).schedule.started_at(now_ms),
            started ==> (final(self).round matches Some(r) && r.results@ == Seq::new(
                old(self).app.systems@.len(),
                |i: int| None::<Status>,
            )),
            !started ==> final(self).schedule == old(self).schedule && final(self).round
                == old(self).round,
            final(self).app == old(self).app,
            final(self).wf(),
    {
        if self.app.systems.len() == 0 {
            return false;
        }
        if self.schedule.try_start(now_ms) {
            self.round = Some(PollRound::new(self.app.systems.len()));
            true
        } else {
            false
        }
    }

    /// Records the probe status of the endpoint at `index` in the round in flight.
    /// When that completes the round, its statuses are applied to the dashboard
    /// together, the round ends and the result is `true`. A status with no round in
    /// flight, or for an index outside it, is ignored.
    pub fn record_status(&mut self, index: usize, status: Status) -> (applied: bool)
        requires
            old(self).wf(),
        ensures
            final(self).wf(),
            final(self).app.title == old(self).app.title,
            final(self).app.selected == old(self).app.selected,
            old(self).round is None ==> *final(self) == *old(self),
            old(self).round is Some ==> applied == all_reported(
                old(self).results_after(index, status),
            ),
            old(self).round is Some && all_reported(old(self).results_after(index, status))
                ==> final(self).round is None && final(self).schedule == (PollSchedule {
                in_flight: false,
                ..old(self).schedule
            }) && final(self).app.systems@ == spec_apply(
                old(self).app.systems@,
                reported(old(self).results_after(index, status)),
            ),
            old(self).round is Some && !all_reported(old(self).results_after(index, status))
                ==> final(self).round is Some && final(self).round->Some_0.results@
                == old(self).results_after(index, status) && final(self).schedule
                == old(self).schedule && final(self).app.systems == old(self).app.systems,
    {
        match self.round.take() {
            None => false,
            Some(mut round) => {
                round.record(index, status);
                match round.finish() {
                    Some(result) => {
                        self.app.apply_poll_result(&result);
                        self.schedule.finish_round();
                        true
                    },
                    None => {
                        self.round = Some(round);
                        false
                    },
                }
            },
        }
    }
}

} // verus!
