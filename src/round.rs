//! Collecting one poll round's statuses, which may arrive in any order.
use vstd::prelude::*;
use crate::dashboard::PollResult;
use crate::probe::Status;

verus! {

/// Every endpoint has reported.
pub open spec fn all_reported(results: Seq<Option<Status>>) -> bool {
    forall|i: int| 0 <= i < results.len() ==> (#[trigger] results[i]) is Some
}

/// The statuses reported, by endpoint index.
pub open spec fn reported(results: Seq<Option<Status>>) -> Seq<Status> {
    Seq::new(results.len(), |i: int| results[i]->Some_0)
}

/// The results after the endpoint at `index` reports `status`; an index outside
/// the round changes nothing.
pub open spec fn with_report(results: Seq<Option<Status>>, index: usize, status: Status) -> Seq<
    Option<Status>,
> {
    if index < results.len() {
        results.update(index as int, Some(status))
    } else {
        results
    }
}

/// The statuses received so far in one round, by endpoint index.
pub struct PollRound {
    pub results: Vec<Option<Status>>,
}

impl PollRound {
    /// Every endpoint has reported.
    pub open spec fn spec_complete(&self) -> bool {
        all_reported(self.results@)
    }

    /// A round over `endpoint_count` endpoints with nothing received yet.
    pub fn new(endpoint_count: usize) -> (r: PollRound)
        ensures
            r.results@ == Seq::new(endpoint_count as nat, |i: int| None::<Status>),
    {
        let mut results: Vec<Option<Status>> = Vec::new();
        let mut i: usize = 0;
        while i < endpoint_count
            invariant
                0 <= i <= endpoint_count,
                results@ == Seq::new(i as nat, |j: int| None::<Status>),
            decreases endpoint_count - i,
        {
            results.push(None);
            i += 1;
            assert(results@ =~= Seq::new(i as nat, |j: int| None::<Status>));
        }
        PollRound { results }
    }

    /// Records the status of the endpoint at `index`. An index outside the round is
    /// refused and changes nothing; the return value says which.
    pub fn record(&mut self, index: usize, status: Status) -> (recorded: bool)
        ensures
            recorded == (index < old(self).results@.len()),
            final(self).results@ == with_report(old(self).results@, index, status),
            recorded ==> final(self).results@ == old(self).results@.update(
                index as int,
                Some(status),
            ),
            !recorded ==> final(self).results@ == old(self).results@,
    {
        if index < self.results.len() {
            self.results.set(index, Some(status));
            true
        } else {
            false
        }
    }

    pub fn is_complete(&self) -> (r: bool)
        ensures
            r == self.spec_complete(),
    {
        let mut i: usize = 0;
        while i < self.results.len()
            invariant
                0 <= i <= self.results@.len(),
                forall|j: int| 0 <= j < i ==> (#[trigger] self.results@[j]) is Some,
            decreases self.results@.len() - i,
        {
            if self.results[i].is_none() {
                return false;
            }
            i += 1;
        }
        true
    }

    /// The round's result, once every endpoint has reported.
    pub fn finish(&self) -> (r: Option<PollResult>)
        ensures
            r is Some == self.spec_complete(),
            r matches Some(p) ==> p.statuses@ == reported(self.results@),
            r matches Some(p) ==> p.statuses@.len() == self.results@.len() && forall|i: int|
                0 <= i < self.results@.len() ==> self.results@[i] == Some(
                    #[trigger] p.statuses@[i],
                ),
    {
        let mut statuses: Vec<Status> = Vec::new();
        let mut i: usize = 0;
        while i < self.results.len()
            invariant
                0 <= i <= self.results@.len(),
                statuses@.len() == i,
                forall|j: int| 0 <= j < i ==> self.results@[j] == Some(#[trigger] statuses@[j]),
            decreases self.results@.len() - i,
        {
            match self.results[i] {
                Some(s) => statuses.push(s),
                None => {
                    return None;
                },
            }
            i += 1;
        }
        assert(statuses@ =~= reported(self.results@));
        assert(self.spec_complete()) by {
            assert forall|j: int| 0 <= j < self.results@.len() implies (
            #[trigger] self.results@[j]) is Some by {
                assert(self.results@[j] == Some(statuses@[j]));
            }
        }
        Some(PollResult { statuses })
    }
}

} // verus!
