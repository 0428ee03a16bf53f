//! Decisions of a reachability probe of one endpoint.
//!
//! The ports are tried one at a time, in listed order; the caller makes each
//! connection attempt and reports how it went. The first port that accepts
//! settles the endpoint as up, and no later port is tried.
use vstd::prelude::*;

verus! {

/// The liveness of an endpoint.
#[derive(Clone, Copy, Debug, PartialEq, Eq, Structural)]
pub enum Status {
    /// Not probed yet.
    Unknown,
    Up,
    Down,
    /// The address and a port do not form a valid connection target.
    ConfigError,
}

/// How one connection attempt to one port went.
#[derive(Clone, Copy, Debug, PartialEq, Eq, Structural)]
pub enum ConnectOutcome {
    Connected,
    /// Refused, timed out or unreachable.
    Failed,
    /// The address and port could not be turned into a connection target.
    BadTarget,
}

/// What a probe asks for next.
#[derive(Clone, Copy, Debug, PartialEq, Eq, Structural)]
pub enum ProbeStep {
    /// Try the port at this index of the endpoint's port list.
    Attempt(usize),
    /// The probe is over, with this status.
    Finished(Status),
}

pub open spec fn spec_probe_start(port_count: nat) -> ProbeStep {
    if port_count == 0 {
        ProbeStep::Finished(Status::Down)
    } else {
        ProbeStep::Attempt(0)
    }
}

pub open spec fn spec_probe_step(port_count: nat, index: usize, outcome: ConnectOutcome) -> ProbeStep {
    match outcome {
        ConnectOutcome::Connected => ProbeStep::Finished(Status::Up),
        ConnectOutcome::BadTarget => ProbeStep::Finished(Status::ConfigError),
        ConnectOutcome::Failed => if index + 1 < port_count {
            ProbeStep::Attempt((index + 1) as usize)
        } else {
            ProbeStep::Finished(Status::Down)
        },
    }
}

/// The first probe step for an endpoint with `port_count` ports: the first port,
/// or `Down` at once when there is no port to try.
pub fn probe_start(port_count: usize) -> (r: ProbeStep)
    ensures
        r == spec_probe_start(port_count as nat),
{
    if port_count == 0 {
        ProbeStep::Finished(Status::Down)
    } else {
        ProbeStep::Attempt(0)
    }
}

/// The step after the attempt on port `index` ended in `outcome`.
pub fn probe_step(port_count: usize, index: usize, outcome: ConnectOutcome) -> (r: ProbeStep)
    requires
        index < port_count,
    ensures
        r == spec_probe_step(port_count as nat, index, outcome),
{
    match outcome {
        ConnectOutcome::Connected => ProbeStep::Finished(Status::Up),
        ConnectOutcome::BadTarget => ProbeStep::Finished(Status::ConfigError),
        ConnectOutcome::Failed => {
            if index + 1 < port_count {
                ProbeStep::Attempt(index + 1)
            } else {
                ProbeStep::Finished(Status::Down)
            }
        },
    }
}

/// The probe's state after the caller has reported the first `k` attempts, where
/// `outcomes[j]` is how an attempt on port `j` would go.
pub open spec fn probe_after(outcomes: Seq<ConnectOutcome>, k: nat) -> ProbeStep
    decreases k,
{
    if k == 0 {
        spec_probe_start(outcomes.len())
    } else {
        match probe_after(outcomes, (k - 1) as nat) {
            ProbeStep::Attempt(i) => if i < outcomes.len() {
                spec_probe_step(outcomes.len(), i, outcomes[i as int])
            } else {
                ProbeStep::Attempt(i)
            },
            ProbeStep::Finished(s) => ProbeStep::Finished(s),
        }
    }
}

/// The first index at or after `from` whose attempt does not simply fail,
/// or the length when every one fails.
pub open spec fn first_decisive(outcomes: Seq<ConnectOutcome>, from: nat) -> nat
    decreases outcomes.len() - from,
{
    if from >= outcomes.len() {
        outcomes.len()
    } else if outcomes[from as int] != ConnectOutcome::Failed {
        from
    } else {
        first_decisive(outcomes, from + 1)
    }
}

/// The status that probing ports with these outcomes resolves to.
pub open spec fn probe_status(outcomes: Seq<ConnectOutcome>) -> Status {
    let d = first_decisive(outcomes, 0);
    if d >= outcomes.len() {
        Status::Down
    } else if outcomes[d as int] == ConnectOutcome::Connected {
        Status::Up
    } else {
        Status::ConfigError
    }
}

/// How many ports probing with these outcomes tries.
pub open spec fn probe_attempts(outcomes: Seq<ConnectOutcome>) -> nat {
    let d = first_decisive(outcomes, 0);
    if d >= outcomes.len() {
        outcomes.len()
    } else {
        d + 1
    }
}

proof fn lemma_first_decisive(outcomes: Seq<ConnectOutcome>, from: nat)
    requires
        from <= outcomes.len(),
    ensures
        from <= first_decisive(outcomes, from) <= outcomes.len(),
        forall|j: int|
            from <= j < first_decisive(outcomes, from) ==> outcomes[j] == ConnectOutcome::Failed,
        first_decisive(outcomes, from) < outcomes.len() ==> outcomes[first_decisive(
            outcomes,
            from,
        ) as int] != ConnectOutcome::Failed,
    decreases outcomes.len() - from,
{
    if from < outcomes.len() && outcomes[from as int] == ConnectOutcome::Failed {
        lemma_first_decisive(outcomes, from + 1);
    }
}

proof fn lemma_probe_after_prefix(outcomes: Seq<ConnectOutcome>, k: nat)
    requires
        outcomes.len() <= usize::MAX,
        k < outcomes.len(),
        k <= first_decisive(outcomes, 0),
    ensures
        probe_after(outcomes, k) == ProbeStep::Attempt(k as usize),
    decreases k,
{
    lemma_first_decisive(outcomes, 0);
    if k > 0 {
        lemma_probe_after_prefix(outcomes, (k - 1) as nat);
        assert(outcomes[k - 1] == ConnectOutcome::Failed);
    }
}

/// Ports are tried in listed order, one per step, up to and including the first
/// that does not simply fail; then the probe is over with `probe_status`, and no
/// later port is tried. With every port failing (or none listed) that is `Down`.
pub proof fn lemma_probe_short_circuits(outcomes: Seq<ConnectOutcome>)
    requires
        outcomes.len() <= usize::MAX,
    ensures
        forall|k: nat|
            k < probe_attempts(outcomes) ==> #[trigger] probe_after(outcomes, k)
                == ProbeStep::Attempt(k as usize),
        probe_after(outcomes, probe_attempts(outcomes)) == ProbeStep::Finished(
            probe_status(outcomes),
        ),
        (forall|j: int| 0 <= j < outcomes.len() ==> outcomes[j] == ConnectOutcome::Failed)
            ==> probe_status(outcomes) == Status::Down,
{
    lemma_first_decisive(outcomes, 0);
    let d = first_decisive(outcomes, 0);
    let n = outcomes.len();
    assert forall|k: nat| k < probe_attempts(outcomes) implies #[trigger] probe_after(outcomes, k)
        == ProbeStep::Attempt(k as usize) by {
        lemma_probe_after_prefix(outcomes, k);
    }
    if n > 0 {
        let a = probe_attempts(outcomes);
        lemma_probe_after_prefix(outcomes, (a - 1) as nat);
    }
    if forall|j: int| 0 <= j < outcomes.len() ==> outcomes[j] == ConnectOutcome::Failed {
        if d < n {
            assert(outcomes[d as int] == ConnectOutcome::Failed);
        }
    }
}

} // verus!
