//! What a worker does with one task, around the probe itself.
//!
//! A task is handled in two steps with the probe between them. Before the
//! probe the host's flag is read: a host that already has a credential is
//! not probed again. After the probe the flag is set on success, and read
//! once more on failure: a failure on a host that got its credential while
//! the probe was under way is not reported. The probe is the caller's part;
//! other workers may run their own steps while it lasts.

use crate::credential::{Credential, CredentialView};
use crate::probe::{OutcomeView, ProbeOutcome};
use crate::registry::{Host, HostRegistry, HostView};
use crate::task_space::{ProbeTask, ProbeTaskView};
use vstd::prelude::*;

verus! {

/// What to do with a task that is about to be probed.
#[derive(Clone, Copy, Debug, PartialEq, Eq, Structural)]
pub enum Decision {
    /// The host already has a credential: leave the task alone.
    Skip,
    /// Make the probe.
    Probe,
}

/// A result to report: how the probe of a credential on a host ended.
#[derive(Debug)]
pub struct ResultEvent {
    pub host: Host,
    pub credential: Credential,
    pub outcome: ProbeOutcome,
}

/// What a `ResultEvent` stands for.
pub struct EventView {
    pub host: HostView,
    pub credential: CredentialView,
    pub outcome: OutcomeView,
}

impl View for ResultEvent {
    type V = EventView;

    open spec fn view(&self) -> EventView {
        EventView { host: self.host@, credential: self.credential@, outcome: self.outcome@ }
    }
}

/// The decision before the probe, from the flags as they are then.
pub open spec fn decision_for(found: Seq<bool>, host: int) -> Decision {
    if found[host] {
        Decision::Skip
    } else {
        Decision::Probe
    }
}

/// The flags after a probe of `host` has ended, from the flags as they were
/// when it ended: a success sets the host's flag, a failure sets nothing.
pub open spec fn found_after(found: Seq<bool>, host: int, outcome: OutcomeView) -> Seq<bool> {
    match outcome {
        OutcomeView::Success => found.update(host, true),
        OutcomeView::Failure(_) => found,
    }
}

/// The flags after a number of probes have ended one after another, each
/// given by its host and its outcome, in whatever order the workers got to
/// their second checkpoint.
pub open spec fn found_after_all(found: Seq<bool>, ends: Seq<(int, OutcomeView)>) -> Seq<bool>
    decreases ends.len(),
{
    if ends.len() == 0 {
        found
    } else {
        found_after(found_after_all(found, ends.drop_last()), ends.last().0, ends.last().1)
    }
}

/// Whether every probe of `ends` was one of a host that has a flag.
pub open spec fn ends_in_range(found: Seq<bool>, ends: Seq<(int, OutcomeView)>) -> bool {
    forall|k: int| 0 <= k < ends.len() ==> 0 <= (#[trigger] ends[k]).0 < found.len()
}

/// Whether one of the probes of `ends` was a success on `host`.
pub open spec fn succeeded_on(ends: Seq<(int, OutcomeView)>, host: int) -> bool {
    exists|k: int| 0 <= k < ends.len() && #[trigger] ends[k] == (host, OutcomeView::Success)
}

/// Whether the end of a probe is reported, from the flags as they were when
/// it ended: a success always is, a failure only while the host has no
/// credential.
pub open spec fn is_reported(found: Seq<bool>, host: int, outcome: OutcomeView) -> bool {
    match outcome {
        OutcomeView::Success => true,
        OutcomeView::Failure(_) => !found[host],
    }
}

/// The event that the end of a probe gives rise to, if any.
pub open spec fn event_for(
    found: Seq<bool>,
    task: ProbeTaskView,
    outcome: OutcomeView,
) -> Option<EventView> {
    if is_reported(found, task.host.index as int, outcome) {
        Some(EventView { host: task.host, credential: task.credential, outcome })
    } else {
        None
    }
}

/// The view of an event that may be missing.
pub open spec fn event_view(event: Option<ResultEvent>) -> Option<EventView> {
    match event {
        Some(e) => Some(e@),
        None => None,
    }
}

/// The first checkpoint. Tells whether the task is still worth a probe: it is
/// not once its host has a credential.
pub fn before_probe(registry: &HostRegistry, task: &ProbeTask) -> (decision: Decision)
    requires
        task.host.index < registry@.hosts.len(),
    ensures
        decision == decision_for(registry@.found, task.host.index as int),
{
    if registry.is_found(task.host.index) {
        Decision::Skip
    } else {
        Decision::Probe
    }
}

/// The second checkpoint. Takes the outcome of the task's probe and the
/// registry as it is now, which other workers may have changed since the
/// first checkpoint.
///
/// A success marks the host and is always handed back as an event, also when
/// the host was marked already. A failure marks nothing, and is handed back
/// only if the host is still unmarked.
pub fn after_probe(registry: &mut HostRegistry, task: ProbeTask, outcome: ProbeOutcome) -> (event:
    Option<ResultEvent>)
    requires
        task.host.index < old(registry)@.hosts.len(),
    ensures
        old(registry)@.wf() ==> final(registry)@.wf(),
        final(registry)@.hosts == old(registry)@.hosts,
        final(registry)@.found == found_after(
            old(registry)@.found,
            task.host.index as int,
            outcome@,
        ),
        event_view(event) == event_for(old(registry)@.found, task@, outcome@),
{
    match outcome {
        ProbeOutcome::Success => {
            registry.mark_found(task.host.index);
            Some(
                ResultEvent {
                    host: task.host,
                    credential: task.credential,
                    outcome: ProbeOutcome::Success,
                },
            )
        },
        ProbeOutcome::Failure(reason) => {
            if registry.is_found(task.host.index) {
                None
            } else {
                Some(
                    ResultEvent {
                        host: task.host,
                        credential: task.credential,
                        outcome: ProbeOutcome::Failure(reason),
                    },
                )
            }
        },
    }
}

/// A flag that is set stays set, whatever probe ends and however, and the
/// number of flags never changes.
pub proof fn lemma_found_is_monotonic(found: Seq<bool>, host: int, outcome: OutcomeView)
    requires
        0 <= host < found.len(),
    ensures
        found_after(found, host, outcome).len() == found.len(),
        forall|other: int|
            0 <= other < found.len() && found[other] ==> found_after(found, host, outcome)[other],
{
}

/// The end of a probe changes no flag but that of its own host, and that one
/// only on success.
pub proof fn lemma_only_success_marks(
    found: Seq<bool>,
    host: int,
    outcome: OutcomeView,
    other: int,
)
    requires
        0 <= host < found.len(),
        0 <= other < found.len(),
    ensures
        found_after(found, host, outcome)[other] == (found[other] || (other == host
            && outcome is Success)),
{
}

/// Once a probe of a host has succeeded, every task of that host is skipped
/// at the first checkpoint, and a failure of a probe of that host that was
/// under way is not reported at the second.
pub proof fn lemma_success_closes_host(found: Seq<bool>, host: int, reason: Seq<char>)
    requires
        0 <= host < found.len(),
    ensures
        decision_for(found_after(found, host, OutcomeView::Success), host) == Decision::Skip,
        !is_reported(
            found_after(found, host, OutcomeView::Success),
            host,
            OutcomeView::Failure(reason),
        ),
{
}

/// While a host has no credential, each of its tasks is probed, and each
/// failure is reported and leaves the flags as they were.
pub proof fn lemma_failure_keeps_host_open(found: Seq<bool>, host: int, reason: Seq<char>)
    requires
        0 <= host < found.len(),
        !found[host],
    ensures
        decision_for(found, host) == Decision::Probe,
        is_reported(found, host, OutcomeView::Failure(reason)),
        found_after(found, host, OutcomeView::Failure(reason)) == found,
{
}

/// Marking a host that is already marked changes nothing: a second success
/// leaves the flags as the first left them.
pub proof fn lemma_marking_is_idempotent(found: Seq<bool>, host: int)
    requires
        0 <= host < found.len(),
    ensures
        found_after(found_after(found, host, OutcomeView::Success), host, OutcomeView::Success)
            == found_after(found, host, OutcomeView::Success),
        found[host] ==> found_after(found, host, OutcomeView::Success) == found,
{
    assert(found.update(host, true).update(host, true) =~= found.update(host, true));
    if found[host] {
        assert(found.update(host, true) =~= found);
    }
}

/// However many probes end and in whatever order, a host has its flag set
/// afterwards exactly if it had it before or one of the probes succeeded on
/// it. So a flag never goes back, and nothing but a success sets it.
pub proof fn lemma_resolved_by_success_alone(
    found: Seq<bool>,
    ends: Seq<(int, OutcomeView)>,
    host: int,
)
    requires
        0 <= host < found.len(),
        ends_in_range(found, ends),
    ensures
        found_after_all(found, ends).len() == found.len(),
        found_after_all(found, ends)[host] == (found[host] || succeeded_on(ends, host)),
    decreases ends.len(),
{
    if ends.len() > 0 {
        let earlier = ends.drop_last();
        assert(ends_in_range(found, earlier)) by {
            assert forall|k: int| 0 <= k < earlier.len() implies 0 <= (#[trigger] earlier[k]).0
                < found.len() by {
                assert(earlier[k] == ends[k]);
            }
        }
        lemma_resolved_by_success_alone(found, earlier, host);
        let last = ends.last();
        assert(0 <= last.0 < found.len());
        if succeeded_on(earlier, host) {
            let k = choose|k: int|
                0 <= k < earlier.len() && #[trigger] earlier[k] == (host, OutcomeView::Success);
            assert(ends[k] == (host, OutcomeView::Success));
        }
        if last == (host, OutcomeView::Success) {
            assert(ends[ends.len() - 1] == (host, OutcomeView::Success));
        }
        if succeeded_on(ends, host) {
            let k = choose|k: int|
                0 <= k < ends.len() && #[trigger] ends[k] == (host, OutcomeView::Success);
            if k < earlier.len() {
                assert(earlier[k] == (host, OutcomeView::Success));
            }
        }
    }
}

/// As long as no probe has succeeded, no flag is set: whatever failures have
/// come in, every task is still probed and every failure is still reported.
pub proof fn lemma_failures_change_nothing(found: Seq<bool>, ends: Seq<(int, OutcomeView)>)
    requires
        ends_in_range(found, ends),
        forall|k: int| 0 <= k < ends.len() ==> (#[trigger] ends[k]).1 is Failure,
    ensures
        found_after_all(found, ends) == found,
    decreases ends.len(),
{
    if ends.len() > 0 {
        let earlier = ends.drop_last();
        assert forall|k: int| 0 <= k < earlier.len() implies 0 <= (#[trigger] earlier[k]).0
            < found.len() && earlier[k].1 is Failure by {
            assert(earlier[k] == ends[k]);
        }
        lemma_failures_change_nothing(found, earlier);
        assert(ends[ends.len() - 1].1 is Failure);
    }
}

/// Once a probe has succeeded on a host, and whatever other probes have ended
/// since, every task of the host that comes to its first checkpoint is
/// skipped, and every failure on the host that comes to its second is
/// dropped. What is wasted on a host after its success is what was under way
/// when the success came.
pub proof fn lemma_short_circuit(
    found: Seq<bool>,
    host: int,
    later: Seq<(int, OutcomeView)>,
    reason: Seq<char>,
)
    requires
        0 <= host < found.len(),
        ends_in_range(found, later),
    ensures
        decision_for(
            found_after_all(found_after(found, host, OutcomeView::Success), later),
            host,
        ) == Decision::Skip,
        !is_reported(
            found_after_all(found_after(found, host, OutcomeView::Success), later),
            host,
            OutcomeView::Failure(reason),
        ),
{
    let marked = found_after(found, host, OutcomeView::Success);
    assert(ends_in_range(marked, later));
    lemma_resolved_by_success_alone(marked, later, host);
}

} // verus!
