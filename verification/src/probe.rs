//! The probe, as far as it is a matter of rules.
//!
//! A probe connects to the host on the port of the service, shakes hands and
//! then offers the credential. Each of the three stages may fail, and the
//! first failure ends the probe: which stage it was makes no difference to
//! what follows. Doing the stages is the caller's part; what comes next after
//! each is decided here.

use vstd::prelude::*;
use vstd::string::*;

verus! {

/// How a probe ended.
#[derive(Debug)]
pub enum ProbeOutcome {
    /// The host accepted the credential.
    Success,
    /// The probe failed, at whatever stage; the text says why.
    Failure(String),
}

/// What a `ProbeOutcome` stands for.
pub enum OutcomeView {
    Success,
    Failure(Seq<char>),
}

impl View for ProbeOutcome {
    type V = OutcomeView;

    open spec fn view(&self) -> OutcomeView {
        match self {
            ProbeOutcome::Success => OutcomeView::Success,
            ProbeOutcome::Failure(reason) => OutcomeView::Failure(reason@),
        }
    }
}

/// A stage of a probe, in the order in which the stages are gone through.
#[derive(Clone, Copy, Debug, PartialEq, Eq, Structural)]
pub enum ProbeStage {
    /// Open the connection to the host.
    Connect,
    /// Shake hands over the connection.
    Handshake,
    /// Offer the user name and the password.
    Authenticate,
}

/// What follows a stage.
#[derive(Debug)]
pub enum ProbeStep {
    /// Go on with this stage.
    Continue(ProbeStage),
    /// The probe is over, with this outcome.
    Finished(ProbeOutcome),
}

/// What a `ProbeStep` stands for.
pub enum StepView {
    Continue(ProbeStage),
    Finished(OutcomeView),
}

impl View for ProbeStep {
    type V = StepView;

    open spec fn view(&self) -> StepView {
        match self {
            ProbeStep::Continue(stage) => StepView::Continue(*stage),
            ProbeStep::Finished(outcome) => StepView::Finished(outcome@),
        }
    }
}

/// What a stage's result stands for: nothing if it went well, else the
/// reason why it did not.
pub open spec fn failure_of(result: Result<(), String>) -> Option<Seq<char>> {
    match result {
        Ok(_) => None,
        Err(reason) => Some(reason@),
    }
}

/// What follows a stage that ended as given: a failure ends the probe with
/// its reason, a stage that went well leads to the next, and after the last
/// the probe has succeeded.
pub open spec fn step_after(stage: ProbeStage, failure: Option<Seq<char>>) -> StepView {
    match failure {
        Some(reason) => StepView::Finished(OutcomeView::Failure(reason)),
        None => match stage {
            ProbeStage::Connect => StepView::Continue(ProbeStage::Handshake),
            ProbeStage::Handshake => StepView::Continue(ProbeStage::Authenticate),
            ProbeStage::Authenticate => StepView::Finished(OutcomeView::Success),
        },
    }
}

/// The address to connect to for a host: the host's address, a `:` and the
/// port of the service, which is 22.
pub open spec fn endpoint_of(address: Seq<char>) -> Seq<char> {
    address + ":22"@
}

/// The address to connect to for a host.
pub fn service_endpoint(address: &str) -> (endpoint: String)
    ensures
        endpoint@ == endpoint_of(address@),
{
    let mut endpoint = String::from_str(address);
    endpoint.append(":22");
    endpoint
}

/// The stage with which every probe begins.
pub fn first_stage() -> (stage: ProbeStage)
    ensures
        stage == ProbeStage::Connect,
{
    ProbeStage::Connect
}

/// Decides what follows a stage, from how the stage ended.
pub fn advance(stage: ProbeStage, result: Result<(), String>) -> (step: ProbeStep)
    ensures
        step@ == step_after(stage, failure_of(result)),
{
    match result {
        Err(reason) => ProbeStep::Finished(ProbeOutcome::Failure(reason)),
        Ok(_) => match stage {
            ProbeStage::Connect => ProbeStep::Continue(ProbeStage::Handshake),
            ProbeStage::Handshake => ProbeStep::Continue(ProbeStage::Authenticate),
            ProbeStage::Authenticate => ProbeStep::Finished(ProbeOutcome::Success),
        },
    }
}

/// Where a probe stands after the stages gone through so far have ended as
/// `results` say, each with nothing or with the reason of its failure. A
/// probe begins with the first stage, and once it is over no stage follows.
pub open spec fn probe_after(results: Seq<Option<Seq<char>>>) -> StepView
    decreases results.len(),
{
    if results.len() == 0 {
        StepView::Continue(ProbeStage::Connect)
    } else {
        match probe_after(results.drop_last()) {
            StepView::Continue(stage) => step_after(stage, results.last()),
            StepView::Finished(outcome) => StepView::Finished(outcome),
        }
    }
}

/// The stage that comes after `n` stages that went well.
pub open spec fn stage_number(n: int) -> ProbeStage {
    if n <= 0 {
        ProbeStage::Connect
    } else if n == 1 {
        ProbeStage::Handshake
    } else {
        ProbeStage::Authenticate
    }
}

/// The course of every probe. It goes on as long as fewer than three stages
/// have ended and all of them went well. It has succeeded exactly when three
/// stages went well. It has failed exactly when one of its three stages
/// failed, and then with the reason of the first that did.
pub proof fn lemma_probe_course(results: Seq<Option<Seq<char>>>)
    ensures
        match probe_after(results) {
            StepView::Continue(stage) => {
                &&& results.len() < 3
                &&& stage == stage_number(results.len() as int)
                &&& forall|k: int| 0 <= k < results.len() ==> results[k] is None
            },
            StepView::Finished(OutcomeView::Success) => {
                &&& results.len() >= 3
                &&& forall|k: int| 0 <= k < 3 ==> results[k] is None
            },
            StepView::Finished(OutcomeView::Failure(reason)) => {
                exists|first: int|
                    {
                        &&& 0 <= first < results.len()
                        &&& first < 3
                        &&& #[trigger] results[first] == Some(reason)
                        &&& forall|k: int| 0 <= k < first ==> results[k] is None
                    }
            },
        },
    decreases results.len(),
{
    if results.len() > 0 {
        let earlier = results.drop_last();
        lemma_probe_course(earlier);
        match probe_after(earlier) {
            StepView::Continue(stage) => {
                assert forall|k: int| 0 <= k < earlier.len() implies results[k] is None by {
                    assert(earlier[k] is None);
                }
                match results.last() {
                    Some(reason) => {
                        assert(results[results.len() - 1] == Some(reason));
                    },
                    None => {},
                }
            },
            StepView::Finished(OutcomeView::Success) => {
                assert forall|k: int| 0 <= k < 3 implies results[k] is None by {
                    assert(earlier[k] is None);
                }
            },
            StepView::Finished(OutcomeView::Failure(reason)) => {
                let first = choose|first: int|
                    {
                        &&& 0 <= first < earlier.len()
                        &&& first < 3
                        &&& #[trigger] earlier[first] == Some(reason)
                        &&& forall|k: int| 0 <= k < first ==> earlier[k] is None
                    };
                assert(results[first] == Some(reason));
                assert forall|k: int| 0 <= k < first implies results[k] is None by {
                    assert(earlier[k] is None);
                }
            },
        }
    }
}

} // verus!
