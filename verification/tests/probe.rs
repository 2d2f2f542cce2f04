use credprobe::probe::{advance, first_stage, service_endpoint, ProbeOutcome, ProbeStage, ProbeStep};

#[test]
fn the_endpoint_is_the_address_with_port_22() {
    assert_eq!(service_endpoint("10.0.0.5"), "10.0.0.5:22");
    assert_eq!(service_endpoint("example.org"), "example.org:22");
    assert_eq!(service_endpoint(""), ":22");
}

#[test]
fn a_probe_begins_by_connecting() {
    assert_eq!(first_stage(), ProbeStage::Connect);
}

#[test]
fn a_stage_that_goes_well_leads_to_the_next() {
    assert!(matches!(
        advance(ProbeStage::Connect, Ok(())),
        ProbeStep::Continue(ProbeStage::Handshake)
    ));
    assert!(matches!(
        advance(ProbeStage::Handshake, Ok(())),
        ProbeStep::Continue(ProbeStage::Authenticate)
    ));
}

#[test]
fn the_probe_succeeds_when_the_credential_is_accepted() {
    assert!(matches!(
        advance(ProbeStage::Authenticate, Ok(())),
        ProbeStep::Finished(ProbeOutcome::Success)
    ));
}

#[test]
fn a_failure_at_any_stage_ends_the_probe_with_its_reason() {
    for stage in [ProbeStage::Connect, ProbeStage::Handshake, ProbeStage::Authenticate] {
        match advance(stage, Err("it broke".to_string())) {
            ProbeStep::Finished(ProbeOutcome::Failure(reason)) => assert_eq!(reason, "it broke"),
            other => panic!("the probe went on: {:?}", other),
        }
    }
}

#[test]
fn three_good_stages_make_a_success() {
    let mut stage = first_stage();
    let mut stages = 1;
    let outcome = loop {
        match advance(stage, Ok(())) {
            ProbeStep::Continue(next) => {
                stage = next;
                stages += 1;
            }
            ProbeStep::Finished(outcome) => break outcome,
        }
    };
    assert_eq!(stages, 3);
    assert!(matches!(outcome, ProbeOutcome::Success));
}
