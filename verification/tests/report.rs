use credprobe::credential::Credential;
use credprobe::dispatch::ResultEvent;
use credprobe::probe::ProbeOutcome;
use credprobe::registry::Host;
use credprobe::report::Reporter;

fn event(address: &str, username: &str, password: &str, outcome: ProbeOutcome) -> ResultEvent {
    ResultEvent {
        host: Host { index: 0, address: address.to_string() },
        credential: Credential { username: username.to_string(), password: password.to_string() },
        outcome,
    }
}

#[test]
fn a_success_gives_a_passed_line() {
    let line = Reporter::new(0).report(&event("10.1.2.3", "root", "toor", ProbeOutcome::Success));
    assert_eq!(line, Some("PASSED Host: 10.1.2.3, Combo: root:toor".to_string()));
}

#[test]
fn a_success_gives_the_same_line_when_verbose() {
    let line = Reporter::new(3).report(&event("10.1.2.3", "root", "toor", ProbeOutcome::Success));
    assert_eq!(line, Some("PASSED Host: 10.1.2.3, Combo: root:toor".to_string()));
}

#[test]
fn a_failure_gives_a_failed_line_when_verbose() {
    let failure = ProbeOutcome::Failure("Connection refused (os error 111)".to_string());
    let line = Reporter::new(1).report(&event("10.1.2.3", "admin", "admin", failure));
    assert_eq!(
        line,
        Some(
            "FAILED Host: 10.1.2.3, Combo: admin:admin, Cause: Connection refused (os error 111)"
                .to_string()
        )
    );
}

#[test]
fn a_failure_gives_no_line_when_quiet() {
    let failure = ProbeOutcome::Failure("Connection refused".to_string());
    assert_eq!(Reporter::new(0).report(&event("h", "u", "p", failure)), None);
}

#[test]
fn a_negative_verbosity_is_quiet() {
    let failure = ProbeOutcome::Failure("no".to_string());
    assert_eq!(Reporter::new(-1).report(&event("h", "u", "p", failure)), None);
    assert!(!Reporter::new(-1).is_verbose());
}

#[test]
fn verbosity_starts_at_level_one() {
    assert!(!Reporter::new(0).is_verbose());
    assert!(Reporter::new(1).is_verbose());
    assert!(Reporter::new(2).is_verbose());
    assert!(Reporter::new(i32::MAX).is_verbose());
    assert!(!Reporter::new(i32::MIN).is_verbose());
}

#[test]
fn empty_fields_leave_the_frame_of_the_line() {
    assert_eq!(
        Reporter::new(1).report(&event("", "", "", ProbeOutcome::Success)),
        Some("PASSED Host: , Combo: :".to_string())
    );
    assert_eq!(
        Reporter::new(1).report(&event("", "", "", ProbeOutcome::Failure(String::new()))),
        Some("FAILED Host: , Combo: :, Cause: ".to_string())
    );
}
