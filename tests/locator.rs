use cniguru::netns::{handle_path, identify_args, identify_outcome, registry_dir, source_path};
use cniguru::{Container, ContainerRuntime, Locator, LocatorAction, LocatorEvent, NetnsError, Phase, PidError};

fn identified(success: bool, stdout: &str, stderr: &str) -> LocatorEvent {
    LocatorEvent::Identified {
        success,
        code: if success { Some(0) } else { Some(1) },
        stdout: stdout.to_string(),
        stderr: stderr.to_string(),
    }
}

#[test]
fn paths_name_the_pid() {
    assert_eq!(registry_dir(), "/var/run/netns");
    assert_eq!(handle_path(4242), "/var/run/netns/ns-4242");
    assert_eq!(handle_path(0), "/var/run/netns/ns-0");
    assert_eq!(source_path(17), "/proc/17/ns/net");
    assert_eq!(source_path(4294967295), "/proc/4294967295/ns/net");
    assert_eq!(identify_args(305), vec!["netns".to_string(), "identify".to_string(), "305".to_string()]);
}

#[test]
fn existing_handle_is_left_in_place() {
    let mut l = Locator::new(12);
    assert_eq!(l.action(), LocatorAction::CheckHandle);
    assert_eq!(l.step(LocatorEvent::HandleExists(true)), LocatorAction::RunIdentify);
    assert_eq!(l.step(identified(true, "ns-12\n", "")), LocatorAction::Finish);
    assert!(!l.created);
    assert_eq!(l.phase, Phase::Done);
    assert_eq!(l.outcome, Some(Ok("ns-12".to_string())));
}

#[test]
fn created_handle_is_removed_after_lookup() {
    let mut l = Locator::new(12);
    assert_eq!(l.step(LocatorEvent::HandleExists(false)), LocatorAction::CreateHandle);
    assert_eq!(l.step(LocatorEvent::HandleCreated), LocatorAction::RunIdentify);
    assert!(l.created);
    assert_eq!(l.step(identified(true, "  ns-12  \n", "")), LocatorAction::RemoveHandle);
    assert_eq!(l.step(LocatorEvent::HandleRemoved), LocatorAction::Finish);
    assert_eq!(l.outcome, Some(Ok("ns-12".to_string())));
}

#[test]
fn failed_identify_is_reported_and_handle_removed() {
    let mut l = Locator::new(7);
    l.step(LocatorEvent::HandleExists(false));
    l.step(LocatorEvent::HandleCreated);
    assert_eq!(l.step(identified(false, "", "no such pid")), LocatorAction::RemoveHandle);
    assert_eq!(l.step(LocatorEvent::HandleRemoved), LocatorAction::Finish);
    assert_eq!(
        l.outcome,
        Some(Err(NetnsError::IdentifyFailed { pid: 7, code: Some(1), stderr: "no such pid".to_string() }))
    );
}

#[test]
fn cleanup_failure_is_visible() {
    let mut l = Locator::new(7);
    l.step(LocatorEvent::HandleExists(false));
    l.step(LocatorEvent::HandleCreated);
    l.step(identified(true, "ns-7", ""));
    assert_eq!(l.step(LocatorEvent::IoFailed("permission denied".to_string())), LocatorAction::Finish);
    assert_eq!(l.outcome, Some(Err(NetnsError::Io { details: "permission denied".to_string() })));
}

#[test]
fn create_failure_ends_lookup() {
    let mut l = Locator::new(7);
    l.step(LocatorEvent::HandleExists(false));
    assert_eq!(l.step(LocatorEvent::IoFailed("read-only".to_string())), LocatorAction::Finish);
    assert!(!l.created);
    assert_eq!(l.outcome, Some(Err(NetnsError::Io { details: "read-only".to_string() })));
}

#[test]
fn unexpected_event_changes_nothing() {
    let mut l = Locator::new(3);
    assert_eq!(l.step(LocatorEvent::HandleRemoved), LocatorAction::CheckHandle);
    assert_eq!(l.phase, Phase::Checking);
    assert_eq!(l.outcome, None);
}

#[test]
fn identify_output_is_trimmed() {
    assert_eq!(identify_outcome(1, true, Some(0), "\t cni-123 \r\n", ""), Ok("cni-123".to_string()));
    assert_eq!(identify_outcome(1, true, Some(0), "", ""), Ok(String::new()));
}

#[test]
fn docker_pid_is_read_from_output() {
    let c = Container { id: "abc123".to_string(), node_name: None, runtime: ContainerRuntime::Docker };
    assert_eq!(
        c.inspect_args(),
        vec!["inspect".to_string(), "abc123".to_string(), "--format".to_string(), "{{.State.Pid}}".to_string()]
    );
    assert_eq!(c.pid_from_output(true, Some(0), "31337\n", ""), Ok(31337));
    assert_eq!(
        c.pid_from_output(true, Some(0), "x1\n", ""),
        Err(PidError::NotAPid { output: "x1\n".to_string() })
    );
    assert_eq!(
        c.pid_from_output(true, Some(0), "4294967296", ""),
        Err(PidError::NotAPid { output: "4294967296".to_string() })
    );
    assert_eq!(
        c.pid_from_output(false, Some(1), "", "No such object"),
        Err(PidError::InspectFailed { id: "abc123".to_string(), code: Some(1), stderr: "No such object".to_string() })
    );
}

#[test]
fn version_line() {
    assert_eq!(cniguru::version("0.2.1", "2018-07-01"), "yacht 0.2.1 (2018-07-01)");
}

#[test]
fn docker_pid_accepts_plus_sign_and_unicode_space() {
    let c = Container { id: "c1".to_string(), node_name: None, runtime: ContainerRuntime::Docker };
    assert_eq!(c.pid_from_output(true, Some(0), "+5", ""), Ok(5));
    assert_eq!(c.pid_from_output(true, Some(0), "\u{a0}\u{b}42\u{c}\u{3000}", ""), Ok(42));
    assert_eq!(c.pid_from_output(true, Some(0), "+", ""), Err(PidError::NotAPid { output: "+".to_string() }));
    assert_eq!(c.pid_from_output(true, Some(0), "-5", ""), Err(PidError::NotAPid { output: "-5".to_string() }));
    assert_eq!(c.pid_from_output(true, Some(0), "++5", ""), Err(PidError::NotAPid { output: "++5".to_string() }));
    assert_eq!(c.pid_from_output(true, Some(0), "", ""), Err(PidError::NotAPid { output: String::new() }));
}

#[test]
fn identify_output_trims_unicode_space() {
    assert_eq!(identify_outcome(9, true, Some(0), "\u{85}ns-9\u{2028}", ""), Ok("ns-9".to_string()));
    assert_eq!(
        identify_outcome(9, false, None, "", "gone"),
        Err(NetnsError::IdentifyFailed { pid: 9, code: None, stderr: "gone".to_string() })
    );
}
