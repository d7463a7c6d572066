use handbrake::error::{FailureKind, OsFailure};
use handbrake::handle::{cancel, cancel_result, kill, InterruptDelivery};
use handbrake::Error;

fn control_failed(action: &'static str, kind: FailureKind, message: &str, code: Option<i32>) -> Error {
    Error::ControlFailed {
        action,
        source: OsFailure { kind, message: String::from(message), os_code: code },
    }
}

#[test]
fn cancel_of_an_exited_process_fails_without_sending_anything() {
    let mut called = false;
    let result = cancel(None, |_| {
        called = true;
        InterruptDelivery::Delivered
    });
    assert!(!called);
    assert_eq!(
        result,
        Err(control_failed("cancel", FailureKind::NotFound, "Process already exited", None))
    );
}

#[test]
fn cancel_of_a_running_process_delivers_the_interrupt_to_it() {
    let mut target = None;
    let result = cancel(Some(4242), |pid| {
        target = Some(pid);
        InterruptDelivery::Delivered
    });
    assert_eq!(result, Ok(()));
    assert_eq!(target, Some(4242));
    let mut wrapped = None;
    let _ = cancel(Some(u32::MAX), |pid| {
        wrapped = Some(pid);
        InterruptDelivery::Delivered
    });
    assert_eq!(wrapped, Some(-1));
}

#[test]
fn failed_delivery_is_a_control_failure_of_cancel() {
    assert_eq!(
        cancel(Some(7), |_| InterruptDelivery::Errno(String::from("ESRCH: No such process"))),
        Err(control_failed(
            "cancel",
            FailureKind::Unsupported,
            "Failed with errno: ESRCH: No such process",
            None
        ))
    );
    assert_eq!(
        cancel_result(InterruptDelivery::Unsupported),
        Err(control_failed(
            "cancel",
            FailureKind::Unsupported,
            "Cancel is not supported on this platform",
            None
        ))
    );
    let refused = OsFailure {
        kind: FailureKind::Other,
        message: String::from("The handle is invalid. (os error 6)"),
        os_code: Some(6),
    };
    assert_eq!(
        cancel_result(InterruptDelivery::Refused(refused)),
        Err(control_failed(
            "cancel",
            FailureKind::Other,
            "The handle is invalid. (os error 6)",
            Some(6)
        ))
    );
    assert_eq!(cancel_result(InterruptDelivery::Delivered), Ok(()));
}

#[test]
fn failed_kill_is_a_control_failure_of_kill() {
    assert_eq!(kill(Ok(())), Ok(()));
    let failure = OsFailure {
        kind: FailureKind::Other,
        message: String::from("invalid argument"),
        os_code: Some(22),
    };
    assert_eq!(
        kill(Err(failure)),
        Err(control_failed("kill", FailureKind::Other, "invalid argument", Some(22)))
    );
}

#[test]
fn spawn_failures_convert_into_errors() {
    let failure = OsFailure {
        kind: FailureKind::NotFound,
        message: String::from("No such file or directory (os error 2)"),
        os_code: Some(2),
    };
    let error: Error = OsFailure {
        kind: FailureKind::NotFound,
        message: String::from("No such file or directory (os error 2)"),
        os_code: Some(2),
    }
    .into();
    assert_eq!(error, Error::ProcessSpawnFailed { source: failure });
}
