//! The control of a running job: what a request to stop the process comes
//! to, given what the operating system made of it.

use vstd::prelude::*;
use vstd::string::StringExecFns;

use crate::error::{Error, ErrorView, FailureKind, OsFailure, OsFailureView};

verus! {

/// The name of the graceful stop, as errors report it.
pub const CANCEL: &'static str = "cancel";

/// The name of the forceful stop, as errors report it.
pub const KILL: &'static str = "kill";

/// How an attempt to deliver the interrupt to the process ended.
#[derive(Debug, PartialEq, Eq)]
pub enum InterruptDelivery {
    /// The interrupt was delivered.
    Delivered,
    /// The signal could not be sent; the text is that of the error number.
    Errno(String),
    /// The console control event could not be generated.
    Refused(OsFailure),
    /// The platform has no way to interrupt a process.
    Unsupported,
}

/// The failure of a graceful stop when the process has exited already.
pub open spec fn already_exited() -> ErrorView {
    ErrorView::ControlFailed {
        action: CANCEL@,
        source: OsFailureView {
            kind: FailureKind::NotFound,
            message: "Process already exited"@,
            os_code: None,
        },
    }
}

/// What a graceful stop comes to, given how the delivery of the interrupt
/// ended: success where it was delivered, else a control failure of the
/// action `cancel` that holds the reason.
pub open spec fn cancel_outcome(delivery: InterruptDelivery) -> Result<(), ErrorView> {
    match delivery {
        InterruptDelivery::Delivered => Ok(()),
        InterruptDelivery::Errno(errno) => Err(
            ErrorView::ControlFailed {
                action: CANCEL@,
                source: OsFailureView {
                    kind: FailureKind::Unsupported,
                    message: "Failed with errno: "@ + errno@,
                    os_code: None,
                },
            },
        ),
        InterruptDelivery::Refused(failure) => Err(
            ErrorView::ControlFailed { action: CANCEL@, source: failure@ },
        ),
        InterruptDelivery::Unsupported => Err(
            ErrorView::ControlFailed {
                action: CANCEL@,
                source: OsFailureView {
                    kind: FailureKind::Unsupported,
                    message: "Cancel is not supported on this platform"@,
                    os_code: None,
                },
            },
        ),
    }
}

/// What a forceful stop comes to, given how the attempt ended.
pub open spec fn kill_outcome(attempt: Result<(), OsFailure>) -> Result<(), ErrorView> {
    match attempt {
        Ok(()) => Ok(()),
        Err(failure) => Err(ErrorView::ControlFailed { action: KILL@, source: failure@ }),
    }
}

/// The value of a result whose error is an [`Error`].
pub open spec fn outcome_view(r: Result<(), Error>) -> Result<(), ErrorView> {
    match r {
        Ok(()) => Ok(()),
        Err(e) => Err(e@),
    }
}

/// Says what a graceful stop comes to, given how the delivery of the
/// interrupt ended.
pub fn cancel_result(delivery: InterruptDelivery) -> (r: Result<(), Error>)
    ensures
        outcome_view(r) == cancel_outcome(delivery),
{
    match delivery {
        InterruptDelivery::Delivered => Ok(()),
        InterruptDelivery::Errno(errno) => {
            let mut message = String::from_str("Failed with errno: ");
            message.append(errno.as_str());
            Err(
                Error::ControlFailed {
                    action: CANCEL,
                    source: OsFailure { kind: FailureKind::Unsupported, message, os_code: None },
                },
            )
        },
        InterruptDelivery::Refused(failure) => Err(
            Error::ControlFailed { action: CANCEL, source: failure },
        ),
        InterruptDelivery::Unsupported => Err(
            Error::ControlFailed {
                action: CANCEL,
                source: OsFailure {
                    kind: FailureKind::Unsupported,
                    message: String::from_str("Cancel is not supported on this platform"),
                    os_code: None,
                },
            },
        ),
    }
}

/// Attempts to gracefully shut down the process, whose id is `pid` while it
/// runs and `None` once it has exited.
///
/// A process that has exited cannot be stopped: the call fails at once, and
/// `deliver` is not called. For a running process `deliver` is called with
/// its id to deliver the interrupt, and the result is what
/// [`cancel_result`] makes of the delivery.
pub fn cancel<F: FnOnce(i32) -> InterruptDelivery>(pid: Option<u32>, deliver: F) -> (r: Result<
    (),
    Error,
>)
    requires
        forall|target: i32| deliver.requires((target,)),
    ensures
        match pid {
            None => outcome_view(r) == Err::<(), ErrorView>(already_exited()),
            Some(id) => exists|delivery: InterruptDelivery|
                deliver.ensures((id as i32,), delivery) && outcome_view(r) == cancel_outcome(
                    delivery,
                ),
        },
{
    match pid {
        None => Err(
            Error::ControlFailed {
                action: CANCEL,
                source: OsFailure {
                    kind: FailureKind::NotFound,
                    message: String::from_str("Process already exited"),
                    os_code: None,
                },
            },
        ),
        Some(id) => {
            let target = #[verifier::truncate]
            (id as i32);
            cancel_result(deliver(target))
        },
    }
}

/// Says what a forceful stop comes to, given how the attempt to terminate
/// the process ended: a failed attempt is a control failure of the action
/// `kill`.
pub fn kill(attempt: Result<(), OsFailure>) -> (r: Result<(), Error>)
    ensures
        outcome_view(r) == kill_outcome(attempt),
{
    match attempt {
        Ok(()) => Ok(()),
        Err(failure) => Err(Error::ControlFailed { action: KILL, source: failure }),
    }
}

} // verus!
