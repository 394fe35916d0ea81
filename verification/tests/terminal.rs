//! The guard that gives the terminal back.

use foglet_game::terminal::{teardown_outcome, TerminalBackend, TerminalError, TerminalGuard};
use std::cell::RefCell;
use std::rc::Rc;

#[derive(Debug, Clone, Default)]
struct RecordingBackend {
    log: Rc<RefCell<Vec<&'static str>>>,
    fail_enter: bool,
    fail_leave: bool,
}

impl TerminalBackend for RecordingBackend {
    fn enter(&mut self) -> Result<(), TerminalError> {
        self.log.borrow_mut().push("enter");
        if self.fail_enter {
            return Err(TerminalError::Setup("boom".to_string()));
        }
        Ok(())
    }

    fn leave(&mut self) -> Result<(), TerminalError> {
        self.log.borrow_mut().push("leave");
        if self.fail_leave {
            return Err(TerminalError::Teardown("boom".to_string()));
        }
        Ok(())
    }
}

#[test]
fn new_calls_enter_once_and_marks_unclean() {
    let backend = RecordingBackend::default();
    let log = backend.log.clone();
    let guard = TerminalGuard::with_backend(backend).expect("setup ok");
    assert_eq!(*log.borrow(), vec!["enter"]);
    assert!(!guard.is_cleaned(), "fresh guard is not yet cleaned");
    assert!(!guard.backend().fail_leave);
}

#[test]
fn drop_calls_leave_exactly_once() {
    let backend = RecordingBackend::default();
    let log = backend.log.clone();
    {
        let mut guard = TerminalGuard::with_backend(backend).expect("setup ok");
        guard.release();
    }
    assert_eq!(*log.borrow(), vec!["enter", "leave"]);
}

#[test]
fn setup_failure_returns_error_and_skips_leave() {
    let backend = RecordingBackend {
        fail_enter: true,
        ..RecordingBackend::default()
    };
    let log = backend.log.clone();
    let res = TerminalGuard::with_backend(backend);
    assert!(matches!(res, Err(TerminalError::Setup(_))));
    assert_eq!(*log.borrow(), vec!["enter"]);
}

#[test]
fn teardown_failure_in_drop_is_swallowed() {
    let backend = RecordingBackend {
        fail_leave: true,
        ..RecordingBackend::default()
    };
    let log = backend.log.clone();
    {
        let mut guard = TerminalGuard::with_backend(backend).expect("setup ok");
        guard.release();
    }
    assert_eq!(*log.borrow(), vec!["enter", "leave"]);
}

#[test]
fn explicit_cleanup_then_drop_runs_leave_exactly_once() {
    let backend = RecordingBackend::default();
    let log = backend.log.clone();
    {
        let mut guard = TerminalGuard::with_backend(backend).expect("setup ok");
        guard.cleanup().expect("cleanup ok");
        assert!(guard.is_cleaned(), "cleanup must mark guard spent");
        guard.release();
    }
    assert_eq!(*log.borrow(), vec!["enter", "leave"]);
}

#[test]
fn drop_without_explicit_cleanup_still_restores() {
    let backend = RecordingBackend::default();
    let log = backend.log.clone();
    {
        let mut guard = TerminalGuard::with_backend(backend).expect("setup ok");
        guard.release();
        assert!(guard.is_cleaned());
    }
    assert_eq!(*log.borrow(), vec!["enter", "leave"]);
}

#[test]
fn double_cleanup_is_a_noop() {
    let backend = RecordingBackend::default();
    let log = backend.log.clone();
    let mut guard = TerminalGuard::with_backend(backend).expect("setup ok");
    guard.cleanup().expect("first cleanup ok");
    guard.cleanup().expect("second cleanup is a noop");
    guard.release();
    assert_eq!(*log.borrow(), vec!["enter", "leave"]);
}

#[test]
fn cleanup_surfaces_teardown_error_and_marks_spent() {
    let backend = RecordingBackend {
        fail_leave: true,
        ..RecordingBackend::default()
    };
    let log = backend.log.clone();
    let mut guard = TerminalGuard::with_backend(backend).expect("setup ok");
    let res = guard.cleanup();
    assert!(matches!(res, Err(TerminalError::Teardown(_))));
    assert!(guard.is_cleaned(), "failed cleanup still marks guard spent");
    guard.release();
    assert_eq!(*log.borrow(), vec!["enter", "leave"]);
}

#[test]
fn teardown_reports_the_first_failure() {
    let screen = || Err("screen".to_string());
    let raw = || Err("raw".to_string());
    assert_eq!(teardown_outcome(Ok(()), Ok(())), Ok(()));
    assert_eq!(
        teardown_outcome(screen(), raw()),
        Err(TerminalError::Teardown("screen".to_string()))
    );
    assert_eq!(
        teardown_outcome(screen(), Ok(())),
        Err(TerminalError::Teardown("screen".to_string()))
    );
    assert_eq!(
        teardown_outcome(Ok(()), raw()),
        Err(TerminalError::Teardown("raw".to_string()))
    );
}

#[test]
fn terminal_errors_say_what_failed() {
    assert_eq!(
        TerminalError::Setup("no tty".to_string()).message(),
        "failed to enter raw mode + alternate screen: no tty"
    );
    assert_eq!(
        TerminalError::Teardown("gone".to_string()).message(),
        "failed to restore terminal: gone"
    );
}
