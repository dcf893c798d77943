use sysworxx_io_py::{to_py_error, to_py_result, IoError, PyExceptionKind};

#[test]
fn value_errors() {
    let e = to_py_error(&IoError::InvalidChannel, "invalid channel");
    assert_eq!(e.kind, PyExceptionKind::ValueError);
    assert_eq!(e.message, "invalid channel");
    let e = to_py_error(&IoError::InvalidParameter, "invalid parameter");
    assert_eq!(e.kind, PyExceptionKind::ValueError);
    assert_eq!(e.message, "invalid parameter");
}

#[test]
fn not_implemented_error() {
    let e = to_py_error(&IoError::NotImplemented, "not implemented");
    assert_eq!(e.kind, PyExceptionKind::NotImplementedError);
    assert_eq!(e.message, "not implemented");
}

#[test]
fn runtime_errors() {
    for err in [IoError::WatchdogTimeout, IoError::ParseIntError, IoError::GenericError] {
        let e = to_py_error(&err, "failure");
        assert_eq!(e.kind, PyExceptionKind::RuntimeError);
        assert_eq!(e.message, "failure");
    }
}

#[test]
fn access_failed_adds_the_code() {
    let e = to_py_error(&IoError::AccessFailed(13), "access failed");
    assert_eq!(e.kind, PyExceptionKind::OSError);
    assert_eq!(e.message, "access failed (13)");
    let e = to_py_error(&IoError::AccessFailed(-5), "access failed");
    assert_eq!(e.message, "access failed (-5)");
    let e = to_py_error(&IoError::AccessFailed(0), "x");
    assert_eq!(e.message, "x (0)");
    let e = to_py_error(&IoError::AccessFailed(i32::MIN), "x");
    assert_eq!(e.message, format!("x ({})", i32::MIN));
    let e = to_py_error(&IoError::AccessFailed(i32::MAX), "x");
    assert_eq!(e.message, format!("x ({})", i32::MAX));
}

#[test]
fn results_pass_values_and_convert_errors() {
    let ok: Result<i64, IoError> = Ok(42);
    assert_eq!(to_py_result(ok, "unused").ok(), Some(42));
    let err: Result<bool, IoError> = Err(IoError::InvalidChannel);
    let e = to_py_result(err, "invalid channel").err().unwrap();
    assert_eq!(e.kind, PyExceptionKind::ValueError);
    assert_eq!(e.message, "invalid channel");
}
