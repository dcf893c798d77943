//! How errors of the I/O library are raised in Python.
use vstd::prelude::*;

use crate::text::{
    digits_value, is_digit, lemma_decimal_reads_back, push_signed_decimal, signed_decimal,
};

verus! {

/// The errors that the I/O library reports.
#[derive(PartialEq, Eq, Structural, Debug, Clone, Copy)]
pub enum IoError {
    InvalidChannel,
    InvalidParameter,
    NotImplemented,
    WatchdogTimeout,
    /// Access to the hardware failed with the given OS error code.
    AccessFailed(i32),
    ParseIntError,
    GenericError,
}

/// The Python exception classes that I/O errors are raised as.
#[derive(PartialEq, Eq, Structural, Debug, Clone, Copy)]
pub enum PyExceptionKind {
    ValueError,
    NotImplementedError,
    RuntimeError,
    OSError,
}

/// A Python exception to raise: its class and its message.
pub struct PyErrorSpec {
    pub kind: PyExceptionKind,
    pub message: String,
}

/// The exception class an I/O error is raised as.
pub open spec fn exception_kind(err: IoError) -> PyExceptionKind {
    match err {
        IoError::InvalidChannel => PyExceptionKind::ValueError,
        IoError::InvalidParameter => PyExceptionKind::ValueError,
        IoError::NotImplemented => PyExceptionKind::NotImplementedError,
        IoError::WatchdogTimeout => PyExceptionKind::RuntimeError,
        IoError::AccessFailed(_) => PyExceptionKind::OSError,
        IoError::ParseIntError => PyExceptionKind::RuntimeError,
        IoError::GenericError => PyExceptionKind::RuntimeError,
    }
}

/// The exception message for an I/O error whose own description is
/// `text`: the description, and for a failed access also the OS error
/// code in brackets.
pub open spec fn exception_message(err: IoError, text: Seq<char>) -> Seq<char> {
    match err {
        IoError::AccessFailed(code) => text + " ("@ + signed_decimal(code as int) + ")"@,
        _ => text,
    }
}

/// The exception class of each I/O error: invalid channels and parameters
/// are `ValueError`, a missing implementation is `NotImplementedError`, a
/// failed hardware access is `OSError` whatever its code, and the rest are
/// `RuntimeError`.
pub proof fn lemma_exception_classes(code: i32)
    ensures
        exception_kind(IoError::InvalidChannel) == PyExceptionKind::ValueError,
        exception_kind(IoError::InvalidParameter) == PyExceptionKind::ValueError,
        exception_kind(IoError::NotImplemented) == PyExceptionKind::NotImplementedError,
        exception_kind(IoError::WatchdogTimeout) == PyExceptionKind::RuntimeError,
        exception_kind(IoError::AccessFailed(code)) == PyExceptionKind::OSError,
        exception_kind(IoError::ParseIntError) == PyExceptionKind::RuntimeError,
        exception_kind(IoError::GenericError) == PyExceptionKind::RuntimeError,
        forall|other: i32|
            #[trigger] exception_kind(IoError::AccessFailed(other)) == exception_kind(
                IoError::AccessFailed(code),
            ),
{
}

/// The message of an I/O error is its own description; for a failed
/// access the description is followed by ` (`, the OS error code in
/// decimal (with `-` when negative), and `)`.
pub proof fn lemma_exception_message(err: IoError, text: Seq<char>)
    ensures
        !(err is AccessFailed) ==> exception_message(err, text) == text,
        err matches IoError::AccessFailed(code) ==> {
            let m = exception_message(err, text);
            let inner = m.subrange(text.len() as int + 2, m.len() - 1);
            &&& m.len() >= text.len() + 4
            &&& m.take(text.len() as int) == text
            &&& m[text.len() as int] == ' '
            &&& m[text.len() as int + 1] == '('
            &&& m.last() == ')'
            &&& code >= 0 ==> (forall|i: int| 0 <= i < inner.len() ==> is_digit(#[trigger] inner[i]))
                && digits_value(inner) == code
            &&& code < 0 ==> inner[0] == '-' && (forall|i: int|
                1 <= i < inner.len() ==> is_digit(#[trigger] inner[i])) && digits_value(
                inner.drop_first(),
            ) == -code
        },
{
    if let IoError::AccessFailed(code) = err {
        reveal_strlit(" (");
        reveal_strlit(")");
        let m = exception_message(err, text);
        let sd = signed_decimal(code as int);
        assert(m == text + " ("@ + sd + ")"@);
        let inner = m.subrange(text.len() as int + 2, m.len() - 1);
        assert(inner =~= sd);
        assert(m.take(text.len() as int) =~= text);
        if code >= 0 {
            lemma_decimal_reads_back(code as nat);
        } else {
            lemma_decimal_reads_back((-code) as nat);
            assert(inner.drop_first() =~= crate::text::decimal((-code) as nat));
            assert forall|i: int| 1 <= i < inner.len() implies is_digit(#[trigger] inner[i]) by {
                assert(inner[i] == inner.drop_first()[i - 1]);
            }
        }
    }
}

/// Classifies an I/O error for Python; `text` is the error's own
/// description.
pub fn to_py_error(err: &IoError, text: &str) -> (res: PyErrorSpec)
    ensures
        res.kind == exception_kind(*err),
        res.message@ == exception_message(*err, text@),
{
    let mut message = text.to_owned();
    match err {
        IoError::InvalidChannel => PyErrorSpec { kind: PyExceptionKind::ValueError, message },
        IoError::InvalidParameter => PyErrorSpec { kind: PyExceptionKind::ValueError, message },
        IoError::NotImplemented => PyErrorSpec {
            kind: PyExceptionKind::NotImplementedError,
            message,
        },
        IoError::WatchdogTimeout => PyErrorSpec { kind: PyExceptionKind::RuntimeError, message },
        IoError::AccessFailed(code) => {
            message.append(" (");
            push_signed_decimal(&mut message, *code as i64);
            message.append(")");
            PyErrorSpec { kind: PyExceptionKind::OSError, message }
        },
        IoError::ParseIntError => PyErrorSpec { kind: PyExceptionKind::RuntimeError, message },
        IoError::GenericError => PyErrorSpec { kind: PyExceptionKind::RuntimeError, message },
    }
}

/// Turns the result of an I/O call into the result handed to Python: a
/// value passes unchanged, an error becomes the exception of
/// `to_py_error`; `text` is the error's own description.
pub fn to_py_result<T>(result: Result<T, IoError>, text: &str) -> (res: Result<T, PyErrorSpec>)
    ensures
        match result {
            Ok(v) => res matches Ok(w) && w == v,
            Err(e) => res matches Err(p) && p.kind == exception_kind(e) && p.message@
                == exception_message(e, text@),
        },
{
    match result {
        Ok(value) => Ok(value),
        Err(e) => Err(to_py_error(&e, text)),
    }
}

} // verus!
