//! The errors of the service, and the text that tells each of them.

use crate::slots::SlotId;
use vstd::prelude::*;
use vstd::string::StringExecFns;

verus! {

/// Why an operation of the service failed.
#[derive(Debug, PartialEq, Eq)]
pub enum ServiceError {
    /// No connection stands under this handle.
    UnknownConnection(SlotId),
    /// The connection has no session under this handle.
    UnknownSession(SlotId),
    /// The session has no query under this handle.
    UnknownQuery(SlotId),
    /// The transport to the remote service could not be set up; the text is
    /// the transport's own.
    Connect(String),
    /// The remote service was not ready to take the call; the text is the
    /// transport's own.
    NotReady(String),
    /// The remote call failed to start, or failed in the middle of its
    /// stream; the text is the remote service's own.
    Remote(String),
}

/// The character of the decimal digit `digit`.
pub open spec fn digit_char(digit: int) -> char {
    if digit == 0 {
        '0'
    } else if digit == 1 {
        '1'
    } else if digit == 2 {
        '2'
    } else if digit == 3 {
        '3'
    } else if digit == 4 {
        '4'
    } else if digit == 5 {
        '5'
    } else if digit == 6 {
        '6'
    } else if digit == 7 {
        '7'
    } else if digit == 8 {
        '8'
    } else {
        '9'
    }
}

/// The decimal numeral of `n`, without leading zeros.
pub open spec fn decimal(n: nat) -> Seq<char>
    decreases n,
{
    if n < 10 {
        seq![digit_char(n as int)]
    } else {
        decimal(n / 10).push(digit_char((n % 10) as int))
    }
}

/// The text that tells `error`.
pub open spec fn message_text(error: ServiceError) -> Seq<char> {
    match error {
        ServiceError::UnknownConnection(ci) => "failed to resolve connection with id "@ + decimal(
            ci as nat,
        ),
        ServiceError::UnknownSession(si) => "failed to resolve session with id "@ + decimal(
            si as nat,
        ),
        ServiceError::UnknownQuery(qi) => "failed to resolve query with id "@ + decimal(qi as nat),
        ServiceError::Connect(text) => text@,
        ServiceError::NotReady(text) => "Service was not ready: "@ + text@,
        ServiceError::Remote(text) => text@,
    }
}

/// The numeral of one decimal digit.
fn digit_text(digit: usize) -> (text: &'static str)
    requires
        digit < 10,
    ensures
        text@ == seq![digit_char(digit as int)],
{
    proof {
        reveal_strlit("0");
        reveal_strlit("1");
        reveal_strlit("2");
        reveal_strlit("3");
        reveal_strlit("4");
        reveal_strlit("5");
        reveal_strlit("6");
        reveal_strlit("7");
        reveal_strlit("8");
        reveal_strlit("9");
    }
    if digit == 0 {
        "0"
    } else if digit == 1 {
        "1"
    } else if digit == 2 {
        "2"
    } else if digit == 3 {
        "3"
    } else if digit == 4 {
        "4"
    } else if digit == 5 {
        "5"
    } else if digit == 6 {
        "6"
    } else if digit == 7 {
        "7"
    } else if digit == 8 {
        "8"
    } else {
        "9"
    }
}

/// Appends the decimal numeral of `n` to `text`.
pub fn push_decimal(text: &mut String, n: usize)
    ensures
        final(text)@ == old(text)@ + decimal(n as nat),
    decreases n,
{
    if n >= 10 {
        push_decimal(text, n / 10);
    }
    text.append(digit_text(n % 10));
}

impl ServiceError {
    /// The text that tells the error to the caller.
    pub fn message(&self) -> (text: String)
        ensures
            text@ == message_text(*self),
    {
        match self {
            ServiceError::UnknownConnection(ci) => {
                let mut text = String::from_str("failed to resolve connection with id ");
                push_decimal(&mut text, *ci);
                text
            },
            ServiceError::UnknownSession(si) => {
                let mut text = String::from_str("failed to resolve session with id ");
                push_decimal(&mut text, *si);
                text
            },
            ServiceError::UnknownQuery(qi) => {
                let mut text = String::from_str("failed to resolve query with id ");
                push_decimal(&mut text, *qi);
                text
            },
            ServiceError::Connect(reason) => reason.clone(),
            ServiceError::NotReady(reason) => {
                let mut text = String::from_str("Service was not ready: ");
                text.append(reason.as_str());
                text
            },
            ServiceError::Remote(reason) => reason.clone(),
        }
    }
}

} // verus!
