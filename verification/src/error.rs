//! The pool's errors and their messages.

use vstd::prelude::*;
use vstd::string::*;

verus! {

/// The largest number of workers a pool may have.
pub const MAX_WORKERS: usize = 15;

/// Why a pool could not be created.
#[derive(Clone, Copy, Debug, PartialEq, Eq, Structural)]
pub enum PoolCreationError {
    /// The requested size was 0.
    ZeroSize,
    /// The requested size, carried here, was above `MAX_WORKERS`.
    SizeTooLarge(usize),
}

/// A task was submitted after the queue had been closed.
#[derive(Clone, Copy, Debug, PartialEq, Eq, Structural)]
pub struct FatalSubmissionError;

/// The character of one decimal digit.
pub open spec fn digit(d: nat) -> char {
    if d == 0 {
        '0'
    } else if d == 1 {
        '1'
    } else if d == 2 {
        '2'
    } else if d == 3 {
        '3'
    } else if d == 4 {
        '4'
    } else if d == 5 {
        '5'
    } else if d == 6 {
        '6'
    } else if d == 7 {
        '7'
    } else if d == 8 {
        '8'
    } else {
        '9'
    }
}

/// The decimal numeral of `n`, most significant digit first, without
/// leading zeros.
pub open spec fn decimal(n: nat) -> Seq<char>
    decreases n,
{
    if n < 10 {
        seq![digit(n)]
    } else {
        decimal(n / 10).push(digit(n % 10))
    }
}

fn digit_str(d: usize) -> (s: &'static str)
    requires
        d < 10,
    ensures
        s@ == seq![digit(d as nat)],
{
    proof {
        reveal_strlit("0");
        reveal_strlit("1");
        reveal_strlit("2");
        reveal_strlit("3");
        reveal_strlit("4");
        reveal_strlit("5");
        reveal_strlit("6");
        reveal_strlit("7");
        reveal_strlit("8");
        reveal_strlit("9");
    }
    let s = match d {
        0 => "0",
        1 => "1",
        2 => "2",
        3 => "3",
        4 => "4",
        5 => "5",
        6 => "6",
        7 => "7",
        8 => "8",
        _ => "9",
    };
    assert(s@ =~= seq![digit(d as nat)]);
    s
}

/// Writes `n` as a decimal numeral.
pub fn decimal_string(n: usize) -> (s: String)
    ensures
        s@ == decimal(n as nat),
    decreases n,
{
    if n < 10 {
        String::from_str(digit_str(n))
    } else {
        let head = decimal_string(n / 10);
        let s = head.concat(digit_str(n % 10));
        assert(s@ =~= decimal(n as nat));
        s
    }
}

impl PoolCreationError {
    /// The error that a requested size gives, if any: `ZeroSize` for 0,
    /// `SizeTooLarge` above the cap, none in between.
    pub open spec fn of_size(size: usize) -> Option<PoolCreationError> {
        if size == 0 {
            Some(PoolCreationError::ZeroSize)
        } else if size > MAX_WORKERS {
            Some(PoolCreationError::SizeTooLarge(size))
        } else {
            None
        }
    }

    /// The text of the message shown to a user.
    pub open spec fn message_text(self) -> Seq<char> {
        match self {
            PoolCreationError::ZeroSize => "\n----\nPool size has to be greater than 0\n-----\n"@,
            PoolCreationError::SizeTooLarge(size) => "\n-----\nPool size exceeds size limit: "@
                + decimal(size as nat) + "\n-----\n"@,
        }
    }

    /// Checks a requested pool size against the bounds.
    pub fn check_size(size: usize) -> (r: Result<(), PoolCreationError>)
        ensures
            r.is_ok() <==> 1 <= size <= MAX_WORKERS,
            r.is_err() ==> Self::of_size(size) == Some(r.unwrap_err()),
    {
        if size == 0 {
            Err(PoolCreationError::ZeroSize)
        } else if size > MAX_WORKERS {
            Err(PoolCreationError::SizeTooLarge(size))
        } else {
            Ok(())
        }
    }

    /// A human-readable message for this error.
    pub fn message(&self) -> (s: String)
        ensures
            s@ == self.message_text(),
    {
        match self {
            PoolCreationError::ZeroSize => String::from_str(
                "\n----\nPool size has to be greater than 0\n-----\n",
            ),
            PoolCreationError::SizeTooLarge(size) => {
                let number = decimal_string(*size);
                let mut s = String::from_str("\n-----\nPool size exceeds size limit: ");
                s.append(number.as_str());
                s.append("\n-----\n");
                s
            },
        }
    }
}

} // verus!
