//! Errors encountered when creating a yard, and their messages.
use vstd::prelude::*;

verus! {

/// Errors encountered when creating a yard.
#[derive(Debug, Clone, Copy, PartialEq, Eq, Structural)]
pub enum SwitchyardCreationError {
    /// A thread asked to be pinned to a core that does not exist.
    InvalidAffinity { affinity: usize, total_threads: usize },
}

/// The character of a decimal digit.
pub open spec fn digit_char(d: nat) -> char {
    (48 + d) as char
}

/// The decimal representation of `n`, without leading zeros.
pub open spec fn decimal(n: nat) -> Seq<char>
    decreases n,
{
    if n < 10 {
        seq![digit_char(n)]
    } else {
        decimal(n / 10) + seq![digit_char(n % 10)]
    }
}

/// The message of an error.
pub open spec fn message_chars(e: SwitchyardCreationError) -> Seq<char> {
    match e {
        SwitchyardCreationError::InvalidAffinity { affinity, total_threads } => "Requested affinity "@
            + decimal(affinity as nat) + " which is greater than total logical core count "@
            + decimal(total_threads as nat),
    }
}

/// Appends the decimal digit `d` to `out`.
fn push_digit(out: &mut String, d: usize)
    requires
        d < 10,
    ensures
        final(out)@ == old(out)@ + seq![digit_char(d as nat)],
{
    let s = match d {
        0 => "0",
        1 => "1",
        2 => "2",
        3 => "3",
        4 => "4",
        5 => "5",
        6 => "6",
        7 => "7",
        8 => "8",
        _ => "9",
    };
    proof {
        reveal_strlit("0");
        reveal_strlit("1");
        reveal_strlit("2");
        reveal_strlit("3");
        reveal_strlit("4");
        reveal_strlit("5");
        reveal_strlit("6");
        reveal_strlit("7");
        reveal_strlit("8");
        reveal_strlit("9");
        assert(s@ =~= seq![digit_char(d as nat)]);
    }
    out.append(s);
}

/// Appends the decimal representation of `n` to `out`.
pub fn push_decimal(out: &mut String, n: usize)
    ensures
        final(out)@ == old(out)@ + decimal(n as nat),
    decreases n,
{
    if n >= 10 {
        push_decimal(out, n / 10);
        push_digit(out, n % 10);
        assert(final(out)@ =~= old(out)@ + decimal(n as nat));
    } else {
        push_digit(out, n);
    }
}

impl SwitchyardCreationError {
    /// The human readable description of the error.
    pub fn message(&self) -> (s: String)
        ensures
            s@ == message_chars(*self),
    {
        match self {
            SwitchyardCreationError::InvalidAffinity { affinity, total_threads } => {
                let mut out = String::from_str("Requested affinity ");
                push_decimal(&mut out, *affinity);
                out.append(" which is greater than total logical core count ");
                push_decimal(&mut out, *total_threads);
                assert(out@ =~= message_chars(*self));
                out
            },
        }
    }
}

} // verus!
