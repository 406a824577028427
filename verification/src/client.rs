//! Local client identity: peer credentials plus a daemon-local session
//! number, so that a reconnecting process is a distinct owner.
use vstd::prelude::*;

verus! {

/// Identity of one connection.
#[derive(Clone, Copy, Debug, PartialEq, Eq, Hash, Structural)]
pub enum ClientId {
    Local { uid: u32, pid: u32, session_id: u64 },
}

/// The character of a decimal digit.
pub open spec fn digit_char(d: nat) -> char {
    (d + 48) as char
}

/// Decimal rendering of a natural number, most significant digit first.
pub open spec fn decimal(n: nat) -> Seq<char>
    decreases n,
{
    if n < 10 {
        seq![digit_char(n)]
    } else {
        decimal(n / 10).push(digit_char(n % 10))
    }
}

/// The text that identifies a client in a `locked_by` answer.
pub open spec fn client_text(c: ClientId) -> Seq<char> {
    match c {
        ClientId::Local { uid, pid, session_id } => "Local { uid: "@ + decimal(uid as nat)
            + ", pid: "@ + decimal(pid as nat) + ", session_id: "@ + decimal(session_id as nat)
            + " }"@,
    }
}

fn digit_str(d: u64) -> (r: &'static str)
    requires
        d < 10,
    ensures
        r@ == seq![digit_char(d as nat)],
{
    proof {
        reveal_strlit("0");
        reveal_strlit("1");
        reveal_strlit("2");
        reveal_strlit("3");
        reveal_strlit("4");
        reveal_strlit("5");
        reveal_strlit("6");
        reveal_strlit("7");
        reveal_strlit("8");
        reveal_strlit("9");
    }
    if d == 0 {
        "0"
    } else if d == 1 {
        "1"
    } else if d == 2 {
        "2"
    } else if d == 3 {
        "3"
    } else if d == 4 {
        "4"
    } else if d == 5 {
        "5"
    } else if d == 6 {
        "6"
    } else if d == 7 {
        "7"
    } else if d == 8 {
        "8"
    } else {
        "9"
    }
}

/// Appends the decimal rendering of `n` to `s`.
pub fn append_decimal(s: &mut String, n: u64)
    ensures
        final(s)@ == old(s)@ + decimal(n as nat),
    decreases n,
{
    if n >= 10 {
        append_decimal(s, n / 10);
    }
    s.append(digit_str(n % 10));
    assert(final(s)@ == old(s)@ + decimal(n as nat));
}

impl ClientId {
    /// The identity as text, in the form `Local { uid: U, pid: P, session_id: S }`.
    pub fn describe(&self) -> (r: String)
        ensures
            r@ == client_text(*self),
    {
        match self {
            ClientId::Local { uid, pid, session_id } => {
                let mut s = String::from_str("Local { uid: ");
                append_decimal(&mut s, *uid as u64);
                s.append(", pid: ");
                append_decimal(&mut s, *pid as u64);
                s.append(", session_id: ");
                append_decimal(&mut s, *session_id);
                s.append(" }");
                s
            },
        }
    }
}

} // verus!
