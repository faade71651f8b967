//! Ending every instance of a named process on request.

use vstd::prelude::*;

use crate::records::ProcessDescriptor;
use crate::text::{eq_ignore_ascii_case, equals_ignore_ascii_case};

verus! {

/// The decimal digit `d` as a character.
pub open spec fn digit_char(d: nat) -> char {
    seq!['0', '1', '2', '3', '4', '5', '6', '7', '8', '9'][d as int]
}

/// `n` written in decimal, without leading zeros.
pub open spec fn decimal(n: nat) -> Seq<char>
    decreases n,
{
    if n < 10 {
        seq![digit_char(n)]
    } else {
        decimal(n / 10).push(digit_char(n % 10))
    }
}

fn digit_text(d: u64) -> (r: &'static str)
    requires
        d < 10,
    ensures
        r@ == seq![digit_char(d as nat)],
{
    proof {
        reveal_strlit("0");
        reveal_strlit("1");
        reveal_strlit("2");
        reveal_strlit("3");
        reveal_strlit("4");
        reveal_strlit("5");
        reveal_strlit("6");
        reveal_strlit("7");
        reveal_strlit("8");
        reveal_strlit("9");
    }
    let r = if d == 0 {
        "0"
    } else if d == 1 {
        "1"
    } else if d == 2 {
        "2"
    } else if d == 3 {
        "3"
    } else if d == 4 {
        "4"
    } else if d == 5 {
        "5"
    } else if d == 6 {
        "6"
    } else if d == 7 {
        "7"
    } else if d == 8 {
        "8"
    } else {
        "9"
    };
    assert(r@ =~= seq![digit_char(d as nat)]);
    r
}

/// `n` written in decimal.
pub fn decimal_text(n: u64) -> (r: String)
    ensures
        r@ == decimal(n as nat),
    decreases n,
{
    if n < 10 {
        String::from_str(digit_text(n))
    } else {
        let mut r = decimal_text(n / 10);
        r.append(digit_text(n % 10));
        r
    }
}

/// The identifiers of the processes whose name equals `target` up to ASCII case.
pub open spec fn kill_target_pids(procs: Seq<ProcessDescriptor>, target: Seq<char>) -> Seq<u32>
    decreases procs.len(),
{
    if procs.len() == 0 {
        seq![]
    } else {
        let prev = kill_target_pids(procs.drop_last(), target);
        if eq_ignore_ascii_case(procs.last().name@, target) {
            prev.push(procs.last().pid)
        } else {
            prev
        }
    }
}

/// The processes to end for a request naming `target`: those whose name
/// equals it up to ASCII case, in snapshot order.
pub fn kill_targets(processes: &Vec<ProcessDescriptor>, target: &str) -> (r: Vec<u32>)
    ensures
        r@ == kill_target_pids(processes@, target@),
{
    let mut out: Vec<u32> = Vec::new();
    let mut i: usize = 0;
    while i < processes.len()
        invariant
            i <= processes.len(),
            out@ == kill_target_pids(processes@.take(i as int), target@),
        decreases processes.len() - i,
    {
        proof {
            assert(processes@.take(i + 1).drop_last() =~= processes@.take(i as int));
        }
        if equals_ignore_ascii_case(processes[i].name.as_str(), target) {
            out.push(processes[i].pid);
        }
        i = i + 1;
    }
    assert(processes@.take(i as int) =~= processes@);
    out
}

/// The reply to a request to end `target` once `killed` instances were ended.
pub open spec fn kill_reply(killed: nat, target: Seq<char>) -> Result<Seq<char>, Seq<char>> {
    if killed > 0 {
        Ok("Killed "@ + decimal(killed) + " instance(s) of "@ + target)
    } else {
        Err("Process '"@ + target + "' not found"@)
    }
}

/// The reply to a request to end `target`: how many instances were ended,
/// or, when none was, that the process was not found.
pub fn kill_report(killed: u64, target: &str) -> (r: Result<String, String>)
    ensures
        r matches Ok(m) ==> kill_reply(killed as nat, target@) == Ok::<Seq<char>, Seq<char>>(m@),
        r matches Err(m) ==> kill_reply(killed as nat, target@) == Err::<Seq<char>, Seq<char>>(m@),
{
    if killed > 0 {
        let mut m = String::from_str("Killed ");
        let count = decimal_text(killed);
        m.append(count.as_str());
        m.append(" instance(s) of ");
        m.append(target);
        Ok(m)
    } else {
        let mut m = String::from_str("Process '");
        m.append(target);
        m.append("' not found");
        Err(m)
    }
}

} // verus!
