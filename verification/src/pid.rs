//! The process number of the daemon, as it stands in a file.

use crate::numbers::{bounded_value, decimal, lemma_decimal_reads_back, parse_u32, to_decimal};
use crate::text::{is_tight, lemma_trimmed_is_tight, trim, trimmed};
use vstd::prelude::*;

verus! {

/// The process number that the contents of the file give, if they give one.
pub open spec fn pid_in(contents: Seq<char>) -> Option<nat> {
    bounded_value(trimmed(contents), u32::MAX as nat)
}

/// Reads the contents of the file.
pub fn parse_pid(contents: &str) -> (r: Option<u32>)
    ensures
        pid_in(contents@) == match r {
            Some(pid) => Some(pid as nat),
            None => None,
        },
{
    parse_u32(trim(contents))
}

/// The contents of the file for a process number.
pub fn pid_text(pid: u32) -> (r: String)
    ensures
        r@ == decimal(pid as nat),
{
    to_decimal(pid as u64)
}

/// The process that has to be gone before a daemon is started.
pub open spec fn probed(contents: Option<Seq<char>>) -> Option<nat> {
    match contents {
        Some(text) => match pid_in(text) {
            Some(pid) => if pid > 0 {
                Some(pid)
            } else {
                None
            },
            None => None,
        },
        None => None,
    }
}

/// The process that has to be gone before a daemon is started: the one in the
/// file, unless the file is missing or holds 0 or no process number.
pub fn pid_to_probe(contents: Option<&str>) -> (r: Option<u32>)
    ensures
        probed(
            match contents {
                Some(text) => Some(text@),
                None => None,
            },
        ) == match r {
            Some(pid) => Some(pid as nat),
            None => None,
        },
        r == match contents {
            Some(text) => match pid_in(text@) {
                Some(pid) => if pid > 0 {
                    Some(pid as u32)
                } else {
                    None
                },
                None => None,
            },
            None => None,
        },
{
    match contents {
        Some(text) => match parse_pid(text) {
            Some(pid) => if pid > 0 {
                Some(pid)
            } else {
                None
            },
            None => None,
        },
        None => None,
    }
}

/// What the user is told when a daemon runs already.
pub fn already_running_message(pid: u32) -> (r: String)
    ensures
        r@ == "Daemon is already running (PID "@ + decimal(pid as nat) + ")"@,
{
    let mut r = "Daemon is already running (PID ".to_owned();
    r.append(to_decimal(pid as u64).as_str());
    r.append(")");
    r
}

/// Reading the file gives back the process number that was written to it.
pub proof fn law_pid_reads_back(pid: u32)
    ensures
        pid_in(decimal(pid as nat)) == Some(pid as nat),
{
    let s = decimal(pid as nat);
    lemma_decimal_reads_back(pid as nat, u32::MAX as nat);
    crate::numbers::lemma_decimal(pid as nat);
    assert(crate::numbers::is_digit(s[0]));
    assert(crate::numbers::is_digit(s[s.len() - 1]));
    assert(is_tight(s));
    lemma_trimmed_is_tight(s);
}

/// The file gives a process number exactly if it holds one that fits, in decimal,
/// with nothing but white space around it.
pub proof fn law_pid_in(contents: Seq<char>, n: nat)
    ensures
        pid_in(contents) == Some(n) <==> n <= u32::MAX && crate::numbers::number_value(
            trimmed(contents),
        ) == Some(n),
{
}

/// A process is asked after exactly if the file is there and holds its number, and that
/// is not 0.
pub proof fn law_which_process(contents: Option<Seq<char>>, n: nat)
    ensures
        probed(contents) == Some(n) <==> contents is Some && 0 < n <= u32::MAX
            && crate::numbers::number_value(trimmed(contents->0)) == Some(n),
{
}

} // verus!
