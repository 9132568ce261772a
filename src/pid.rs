use vstd::prelude::*;
use vstd::string::*;

use crate::naming::{digit_char, digit_str};

verus! {

/// The process id that sysinfo's `Pid::from_str` reads from `text`, if it
/// reads one (as the platform's PID integer, widened to `usize`).
pub uninterp spec fn recorded_pid(text: Seq<char>) -> Option<usize>;

/// Relies on sysinfo's `Pid::from_str` (a parse of the platform's PID
/// integer type), with `usize::from(Pid)` to widen the result.
#[verifier::external_body]
fn parse_pid(text: &str) -> (r: Option<usize>)
    ensures
        r == recorded_pid(text@),
{
    text.parse::<sysinfo::Pid>().ok().map(usize::from)
}

/// What the single-instance lock file held when it was looked at.
#[derive(Debug)]
pub enum LockFile {
    /// There is no lock file.
    Absent,
    /// A lock file exists but could not be opened.
    Unopenable,
    /// A lock file was opened but could not be read.
    Unreadable,
    /// The lock file's text.
    Text(String),
}

/// The process named by the lock file, if any.
pub fn lock_owner(file: &LockFile) -> (r: Option<usize>)
    ensures
        r == match file {
            LockFile::Text(t) => recorded_pid(t@),
            _ => None,
        },
{
    match file {
        LockFile::Text(t) => parse_pid(t.as_str()),
        _ => None,
    }
}

/// Whether the lock may be taken, given whether the process that
/// `lock_owner` names is running. An absent or unopenable file does not
/// hold the lock; an unreadable one does; a readable one holds it only if
/// it names a running process.
pub fn may_take_lock(file: &LockFile, owner_running: bool) -> (r: bool)
    ensures
        r == match file {
            LockFile::Absent => true,
            LockFile::Unopenable => true,
            LockFile::Unreadable => false,
            LockFile::Text(t) => recorded_pid(t@) is None || !owner_running,
        },
{
    match file {
        LockFile::Absent => true,
        LockFile::Unopenable => true,
        LockFile::Unreadable => false,
        LockFile::Text(t) => parse_pid(t.as_str()).is_none() || !owner_running,
    }
}

/// The decimal digits of `n`, without leading zeros.
pub open spec fn decimal(n: nat) -> Seq<char>
    decreases n,
{
    if n < 10 {
        seq![digit_char(n)]
    } else {
        decimal(n / 10).push(digit_char(n % 10))
    }
}

fn push_decimal(s: &mut String, n: u32)
    ensures
        final(s)@ == old(s)@ + decimal(n as nat),
    decreases n,
{
    if n >= 10 {
        push_decimal(s, n / 10);
    }
    s.append(digit_str(n % 10));
    assert(final(s)@ =~= old(s)@ + decimal(n as nat));
}

/// The text the lock file holds for process `pid`.
pub fn pid_text(pid: u32) -> (r: String)
    ensures
        r@ == decimal(pid as nat),
{
    let mut s = String::new();
    push_decimal(&mut s, pid);
    assert(s@ =~= decimal(pid as nat));
    s
}

} // verus!
