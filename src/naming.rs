use vstd::prelude::*;
use vstd::string::*;

verus! {

/// The characters of a string slice.
pub open spec fn str_text(s: &str) -> Seq<char> {
    s@
}

/// The characters of a string.
pub open spec fn string_text(s: String) -> Seq<char> {
    s@
}

/// A wall-clock time of day on a calendar date, as archive names show it.
#[derive(Clone, Copy, Debug, PartialEq, Eq, Structural)]
pub struct ArchiveTimestamp {
    pub year: u16,
    pub month: u8,
    pub day: u8,
    pub hour: u8,
    pub minute: u8,
    pub second: u8,
}

impl ArchiveTimestamp {
    /// Fields in their calendar ranges; the year has at most four digits.
    pub open spec fn wf(&self) -> bool {
        &&& self.year <= 9999
        &&& 1 <= self.month <= 12
        &&& 1 <= self.day <= 31
        &&& self.hour < 24
        &&& self.minute < 60
        &&& self.second < 60
    }
}

pub open spec fn digit_char(d: nat) -> char {
    if d == 0 {
        '0'
    } else if d == 1 {
        '1'
    } else if d == 2 {
        '2'
    } else if d == 3 {
        '3'
    } else if d == 4 {
        '4'
    } else if d == 5 {
        '5'
    } else if d == 6 {
        '6'
    } else if d == 7 {
        '7'
    } else if d == 8 {
        '8'
    } else {
        '9'
    }
}

/// The last `width` decimal digits of `n`, zero-padded.
pub open spec fn padded(n: nat, width: nat) -> Seq<char>
    decreases width,
{
    if width == 0 {
        Seq::empty()
    } else {
        padded(n / 10, (width - 1) as nat).push(digit_char(n % 10))
    }
}

/// `YYYY-MM-DD HH-MM-SS`.
pub open spec fn timestamp_text(t: ArchiveTimestamp) -> Seq<char> {
    padded(t.year as nat, 4) + seq!['-'] + padded(t.month as nat, 2) + seq!['-'] + padded(t.day as nat, 2)
        + seq![' '] + padded(t.hour as nat, 2) + seq!['-'] + padded(t.minute as nat, 2) + seq!['-']
        + padded(t.second as nat, 2)
}

/// `YYYY-MM-DD HH-MM-SS <description>.7z`.
pub open spec fn backup_filename(t: ArchiveTimestamp, description: Seq<char>) -> Seq<char> {
    timestamp_text(t) + seq![' '] + description + seq!['.', '7', 'z']
}

pub(crate) fn digit_str(d: u32) -> (r: &'static str)
    requires
        d < 10,
    ensures
        r@ == seq![digit_char(d as nat)],
{
    proof {
        reveal_strlit("0");
        reveal_strlit("1");
        reveal_strlit("2");
        reveal_strlit("3");
        reveal_strlit("4");
        reveal_strlit("5");
        reveal_strlit("6");
        reveal_strlit("7");
        reveal_strlit("8");
        reveal_strlit("9");
    }
    let r = if d == 0 {
        "0"
    } else if d == 1 {
        "1"
    } else if d == 2 {
        "2"
    } else if d == 3 {
        "3"
    } else if d == 4 {
        "4"
    } else if d == 5 {
        "5"
    } else if d == 6 {
        "6"
    } else if d == 7 {
        "7"
    } else if d == 8 {
        "8"
    } else {
        "9"
    };
    assert(r@ =~= seq![digit_char(d as nat)]);
    r
}

/// Appends `n` as exactly `width` digits, zero-padded.
fn push_padded(s: &mut String, n: u32, width: u32)
    requires
        width <= 4,
    ensures
        final(s)@ == old(s)@ + padded(n as nat, width as nat),
    decreases width,
{
    if width == 0 {
        assert(old(s)@ + padded(n as nat, 0) =~= old(s)@);
        return;
    }
    push_padded(s, n / 10, width - 1);
    s.append(digit_str(n % 10));
    assert(final(s)@ =~= old(s)@ + padded(n as nat, width as nat));
}

/// The archive file name for a backup taken at `now`, labelled
/// `description` (`Auto`, `Exit`, or what a user typed).
pub fn make_backup_filename(now: &ArchiveTimestamp, description: &str) -> (r: String)
    requires
        now.wf(),
    ensures
        r@ == backup_filename(*now, description@),
{
    proof {
        reveal_strlit("-");
        reveal_strlit(" ");
        reveal_strlit(".7z");
    }
    let mut s = String::new();
    push_padded(&mut s, now.year as u32, 4);
    s.append("-");
    push_padded(&mut s, now.month as u32, 2);
    s.append("-");
    push_padded(&mut s, now.day as u32, 2);
    s.append(" ");
    push_padded(&mut s, now.hour as u32, 2);
    s.append("-");
    push_padded(&mut s, now.minute as u32, 2);
    s.append("-");
    push_padded(&mut s, now.second as u32, 2);
    assert(s@ =~= timestamp_text(*now));
    s.append(" ");
    s.append(description);
    s.append(".7z");
    assert(s@ =~= backup_filename(*now, description@));
    s
}

} // verus!
