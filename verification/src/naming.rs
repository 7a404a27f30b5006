//! Names of dated directories: how they are made and how they are read back.
//!
//! A directory that is made for `name` on a day is called by the day's stamp,
//! an underscore and `name`. The stamp is the year in at least four digits,
//! then the month and the day in at least two digits each.

use crate::errors::{ErrorKind, ErrorView, ZugzugError};
use chrono::Datelike;
use vstd::prelude::*;

verus! {

/// A day of the calendar.
#[derive(Clone, Copy, Debug, PartialEq, Eq, Structural)]
pub struct Date {
    pub year: i32,
    pub month: u32,
    pub day: u32,
}

impl Date {
    /// The month and the day are numbers that a calendar has.
    pub open spec fn in_calendar(self) -> bool {
        1 <= self.month <= 12 && 1 <= self.day <= 31
    }
}

/// The character that stands for a digit.
pub open spec fn digit(d: int) -> char {
    if d == 0 {
        '0'
    } else if d == 1 {
        '1'
    } else if d == 2 {
        '2'
    } else if d == 3 {
        '3'
    } else if d == 4 {
        '4'
    } else if d == 5 {
        '5'
    } else if d == 6 {
        '6'
    } else if d == 7 {
        '7'
    } else if d == 8 {
        '8'
    } else {
        '9'
    }
}

/// A number in decimal, without leading zeros.
pub open spec fn decimal(n: nat) -> Seq<char>
    decreases n,
{
    if n < 10 {
        seq![digit(n as int)]
    } else {
        decimal(n / 10).push(digit((n % 10) as int))
    }
}

/// `count` zeros.
pub open spec fn zeros(count: int) -> Seq<char> {
    Seq::new(
        if count > 0 {
            count as nat
        } else {
            0
        },
        |i: int| '0',
    )
}

/// A number in decimal, with zeros in front where it has fewer than `width`
/// digits.
pub open spec fn zero_padded(n: nat, width: int) -> Seq<char> {
    zeros(width - decimal(n).len()) + decimal(n)
}

/// A number that may be negative, in at least `width` characters: a minus
/// sign, where there is one, comes first and counts as one of them.
pub open spec fn signed_padded(v: int, width: int) -> Seq<char> {
    if v < 0 {
        seq!['-'] + zero_padded((-v) as nat, width - 1)
    } else {
        zero_padded(v as nat, width)
    }
}

/// The stamp of a day: year, month and day with nothing between them.
pub open spec fn date_stamp(date: Date) -> Seq<char> {
    signed_padded(date.year as int, 4) + zero_padded(date.month as nat, 2) + zero_padded(
        date.day as nat,
        2,
    )
}

/// The name of the directory that is made for `name` on the day `date`.
pub open spec fn dated_name(date: Date, name: Seq<char>) -> Seq<char> {
    date_stamp(date) + seq!['_'] + name
}

/// One digit as a text.
fn digit_text(d: u32) -> (text: &'static str)
    requires
        d < 10,
    ensures
        text@ == seq![digit(d as int)],
{
    proof {
        reveal_strlit("0");
        reveal_strlit("1");
        reveal_strlit("2");
        reveal_strlit("3");
        reveal_strlit("4");
        reveal_strlit("5");
        reveal_strlit("6");
        reveal_strlit("7");
        reveal_strlit("8");
        reveal_strlit("9");
    }
    let text = if d == 0 {
        "0"
    } else if d == 1 {
        "1"
    } else if d == 2 {
        "2"
    } else if d == 3 {
        "3"
    } else if d == 4 {
        "4"
    } else if d == 5 {
        "5"
    } else if d == 6 {
        "6"
    } else if d == 7 {
        "7"
    } else if d == 8 {
        "8"
    } else {
        "9"
    };
    assert(text@ =~= seq![digit(d as int)]);
    text
}

/// Writes `n` in decimal at the end of `out`.
fn push_decimal(out: &mut String, n: u32)
    ensures
        final(out)@ == old(out)@ + decimal(n as nat),
    decreases n,
{
    if n >= 10 {
        push_decimal(out, n / 10);
    }
    out.append(digit_text(n % 10));
    assert(out@ =~= old(out)@ + decimal(n as nat));
}

/// The number of digits of `n`.
fn decimal_len(n: u32) -> (len: usize)
    ensures
        len == decimal(n as nat).len(),
{
    let mut len: usize = 1;
    let mut rest: u32 = n;
    while rest >= 10
        invariant
            1 <= len,
            len + decimal(rest as nat).len() == decimal(n as nat).len() + 1,
            len + rest <= n + 1,
        decreases rest,
    {
        rest = rest / 10;
        len += 1;
    }
    len
}

/// Writes `n` in decimal at the end of `out`, in at least `width` digits.
fn push_padded(out: &mut String, n: u32, width: usize)
    ensures
        final(out)@ == old(out)@ + zero_padded(n as nat, width as int),
{
    let len: usize = decimal_len(n);
    let mut filled: usize = len;
    while filled < width
        invariant
            len <= filled,
            filled <= width || filled == len,
            out@ == old(out)@ + zeros(filled - len),
        decreases width - filled,
    {
        proof {
            reveal_strlit("0");
        }
        out.append("0");
        filled += 1;
        assert(out@ =~= old(out)@ + zeros(filled - len));
    }
    push_decimal(out, n);
    assert(out@ =~= old(out)@ + zero_padded(n as nat, width as int));
}

/// The name of the directory that is made for `name` on the day `date`: the
/// year in four digits, the month and the day in two each, an underscore and
/// `name`, so `20240305_task` for `task` on the fifth of March 2024. A
/// number that needs more digits gets them, and a year before the year 0
/// has its minus sign in front, in place of one of the four digits.
pub fn dir_name(date: &Date, name: &str) -> (full: String)
    ensures
        full@ == dated_name(*date, name@),
{
    let mut full = String::new();
    if date.year < 0 {
        proof {
            reveal_strlit("-");
        }
        full.append("-");
        let size: i64 = -(date.year as i64);
        push_padded(&mut full, size as u32, 3);
    } else {
        push_padded(&mut full, date.year as u32, 4);
    }
    assert(full@ =~= signed_padded(date.year as int, 4));
    push_padded(&mut full, date.month, 2);
    push_padded(&mut full, date.day, 2);
    proof {
        reveal_strlit("_");
    }
    full.append("_");
    full.append(name);
    assert(full@ =~= dated_name(*date, name@));
    full
}

/// `chrono::Local::now`, read through `Datelike::year`, `month` and `day`:
/// the day that the local clock shows. Which day that is cannot be known
/// here. chrono counts months from 1 to 12 and days from 1 to 31, and that
/// is all that is claimed. chrono does not return where the clock stands
/// before 1970.
#[verifier::external_body]
fn local_day() -> (day: (i32, u32, u32))
    ensures
        1 <= day.1 <= 12,
        1 <= day.2 <= 31,
{
    let now = chrono::Local::now();
    (now.year(), now.month(), now.day())
}

/// The day that the local clock shows.
pub fn today() -> (date: Date)
    ensures
        date.in_calendar(),
{
    let shown: (i32, u32, u32) = local_day();
    Date { year: shown.0, month: shown.1, day: shown.2 }
}

/// `at` is the place of the first underscore in `entry`.
pub open spec fn first_underscore(entry: Seq<char>, at: int) -> bool {
    &&& 0 <= at < entry.len()
    &&& entry[at] == '_'
    &&& forall|j: int| 0 <= j < at ==> entry[j] != '_'
}

/// The two parts of a directory's name: what stands before its first
/// underscore, which is the date, and what stands after it. A name without
/// an underscore has no parts.
pub open spec fn entry_parts(entry: Seq<char>) -> Option<(Seq<char>, Seq<char>)> {
    if exists|at: int| first_underscore(entry, at) {
        let at: int = choose|at: int| first_underscore(entry, at);
        Some((entry.take(at), entry.skip(at + 1)))
    } else {
        None
    }
}

/// The error for a directory whose name has no underscore.
pub open spec fn malformed_entry(entry: Seq<char>) -> ErrorView {
    ErrorView { kind: ErrorKind::MalformedEntryName, details: "Malformed entry name: "@ + entry }
}

/// A name is cut at its first underscore and nowhere else.
pub proof fn lemma_parts_at(entry: Seq<char>, at: int)
    requires
        first_underscore(entry, at),
    ensures
        entry_parts(entry) == Some((entry.take(at), entry.skip(at + 1))),
{
    let chosen: int = choose|at: int| first_underscore(entry, at);
    if chosen < at {
        assert(entry[chosen] != '_');
    } else if at < chosen {
        assert(entry[at] != '_');
    }
}

/// A name has parts exactly where it holds an underscore.
pub proof fn lemma_parts_iff(entry: Seq<char>)
    ensures
        entry_parts(entry) is None <==> forall|i: int| 0 <= i < entry.len() ==> entry[i] != '_',
{
    if exists|i: int| 0 <= i < entry.len() && entry[i] == '_' {
        let at: int = least_underscore(entry, entry.len() as int);
        lemma_parts_at(entry, at);
    }
}

/// The place of the first underscore among the first `limit` characters,
/// where there is one.
proof fn least_underscore(entry: Seq<char>, limit: int) -> (at: int)
    requires
        0 <= limit <= entry.len(),
        exists|i: int| 0 <= i < limit && entry[i] == '_',
    ensures
        at < limit,
        first_underscore(entry, at),
    decreases limit,
{
    if exists|i: int| 0 <= i < limit - 1 && entry[i] == '_' {
        least_underscore(entry, limit - 1)
    } else {
        limit - 1
    }
}

/// Splits the name of a directory into its date and the rest, at the first
/// underscore: `20240305_my_task` gives `20240305` and `my_task`. A name
/// without an underscore is reported as malformed.
pub fn split_entry_name(entry: &str) -> (parts: Result<(String, String), ZugzugError>)
    ensures
        match parts {
            Ok((date, name)) => entry_parts(entry@) == Some((date@, name@)),
            Err(err) => entry_parts(entry@) is None && err@ == malformed_entry(entry@),
        },
{
    let len: usize = entry.unicode_len();
    let mut at: usize = 0;
    let mut found = false;
    for c in it: entry.chars()
        invariant
            it.seq() == entry@,
            len == entry@.len(),
            !found ==> at == it.index() && forall|j: int| 0 <= j < at ==> entry@[j] != '_',
            found ==> first_underscore(entry@, at as int),
    {
        if !found {
            if c == '_' {
                found = true;
            } else {
                at += 1;
            }
        }
    }
    if found {
        proof {
            lemma_parts_at(entry@, at as int);
        }
        let date = entry.substring_char(0, at).to_owned();
        let name = entry.substring_char(at + 1, len).to_owned();
        assert(date@ =~= entry@.take(at as int));
        assert(name@ =~= entry@.skip(at + 1));
        Ok((date, name))
    } else {
        let mut details = "Malformed entry name: ".to_owned();
        details.append(entry);
        Err(ZugzugError::new(ErrorKind::MalformedEntryName, details.as_str()))
    }
}

/// A number in decimal holds no underscore.
pub proof fn lemma_decimal_plain(n: nat)
    ensures
        forall|i: int| 0 <= i < decimal(n).len() ==> decimal(n)[i] != '_',
    decreases n,
{
    if n >= 10 {
        lemma_decimal_plain(n / 10);
        let front = decimal(n / 10);
        assert forall|i: int| 0 <= i < decimal(n).len() implies decimal(n)[i] != '_' by {
            if i < front.len() {
                assert(decimal(n)[i] == front[i]);
            } else {
                assert(decimal(n)[i] == digit((n % 10) as int));
            }
        }
    } else {
        assert(decimal(n)[0] == digit(n as int));
    }
}

/// How many digits a number below ten thousand has.
pub proof fn lemma_decimal_len(n: nat)
    requires
        n < 10000,
    ensures
        decimal(n).len() == if n < 10 {
            1int
        } else if n < 100 {
            2int
        } else if n < 1000 {
            3int
        } else {
            4int
        },
{
    reveal_with_fuel(decimal, 4);
}

/// In the years from 0 to 9999 the stamp of a day has eight characters:
/// four for the year, two for the month and two for the day.
pub proof fn lemma_stamp_len(date: Date)
    requires
        0 <= date.year <= 9999,
        date.in_calendar(),
    ensures
        date_stamp(date).len() == 8,
{
    lemma_decimal_len(date.year as nat);
    lemma_decimal_len(date.month as nat);
    lemma_decimal_len(date.day as nat);
}

/// The stamp of a day holds no underscore.
pub proof fn lemma_stamp_plain(date: Date)
    ensures
        forall|i: int| 0 <= i < date_stamp(date).len() ==> date_stamp(date)[i] != '_',
{
    if date.year < 0 {
        lemma_decimal_plain((-date.year) as nat);
    } else {
        lemma_decimal_plain(date.year as nat);
    }
    lemma_decimal_plain(date.month as nat);
    lemma_decimal_plain(date.day as nat);
}

/// The name of a directory that was made for `name` on a day is read back
/// as the stamp of that day and `name`, whatever `name` holds.
pub proof fn lemma_name_reads_back(date: Date, name: Seq<char>)
    ensures
        entry_parts(dated_name(date, name)) == Some((date_stamp(date), name)),
{
    let full = dated_name(date, name);
    let at: int = date_stamp(date).len() as int;
    lemma_stamp_plain(date);
    assert(first_underscore(full, at));
    lemma_parts_at(full, at);
    assert(full.take(at) =~= date_stamp(date));
    assert(full.skip(at + 1) =~= name);
}

} // verus!
