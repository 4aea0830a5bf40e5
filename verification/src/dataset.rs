//! Checks on the data directory and the names of the partition files that a
//! full year is expected to hold.
//!
//! Nothing here touches the file system: the caller probes paths and hands the
//! answers in as plain values.

use vstd::prelude::*;
use vstd::string::*;

use crate::error::Error;

verus! {

/// Number of monthly partitions in one year.
pub const MONTHS_PER_YEAR: usize = 12;

/// The character that writes the decimal digit `d`.
pub open spec fn digit_char(d: int) -> char {
    if d == 0 {
        '0'
    } else if d == 1 {
        '1'
    } else if d == 2 {
        '2'
    } else if d == 3 {
        '3'
    } else if d == 4 {
        '4'
    } else if d == 5 {
        '5'
    } else if d == 6 {
        '6'
    } else if d == 7 {
        '7'
    } else if d == 8 {
        '8'
    } else {
        '9'
    }
}

/// Decimal notation of a natural number, without leading zeros.
pub open spec fn decimal(n: nat) -> Seq<char>
    decreases n,
{
    if n < 10 {
        seq![digit_char(n as int)]
    } else {
        decimal(n / 10).push(digit_char((n % 10) as int))
    }
}

/// Decimal notation of an integer, with a leading minus sign when negative.
pub open spec fn signed_decimal(n: int) -> Seq<char> {
    if n < 0 {
        seq!['-'] + decimal((-n) as nat)
    } else {
        decimal(n as nat)
    }
}

/// Decimal notation padded with a zero to at least two digits.
pub open spec fn two_digit_decimal(n: nat) -> Seq<char> {
    if n < 10 {
        seq!['0'] + decimal(n)
    } else {
        decimal(n)
    }
}

/// Name of the partition file expected for `month` of `year`.
pub open spec fn file_name(year: int, month: nat) -> Seq<char> {
    "yellow_tripdata_"@ + signed_decimal(year) + seq!['-'] + two_digit_decimal(month)
        + ".parquet"@
}

/// The names of the files of months `1..=upto` that are not marked present,
/// in month order.
pub open spec fn missing_names(year: int, present: Seq<bool>, upto: nat) -> Seq<Seq<char>>
    decreases upto,
{
    if upto == 0 {
        Seq::empty()
    } else {
        let earlier = missing_names(year, present, (upto - 1) as nat);
        if present[upto - 1] {
            earlier
        } else {
            earlier.push(file_name(year, upto))
        }
    }
}

fn digit_str(d: u32) -> (s: &'static str)
    requires
        d < 10,
    ensures
        s@ == seq![digit_char(d as int)],
{
    proof {
        reveal_strlit("0");
        reveal_strlit("1");
        reveal_strlit("2");
        reveal_strlit("3");
        reveal_strlit("4");
        reveal_strlit("5");
        reveal_strlit("6");
        reveal_strlit("7");
        reveal_strlit("8");
        reveal_strlit("9");
    }
    let s = if d == 0 {
        "0"
    } else if d == 1 {
        "1"
    } else if d == 2 {
        "2"
    } else if d == 3 {
        "3"
    } else if d == 4 {
        "4"
    } else if d == 5 {
        "5"
    } else if d == 6 {
        "6"
    } else if d == 7 {
        "7"
    } else if d == 8 {
        "8"
    } else {
        "9"
    };
    assert(s@ =~= seq![digit_char(d as int)]);
    s
}

fn append_decimal(out: &mut String, n: u32)
    ensures
        final(out)@ == old(out)@ + decimal(n as nat),
    decreases n,
{
    if n >= 10 {
        append_decimal(out, n / 10);
    }
    out.append(digit_str(n % 10));
    proof {
        if n >= 10 {
            assert(out@ =~= old(out)@ + decimal((n / 10) as nat).push(digit_char((n % 10) as int)));
        }
    }
}

fn append_signed_decimal(out: &mut String, n: i32)
    ensures
        final(out)@ == old(out)@ + signed_decimal(n as int),
{
    if n < 0 {
        proof {
            reveal_strlit("-");
        }
        out.append("-");
        let magnitude: u32 = (-(n as i64)) as u32;
        append_decimal(out, magnitude);
        assert(out@ =~= old(out)@ + (seq!['-'] + decimal((-n) as nat)));
    } else {
        append_decimal(out, n as u32);
    }
}

/// Refuses a data path that is missing or is not a directory.
pub fn check_data_dir(exists: bool, is_dir: bool) -> (r: Result<(), Error>)
    ensures
        !exists ==> r == Err::<(), Error>(Error::NotFound),
        exists && !is_dir ==> r == Err::<(), Error>(Error::NotADirectory),
        exists && is_dir ==> r == Ok::<(), Error>(()),
{
    if !exists {
        Err(Error::NotFound)
    } else if !is_dir {
        Err(Error::NotADirectory)
    } else {
        Ok(())
    }
}

/// The file name under which the partition of `month` of `year` is expected.
pub fn expected_file_name(year: i32, month: u8) -> (name: String)
    ensures
        name@ == file_name(year as int, month as nat),
{
    let mut name = String::from_str("yellow_tripdata_");
    append_signed_decimal(&mut name, year);
    proof {
        reveal_strlit("-");
        reveal_strlit("0");
    }
    name.append("-");
    if month < 10 {
        name.append("0");
    }
    append_decimal(&mut name, month as u32);
    name.append(".parquet");
    assert(name@ =~= file_name(year as int, month as nat));
    name
}

/// The twelve file names expected for `year`, January first.
pub fn expected_file_names(year: i32) -> (names: Vec<String>)
    ensures
        names.len() == MONTHS_PER_YEAR,
        forall|m: int| 0 <= m < MONTHS_PER_YEAR ==> (#[trigger] names[m])@ == file_name(year as int, (m + 1) as nat),
{
    let mut names: Vec<String> = Vec::new();
    let mut month: u8 = 1;
    while month <= 12
        invariant
            1 <= month <= 13,
            names.len() == month - 1,
            forall|m: int| 0 <= m < month - 1 ==> (#[trigger] names[m])@ == file_name(year as int, (m + 1) as nat),
        decreases 13 - month,
    {
        names.push(expected_file_name(year, month));
        month = month + 1;
    }
    names
}

/// The expected files of `year` that are absent, in month order, where
/// `present[m]` tells whether the file of month `m + 1` was found.
pub fn missing_files(year: i32, present: &[bool; 12]) -> (missing: Vec<String>)
    ensures
        missing.deep_view() == missing_names(year as int, present@, MONTHS_PER_YEAR as nat),
{
    let mut missing: Vec<String> = Vec::new();
    let mut month: u8 = 1;
    assert(missing.deep_view() =~= missing_names(year as int, present@, 0));
    while month <= 12
        invariant
            1 <= month <= 13,
            missing.deep_view() == missing_names(year as int, present@, (month - 1) as nat),
        decreases 13 - month,
    {
        let ghost before = missing.deep_view();
        if !present[(month - 1) as usize] {
            missing.push(expected_file_name(year, month));
            assert(missing.deep_view() =~= before.push(file_name(year as int, month as nat)));
        }
        month = month + 1;
    }
    missing
}

/// Decides whether a run may start on a data directory.
///
/// A missing path or a path that is no directory is refused. Absent monthly
/// files are not: their names are returned so that the caller can warn, and
/// the run goes on with the partitions that are there.
pub fn validate_data_dir(
    exists: bool,
    is_dir: bool,
    year: i32,
    present: &[bool; 12],
) -> (r: Result<Vec<String>, Error>)
    ensures
        !exists ==> r == Err::<Vec<String>, Error>(Error::NotFound),
        exists && !is_dir ==> r == Err::<Vec<String>, Error>(Error::NotADirectory),
        exists && is_dir ==> r.is_ok() && r.unwrap().deep_view() == missing_names(
            year as int,
            present@,
            MONTHS_PER_YEAR as nat,
        ),
{
    match check_data_dir(exists, is_dir) {
        Err(e) => Err(e),
        Ok(()) => Ok(missing_files(year, present)),
    }
}

} // verus!
