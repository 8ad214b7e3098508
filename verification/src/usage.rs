//! The disk-usage report: used space from total and available space, and
//! each size as text.

use vstd::prelude::*;
use vstd::string::*;
use humansize::FileSize;
use crate::text::{decimal, decimal_text, two_digit_text, two_digits};

verus! {

/// The text that humansize renders for `bytes` with its binary options:
/// the size scaled by powers of 1024, with at most two decimal places, a
/// space and the unit (`B`, `KiB`, `MiB`, ...).
pub uninterp spec fn binary_size_text(bytes: u64) -> Seq<char>;

/// Calls humansize's `FileSize::file_size` for `u64` with the options
/// `file_size_opts::BINARY`. Trusted: that the call succeeds for every
/// unsigned size, as the method for unsigned integers returns nothing but
/// `Ok`, and that its text depends on the size alone, which is what
/// [`binary_size_text`] names.
#[verifier::external_body]
fn binary_size(bytes: u64) -> (outcome: Result<String, String>)
    ensures
        outcome is Ok,
        outcome->Ok_0@ == binary_size_text(bytes),
{
    bytes.file_size(humansize::file_size_opts::BINARY)
}

/// A size in binary units, as text.
pub fn human_size(bytes: u64) -> (text: String)
    ensures
        text@ == binary_size_text(bytes),
{
    binary_size(bytes).unwrap()
}

/// The space in use on a drive of `total` bytes of which `available` are
/// free; nothing where more is free than the drive holds.
pub fn used_space(total: u64, available: u64) -> (used: Option<u64>)
    ensures
        available <= total ==> used == Some((total - available) as u64),
        available > total ==> used is None,
{
    if available <= total {
        Some(total - available)
    } else {
        None
    }
}

/// The lines of a usage report for the three sizes given as text: a blank
/// line, one labelled line each for total, used and available space, and a
/// blank line.
pub open spec fn report(total: Seq<char>, used: Seq<char>, available: Seq<char>) -> Seq<Seq<char>> {
    seq![
        Seq::empty(),
        "         Total Space: "@ + total,
        "          Used Space: "@ + used,
        "Available Free Space: "@ + available,
        Seq::empty(),
    ]
}

/// A label followed by a value.
pub fn labelled(label: &str, value: &str) -> (line: String)
    ensures
        line@ == label@ + value@,
{
    let mut line = String::from_str(label);
    line.append(value);
    line
}

/// Lays out the usage report for the three sizes given as text.
pub fn report_lines(total: &str, used: &str, available: &str) -> (lines: Vec<String>)
    ensures
        lines@.len() == 5,
        forall|i: int| 0 <= i < 5 ==> (#[trigger] lines@[i])@ == report(total@, used@, available@)[i],
{
    let mut lines: Vec<String> = Vec::new();
    lines.push(String::new());
    lines.push(labelled("         Total Space: ", total));
    lines.push(labelled("          Used Space: ", used));
    lines.push(labelled("Available Free Space: ", available));
    lines.push(String::new());
    lines
}

/// The usage report of a drive of `total` bytes of which `available` are
/// free, each size in binary units; nothing where more is free than the
/// drive holds.
pub fn usage_report(total: u64, available: u64) -> (lines: Option<Vec<String>>)
    ensures
        lines is Some <==> available <= total,
        lines matches Some(text) ==> text@.len() == 5 && forall|i: int|
            0 <= i < 5 ==> (#[trigger] text@[i])@ == report(
                binary_size_text(total),
                binary_size_text((total - available) as u64),
                binary_size_text(available),
            )[i],
{
    match used_space(total, available) {
        Some(used) => {
            let total_text = human_size(total);
            let used_text = human_size(used);
            let available_text = human_size(available);
            Some(report_lines(total_text.as_str(), used_text.as_str(), available_text.as_str()))
        },
        None => None,
    }
}

/// The unit that a size is shown in, as the number of times it is divided
/// by 1024: as often as the size allows, and at most four times.
pub open spec fn unit_of(bytes: nat) -> nat {
    if bytes < 1024 {
        0
    } else if bytes < 1048576 {
        1
    } else if bytes < 1073741824 {
        2
    } else if bytes < 1099511627776 {
        3
    } else {
        4
    }
}

/// The number of bytes in a unit: 1024 to the power of `unit`.
pub open spec fn unit_size(unit: nat) -> nat
    recommends
        unit <= 4,
{
    if unit == 0 {
        1
    } else if unit == 1 {
        1024
    } else if unit == 2 {
        1048576
    } else if unit == 3 {
        1073741824
    } else {
        1099511627776
    }
}

/// The name of a unit; every unit from the fourth on is the terabyte.
pub open spec fn unit_text(unit: nat) -> Seq<char> {
    if unit == 0 {
        "B"@
    } else if unit == 1 {
        "KB"@
    } else if unit == 2 {
        "MB"@
    } else if unit == 3 {
        "GB"@
    } else {
        "TB"@
    }
}

/// A size in hundredths of its unit, rounded to the nearest hundredth, a
/// half rounding up.
pub open spec fn hundredths(bytes: nat) -> nat {
    let size = unit_size(unit_of(bytes));
    (bytes * 100 + size / 2) / size
}

/// A size as text: the whole units, a point, two decimals, a space and the
/// unit's name.
pub open spec fn size_text(bytes: nat) -> Seq<char> {
    decimal(hundredths(bytes) / 100) + seq!['.'] + two_digits(hundredths(bytes) % 100) + seq![' ']
        + unit_text(unit_of(bytes))
}

/// The unit that a size is shown in.
pub fn unit_index(bytes: u64) -> (unit: u8)
    ensures
        unit == unit_of(bytes as nat),
        unit <= 4,
{
    if bytes < 1024 {
        0
    } else if bytes < 1048576 {
        1
    } else if bytes < 1073741824 {
        2
    } else if bytes < 1099511627776 {
        3
    } else {
        4
    }
}

/// The name of a unit; every unit from the fourth on is the terabyte.
pub fn unit_name(unit: u8) -> (name: &'static str)
    ensures
        name@ == unit_text(unit as nat),
{
    match unit {
        0 => "B",
        1 => "KB",
        2 => "MB",
        3 => "GB",
        _ => "TB",
    }
}

/// A size in hundredths of its unit, rounded to the nearest.
pub fn scaled_hundredths(bytes: u64) -> (scaled: u64)
    ensures
        scaled == hundredths(bytes as nat),
{
    let wide: u128 = bytes as u128 * 100;
    let scaled: u128 = match unit_index(bytes) {
        0 => wide,
        1 => (wide + 512) / 1024,
        2 => (wide + 524288) / 1048576,
        3 => (wide + 536870912) / 1073741824,
        _ => (wide + 549755813888) / 1099511627776,
    };
    scaled as u64
}

/// A size with two decimals in the largest unit that it fills, from bytes
/// to terabytes in steps of 1024, as in `512.00 B` and `1.50 KB`.
pub fn format_bytes(bytes: u64) -> (text: String)
    ensures
        text@ == size_text(bytes as nat),
{
    let unit: u8 = unit_index(bytes);
    let scaled: u64 = scaled_hundredths(bytes);
    let mut text = decimal_text(scaled / 100);
    text.append(".");
    text.append(two_digit_text(scaled % 100).as_str());
    text.append(" ");
    text.append(unit_name(unit));
    proof {
        reveal_strlit(".");
        reveal_strlit(" ");
        assert(text@ =~= size_text(bytes as nat));
    }
    text
}

} // verus!
