//! Rendering report rows as text.
//!
//! Each printed row is the game's name, a column separator, and its viewer
//! count in decimal. The decimal rendering is the library's own, specified
//! digit by digit.

use vstd::prelude::*;
use crate::report::GameReport;

verus! {

/// The decimal digit character of one value below ten.
pub open spec fn digit_char(d: int) -> char {
    if d == 0 {
        '0'
    } else if d == 1 {
        '1'
    } else if d == 2 {
        '2'
    } else if d == 3 {
        '3'
    } else if d == 4 {
        '4'
    } else if d == 5 {
        '5'
    } else if d == 6 {
        '6'
    } else if d == 7 {
        '7'
    } else if d == 8 {
        '8'
    } else {
        '9'
    }
}

/// The usual decimal rendering of a non-negative integer: most significant
/// digit first, no leading zero except for zero itself.
pub open spec fn spec_decimal(n: int) -> Seq<char>
    decreases n,
{
    if n < 10 {
        seq![digit_char(n)]
    } else {
        spec_decimal(n / 10) + seq![digit_char(n % 10)]
    }
}

/// One decimal digit as a string slice.
fn digit_str(d: u64) -> (s: &'static str)
    requires
        d < 10,
    ensures
        s@ == seq![digit_char(d as int)],
{
    let s: &'static str = match d {
        0 => "0",
        1 => "1",
        2 => "2",
        3 => "3",
        4 => "4",
        5 => "5",
        6 => "6",
        7 => "7",
        8 => "8",
        _ => "9",
    };
    proof {
        reveal_strlit("0");
        reveal_strlit("1");
        reveal_strlit("2");
        reveal_strlit("3");
        reveal_strlit("4");
        reveal_strlit("5");
        reveal_strlit("6");
        reveal_strlit("7");
        reveal_strlit("8");
        reveal_strlit("9");
        assert(s@ =~= seq![digit_char(d as int)]);
    }
    s
}

/// A viewer count in decimal.
pub fn u64_to_decimal(n: u64) -> (s: String)
    ensures
        s@ == spec_decimal(n as int),
    decreases n,
{
    if n < 10 {
        let d = digit_str(n);
        d.to_owned()
    } else {
        let mut s = u64_to_decimal(n / 10);
        let d = digit_str(n % 10);
        s.append(d);
        s
    }
}

/// The characters of one printed report row: name, separator, count.
pub open spec fn spec_report_line(name: Seq<char>, viewers: u64) -> Seq<char> {
    name + seq![' ', '|', ' '] + spec_decimal(viewers as int)
}

/// One report row as text.
pub fn report_line(report: &GameReport) -> (line: String)
    ensures
        line@ == spec_report_line(report.name@, report.viewers),
{
    let mut line = report.name.clone();
    line.append(" | ");
    proof {
        reveal_strlit(" | ");
        assert(" | "@ =~= seq![' ', '|', ' ']);
    }
    let count = u64_to_decimal(report.viewers);
    line.append(count.as_str());
    line
}

/// The rows of the printed report, one per visible report, in order.
pub fn report_lines(reports: &Vec<GameReport>) -> (lines: Vec<String>)
    ensures
        lines@.len() == reports@.len(),
        forall|i: int|
            0 <= i < reports@.len() ==> (#[trigger] lines@[i])@ == spec_report_line(
                reports@[i].name@,
                reports@[i].viewers,
            ),
{
    let mut lines: Vec<String> = Vec::new();
    let mut i: usize = 0;
    while i < reports.len()
        invariant
            0 <= i <= reports@.len(),
            lines@.len() == i,
            forall|j: int|
                0 <= j < i ==> (#[trigger] lines@[j])@ == spec_report_line(
                    reports@[j].name@,
                    reports@[j].viewers,
                ),
        decreases reports@.len() - i,
    {
        let line = report_line(&reports[i]);
        lines.push(line);
        i = i + 1;
    }
    lines
}

} // verus!
