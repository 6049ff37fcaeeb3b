//! Reading a return series from text: one decimal number per line, turned
//! into parts per million.

use vstd::prelude::*;
use crate::config::{HistoricalReturns, SimulationError};

verus! {

/// The byte `-`.
pub const MINUS: u8 = 45;

/// The byte `+`.
pub const PLUS: u8 = 43;

/// The byte `.`.
pub const POINT: u8 = 46;

/// The byte `0`.
pub const ZERO: u8 = 48;

/// The byte `9`.
pub const NINE: u8 = 57;

/// Whole parts above this bound are out of range whatever follows them.
const WHOLE_CAP: u64 = 4_000;

/// True of the ten decimal digits.
pub open spec fn is_digit(b: u8) -> bool {
    ZERO <= b <= NINE
}

/// The number of digits that `line` holds from position `from` on, up to the
/// first byte that is no digit.
pub open spec fn digit_run(line: Seq<u8>, from: int) -> nat
    decreases line.len() - from,
{
    if 0 <= from < line.len() && is_digit(line[from]) {
        1 + digit_run(line, from + 1)
    } else {
        0
    }
}

/// The number that a sequence of digits writes in base ten.
pub open spec fn digits_value(digits: Seq<u8>) -> nat
    decreases digits.len(),
{
    if digits.len() == 0 {
        0
    } else {
        (digits_value(digits.drop_last()) * 10 + (digits.last() - ZERO)) as nat
    }
}

/// What a fraction of `count` digits is multiplied by to give millionths.
pub open spec fn millionths_per_unit(count: int) -> nat {
    if count <= 0 {
        1_000_000
    } else if count == 1 {
        100_000
    } else if count == 2 {
        10_000
    } else if count == 3 {
        1_000
    } else if count == 4 {
        100
    } else if count == 5 {
        10
    } else {
        1
    }
}

/// The millionths that the digits after the point stand for. Digits after
/// the sixth are dropped.
pub open spec fn fraction_millionths(digits: Seq<u8>) -> nat {
    if digits.len() >= 6 {
        digits_value(digits.take(6))
    } else {
        digits_value(digits) * millionths_per_unit(digits.len() as int)
    }
}

/// The length of the sign that `line` starts with: one or zero.
pub open spec fn sign_len(line: Seq<u8>) -> int {
    if line.len() > 0 && (line[0] == MINUS || line[0] == PLUS) {
        1
    } else {
        0
    }
}

/// Where the digits after the point start: behind the point if the whole
/// part is followed by one, else where the whole part ends.
pub open spec fn fraction_start(line: Seq<u8>) -> int {
    let after = sign_len(line) + digit_run(line, sign_len(line));
    if after < line.len() && line[after] == POINT {
        after + 1
    } else {
        after
    }
}

/// `line` is a decimal number: an optional sign, digits, and optionally a
/// point and more digits, with a digit somewhere and nothing else.
pub open spec fn is_decimal(line: Seq<u8>) -> bool {
    let whole = digit_run(line, sign_len(line));
    let after = sign_len(line) + whole;
    let start = fraction_start(line);
    let fraction = if start > after {
        digit_run(line, start)
    } else {
        0
    };
    start + fraction == line.len() && whole + fraction > 0
}

/// The value of a decimal number in millionths, with its sign.
pub open spec fn decimal_millionths(line: Seq<u8>) -> int {
    let after = sign_len(line) + digit_run(line, sign_len(line));
    let magnitude = digits_value(line.subrange(sign_len(line), after)) * 1_000_000 + fraction_millionths(
        line.subrange(fraction_start(line), line.len() as int),
    );
    if line.len() > 0 && line[0] == MINUS {
        -magnitude
    } else {
        magnitude as int
    }
}

/// The rate that a line of text holds, in parts per million: `None` where
/// the line is no decimal number or its rate does not fit in an `i32`.
pub open spec fn rate_of(line: Seq<u8>) -> Option<i32> {
    if is_decimal(line) && i32::MIN <= decimal_millionths(line) <= i32::MAX {
        Some(decimal_millionths(line) as i32)
    } else {
        None
    }
}

proof fn lemma_digit_run(line: Seq<u8>, from: int, to: int)
    requires
        0 <= from <= to <= line.len(),
        forall|j: int| from <= j < to ==> is_digit(#[trigger] line[j]),
        to == line.len() || !is_digit(line[to]),
    ensures
        digit_run(line, from) == to - from,
    decreases to - from,
{
    if from < to {
        lemma_digit_run(line, from + 1, to);
    }
}

/// Reads one line as a rate in parts per million.
pub fn parse_rate(line: &Vec<u8>) -> (r: Option<i32>)
    ensures
        r == rate_of(line@),
{
    let n: usize = line.len();
    let mut i: usize = 0;
    let mut negative: bool = false;
    if n > 0 && (line[0] == MINUS || line[0] == PLUS) {
        negative = line[0] == MINUS;
        i = 1;
    }
    let first: usize = i;
    let mut whole: u64 = 0;
    while i < n && ZERO <= line[i] && line[i] <= NINE
        invariant
            n == line@.len(),
            first <= i <= n,
            first == sign_len(line@),
            forall|j: int| first <= j < i ==> is_digit(#[trigger] line@[j]),
            whole <= WHOLE_CAP,
            digits_value(line@.subrange(first as int, i as int)) < WHOLE_CAP ==> whole == digits_value(
                line@.subrange(first as int, i as int),
            ),
            digits_value(line@.subrange(first as int, i as int)) >= WHOLE_CAP ==> whole == WHOLE_CAP,
        decreases n - i,
    {
        proof {
            assert(line@.subrange(first as int, i + 1).drop_last() =~= line@.subrange(first as int, i as int));
            assert(line@.subrange(first as int, i + 1).last() == line@[i as int]);
        }
        let digit: u64 = (line[i] - ZERO) as u64;
        whole = whole * 10 + digit;
        if whole > WHOLE_CAP {
            whole = WHOLE_CAP;
        }
        i = i + 1;
    }
    let after: usize = i;
    proof {
        lemma_digit_run(line@, first as int, after as int);
    }
    let mut fraction: u64 = 0;
    let mut taken: usize = 0;
    let mut start: usize = after;
    if i < n && line[i] == POINT {
        i = i + 1;
        start = i;
        while i < n && ZERO <= line[i] && line[i] <= NINE
            invariant
                n == line@.len(),
                start <= i <= n,
                forall|j: int| start <= j < i ==> is_digit(#[trigger] line@[j]),
                taken <= 6,
                i - start < 6 ==> taken == i - start,
                i - start >= 6 ==> taken == 6,
                fraction == digits_value(line@.subrange(start as int, start + taken)),
                fraction < millionths_per_unit(6 - taken),
            decreases n - i,
        {
            if taken < 6 {
                proof {
                    assert(line@.subrange(start as int, i + 1).drop_last() =~= line@.subrange(
                        start as int,
                        i as int,
                    ));
                    assert(line@.subrange(start as int, i + 1).last() == line@[i as int]);
                }
                let digit: u64 = (line[i] - ZERO) as u64;
                fraction = fraction * 10 + digit;
                taken = taken + 1;
            }
            i = i + 1;
        }
        proof {
            lemma_digit_run(line@, start as int, i as int);
        }
    }
    assert(start == fraction_start(line@));
    assert(fraction < millionths_per_unit(6 - taken));
    if i != n {
        return None;
    }
    if (after - first) + (n - start) == 0 {
        return None;
    }
    let ghost digits = line@.subrange(start as int, n as int);
    proof {
        if n - start >= 6 {
            assert(digits.take(6) =~= line@.subrange(start as int, start + 6));
        } else {
            assert(digits =~= line@.subrange(start as int, start + taken));
        }
    }
    let fraction: u64 = if taken == 0 {
        0
    } else if taken == 1 {
        fraction * 100_000
    } else if taken == 2 {
        fraction * 10_000
    } else if taken == 3 {
        fraction * 1_000
    } else if taken == 4 {
        fraction * 100
    } else if taken == 5 {
        fraction * 10
    } else {
        fraction
    };
    assert(fraction == fraction_millionths(digits));
    if whole >= WHOLE_CAP {
        return None;
    }
    let magnitude: u64 = whole * 1_000_000 + fraction;
    if negative {
        if magnitude > 2_147_483_648 {
            None
        } else {
            let signed: i64 = -(magnitude as i64);
            Some(signed as i32)
        }
    } else {
        if magnitude > 2_147_483_647 {
            None
        } else {
            Some(magnitude as i32)
        }
    }
}

/// Every line of `lines` holds a rate.
pub open spec fn all_lines_valid(lines: Seq<Vec<u8>>) -> bool {
    forall|i: int| 0 <= i < lines.len() ==> rate_of((#[trigger] lines[i])@) is Some
}

/// Line `k` is the first line of `lines` that holds no rate.
pub open spec fn first_invalid_line(lines: Seq<Vec<u8>>, k: int) -> bool {
    &&& 0 <= k < lines.len()
    &&& rate_of(lines[k]@) is None
    &&& forall|j: int| 0 <= j < k ==> rate_of((#[trigger] lines[j])@) is Some
}

/// `series` holds the rates of `lines`, line by line.
pub open spec fn is_series_of(series: Seq<i32>, lines: Seq<Vec<u8>>) -> bool {
    &&& series.len() == lines.len()
    &&& forall|i: int| 0 <= i < lines.len() ==> rate_of((#[trigger] lines[i])@) == Some(series[i])
}

/// Reads a return series, one rate per line. No partial series is given:
/// the first line that holds no rate fails the whole series, and the error
/// carries its index.
pub fn parse_series(lines: &Vec<Vec<u8>>) -> (r: Result<Vec<i32>, SimulationError>)
    ensures
        match r {
            Ok(series) => is_series_of(series@, lines@),
            Err(SimulationError::InvalidEntry(k)) => first_invalid_line(lines@, k as int),
            Err(_) => false,
        },
{
    let mut series: Vec<i32> = Vec::new();
    let mut i: usize = 0;
    while i < lines.len()
        invariant
            i <= lines@.len(),
            series@.len() == i,
            forall|j: int| 0 <= j < i ==> rate_of((#[trigger] lines@[j])@) == Some(series@[j]),
        decreases lines@.len() - i,
    {
        match parse_rate(&lines[i]) {
            Some(rate) => {
                series.push(rate);
            },
            None => {
                assert(first_invalid_line(lines@, i as int));
                return Err(SimulationError::InvalidEntry(i));
            },
        }
        i = i + 1;
    }
    Ok(series)
}

/// Reads the stock series and the bond series and pairs them. The stock
/// series is read first; an invalid line fails the load with its index.
/// Series that both read but differ in length, or are empty, are refused.
pub fn load_returns(stock_lines: &Vec<Vec<u8>>, bond_lines: &Vec<Vec<u8>>) -> (r: Result<
    HistoricalReturns,
    SimulationError,
>)
    ensures
        match r {
            Ok(data) => data.wf() && is_series_of(data.stocks@, stock_lines@) && is_series_of(
                data.bonds@,
                bond_lines@,
            ),
            Err(SimulationError::InvalidEntry(k)) => first_invalid_line(stock_lines@, k as int) || (all_lines_valid(
                stock_lines@,
            ) && first_invalid_line(bond_lines@, k as int)),
            Err(SimulationError::SeriesLengthMismatch) => all_lines_valid(stock_lines@) && all_lines_valid(
                bond_lines@,
            ) && stock_lines@.len() != bond_lines@.len(),
            Err(SimulationError::EmptySeries) => stock_lines@.len() == 0 && bond_lines@.len() == 0,
            Err(_) => false,
        },
{
    let stocks = match parse_series(stock_lines) {
        Ok(series) => series,
        Err(e) => {
            return Err(e);
        },
    };
    let bonds = match parse_series(bond_lines) {
        Ok(series) => series,
        Err(e) => {
            return Err(e);
        },
    };
    HistoricalReturns::new(stocks, bonds)
}

} // verus!
