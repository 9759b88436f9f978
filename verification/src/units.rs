//! BUFR units: the enumerated unit a Table B element carries, parsed from
//! the catalogue's unit text, and verified decimal parsing of catalogue
//! number fields.

use vstd::prelude::*;
use vstd::string::StrSliceExecFns;

verus! {

/// The unit of a Table B element. Unit strings the catalogue parser does
/// not recognise are retained as text rather than rejected.
#[derive(Debug, Clone, PartialEq, Eq)]
pub enum BUFRUnit {
    Numeric,
    CodeTable,
    FlagTable,
    CCITTIA5,
    Year,
    Month,
    Day,
    Hour,
    Minute,
    Second,
    Degree,
    MeterPerSecond,
    DegreeTrue,
    CC1,
    CC12,
    CC11,
    CC14,
    CodeTableOriginator,
    Meter,
    Kelvin,
    Hertz,
    Kilogram,
    KilogramPerLiter,
    KilogramPerCubicMeter,
    SquareMeter,
    CubicMeter,
    CubicMeterPerSecond,
    SquareMeterPerSquareSecond,
    Pascal,
    Celsius,
    Other(String),
}

/// The unit a known catalogue unit string denotes, tried in order; `None`
/// for a string the catalogue parser keeps as text.
pub open spec fn spec_unit_known(t: Seq<char>) -> Option<BUFRUnit> {
    if t == "Code table"@ {
        Some(BUFRUnit::CodeTable)
    } else if t == "Flag table"@ {
        Some(BUFRUnit::FlagTable)
    } else if t == "Numeric"@ {
        Some(BUFRUnit::Numeric)
    } else if t == "a"@ {
        Some(BUFRUnit::Year)
    } else if t == "d"@ {
        Some(BUFRUnit::Day)
    } else if t == "m/s"@ {
        Some(BUFRUnit::MeterPerSecond)
    } else if t == "m s-1"@ {
        Some(BUFRUnit::MeterPerSecond)
    } else if t == "CCITT IA5"@ {
        Some(BUFRUnit::CCITTIA5)
    } else if t == "degree true"@ {
        Some(BUFRUnit::DegreeTrue)
    } else if t == "Code table defined by originating/generating centre"@ {
        Some(BUFRUnit::CodeTableOriginator)
    } else if t == "h"@ {
        Some(BUFRUnit::Hour)
    } else if t == "min"@ {
        Some(BUFRUnit::Minute)
    } else if t == "m"@ {
        Some(BUFRUnit::Meter)
    } else if t == "mon"@ {
        Some(BUFRUnit::Month)
    } else if t == "s"@ {
        Some(BUFRUnit::Second)
    } else if t == "deg"@ {
        Some(BUFRUnit::Degree)
    } else if t == "Common Code table C-1"@ {
        Some(BUFRUnit::CC1)
    } else if t == "Common Code table C-12"@ {
        Some(BUFRUnit::CC12)
    } else if t == "Common Code table C-11"@ {
        Some(BUFRUnit::CC11)
    } else if t == "Common Code table C-14"@ {
        Some(BUFRUnit::CC14)
    } else if t == "K"@ {
        Some(BUFRUnit::Kelvin)
    } else if t == "C"@ {
        Some(BUFRUnit::Celsius)
    } else if t == "Hz"@ {
        Some(BUFRUnit::Hertz)
    } else if t == "kg"@ {
        Some(BUFRUnit::Kilogram)
    } else if t == "kg l-1"@ {
        Some(BUFRUnit::KilogramPerLiter)
    } else if t == "m2"@ {
        Some(BUFRUnit::SquareMeter)
    } else if t == "m3"@ {
        Some(BUFRUnit::CubicMeter)
    } else if t == "m3/s"@ {
        Some(BUFRUnit::CubicMeterPerSecond)
    } else if t == "m3 s-1"@ {
        Some(BUFRUnit::CubicMeterPerSecond)
    } else if t == "m2 s-2"@ {
        Some(BUFRUnit::SquareMeterPerSquareSecond)
    } else if t == "Pa"@ {
        Some(BUFRUnit::Pascal)
    } else {
        None
    }
}

/// Whether two string slices hold the same characters.
pub fn str_eq(a: &str, b: &str) -> (r: bool)
    ensures
        r == (a@ == b@),
{
    let sa: String = a.to_owned();
    let sb: String = b.to_owned();
    sa == sb
}

impl BUFRUnit {
    /// Parses a catalogue unit string; a string that names no known unit
    /// is retained as text, never rejected.
    pub fn from_text(s: &str) -> (r: BUFRUnit)
        ensures
            match spec_unit_known(s@) {
                Some(u) => r == u,
                None => r matches BUFRUnit::Other(t) && t@ == s@,
            },
    {
        if str_eq(s, "Code table") {
            BUFRUnit::CodeTable
        } else if str_eq(s, "Flag table") {
            BUFRUnit::FlagTable
        } else if str_eq(s, "Numeric") {
            BUFRUnit::Numeric
        } else if str_eq(s, "a") {
            BUFRUnit::Year
        } else if str_eq(s, "d") {
            BUFRUnit::Day
        } else if str_eq(s, "m/s") {
            BUFRUnit::MeterPerSecond
        } else if str_eq(s, "m s-1") {
            BUFRUnit::MeterPerSecond
        } else if str_eq(s, "CCITT IA5") {
            BUFRUnit::CCITTIA5
        } else if str_eq(s, "degree true") {
            BUFRUnit::DegreeTrue
        } else if str_eq(s, "Code table defined by originating/generating centre") {
            BUFRUnit::CodeTableOriginator
        } else if str_eq(s, "h") {
            BUFRUnit::Hour
        } else if str_eq(s, "min") {
            BUFRUnit::Minute
        } else if str_eq(s, "m") {
            BUFRUnit::Meter
        } else if str_eq(s, "mon") {
            BUFRUnit::Month
        } else if str_eq(s, "s") {
            BUFRUnit::Second
        } else if str_eq(s, "deg") {
            BUFRUnit::Degree
        } else if str_eq(s, "Common Code table C-1") {
            BUFRUnit::CC1
        } else if str_eq(s, "Common Code table C-12") {
            BUFRUnit::CC12
        } else if str_eq(s, "Common Code table C-11") {
            BUFRUnit::CC11
        } else if str_eq(s, "Common Code table C-14") {
            BUFRUnit::CC14
        } else if str_eq(s, "K") {
            BUFRUnit::Kelvin
        } else if str_eq(s, "C") {
            BUFRUnit::Celsius
        } else if str_eq(s, "Hz") {
            BUFRUnit::Hertz
        } else if str_eq(s, "kg") {
            BUFRUnit::Kilogram
        } else if str_eq(s, "kg l-1") {
            BUFRUnit::KilogramPerLiter
        } else if str_eq(s, "m2") {
            BUFRUnit::SquareMeter
        } else if str_eq(s, "m3") {
            BUFRUnit::CubicMeter
        } else if str_eq(s, "m3/s") {
            BUFRUnit::CubicMeterPerSecond
        } else if str_eq(s, "m3 s-1") {
            BUFRUnit::CubicMeterPerSecond
        } else if str_eq(s, "m2 s-2") {
            BUFRUnit::SquareMeterPerSquareSecond
        } else if str_eq(s, "Pa") {
            BUFRUnit::Pascal
        } else {
            BUFRUnit::Other(s.to_owned())
        }
    }
}

/// The value of a decimal digit character, `None` for any other character.
pub open spec fn spec_digit(c: char) -> Option<int> {
    if 48 <= c as int <= 57 {
        Some(c as int - 48)
    } else {
        None
    }
}

/// The value of a non-empty string of decimal digits, `None` when any
/// character is not a digit.
pub open spec fn spec_parse_nat(s: Seq<char>) -> Option<int>
    decreases s.len(),
{
    if s.len() == 0 {
        None
    } else if s.len() == 1 {
        spec_digit(s[0])
    } else {
        match (spec_parse_nat(s.drop_last()), spec_digit(s.last())) {
            (Some(h), Some(d)) => Some(10 * h + d),
            _ => None,
        }
    }
}

/// The value of an optionally `-`-signed string of decimal digits.
pub open spec fn spec_parse_int(s: Seq<char>) -> Option<int> {
    if s.len() > 0 && s[0] == '-' {
        match spec_parse_nat(s.subrange(1, s.len() as int)) {
            Some(v) => Some(-v),
            None => None,
        }
    } else {
        spec_parse_nat(s)
    }
}

/// A digit string's value only grows as digits are appended: every prefix
/// parses and is no larger.
pub proof fn lemma_parse_nat_prefix(s: Seq<char>, k: int)
    requires
        0 < k <= s.len(),
        spec_parse_nat(s) is Some,
    ensures
        spec_parse_nat(s.take(k)) is Some,
        spec_parse_nat(s.take(k))->0 <= spec_parse_nat(s)->0,
        spec_parse_nat(s)->0 >= 0,
    decreases s.len(),
{
    if k == s.len() {
        assert(s.take(k) =~= s);
        if s.len() > 1 {
            lemma_parse_nat_prefix(s.drop_last(), s.len() - 1);
        }
    } else {
        lemma_parse_nat_prefix(s.drop_last(), k);
        assert(s.drop_last().take(k) =~= s.take(k));
    }
}

/// Parses an optionally signed decimal string into an `i32`; out-of-range
/// values and strings that are not a signed digit string give `None`.
pub fn parse_i32_text(s: &str) -> (r: Option<i32>)
    ensures
        r == (match spec_parse_int(s@) {
            Some(v) => if -0x8000_0000 <= v <= 0x7fff_ffff {
                Some(v as i32)
            } else {
                None::<i32>
            },
            None => None::<i32>,
        }),
{
    let n = s.unicode_len();
    let neg = n > 0 && s.get_char(0) == '-';
    let start: usize = if neg {
        1
    } else {
        0
    };
    let ghost digits = s@.subrange(start as int, n as int);
    if start >= n {
        return None;
    }
    let mut acc: u64 = 0;
    let mut i: usize = start;
    while i < n
        invariant
            start <= i <= n,
            n == s@.len(),
            digits == s@.subrange(start as int, n as int),
            neg ==> start == 1 && s@.len() > 0 && s@[0] == '-',
            !neg ==> start == 0 && (s@.len() == 0 || s@[0] != '-'),
            acc <= 0x8000_0000,
            i > start ==> spec_parse_nat(s@.subrange(start as int, i as int)) == Some(acc as int),
            i == start ==> acc == 0,
        decreases n - i,
    {
        let c = s.get_char(i);
        let cv = c as u32;
        if cv < 48 || cv > 57 {
            proof {
                if !neg {
                    assert(digits =~= s@);
                }
                if spec_parse_nat(digits) is Some {
                    assert(digits.take(i + 1 - start) =~= s@.subrange(start as int, i + 1));
                    lemma_parse_nat_prefix(digits, i + 1 - start);
                    lemma_parse_nat_step(s@, start as int, i + 1);
                    assert(spec_digit(s@[i as int]) is None);
                    assert(spec_parse_nat(digits.take(i + 1 - start)) is None);
                    assert(false);
                }
            }
            return None;
        }
        let d = cv - 48;
        proof {
            lemma_parse_nat_step(s@, start as int, i + 1);
        }
        acc = acc * 10 + (d as u64);
        i = i + 1;
        if acc > 0x8000_0000 {
            proof {
                if !neg {
                    assert(digits =~= s@);
                }
                if spec_parse_nat(digits) is Some {
                    assert(digits.take(i as int - start) =~= s@.subrange(start as int, i as int));
                    lemma_parse_nat_prefix(digits, i as int - start);
                    assert(spec_parse_nat(digits)->0 >= acc);
                }
            }
            return None;
        }
    }
    proof {
        assert(s@.subrange(start as int, n as int) == digits);
        if !neg {
            assert(digits =~= s@);
        }
    }
    if neg {
        if acc == 0x8000_0000 {
            Some(i32::MIN)
        } else {
            Some(0i32 - (acc as i32))
        }
    } else {
        if acc > 0x7fff_ffff {
            None
        } else {
            Some(acc as i32)
        }
    }
}

/// Extending a digit prefix by one character multiplies by ten and adds
/// the digit, in terms of the recursive parse.
proof fn lemma_parse_nat_step(s: Seq<char>, start: int, end: int)
    requires
        0 <= start < end <= s.len(),
    ensures
        spec_parse_nat(s.subrange(start, end)) == (if end - start == 1 {
            spec_digit(s[start])
        } else {
            match (spec_parse_nat(s.subrange(start, end - 1)), spec_digit(s[end - 1])) {
                (Some(h), Some(d)) => Some(10 * h + d),
                _ => None,
            }
        }),
{
    let sub = s.subrange(start, end);
    if end - start == 1 {
        assert(sub.len() == 1 && sub[0] == s[start]);
    } else {
        assert(sub.drop_last() =~= s.subrange(start, end - 1));
        assert(sub.last() == s[end - 1]);
    }
}

/// Parses an unsigned decimal string into a `u16`; out-of-range values and
/// strings that are not a digit string give `None`.
pub fn parse_u16_text(s: &str) -> (r: Option<u16>)
    ensures
        r == (match spec_parse_int(s@) {
            Some(v) => if 0 <= v <= 0xffff {
                Some(v as u16)
            } else {
                None::<u16>
            },
            None => None::<u16>,
        }),
{
    match parse_i32_text(s) {
        Some(v) => if 0 <= v && v <= 0xffff {
            Some(v as u16)
        } else {
            None
        },
        None => None,
    }
}

/// Parses an unsigned decimal string into a `u8`; out-of-range values and
/// strings that are not a digit string give `None`.
pub fn parse_u8_text(s: &str) -> (r: Option<u8>)
    ensures
        r == (match spec_parse_int(s@) {
            Some(v) => if 0 <= v <= 0xff {
                Some(v as u8)
            } else {
                None::<u8>
            },
            None => None::<u8>,
        }),
{
    match parse_i32_text(s) {
        Some(v) => if 0 <= v && v <= 0xff {
            Some(v as u8)
        } else {
            None
        },
        None => None,
    }
}

} // verus!
