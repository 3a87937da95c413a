use crate::common::utf8::{chars_of, string_push};
use vstd::prelude::*;

verus! {

/// The options of the command line tool.
#[derive(Debug)]
pub struct Args {
    /// Pattern of the script files to read.
    pub input: String,
    /// Directory to write into.
    pub output: String,
    /// Cross map file to use in place of the default.
    pub xmap: Option<String>,
    /// Natives file to use in place of the default.
    pub natives: Option<String>,
    /// Functions to draw graphs of, as script name and function index.
    pub graphs: Option<Vec<(String, usize)>>,
    /// Whether to write disassembly too.
    pub disassemble: bool,
    /// How many bytes of each instruction disassembly shows.
    pub bytes: usize,
    /// Whether disassembly shows addresses.
    pub addresses: bool,
}

/// Why a `KEY:value` pair could not be read.
#[derive(Debug, Clone, Copy, PartialEq, Eq, Structural)]
pub enum ParseKeyValError {
    /// The text has no `:`.
    NoSeparator,
    /// The value is no unsigned number that fits a `usize`.
    InvalidValue,
}

/// The position of the first `:` in `text`, or -1.
pub open spec fn colon_position(text: Seq<char>, from: int) -> int
    decreases text.len() - from,
{
    if from < 0 || from >= text.len() {
        -1
    } else if text[from] == ':' {
        from
    } else {
        colon_position(text, from + 1)
    }
}

/// The value of the decimal digits `digits`, if all of them are digits.
pub open spec fn decimal_value(digits: Seq<char>) -> Option<nat>
    decreases digits.len(),
{
    if digits.len() == 0 {
        Some(0)
    } else {
        match decimal_value(digits.drop_last()) {
            Some(h) => if '0' <= digits.last() && digits.last() <= '9' {
                Some(h * 10 + ((digits.last() as nat) - ('0' as nat)) as nat)
            } else {
                None
            },
            None => None,
        }
    }
}

/// The unsigned number that `text` writes: an optional `+` and one or more
/// decimal digits, if it fits a `usize`.
pub open spec fn usize_of_text(text: Seq<char>) -> Option<usize> {
    let digits = if text.len() > 0 && text[0] == '+' {
        text.drop_first()
    } else {
        text
    };
    if digits.len() == 0 {
        None
    } else {
        match decimal_value(digits) {
            Some(v) => if v <= usize::MAX {
                Some(v as usize)
            } else {
                None
            },
            None => None,
        }
    }
}

proof fn lemma_decimal_grows(digits: Seq<char>, k: int)
    requires
        0 <= k <= digits.len(),
        decimal_value(digits.take(k)) matches Some(v) && v > usize::MAX,
    ensures
        decimal_value(digits) matches Some(w) ==> w > usize::MAX,
    decreases digits.len() - k,
{
    if k < digits.len() {
        assert(digits.take(k + 1).drop_last() =~= digits.take(k));
        if decimal_value(digits.take(k + 1)) is Some {
            lemma_decimal_grows(digits, k + 1);
        } else {
            lemma_decimal_none(digits, k + 1);
        }
    } else {
        assert(digits.take(k) =~= digits);
    }
}

proof fn lemma_decimal_none(digits: Seq<char>, k: int)
    requires
        0 <= k <= digits.len(),
        decimal_value(digits.take(k)) is None,
    ensures
        decimal_value(digits) is None,
    decreases digits.len() - k,
{
    if k < digits.len() {
        assert(digits.take(k + 1).drop_last() =~= digits.take(k));
        lemma_decimal_none(digits, k + 1);
    } else {
        assert(digits.take(k) =~= digits);
    }
}

/// Reads a `KEY:value` pair: the text before the first `:` and the
/// unsigned number after it.
pub fn parse_key_val(s: &str) -> (r: Result<(String, usize), ParseKeyValError>)
    ensures
        colon_position(s@, 0) < 0 ==> r == Err::<(String, usize), _>(ParseKeyValError::NoSeparator),
        colon_position(s@, 0) >= 0 ==> match usize_of_text(
            s@.subrange(colon_position(s@, 0) + 1, s@.len() as int),
        ) {
            Some(v) => r matches Ok((key, value)) && key@ == s@.subrange(
                0,
                colon_position(s@, 0),
            ) && value == v,
            None => r == Err::<(String, usize), _>(ParseKeyValError::InvalidValue),
        },
{
    let chars = chars_of(s);
    let mut pos: usize = 0;
    while pos < chars.len() && chars[pos] != ':'
        invariant
            pos <= chars@.len(),
            chars@ == s@,
            colon_position(s@, 0) == colon_position(s@, pos as int),
        decreases chars@.len() - pos,
    {
        pos = pos + 1;
    }
    if pos >= chars.len() {
        return Err(ParseKeyValError::NoSeparator);
    }
    let mut key = String::new();
    let mut i: usize = 0;
    while i < pos
        invariant
            i <= pos < chars@.len(),
            key@ == chars@.subrange(0, i as int),
        decreases pos - i,
    {
        string_push(&mut key, chars[i]);
        i = i + 1;
        assert(key@ =~= chars@.subrange(0, i as int));
    }
    let ghost text = chars@.subrange(pos + 1, chars@.len() as int);
    let mut start = pos + 1;
    if start < chars.len() && chars[start] == '+' {
        start = start + 1;
    }
    let ghost digits = chars@.subrange(start as int, chars@.len() as int);
    proof {
        if text.len() > 0 && text[0] == '+' {
            assert(text.drop_first() =~= digits);
        } else {
            assert(text =~= digits);
        }
    }
    if start >= chars.len() {
        return Err(ParseKeyValError::InvalidValue);
    }
    let mut value: usize = 0;
    let mut j = start;
    proof {
        assert(digits.take(0) =~= Seq::<char>::empty());
    }
    assert(usize_of_text(s@.subrange(pos + 1, s@.len() as int)) == match decimal_value(digits) {
        Some(v) => if v <= usize::MAX {
            Some(v as usize)
        } else {
            None
        },
        None => None,
    });
    while j < chars.len()
        invariant
            chars@ == s@,
            colon_position(s@, 0) == pos,
            pos < s@.len(),
            key@ == s@.subrange(0, pos as int),
            usize_of_text(s@.subrange(pos + 1, s@.len() as int)) == match decimal_value(digits) {
                Some(v) => if v <= usize::MAX {
                    Some(v as usize)
                } else {
                    None
                },
                None => None,
            },
            start <= j <= chars@.len(),
            digits == chars@.subrange(start as int, chars@.len() as int),
            digits.len() > 0,
            decimal_value(digits.take(j - start)) == Some(value as nat),
        decreases chars@.len() - j,
    {
        let c = chars[j];
        let k = j - start + 1;
        proof {
            assert(digits.take(k as int).drop_last() =~= digits.take(j - start));
            assert(digits.take(k as int).last() == c);
        }
        if !('0' <= c && c <= '9') {
            proof {
                lemma_decimal_none(digits, k as int);
            }
            return Err(ParseKeyValError::InvalidValue);
        }
        let d = (c as usize) - ('0' as usize);
        if value > (usize::MAX - d) / 10 {
            proof {
                assert(value as nat * 10 + d as nat > usize::MAX) by (nonlinear_arith)
                    requires
                        value > (usize::MAX - d) / 10,
                        d < 10,
                ;
                lemma_decimal_grows(digits, k as int);
            }
            return Err(ParseKeyValError::InvalidValue);
        }
        proof {
            assert(value * 10 + d <= usize::MAX) by (nonlinear_arith)
                requires
                    value <= (usize::MAX - d) / 10,
                    d < 10,
            ;
        }
        value = value * 10 + d;
        j = j + 1;
    }
    proof {
        assert(digits.take(j - start) =~= digits);
    }
    Ok((key, value))
}

} // verus!
