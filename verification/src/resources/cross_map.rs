use std::collections::HashMap;
use vstd::prelude::*;
use crate::common::utf8::chars_of;

verus! {

broadcast use vstd::std_specs::hash::group_hash_axioms;

/// The history of each native hash across game builds: every list holds the
/// hashes one native had, the original first (zero where a build lacked it).
pub struct CrossMap {
    hashes: Vec<Vec<u64>>,
    original_cache: HashMap<u64, u64>,
}

/// The index of the first history that holds `current`, if any.
pub open spec fn history_index(hashes: Seq<Seq<u64>>, current: u64, from: int) -> int
    decreases hashes.len() - from,
{
    if from < 0 || from >= hashes.len() {
        -1
    } else if hashes[from].contains(current) {
        from
    } else {
        history_index(hashes, current, from + 1)
    }
}

/// The first non-zero hash of `history` from `from` on, or `current` if
/// there is none.
pub open spec fn first_nonzero(history: Seq<u64>, current: u64, from: int) -> u64
    decreases history.len() - from,
{
    if from < 0 || from >= history.len() {
        current
    } else if history[from] != 0 {
        history[from]
    } else {
        first_nonzero(history, current, from + 1)
    }
}

/// The original hash of the native that has the hash `current`: the first
/// non-zero hash of the first history that holds `current`, or `current`
/// itself.
pub open spec fn original_hash(hashes: Seq<Seq<u64>>, current: u64) -> u64 {
    let i = history_index(hashes, current, 0);
    if i < 0 {
        current
    } else {
        first_nonzero(hashes[i], current, 0)
    }
}

impl CrossMap {
    /// The histories as sequences of hashes.
    pub closed spec fn histories(&self) -> Seq<Seq<u64>> {
        self.hashes@.map_values(|h: Vec<u64>| h@)
    }

    /// Every remembered answer is the original hash of its key.
    pub closed spec fn wf(&self) -> bool {
        forall|k: u64|
            #[trigger] self.original_cache@.contains_key(k) ==> self.original_cache@[k]
                == original_hash(self.histories(), k)
    }

    /// A map over the given histories, with nothing remembered yet.
    pub fn new(hashes: Vec<Vec<u64>>) -> (r: Self)
        ensures
            r.wf(),
            r.histories() == hashes@.map_values(|h: Vec<u64>| h@),
    {
        CrossMap { hashes, original_cache: HashMap::new() }
    }

    /// The original hash of the native whose hash in the current build is
    /// `current`. Answers are remembered; a remembered answer is the one a
    /// fresh lookup gives.
    pub fn get_original_hash(&mut self, current: u64) -> (r: u64)
        requires
            old(self).wf(),
        ensures
            final(self).wf(),
            final(self).histories() == old(self).histories(),
            r == original_hash(old(self).histories(), current),
    {
        match self.original_cache.get(&current) {
            Some(v) => *v,
            None => {
                let v = self.lookup(current);
                self.original_cache.insert(current, v);
                v
            },
        }
    }

    /// Looks the original hash up in the histories.
    fn lookup(&self, current: u64) -> (r: u64)
        ensures
            r == original_hash(self.histories(), current),
    {
        let mut i: usize = 0;
        while i < self.hashes.len()
            invariant
                i <= self.hashes@.len(),
                history_index(self.histories(), current, 0) == history_index(
                    self.histories(),
                    current,
                    i as int,
                ),
            decreases self.hashes@.len() - i,
        {
            let history = &self.hashes[i];
            if contains(history, current) {
                assert(self.histories()[i as int] == history@);
                let mut j: usize = 0;
                assert(history_index(self.histories(), current, i as int) == i);
                while j < history.len()
                    invariant
                        j <= history@.len(),
                        history_index(self.histories(), current, 0) == i,
                        0 <= i < self.histories().len(),
                        self.histories()[i as int] == history@,
                        first_nonzero(history@, current, 0) == first_nonzero(
                            history@,
                            current,
                            j as int,
                        ),
                    decreases history@.len() - j,
                {
                    if history[j] != 0 {
                        return history[j];
                    }
                    j = j + 1;
                }
                return current;
            }
            assert(self.histories()[i as int] == history@);
            i = i + 1;
        }
        current
    }
}

/// Whether `history` holds `value`.
fn contains(history: &Vec<u64>, value: u64) -> (r: bool)
    ensures
        r == history@.contains(value),
{
    let mut i: usize = 0;
    while i < history.len()
        invariant
            i <= history@.len(),
            forall|j: int| 0 <= j < i ==> history@[j] != value,
        decreases history@.len() - i,
    {
        if history[i] == value {
            return true;
        }
        i = i + 1;
    }
    false
}

/// The value of a hexadecimal digit.
pub open spec fn hex_digit_value(c: char) -> Option<nat> {
    if '0' <= c && c <= '9' {
        Some(((c as nat) - ('0' as nat)) as nat)
    } else if 'a' <= c && c <= 'f' {
        Some(((c as nat) - ('a' as nat) + 10) as nat)
    } else if 'A' <= c && c <= 'F' {
        Some(((c as nat) - ('A' as nat) + 10) as nat)
    } else {
        None
    }
}

/// The value of the hexadecimal digits `digits`, if all of them are digits.
pub open spec fn hex_value(digits: Seq<char>) -> Option<nat>
    decreases digits.len(),
{
    if digits.len() == 0 {
        Some(0)
    } else {
        match (hex_value(digits.drop_last()), hex_digit_value(digits.last())) {
            (Some(h), Some(d)) => Some(h * 16 + d),
            _ => None,
        }
    }
}

/// `text` without the leading `0x` prefixes.
pub open spec fn strip_hex_prefixes(text: Seq<char>) -> Seq<char>
    decreases text.len(),
{
    if text.len() >= 2 && text[0] == '0' && text[1] == 'x' {
        strip_hex_prefixes(text.subrange(2, text.len() as int))
    } else {
        text
    }
}

/// The hash that a history entry of the cross map's JSON writes: optional
/// leading `0x` prefixes, an optional `+` and then one or more hexadecimal
/// digits, or nothing if the text is no such number or does not fit a
/// `u64`.
pub open spec fn hash_of_text(text: Seq<char>) -> Option<u64> {
    let stripped = strip_hex_prefixes(text);
    let digits = if stripped.len() > 0 && stripped[0] == '+' {
        stripped.drop_first()
    } else {
        stripped
    };
    if digits.len() == 0 {
        None
    } else {
        match hex_value(digits) {
            Some(v) => if v <= u64::MAX {
                Some(v as u64)
            } else {
                None
            },
            None => None,
        }
    }
}

/// A value past `u64::MAX` stays past it as digits are added.
proof fn lemma_hex_value_grows(digits: Seq<char>, k: int)
    requires
        0 <= k <= digits.len(),
        hex_value(digits.take(k)) matches Some(v) && v > u64::MAX,
    ensures
        hex_value(digits) matches Some(w) ==> w > u64::MAX,
    decreases digits.len() - k,
{
    if k < digits.len() {
        assert(digits.take(k + 1).drop_last() =~= digits.take(k));
        assert(digits.take(k + 1).last() == digits[k]);
        if hex_value(digits.take(k + 1)) is Some {
            lemma_hex_value_grows(digits, k + 1);
        } else {
            lemma_hex_value_none(digits, k + 1);
        }
    } else {
        assert(digits.take(k) =~= digits);
    }
}

/// Digits that are not all digits stay so as digits are added.
proof fn lemma_hex_value_none(digits: Seq<char>, k: int)
    requires
        0 <= k <= digits.len(),
        hex_value(digits.take(k)) is None,
    ensures
        hex_value(digits) is None,
    decreases digits.len() - k,
{
    if k < digits.len() {
        assert(digits.take(k + 1).drop_last() =~= digits.take(k));
        lemma_hex_value_none(digits, k + 1);
    } else {
        assert(digits.take(k) =~= digits);
    }
}

/// Reads a hash as the cross map's JSON writes it.
pub fn parse_hash(text: &str) -> (r: Option<u64>)
    ensures
        r == hash_of_text(text@),
{
    let chars = chars_of(text);
    let mut start: usize = 0;
    assert(chars@.subrange(0, chars@.len() as int) =~= chars@);
    while chars.len() - start >= 2 && chars[start] == '0' && chars[start + 1] == 'x'
        invariant
            start <= chars@.len(),
            strip_hex_prefixes(chars@) == strip_hex_prefixes(
                chars@.subrange(start as int, chars@.len() as int),
            ),
        decreases chars@.len() - start,
    {
        let ghost rest = chars@.subrange(start as int, chars@.len() as int);
        assert(rest.subrange(2, rest.len() as int) =~= chars@.subrange(
            start + 2,
            chars@.len() as int,
        ));
        start = start + 2;
    }
    let ghost stripped = chars@.subrange(start as int, chars@.len() as int);
    proof {
        assert(strip_hex_prefixes(stripped) == stripped);
    }
    if start < chars.len() && chars[start] == '+' {
        start = start + 1;
    }
    let ghost digits = chars@.subrange(start as int, chars@.len() as int);
    proof {
        if stripped.len() > 0 && stripped[0] == '+' {
            assert(stripped.drop_first() =~= digits);
        } else {
            assert(stripped =~= digits);
        }
    }
    if start >= chars.len() {
        return None;
    }
    assert(hash_of_text(text@) == match hex_value(digits) {
        Some(v) => if v <= u64::MAX {
            Some(v as u64)
        } else {
            None
        },
        None => None,
    });
    let mut value: u64 = 0;
    let mut i = start;
    proof {
        assert(digits.take(0) =~= Seq::<char>::empty());
    }
    while i < chars.len()
        invariant
            start <= i <= chars@.len(),
            digits.len() > 0,
            hash_of_text(text@) == match hex_value(digits) {
                Some(v) => if v <= u64::MAX {
                    Some(v as u64)
                } else {
                    None
                },
                None => None,
            },
            digits == chars@.subrange(start as int, chars@.len() as int),
            hex_value(digits.take(i - start)) == Some(value as nat),
        decreases chars@.len() - i,
    {
        let c = chars[i];
        let d: u64 = if '0' <= c && c <= '9' {
            (c as u64) - ('0' as u64)
        } else if 'a' <= c && c <= 'f' {
            (c as u64) - ('a' as u64) + 10
        } else if 'A' <= c && c <= 'F' {
            (c as u64) - ('A' as u64) + 10
        } else {
            proof {
                let k = i - start + 1;
                assert(digits.take(k).drop_last() =~= digits.take(i - start));
                assert(digits.take(k).last() == c);
                lemma_hex_value_none(digits, k);
            }
            return None;
        };
        proof {
            let k = i - start + 1;
            assert(digits.take(k).drop_last() =~= digits.take(i - start));
            assert(digits.take(k).last() == c);
            assert(hex_digit_value(c) == Some(d as nat));
            assert(hex_value(digits.take(k)) == Some(value as nat * 16 + d as nat));
        }
        if value > (u64::MAX - d) / 16 {
            proof {
                let k = i - start + 1;
                assert(value as nat * 16 + d as nat > u64::MAX) by (nonlinear_arith)
                    requires
                        value > (u64::MAX - d) / 16,
                        d < 16,
                ;
                lemma_hex_value_grows(digits, k);
            }
            return None;
        }
        proof {
            assert(value * 16 + d <= u64::MAX) by (nonlinear_arith)
                requires
                    value <= (u64::MAX - d) / 16,
                    d < 16,
            ;
        }
        value = value * 16 + d;
        i = i + 1;
    }
    proof {
        assert(digits.take(i - start) =~= digits);
    }
    Some(value)
}

} // verus!
