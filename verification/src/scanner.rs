//! The pattern-range scanner's parser and expander.
//!
//! A pattern `prefix[X]suffix-prefix[Y]suffix` brackets one character on
//! each side; both sides must reduce to the same literal template, or the
//! pattern is rejected. The scan substitutes every byte between the two
//! characters' low orders (swapped if given descending) into the template
//! and probes the resulting URL; probing itself happens outside the crate.

use vstd::prelude::*;

use crate::textutil::push_char;

verus! {

/// First index of `c` in `s`, by scanning.
fn find_first(s: &str, c: char) -> (r: Option<usize>)
    ensures
        match r {
            Some(k) => s@.index_of_first(c) == Some(k as int),
            None => s@.index_of_first(c) is None,
        },
{
    let n = s.unicode_len();
    let mut k: usize = 0;
    while k < n
        invariant
            k <= n == s@.len(),
            forall|i: int| 0 <= i < k ==> s@[i] != c,
        decreases n - k,
    {
        if s.get_char(k) == c {
            proof {
                lemma_first_occurrence(s@, c, k as int);
            }
            return Some(k);
        }
        k += 1;
    }
    proof {
        s@.index_of_first_ensures(c);
        if s@.contains(c) {
            let i = choose|i: int| 0 <= i < s@.len() && s@[i] == c;
            assert(false);
        }
    }
    None
}

/// If `s[k] == c` and nothing before `k` equals `c`, then `k` is the first
/// occurrence.
proof fn lemma_first_occurrence(s: Seq<char>, c: char, k: int)
    requires
        0 <= k < s.len(),
        s[k] == c,
        forall|i: int| 0 <= i < k ==> s[i] != c,
    ensures
        s.index_of_first(c) == Some(k),
{
    assert(s.contains(c)) by {
        assert(s[k] == c);
    }
    s.index_of_first_ensures(c);
    let f = s.index_of_first(c)->Some_0;
    if f < k {
        assert(false);
    }
    if f > k {
        assert(false);
    }
}

/// One side `prefix[X]suffix`: the first bracketed character together with
/// the literal parts around the brackets, or nothing when the brackets are
/// missing, inverted, or empty.
pub open spec fn part_parsed(s: Seq<char>) -> Option<(char, Seq<char>, Seq<char>)> {
    let oi = s.index_of_first('[');
    let oj = s.index_of_first(']');
    if oi is Some && oj is Some && oi->Some_0 + 1 < oj->Some_0 {
        Some((s[oi->Some_0 + 1], s.take(oi->Some_0), s.skip(oj->Some_0 + 1)))
    } else {
        None
    }
}

/// Splits `s` at its only occurrence of `sep`; more or fewer than one
/// occurrence rejects the input.
pub open spec fn split_once(s: Seq<char>, sep: char) -> Option<(Seq<char>, Seq<char>)> {
    match s.index_of_first(sep) {
        Some(d) => if s.skip(d + 1).contains(sep) {
            None
        } else {
            Some((s.take(d), s.skip(d + 1)))
        },
        None => None,
    }
}

/// The whole two-sided pattern: both sides parsed, and reduced to the same
/// literal template.
pub open spec fn pattern_parsed(s: Seq<char>) -> Option<(char, char, Seq<char>, Seq<char>)> {
    match split_once(s, '-') {
        Some(lr) => match (part_parsed(lr.0), part_parsed(lr.1)) {
            (Some(a), Some(b)) => if a.1 == b.1 && a.2 == b.2 {
                Some((a.0, b.0, a.1, a.2))
            } else {
                None
            },
            _ => None,
        },
        None => None,
    }
}

/// The low 8 bits of a character's code point: the byte order the scan
/// iterates over.
pub open spec fn low_byte(c: char) -> u8 {
    (c as u32) as u8
}

/// The probe value for byte `b`: the template with the bracketed character
/// replaced by `b`.
pub open spec fn expansion_of(prefix: Seq<char>, suffix: Seq<char>, b: u8) -> Seq<char> {
    prefix + seq![b as char] + suffix
}

/// The fixed base URL each probe value is appended to.
pub open spec fn base_url_spec() -> Seq<char> {
    "https://paste.compucalitv.lol/?v="@
}

/// A parsed scan pattern: the two bracketed characters and the shared
/// literal template around them.
pub struct ScanPattern {
    /// The character bracketed on the left side.
    pub start_char: char,
    /// The character bracketed on the right side.
    pub end_char: char,
    /// Literal part before the substituted character.
    pub prefix: String,
    /// Literal part after the substituted character.
    pub suffix: String,
}

/// Parses one side of the pattern.
fn parse_part(s: &str) -> (r: Option<(char, String, String)>)
    ensures
        match (r, part_parsed(s@)) {
            (Some(p), Some(q)) => p.0 == q.0 && p.1@ == q.1 && p.2@ == q.2,
            (None, None) => true,
            _ => false,
        },
{
    let n = s.unicode_len();
    let oi = find_first(s, '[');
    let oj = find_first(s, ']');
    match (oi, oj) {
        (Some(i), Some(j)) => {
            proof {
                s@.index_of_first_ensures('[');
                s@.index_of_first_ensures(']');
            }
            if i + 1 < j {
                let var = s.get_char(i + 1);
                let prefix = s.substring_char(0, i).to_owned();
                let suffix = s.substring_char(j + 1, n).to_owned();
                proof {
                    assert(prefix@ =~= s@.take(i as int));
                    assert(suffix@ =~= s@.skip(j as int + 1));
                }
                Some((var, prefix, suffix))
            } else {
                None
            }
        },
        _ => None,
    }
}

/// Parses a two-sided pattern `prefix[X]suffix-prefix[Y]suffix`, rejecting
/// input without exactly one dash, missing or empty brackets, or sides
/// whose literal templates differ.
pub fn parse_pattern(input: &str) -> (r: Option<ScanPattern>)
    ensures
        match (r, pattern_parsed(input@)) {
            (Some(p), Some(q)) => p.start_char == q.0 && p.end_char == q.1 && p.prefix@ == q.2
                && p.suffix@ == q.3,
            (None, None) => true,
            _ => false,
        },
{
    let n = input.unicode_len();
    match find_first(input, '-') {
        Some(d) => {
            proof {
                input@.index_of_first_ensures('-');
            }
            let right = input.substring_char(d + 1, n).to_owned();
            match find_first(right.as_str(), '-') {
                Some(_) => {
                    proof {
                        right@.index_of_first_ensures('-');
                        assert(right@ =~= input@.skip(d as int + 1));
                    }
                    None
                },
                None => {
                    proof {
                        right@.index_of_first_ensures('-');
                        assert(right@ =~= input@.skip(d as int + 1));
                    }
                    let left = input.substring_char(0, d);
                    proof {
                        assert(left@ =~= input@.take(d as int));
                    }
                    match (parse_part(left), parse_part(right.as_str())) {
                        (Some(lp), Some(rp)) => {
                            let (cs, pl, sl) = lp;
                            let (ce, pr, sr) = rp;
                            if pl == pr && sl == sr {
                                Some(
                                    ScanPattern {
                                        start_char: cs,
                                        end_char: ce,
                                        prefix: pl,
                                        suffix: sl,
                                    },
                                )
                            } else {
                                None
                            }
                        },
                        _ => None,
                    }
                },
            }
        },
        None => None,
    }
}

impl ScanPattern {
    /// The normalized inclusive byte range of the scan: the two characters'
    /// low orders, swapped if given descending.
    pub open spec fn spec_range(&self) -> (u8, u8) {
        let a = low_byte(self.start_char);
        let b = low_byte(self.end_char);
        if a <= b {
            (a, b)
        } else {
            (b, a)
        }
    }

    /// The normalized inclusive byte range of the scan.
    pub fn range(&self) -> (r: (u8, u8))
        ensures
            r == self.spec_range(),
    {
        let a = ((self.start_char as u32) % 256) as u8;
        let b = ((self.end_char as u32) % 256) as u8;
        proof {
            let ca = self.start_char as u32;
            let cb = self.end_char as u32;
            assert((ca % 256) as u8 == ca as u8) by (bit_vector);
            assert((cb % 256) as u8 == cb as u8) by (bit_vector);
        }
        if a <= b {
            (a, b)
        } else {
            (b, a)
        }
    }

    /// The probe value for byte `b`.
    pub fn expand_at(&self, b: u8) -> (r: String)
        ensures
            r@ =~= expansion_of(self.prefix@, self.suffix@, b),
    {
        let mut r = self.prefix.clone();
        push_char(&mut r, b as char);
        r.append(self.suffix.as_str());
        r
    }

    /// Every probe value of the scan, in order: one for each byte of the
    /// normalized inclusive range.
    pub fn expansions(&self) -> (r: Vec<String>)
        ensures
            r@.len() == self.spec_range().1 - self.spec_range().0 + 1,
            forall|k: int|
                0 <= k < r@.len() ==> #[trigger] r@[k]@ == expansion_of(
                    self.prefix@,
                    self.suffix@,
                    (self.spec_range().0 + k) as u8,
                ),
    {
        let (lo, hi) = self.range();
        let count: usize = (hi - lo) as usize + 1;
        let mut r: Vec<String> = Vec::new();
        let mut i: usize = 0;
        while i < count
            invariant
                lo == self.spec_range().0,
                hi == self.spec_range().1,
                lo <= hi,
                count == hi - lo + 1,
                i <= count,
                r@.len() == i,
                forall|k: int|
                    0 <= k < i ==> #[trigger] r@[k]@ == expansion_of(
                        self.prefix@,
                        self.suffix@,
                        (lo + k) as u8,
                    ),
            decreases count - i,
        {
            let b = lo + (i as u8);
            let e = self.expand_at(b);
            r.push(e);
            i += 1;
        }
        r
    }

    /// The URL probed for byte `b`: the base with the probe value appended.
    pub fn probe_url(&self, b: u8) -> (r: String)
        ensures
            r@ =~= base_url_spec() + expansion_of(self.prefix@, self.suffix@, b),
    {
        let mut r = String::from_str("https://paste.compucalitv.lol/?v=");
        let e = self.expand_at(b);
        r.append(e.as_str());
        r
    }
}

} // verus!
