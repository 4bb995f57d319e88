//! Small verified text helpers shared by the formatter and the scanner:
//! decimal formatting, ASCII-whitespace trimming, and substring occurrence.

use vstd::prelude::*;

verus! {

/// Relies on `String::push`: appends the single character `c`.
#[verifier::external_body]
pub(crate) fn push_char(s: &mut String, c: char)
    ensures
        final(s)@ == old(s)@ + seq![c],
{
    s.push(c);
}

/// The character for one decimal digit.
pub open spec fn digit_char(d: int) -> char
    recommends
        0 <= d <= 9,
{
    if d == 0 {
        '0'
    } else if d == 1 {
        '1'
    } else if d == 2 {
        '2'
    } else if d == 3 {
        '3'
    } else if d == 4 {
        '4'
    } else if d == 5 {
        '5'
    } else if d == 6 {
        '6'
    } else if d == 7 {
        '7'
    } else if d == 8 {
        '8'
    } else {
        '9'
    }
}

/// The decimal numeral of `n`, most significant digit first: no sign, no
/// leading zero except for `0` itself.
pub open spec fn decimal_of(n: int) -> Seq<char>
    recommends
        n >= 0,
    decreases n,
{
    if n <= 9 {
        seq![digit_char(n)]
    } else {
        decimal_of(n / 10).push(digit_char(n % 10))
    }
}

/// The character for the digit `d`.
fn digit_char_exec(d: u32) -> (c: char)
    requires
        d <= 9,
    ensures
        c == digit_char(d as int),
{
    match d {
        0 => '0',
        1 => '1',
        2 => '2',
        3 => '3',
        4 => '4',
        5 => '5',
        6 => '6',
        7 => '7',
        8 => '8',
        _ => '9',
    }
}

/// Writes `n` in decimal, exactly as ordinary formatting would.
pub fn u32_to_decimal(n: u32) -> (r: String)
    ensures
        r@ =~= decimal_of(n as int),
{
    let mut digits: Vec<char> = Vec::new();
    let mut m: u32 = n;
    loop
        invariant_except_break
            digits@.len() > 0 ==> m > 0,
        invariant
            digits@.len() == 0 ==> m == n,
            digits@.len() > 0 ==> decimal_of(n as int) =~= (if m > 0 {
                decimal_of(m as int)
            } else {
                Seq::<char>::empty()
            }) + digits@.reverse(),
        ensures
            digits@.len() > 0,
            decimal_of(n as int) =~= digits@.reverse(),
        decreases m,
    {
        let ghost old_digits = digits@;
        let ghost m0 = m as int;
        let d = m % 10;
        digits.push(digit_char_exec(d));
        m = m / 10;
        proof {
            assert(digits@.reverse() =~= seq![digit_char(m0 % 10)] + old_digits.reverse());
            if old_digits.len() == 0 {
                if m0 <= 9 {
                    assert(decimal_of(n as int) =~= digits@.reverse());
                } else {
                    assert(decimal_of(m0) == decimal_of(m0 / 10).push(digit_char(m0 % 10)));
                    assert(decimal_of(m0) =~= decimal_of(m0 / 10) + seq![digit_char(m0 % 10)]);
                }
            } else {
                if m0 <= 9 {
                    assert(decimal_of(n as int) =~= seq![digit_char(m0)]
                        + old_digits.reverse());
                    assert(decimal_of(n as int) =~= digits@.reverse());
                } else {
                    assert(decimal_of(m0) =~= decimal_of(m0 / 10) + seq![digit_char(m0 % 10)]);
                    assert(decimal_of(n as int) =~= decimal_of(m0 / 10) + (seq![
                        digit_char(m0 % 10),
                    ] + old_digits.reverse()));
                    assert(decimal_of(n as int) =~= decimal_of(m0 / 10) + digits@.reverse());
                }
            }
        }
        if m == 0 {
            break ;
        }
    }
    let mut r = String::new();
    let mut i: usize = 0;
    while i < digits.len()
        invariant
            i <= digits@.len(),
            r@ =~= digits@.reverse().take(i as int),
        decreases digits.len() - i,
    {
        push_char(&mut r, digits[digits.len() - 1 - i]);
        i += 1;
        proof {
            assert(digits@.reverse().take(i as int) =~= digits@.reverse().take(i - 1).push(
                digits@.reverse()[i - 1],
            ));
        }
    }
    proof {
        assert(digits@.reverse().take(digits@.len() as int) =~= digits@.reverse());
    }
    r
}

/// ASCII whitespace, as the title check strips it.
pub open spec fn is_space(c: char) -> bool {
    c == ' ' || c == '\t' || c == '\n' || c == '\r'
}

/// `s` without its leading run of whitespace.
pub open spec fn trim_front(s: Seq<char>) -> Seq<char>
    decreases s.len(),
{
    if s.len() == 0 {
        s
    } else if is_space(s[0]) {
        trim_front(s.skip(1))
    } else {
        s
    }
}

/// `s` without its trailing run of whitespace.
pub open spec fn trim_back(s: Seq<char>) -> Seq<char>
    decreases s.len(),
{
    if s.len() == 0 {
        s
    } else if is_space(s.last()) {
        trim_back(s.drop_last())
    } else {
        s
    }
}

/// `s` without leading and trailing whitespace.
pub open spec fn trimmed(s: Seq<char>) -> Seq<char> {
    trim_back(trim_front(s))
}

/// If everything before `a` is whitespace and `a` stops at a non-space (or
/// the end), the front trim is exactly the suffix from `a`.
proof fn lemma_trim_front_skip(s: Seq<char>, a: int)
    requires
        0 <= a <= s.len(),
        forall|i: int| 0 <= i < a ==> is_space(#[trigger] s[i]),
        a < s.len() ==> !is_space(s[a]),
    ensures
        trim_front(s) =~= s.skip(a),
    decreases a,
{
    if a == 0 {
        assert(s.skip(0) =~= s);
    } else {
        lemma_trim_front_skip(s.skip(1), a - 1);
        assert(s.skip(1).skip(a - 1) =~= s.skip(a));
    }
}

/// If everything from `e` on is whitespace and `e` is preceded by a
/// non-space (or nothing), the back trim is exactly the prefix up to `e`.
proof fn lemma_trim_back_take(t: Seq<char>, e: int)
    requires
        0 <= e <= t.len(),
        forall|j: int| e <= j < t.len() ==> is_space(#[trigger] t[j]),
        e > 0 ==> !is_space(t[e - 1]),
    ensures
        trim_back(t) =~= t.take(e),
    decreases t.len(),
{
    if e == t.len() {
        assert(t.take(e) =~= t);
    } else {
        assert(is_space(t.last()));
        lemma_trim_back_take(t.drop_last(), e);
        assert(t.drop_last().take(e) =~= t.take(e));
    }
}

/// Strips leading and trailing ASCII whitespace.
pub fn trim_string(s: &str) -> (r: String)
    ensures
        r@ =~= trimmed(s@),
{
    let n = s.unicode_len();
    let mut a: usize = 0;
    loop
        invariant
            a <= n == s@.len(),
            forall|i: int| 0 <= i < a ==> is_space(#[trigger] s@[i]),
        ensures
            a <= n == s@.len(),
            forall|i: int| 0 <= i < a ==> is_space(#[trigger] s@[i]),
            a < n ==> !is_space(s@[a as int]),
        decreases n - a,
    {
        if a >= n {
            break ;
        }
        let c = s.get_char(a);
        if !(c == ' ' || c == '\t' || c == '\n' || c == '\r') {
            break ;
        }
        a += 1;
    }
    let mut b: usize = n;
    loop
        invariant
            a <= b <= n == s@.len(),
            forall|j: int| b <= j < n ==> is_space(#[trigger] s@[j]),
        ensures
            a <= b <= n == s@.len(),
            forall|j: int| b <= j < n ==> is_space(#[trigger] s@[j]),
            b > a ==> !is_space(s@[b - 1]),
        decreases b,
    {
        if b <= a {
            break ;
        }
        let c = s.get_char(b - 1);
        if !(c == ' ' || c == '\t' || c == '\n' || c == '\r') {
            break ;
        }
        b -= 1;
    }
    proof {
        lemma_trim_front_skip(s@, a as int);
        lemma_trim_back_take(s@.skip(a as int), b - a);
        assert(s@.skip(a as int).take(b - a) =~= s@.subrange(a as int, b as int));
    }
    let r = s.substring_char(a, b);
    r.to_owned()
}

/// `needle` occurs contiguously somewhere in `hay`.
pub open spec fn contains_seq<A>(hay: Seq<A>, needle: Seq<A>) -> bool {
    exists|k: int|
        0 <= k && k + needle.len() <= hay.len() && #[trigger] hay.subrange(
            k,
            k + needle.len() as int,
        ) == needle
}

/// The middle part of a three-way concatenation occurs in it.
pub proof fn lemma_concat_contains<A>(a: Seq<A>, b: Seq<A>, c: Seq<A>)
    ensures
        contains_seq(a + b + c, b),
{
    let k = a.len() as int;
    assert((a + b + c).subrange(k, k + b.len() as int) =~= b);
}

/// Whatever occurs in the middle part of a concatenation occurs in the
/// whole.
pub proof fn lemma_contains_in_part<A>(a: Seq<A>, b: Seq<A>, c: Seq<A>, needle: Seq<A>)
    requires
        contains_seq(b, needle),
    ensures
        contains_seq(a + b + c, needle),
{
    let k = choose|k: int|
        0 <= k && k + needle.len() <= b.len() && #[trigger] b.subrange(k, k + needle.len() as int)
            == needle;
    assert((a + b + c).subrange(a.len() + k, a.len() + k + needle.len() as int) =~= b.subrange(
        k,
        k + needle.len() as int,
    ));
}

} // verus!
