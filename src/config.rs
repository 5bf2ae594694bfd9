//! Session settings read from text, each falling back to its default when
//! absent or not a valid count.

use vstd::prelude::*;

use crate::tester::QuickCheck;

verus! {

pub const DEFAULT_TESTS: u64 = 100;

pub const DEFAULT_MAX_TESTS: u64 = 10000;

pub const DEFAULT_GEN_SIZE: u64 = 100;

pub const DEFAULT_MIN_TESTS_PASSED: u64 = 0;

pub open spec fn is_digit(c: char) -> bool {
    '0' <= c && c <= '9'
}

/// The number that a run of decimal digits denotes.
pub open spec fn digits_value(s: Seq<char>) -> nat
    decreases s.len(),
{
    if s.len() == 0 {
        0
    } else {
        digits_value(s.drop_last()) * 10 + (s.last() as nat - '0' as nat) as nat
    }
}

/// The text without one leading `+`.
pub open spec fn unsigned_part(s: Seq<char>) -> Seq<char> {
    if s.len() > 0 && s[0] == '+' {
        s.drop_first()
    } else {
        s
    }
}

/// `s` is an optional `+` and one or more digits denoting at most `max`.
pub open spec fn is_count_text(s: Seq<char>, max: nat) -> bool {
    let d = unsigned_part(s);
    &&& d.len() > 0
    &&& forall|i: int| 0 <= i < d.len() ==> is_digit(#[trigger] d[i])
    &&& digits_value(d) <= max
}

/// The setting that `text` gives, or `default`.
pub open spec fn setting_value(text: Option<Seq<char>>, default: nat, max: nat) -> nat {
    match text {
        Some(s) => if is_count_text(s, max) {
            digits_value(unsigned_part(s))
        } else {
            default
        },
        None => default,
    }
}

proof fn lemma_digits_grow(s: Seq<char>, k: int)
    requires
        0 <= k <= s.len(),
        forall|i: int| 0 <= i < s.len() ==> is_digit(#[trigger] s[i]),
    ensures
        digits_value(s.take(k)) <= digits_value(s),
    decreases s.len(),
{
    if k < s.len() {
        let t = s.drop_last();
        assert forall|i: int| 0 <= i < t.len() implies is_digit(#[trigger] t[i]) by {
            assert(t[i] == s[i]);
        }
        lemma_digits_grow(t, k);
        assert(t.take(k) =~= s.take(k));
    } else {
        assert(s.take(k) =~= s);
    }
}

/// The count that `s` denotes, if it is a valid count not above `max`.
pub fn parse_count(s: &str, max: u64) -> (r: Option<u64>)
    ensures
        r matches Some(v) ==> is_count_text(s@, max as nat) && v == digits_value(unsigned_part(s@)),
        r is None ==> !is_count_text(s@, max as nat),
{
    let n = s.unicode_len();
    let mut start: usize = 0;
    if n > 0 && s.get_char(0) == '+' {
        start = 1;
    }
    let ghost d = unsigned_part(s@);
    assert(d =~= s@.subrange(start as int, n as int));
    if start >= n {
        return None;
    }
    let mut value: u64 = 0;
    let mut i: usize = start;
    while i < n
        invariant
            n == s@.len(),
            start <= i <= n,
            d =~= s@.subrange(start as int, n as int),
            d == unsigned_part(s@),
            forall|j: int| 0 <= j < i - start ==> is_digit(#[trigger] d[j]),
            value == digits_value(d.take(i - start)),
            value <= max,
        decreases n - i,
    {
        let c = s.get_char(i);
        let ghost k = (i - start) as int;
        assert(d[k] == s@[i as int]);
        if c < '0' || c > '9' {
            assert(!is_digit(d[k]));
            return None;
        }
        let digit = (c as u32 - '0' as u32) as u64;
        assert(d.take(k + 1).drop_last() =~= d.take(k));
        assert(d.take(k + 1).last() == c);
        assert(digits_value(d.take(k + 1)) == value * 10 + digit);
        if digit > max || value > (max - digit) / 10 {
            proof {
                assert(value * 10 + digit > max) by (nonlinear_arith)
                    requires
                        digit > max || value > (max - digit) / 10,
                ;
                if forall|j: int| 0 <= j < d.len() ==> is_digit(#[trigger] d[j]) {
                    lemma_digits_grow(d, k + 1);
                    assert(digits_value(d) > max);
                }
                assert(!is_count_text(s@, max as nat));
            }
            return None;
        }
        proof {
            assert(value * 10 + digit <= max) by (nonlinear_arith)
                requires
                    value <= (max - digit) / 10,
                    digit <= max,
            ;
        }
        value = value * 10 + digit;
        i = i + 1;
    }
    assert(d.take(n - start) =~= d);
    Some(value)
}

/// The setting that `text` gives, or `default` when it is absent or not a
/// valid count not above `max`.
pub fn setting(text: Option<&str>, default: u64, max: u64) -> (r: u64)
    ensures
        r == setting_value(
            match text {
                Some(t) => Some(t@),
                None => None,
            },
            default as nat,
            max as nat,
        ),
{
    match text {
        Some(t) => match parse_count(t, max) {
            Some(v) => v,
            None => default,
        },
        None => default,
    }
}

pub open spec fn opt_view(t: Option<&str>) -> Option<Seq<char>> {
    match t {
        Some(s) => Some(s@),
        None => None,
    }
}

impl QuickCheck {
    /// A session configured from four optional texts: the pass target, the
    /// attempt cap, the generator size and the minimum of passes.
    pub fn from_settings(
        tests: Option<&str>,
        max_tests: Option<&str>,
        gen_size: Option<&str>,
        min_tests_passed: Option<&str>,
    ) -> (r: QuickCheck)
        ensures
            r.tests == setting_value(opt_view(tests), DEFAULT_TESTS as nat, u64::MAX as nat),
            r.max_tests == setting_value(opt_view(max_tests), DEFAULT_MAX_TESTS as nat, u64::MAX as nat),
            r.gen_size() == setting_value(opt_view(gen_size), DEFAULT_GEN_SIZE as nat, usize::MAX as nat),
            r.min_tests_passed == setting_value(
                opt_view(min_tests_passed),
                DEFAULT_MIN_TESTS_PASSED as nat,
                u64::MAX as nat,
            ),
    {
        let t = setting(tests, DEFAULT_TESTS, u64::MAX);
        let m = setting(max_tests, DEFAULT_MAX_TESTS, u64::MAX);
        let g = setting(gen_size, DEFAULT_GEN_SIZE, usize::MAX as u64);
        let p = setting(min_tests_passed, DEFAULT_MIN_TESTS_PASSED, u64::MAX);
        QuickCheck::with_config(t, m, g as usize, p)
    }
}

} // verus!
