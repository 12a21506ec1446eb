use vstd::prelude::*;

verus! {

/// An ASCII decimal digit.
pub open spec fn is_digit(b: u8) -> bool {
    48 <= b && b <= 57
}

/// Position `i` starts a visit marker: the text "visit=" followed by at
/// least one decimal digit.
pub open spec fn marker_at(s: Seq<u8>, i: int) -> bool {
    &&& 0 <= i
    &&& i + 6 < s.len()
    &&& s[i] == 118  // 'v'
    &&& s[i + 1] == 105  // 'i'
    &&& s[i + 2] == 115  // 's'
    &&& s[i + 3] == 105  // 'i'
    &&& s[i + 4] == 116  // 't'
    &&& s[i + 5] == 61  // '='
    &&& is_digit(s[i + 6])
}

/// Where the run of digits starting at `i` ends (exclusive).
pub open spec fn run_end(s: Seq<u8>, i: int) -> int
    decreases s.len() - i,
{
    if i < s.len() && is_digit(s[i]) {
        run_end(s, i + 1)
    } else {
        i
    }
}

/// The value of a run of decimal digits, most significant first.
pub open spec fn digits_value(s: Seq<u8>) -> int
    decreases s.len(),
{
    if s.len() == 0 {
        0
    } else {
        digits_value(s.drop_last()) * 10 + (s.last() - 48)
    }
}

/// The header holds a visit marker somewhere.
pub open spec fn has_marker(s: Seq<u8>) -> bool {
    exists|i: int| marker_at(s, i)
}

/// The position of the last visit marker.
pub open spec fn last_marker(s: Seq<u8>) -> int {
    choose|i: int| marker_at(s, i) && (forall|j: int| i < j ==> !marker_at(s, j))
}

/// The digit run following the last visit marker.
pub open spec fn marker_digits(s: Seq<u8>) -> Seq<u8> {
    s.subrange(last_marker(s) + 6, run_end(s, last_marker(s) + 6))
}

/// What a cookie header yields as the client's last visit: the value of
/// the digit run after the last visit marker, provided the header holds a
/// marker at all and the value fits in 64 bits; anything else counts as no
/// last visit known, never as an error.
pub open spec fn spec_seen_from_cookies(s: Seq<u8>) -> Option<u64> {
    if has_marker(s) && digits_value(marker_digits(s)) <= u64::MAX {
        Option::Some(digits_value(marker_digits(s)) as u64)
    } else {
        Option::None
    }
}

proof fn lemma_run_end_bounds(s: Seq<u8>, i: int)
    requires
        0 <= i <= s.len(),
    ensures
        i <= run_end(s, i) <= s.len(),
        forall|k: int| i <= k < run_end(s, i) ==> is_digit(s[k]),
        run_end(s, i) == s.len() || !is_digit(s[run_end(s, i)]),
    decreases s.len() - i,
{
    if i < s.len() && is_digit(s[i]) {
        lemma_run_end_bounds(s, i + 1);
    }
}

proof fn lemma_run_end_of(s: Seq<u8>, i: int, j: int)
    requires
        0 <= i <= j <= s.len(),
        forall|k: int| i <= k < j ==> is_digit(s[k]),
        j == s.len() || !is_digit(s[j]),
    ensures
        run_end(s, i) == j,
    decreases j - i,
{
    if i < j {
        lemma_run_end_of(s, i + 1, j);
    }
}

proof fn lemma_digits_value_nonneg(s: Seq<u8>)
    requires
        forall|k: int| 0 <= k < s.len() ==> is_digit(s[k]),
    ensures
        digits_value(s) >= 0,
    decreases s.len(),
{
    if s.len() > 0 {
        assert(forall|k: int| 0 <= k < s.len() - 1 ==> s.drop_last()[k] == s[k]);
        lemma_digits_value_nonneg(s.drop_last());
    }
}

/// Over a run of digits, the value of a prefix never exceeds the value of
/// the whole run.
proof fn lemma_digits_prefix_le(s: Seq<u8>, m: int)
    requires
        forall|k: int| 0 <= k < s.len() ==> is_digit(s[k]),
        0 <= m <= s.len(),
    ensures
        digits_value(s.take(m)) <= digits_value(s),
    decreases s.len(),
{
    if m == s.len() {
        assert(s.take(m) =~= s);
    } else {
        assert(forall|k: int| 0 <= k < s.len() - 1 ==> s.drop_last()[k] == s[k]);
        lemma_digits_value_nonneg(s.drop_last());
        lemma_digits_prefix_le(s.drop_last(), m);
        assert(s.take(m) =~= s.drop_last().take(m));
        assert(digits_value(s) == digits_value(s.drop_last()) * 10 + (s.last() - 48));
        assert(digits_value(s.drop_last()) * 10 >= digits_value(s.drop_last()));
    }
}

/// Whether a visit marker starts at byte `i` of the header.
fn check_marker(s: &[u8], i: usize) -> (r: bool)
    requires
        i < s@.len(),
    ensures
        r == marker_at(s@, i as int),
{
    if s.len() - i <= 6 {
        return false;
    }
    s[i] == 118 && s[i + 1] == 105 && s[i + 2] == 115 && s[i + 3] == 105 && s[i + 4] == 116 && s[i
        + 5] == 61 && s[i + 6] >= 48 && s[i + 6] <= 57
}

/// Read the client's last-visit marker out of a cookie header: the decimal
/// value after the last "visit=" in the header's bytes. A header without a
/// well-formed marker — or one whose value does not fit in 64 bits — yields
/// `None`, never an error.
pub fn get_seen_from_cookies(cookie: &[u8]) -> (r: Option<u64>)
    ensures
        r == spec_seen_from_cookies(cookie@),
{
    let mut i: usize = cookie.len();
    while i > 0
        invariant
            i <= cookie@.len(),
            forall|j: int| i <= j ==> !marker_at(cookie@, j),
        decreases i,
    {
        i = i - 1;
        if check_marker(cookie, i) {
            return read_marker_value(cookie, i);
        }
    }
    assert(!has_marker(cookie@));
    Option::None
}

/// Accumulate the digit run that starts right after the marker at `i0`,
/// watching for 64-bit overflow.
#[verifier::rlimit(50)]
fn read_marker_value(cookie: &[u8], i0: usize) -> (r: Option<u64>)
    requires
        marker_at(cookie@, i0 as int),
        forall|j: int| i0 < j ==> !marker_at(cookie@, j),
    ensures
        r == spec_seen_from_cookies(cookie@),
{
    // Binding the length records that it, and with it `i0 + 6`, fits in usize.
    let _len: usize = cookie.len();
    proof {
        assert(has_marker(cookie@));
        let c = last_marker(cookie@);
        assert(marker_at(cookie@, c) && (forall|j: int| c < j ==> !marker_at(cookie@, j)));
        if c != i0 as int {
            assert(!marker_at(cookie@, c) || !marker_at(cookie@, i0 as int));
        }
        assert(last_marker(cookie@) == i0 as int);
        lemma_run_end_bounds(cookie@, i0 as int + 6);
    }
    let start: usize = i0 + 6;
    let r = read_digits(cookie, start);
    proof {
        let re = run_end(cookie@, start as int);
        assert(marker_digits(cookie@) == cookie@.subrange(start as int, re));
    }
    r
}

/// Read the digit run starting at `start` as a 64-bit value, or `None`
/// when it does not fit.
fn read_digits(s: &[u8], start: usize) -> (r: Option<u64>)
    requires
        start <= s@.len(),
    ensures
        ({
            let ds = s@.subrange(start as int, run_end(s@, start as int));
            if digits_value(ds) <= u64::MAX {
                r == Option::Some(digits_value(ds) as u64)
            } else {
                r == Option::<u64>::None
            }
        }),
{
    let ghost re = run_end(s@, start as int);
    let n: usize = s.len();
    let mut j: usize = start;
    let mut acc: u64 = 0;
    while j < n && s[j] >= 48 && s[j] <= 57
        invariant
            n == s@.len(),
            start <= j <= n,
            re == run_end(s@, start as int),
            forall|k: int| start <= k < j ==> is_digit(s@[k]),
            acc == digits_value(s@.subrange(start as int, j as int)),
        decreases n - j,
    {
        let d: u64 = (s[j] - 48) as u64;
        let ghost cur = s@.subrange(start as int, j as int);
        let ghost nxt = s@.subrange(start as int, j as int + 1);
        assert(nxt.drop_last() =~= cur);
        assert(nxt.last() == s@[j as int]);
        match acc.checked_mul(10) {
            Option::Some(t) => {
                match t.checked_add(d) {
                    Option::Some(v) => {
                        acc = v;
                    },
                    Option::None => {
                        proof {
                            overflow_means_none(s@, start as int, j as int, re);
                        }
                        return Option::None;
                    },
                }
            },
            Option::None => {
                proof {
                    overflow_means_none(s@, start as int, j as int, re);
                }
                return Option::None;
            },
        }
        j = j + 1;
    }
    proof {
        lemma_run_end_of(s@, start as int, j as int);
        lemma_digits_value_nonneg(s@.subrange(start as int, j as int));
    }
    Option::Some(acc)
}

/// When one more digit overflows the accumulator, the full run's value is
/// already beyond 64 bits, so the header yields no marker value.
proof fn overflow_means_none(s: Seq<u8>, start: int, j: int, re: int)
    requires
        0 <= start <= j < s.len(),
        re == run_end(s, start),
        forall|k: int| start <= k < j ==> is_digit(s[k]),
        is_digit(s[j]),
        digits_value(s.subrange(start, j)) * 10 + (s[j] - 48) > u64::MAX,
    ensures
        digits_value(s.subrange(start, re)) > u64::MAX,
{
    lemma_run_end_bounds(s, start);
    lemma_run_end_of_extends(s, start, j);
    let full = s.subrange(start, re);
    assert(forall|k: int| 0 <= k < full.len() ==> is_digit(full[k]));
    assert(s.subrange(start, j + 1) =~= full.take(j + 1 - start));
    assert(s.subrange(start, j + 1).drop_last() =~= s.subrange(start, j));
    assert(digits_value(s.subrange(start, j + 1)) == digits_value(s.subrange(start, j)) * 10 + (
    s[j] - 48));
    lemma_digits_prefix_le(full, j + 1 - start);
}

/// A position still carrying a digit lies strictly inside the run.
proof fn lemma_run_end_of_extends(s: Seq<u8>, start: int, j: int)
    requires
        0 <= start <= j < s.len(),
        forall|k: int| start <= k < j ==> is_digit(s[k]),
        is_digit(s[j]),
    ensures
        run_end(s, start) >= j + 1,
    decreases j - start,
{
    if start < j {
        lemma_run_end_of_extends(s, start + 1, j);
    } else {
        lemma_run_end_bounds(s, j + 1);
    }
}

} // verus!
