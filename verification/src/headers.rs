//! Response-header model and the rate governor.
//!
//! The hosting service reports the remaining request budget in a numeric
//! response header.  The governor inspects that header after every call:
//! an absent header counts as an ample budget, a zero budget is an
//! unrecoverable condition, a low but non-zero budget asks for a cooldown
//! delay, and a malformed value is treated as ample (the caller may log it).

use vstd::prelude::*;

verus! {

/// The two response headers the engine reads: the pagination `Link` header
/// and the remaining-request-budget header.  Both are kept as the raw header
/// values; absence of a header is `None`.
pub struct ResponseHeaders {
    /// Raw value of the `Link` header, if the response carried one.
    pub link: Option<String>,
    /// Raw value of the `X-RateLimit-Remaining` header, if the response
    /// carried one.
    pub rate_limit_remaining: Option<String>,
}

/// Budgets strictly below this are considered close to running out.
pub const REQUESTS_LOW_WATER_MARK: u64 = 10;

/// What the rate governor asks of the caller after a response.
#[derive(Clone, Copy, Debug, PartialEq, Eq, Structural)]
pub enum RateDecision {
    /// Budget is ample (or unknown): the next request may proceed at once.
    Proceed,
    /// Budget is low: pause before the next request.
    Cooldown,
    /// Budget is exhausted: the run cannot safely continue.
    Exhausted,
}

pub open spec fn is_ascii_digit(c: char) -> bool {
    '0' <= c && c <= '9'
}

pub open spec fn digit_value(c: char) -> nat
    recommends
        is_ascii_digit(c),
{
    (c as int - '0' as int) as nat
}

/// Value of a sequence of decimal digits, most significant first.
pub open spec fn decimal_value(s: Seq<char>) -> nat
    decreases s.len(),
{
    if s.len() == 0 {
        0
    } else {
        decimal_value(s.drop_last()) * 10 + digit_value(s.last())
    }
}

pub open spec fn all_ascii_digits(s: Seq<char>) -> bool {
    forall|i: int| 0 <= i < s.len() ==> is_ascii_digit(#[trigger] s[i])
}

/// The sequence with every quotation mark removed.  Some intermediaries wrap
/// the numeric header value in quotation marks; they are stripped before
/// parsing.
pub open spec fn without_quotes(s: Seq<char>) -> Seq<char>
    decreases s.len(),
{
    if s.len() == 0 {
        Seq::empty()
    } else if s.last() == '"' {
        without_quotes(s.drop_last())
    } else {
        without_quotes(s.drop_last()).push(s.last())
    }
}

/// The numeric reading of a rate-limit header value: strip quotation marks,
/// then require a non-empty all-digit string whose value fits in a `u64`.
/// Anything else is malformed and reads as `None`.
pub open spec fn rate_limit_value(s: Seq<char>) -> Option<u64> {
    let t = without_quotes(s);
    if t.len() > 0 && all_ascii_digits(t) && decimal_value(t) <= u64::MAX {
        Some(decimal_value(t) as u64)
    } else {
        None
    }
}

/// The raw rate-limit header value of a header set, as a sequence view.
pub open spec fn rate_header_view(h: ResponseHeaders) -> Option<Seq<char>> {
    match h.rate_limit_remaining {
        Some(s) => Some(s@),
        None => None,
    }
}

/// The governor's reading of a (possibly absent) rate-limit header value:
/// absent or malformed counts as ample budget, zero is exhaustion, and a
/// value below the low-water mark asks for a cooldown.
pub open spec fn rate_decision_of(v: Option<Seq<char>>) -> RateDecision {
    match v {
        None => RateDecision::Proceed,
        Some(s) => match rate_limit_value(s) {
            None => RateDecision::Proceed,
            Some(n) => if n == 0 {
                RateDecision::Exhausted
            } else if n < REQUESTS_LOW_WATER_MARK {
                RateDecision::Cooldown
            } else {
                RateDecision::Proceed
            },
        },
    }
}

/// Splitting a sequence splits its quote-stripped form.
proof fn lemma_without_quotes_concat(a: Seq<char>, b: Seq<char>)
    ensures
        without_quotes(a + b) == without_quotes(a) + without_quotes(b),
    decreases b.len(),
{
    if b.len() == 0 {
        assert(a + b =~= a);
        assert(without_quotes(a) + without_quotes(b) =~= without_quotes(a));
    } else {
        lemma_without_quotes_concat(a, b.drop_last());
        assert((a + b).drop_last() =~= a + b.drop_last());
        assert((a + b).last() == b.last());
        if b.last() == '"' {
        } else {
            assert((without_quotes(a) + without_quotes(b.drop_last())).push(b.last())
                =~= without_quotes(a) + without_quotes(b.drop_last()).push(b.last()));
        }
    }
}

/// Appending digits to a digit string can only grow its value.
proof fn lemma_decimal_value_extend(p: Seq<char>, q: Seq<char>)
    ensures
        decimal_value(p + q) >= decimal_value(p),
    decreases q.len(),
{
    if q.len() == 0 {
        assert(p + q =~= p);
    } else {
        lemma_decimal_value_extend(p, q.drop_last());
        assert((p + q).drop_last() =~= p + q.drop_last());
        assert((p + q).last() == q.last());
    }
}

/// Parse a rate-limit header value: strip quotation marks, then read the rest
/// as a decimal number.  Returns `None` on anything malformed (empty, a
/// non-digit character, or a value that does not fit in a `u64`).
pub fn parse_rate_limit(s: &str) -> (r: Option<u64>)
    ensures
        r == rate_limit_value(s@),
{
    let n = s.unicode_len();
    let mut i: usize = 0;
    let mut acc: u64 = 0;
    let mut seen_digit: bool = false;
    while i < n
        invariant
            0 <= i <= n,
            n == s@.len(),
            all_ascii_digits(without_quotes(s@.take(i as int))),
            seen_digit == (without_quotes(s@.take(i as int)).len() > 0),
            acc as nat == decimal_value(without_quotes(s@.take(i as int))),
        decreases n - i,
    {
        let c = s.get_char(i);
        proof {
            assert(s@.take(i + 1).drop_last() =~= s@.take(i as int));
            assert(s@.take(i + 1).last() == s@[i as int]);
        }
        if c == '"' {
            // stripped form unchanged
        } else if '0' <= c && c <= '9' {
            let d: u64 = (c as u32 as u64) - ('0' as u32 as u64);
            let wide: u128 = (acc as u128) * 10 + (d as u128);
            proof {
                let t = without_quotes(s@.take(i as int));
                assert(without_quotes(s@.take(i + 1)) =~= t.push(c));
                assert(t.push(c).drop_last() =~= t);
                assert(decimal_value(t.push(c)) == decimal_value(t) * 10 + digit_value(c));
            }
            if wide > u64::MAX as u128 {
                proof {
                    let u = without_quotes(s@.take(i + 1));
                    lemma_without_quotes_concat(s@.take(i + 1), s@.skip(i + 1));
                    assert(s@.take(i + 1) + s@.skip(i + 1) =~= s@);
                    lemma_decimal_value_extend(u, without_quotes(s@.skip(i + 1)));
                    assert(u + without_quotes(s@.skip(i + 1)) =~= without_quotes(s@));
                    assert(decimal_value(without_quotes(s@)) > u64::MAX);
                }
                return None;
            }
            acc = wide as u64;
            seen_digit = true;
        } else {
            proof {
                let t = without_quotes(s@.take(i as int));
                assert(without_quotes(s@.take(i + 1)) =~= t.push(c));
                let u = without_quotes(s@.take(i + 1));
                assert(u[u.len() - 1] == c);
                assert(!is_ascii_digit(c));
                lemma_without_quotes_concat(s@.take(i + 1), s@.skip(i + 1));
                assert(s@.take(i + 1) + s@.skip(i + 1) =~= s@);
                assert(u + without_quotes(s@.skip(i + 1)) =~= without_quotes(s@));
                assert(without_quotes(s@)[u.len() - 1] == c);
                assert(!all_ascii_digits(without_quotes(s@)));
            }
            return None;
        }
        i = i + 1;
    }
    proof {
        assert(s@.take(n as int) =~= s@);
    }
    if seen_digit {
        Some(acc)
    } else {
        None
    }
}

/// The rate governor: reads the remaining-request header of a response and
/// says whether the caller may proceed, must pause, or must stop the run.
pub fn rate_decision(h: &ResponseHeaders) -> (d: RateDecision)
    ensures
        d == rate_decision_of(rate_header_view(*h)),
{
    match &h.rate_limit_remaining {
        None => RateDecision::Proceed,
        Some(v) => match parse_rate_limit(v.as_str()) {
            None => RateDecision::Proceed,
            Some(n) => {
                if n == 0 {
                    RateDecision::Exhausted
                } else if n < REQUESTS_LOW_WATER_MARK {
                    RateDecision::Cooldown
                } else {
                    RateDecision::Proceed
                }
            },
        },
    }
}

/// True exactly when the budget is low enough that the caller should pause
/// before the next request (and the run can still continue).
pub fn close_to_running_out_of_requests(h: &ResponseHeaders) -> (r: bool)
    ensures
        r == (rate_decision_of(rate_header_view(*h)) is Cooldown),
{
    rate_decision(h) == RateDecision::Cooldown
}

/// A header set without the rate-limit header never delays: the budget is
/// assumed ample.
pub proof fn lemma_absent_rate_header_is_ample(h: ResponseHeaders)
    requires
        h.rate_limit_remaining is None,
    ensures
        rate_decision_of(rate_header_view(h)) == RateDecision::Proceed,
{
}

/// For a header value that reads as the number `v`: zero is exhaustion, a
/// positive value below the low-water mark asks for a cooldown, and anything
/// at or above the mark proceeds without delay.
pub proof fn lemma_rate_thresholds(s: Seq<char>, v: u64)
    requires
        rate_limit_value(s) == Some(v),
    ensures
        v == 0 ==> rate_decision_of(Some(s)) == RateDecision::Exhausted,
        0 < v < REQUESTS_LOW_WATER_MARK ==> rate_decision_of(Some(s)) == RateDecision::Cooldown,
        v >= REQUESTS_LOW_WATER_MARK ==> rate_decision_of(Some(s)) == RateDecision::Proceed,
{
}

/// A value wrapped in quotation marks reads as the same number as the bare
/// value.
pub proof fn lemma_quoted_value_reads_like_bare(s: Seq<char>)
    ensures
        rate_limit_value(seq!['"'] + s + seq!['"']) == rate_limit_value(s),
{
    let q: Seq<char> = seq!['"'];
    lemma_without_quotes_concat(q + s, q);
    lemma_without_quotes_concat(q, s);
    assert(q.drop_last() =~= Seq::<char>::empty());
    assert(without_quotes(q) =~= Seq::<char>::empty()) by {
        reveal_with_fuel(without_quotes, 2);
        assert(q.last() == '"');
        assert(without_quotes(q) == without_quotes(q.drop_last()));
        assert(without_quotes(Seq::<char>::empty()) =~= Seq::<char>::empty());
    }
    assert(without_quotes(q + s + q) =~= without_quotes(s));
}

} // verus!
