//! The uid limits that the login policy file sets for regular accounts.

use vstd::prelude::*;
use vstd::string::*;

use crate::pattern::{capture_first_group, first_group};
use crate::text::chars_of;

verus! {

/// Lowest uid of a regular account where the policy file names none.
pub const DEFAULT_UID_MIN: u32 = 1000;

/// Highest uid of a regular account where the policy file names none.
pub const DEFAULT_UID_MAX: u32 = 60000;

/// Whether `c` is one of the ASCII digits `0` to `9`.
pub open spec fn is_digit(c: char) -> bool {
    '0' <= c && c <= '9'
}

/// The number that the digit `c` stands for.
pub open spec fn digit_value(c: char) -> nat
    recommends
        is_digit(c),
{
    (c as u32 - '0' as u32) as nat
}

/// Whether every character of `s` is an ASCII digit.
pub open spec fn all_digits(s: Seq<char>) -> bool {
    forall|i: int| 0 <= i < s.len() ==> is_digit(#[trigger] s[i])
}

/// The number that a run of decimal digits denotes, most significant digit
/// first. The empty run denotes zero.
pub open spec fn decimal_value(s: Seq<char>) -> nat
    decreases s.len(),
{
    if s.len() == 0 {
        0
    } else {
        10 * decimal_value(s.drop_last()) + digit_value(s.last())
    }
}

/// A decimal value never shrinks when more digits follow.
pub proof fn lemma_decimal_value_grows(s: Seq<char>, n: int)
    requires
        0 <= n <= s.len(),
    ensures
        decimal_value(s.take(n)) <= decimal_value(s),
    decreases s.len() - n,
{
    if n == s.len() {
        assert(s.take(n) =~= s);
    } else {
        lemma_decimal_value_grows(s, n + 1);
        assert(s.take(n + 1).drop_last() =~= s.take(n));
    }
}

/// Reads `s` as an unsigned decimal number: an optional `+`, then one or more
/// digits, the whole no larger than `u32::MAX`. Anything else is no number.
pub open spec fn parse_u32(s: Seq<char>) -> Option<u32> {
    let digits = if s.len() > 0 && s[0] == '+' {
        s.skip(1)
    } else {
        s
    };
    if digits.len() > 0 && all_digits(digits) && decimal_value(digits) <= u32::MAX {
        Some(decimal_value(digits) as u32)
    } else {
        None
    }
}

/// Parses an unsigned decimal number as `parse_u32` describes it.
pub fn parse_decimal(s: &str) -> (r: Option<u32>)
    ensures
        r == parse_u32(s@),
{
    let chars = chars_of(s);
    let n: usize = chars.len();
    if n == 0 {
        return None;
    }
    let start: usize = if chars[0] == '+' {
        1
    } else {
        0
    };
    if start == n {
        return None;
    }
    let ghost digits = s@.skip(start as int);
    assert(s@.skip(0) =~= s@);
    let mut value: u64 = 0;
    let mut i: usize = start;
    while i < n
        invariant
            start <= i <= n,
            n == s@.len(),
            chars@ == s@,
            digits == s@.skip(start as int),
            s@.skip(0) == s@,
            start == (if s@[0] == '+' { 1int } else { 0int }),
            all_digits(digits.take(i - start)),
            value == decimal_value(digits.take(i - start)),
            value <= u32::MAX,
        decreases n - i,
    {
        let c: char = chars[i];
        if !(c >= '0' && c <= '9') {
            assert(!is_digit(digits[i - start]));
            return None;
        }
        let d: u64 = (c as u32 - '0' as u32) as u64;
        proof {
            assert(digits.take(i - start + 1).drop_last() =~= digits.take(i - start));
            assert(digits.take(i - start + 1).last() == c);
        }
        value = value * 10 + d;
        if value > u32::MAX as u64 {
            proof {
                lemma_decimal_value_grows(digits, i - start + 1);
            }
            return None;
        }
        i = i + 1;
    }
    assert(digits.take(i - start) =~= digits);
    Some(value as u32)
}

/// One of the two limits that the policy file sets.
#[derive(Clone, Copy, Debug, PartialEq, Eq, Structural)]
pub enum Limit {
    /// `UID_MIN`, the lowest uid of a regular account.
    Min,
    /// `UID_MAX`, the highest uid of a regular account.
    Max,
}

/// The pattern that finds `UID_MIN`: the keyword, white space, then digits,
/// which are captured.
pub const UID_MIN_PATTERN: &'static str = "UID_MIN\\s+([0-9]+)";

/// The pattern that finds `UID_MAX`: the keyword, white space, then digits,
/// which are captured.
pub const UID_MAX_PATTERN: &'static str = "UID_MAX\\s+([0-9]+)";

impl Limit {
    /// The pattern whose first match in the policy file sets this limit.
    pub open spec fn pattern_text(self) -> Seq<char> {
        match self {
            Limit::Min => UID_MIN_PATTERN@,
            Limit::Max => UID_MAX_PATTERN@,
        }
    }

    /// The value of this limit where the policy file does not set it.
    pub open spec fn fallback(self) -> u32 {
        match self {
            Limit::Min => DEFAULT_UID_MIN,
            Limit::Max => DEFAULT_UID_MAX,
        }
    }

    /// The pattern whose first match in the policy file sets this limit.
    pub fn pattern(self) -> (p: &'static str)
        ensures
            p@ == self.pattern_text(),
    {
        match self {
            Limit::Min => UID_MIN_PATTERN,
            Limit::Max => UID_MAX_PATTERN,
        }
    }

    /// The value of this limit where the policy file does not set it.
    pub fn default_uid(self) -> (uid: u32)
        ensures
            uid == self.fallback(),
    {
        match self {
            Limit::Min => DEFAULT_UID_MIN,
            Limit::Max => DEFAULT_UID_MAX,
        }
    }
}

/// What a search of the policy file for one limit came to.
#[derive(Clone, Copy, Debug, PartialEq, Eq, Structural)]
pub enum Bound {
    /// The directive is there and its digits are this number.
    Found(u32),
    /// The directive is there, but what follows the keyword is no number
    /// that a uid can hold.
    Malformed,
    /// The policy file has no such directive.
    Absent,
}

/// The bound that a captured run of characters stands for; `None` means that
/// the directive was not found at all.
pub open spec fn bound_of(capture: Option<Seq<char>>) -> Bound {
    match capture {
        None => Bound::Absent,
        Some(digits) => match parse_u32(digits) {
            Some(uid) => Bound::Found(uid),
            None => Bound::Malformed,
        },
    }
}

/// The bound that `text` sets for `limit`: the first directive found
/// anywhere in the text counts.
pub open spec fn policy_bound(text: Seq<char>, limit: Limit) -> Bound {
    bound_of(first_group(limit.pattern_text(), text))
}

/// Tells the three outcomes of a search apart: nothing found, a number, or
/// characters that are no number.
pub fn classify_capture(capture: &Option<String>) -> (b: Bound)
    ensures
        b == bound_of(capture.deep_view()),
{
    match capture {
        None => Bound::Absent,
        Some(digits) => match parse_decimal(digits.as_str()) {
            Some(uid) => Bound::Found(uid),
            None => Bound::Malformed,
        },
    }
}

/// Searches the policy file's text for the directive of `limit`.
pub fn find_bound(text: &str, limit: Limit) -> (b: Bound)
    ensures
        b == policy_bound(text@, limit),
{
    let capture = capture_first_group(limit.pattern(), text);
    classify_capture(&capture)
}

/// Why a policy file sets no usable limits.
#[derive(Clone, Copy, Debug, PartialEq, Eq, Structural)]
pub enum PolicyError {
    /// `UID_MIN` is followed by digits that are no uid.
    MalformedMin,
    /// `UID_MAX` is followed by digits that are no uid.
    MalformedMax,
}

/// The value of `limit` under `bound`: the number found, or the default of
/// the limit where none was found.
pub open spec fn limit_value(bound: Bound, limit: Limit) -> u32 {
    match bound {
        Bound::Found(uid) => uid,
        _ => limit.fallback(),
    }
}

/// The limits, lowest then highest, that two bounds come to: a bound that is
/// absent takes its default, and a malformed one is an error, the lower
/// limit's first.
pub open spec fn limits_of(min: Bound, max: Bound) -> Result<(u32, u32), PolicyError> {
    if min is Malformed {
        Err(PolicyError::MalformedMin)
    } else if max is Malformed {
        Err(PolicyError::MalformedMax)
    } else {
        Ok((limit_value(min, Limit::Min), limit_value(max, Limit::Max)))
    }
}

/// The limits that the policy file's text sets.
pub open spec fn policy_limits(text: Seq<char>) -> Result<(u32, u32), PolicyError> {
    limits_of(policy_bound(text, Limit::Min), policy_bound(text, Limit::Max))
}

/// Whether an account with this uid is a regular one under the limits
/// `min` and `max`. Where `min` is above `max`, none is.
pub open spec fn uid_admitted(min: u32, max: u32, uid: u32) -> bool {
    min <= uid && uid <= max
}

/// Whether `r` is the range of the limits `limits`, or their error: the
/// range from the lower limit to the higher, and no range where the lower is
/// above the higher.
pub open spec fn range_of_limits(
    r: Result<Option<UidRange>, PolicyError>,
    limits: Result<(u32, u32), PolicyError>,
) -> bool {
    match limits {
        Ok((min, max)) => match r {
            Ok(Some(range)) => min <= max && range.lowest() == min && range.highest() == max,
            Ok(None) => min > max,
            Err(_) => false,
        },
        Err(e) => r matches Err(err) && err == e,
    }
}

/// The uids of regular accounts, from a lowest to a highest, both included.
/// The lowest is never above the highest.
pub struct UidRange {
    min: u32,
    max: u32,
}

impl UidRange {
    #[verifier::type_invariant]
    spec fn ordered(self) -> bool {
        self.min <= self.max
    }

    /// The lowest uid in the range.
    pub closed spec fn lowest(self) -> u32 {
        self.min
    }

    /// The highest uid in the range.
    pub closed spec fn highest(self) -> u32 {
        self.max
    }

    /// The range from `min` to `max`, if there is one: `min` must not be
    /// above `max`.
    pub fn new(min: u32, max: u32) -> (r: Option<UidRange>)
        ensures
            r is Some <==> min <= max,
            r matches Some(range) ==> range.lowest() == min && range.highest() == max,
    {
        if min <= max {
            Some(UidRange { min, max })
        } else {
            None
        }
    }

    /// The lowest uid in the range.
    pub fn min(&self) -> (uid: u32)
        ensures
            uid == self.lowest(),
            uid <= self.highest(),
    {
        proof {
            use_type_invariant(self);
        }
        self.min
    }

    /// The highest uid in the range.
    pub fn max(&self) -> (uid: u32)
        ensures
            uid == self.highest(),
            self.lowest() <= uid,
    {
        proof {
            use_type_invariant(self);
        }
        self.max
    }

    /// Whether `uid` lies in the range.
    pub fn contains(&self, uid: u32) -> (b: bool)
        ensures
            b == uid_admitted(self.lowest(), self.highest(), uid),
    {
        self.min <= uid && uid <= self.max
    }

    /// The range that two bounds come to. `Ok(None)` where the limits are
    /// sound but the lower is above the higher, so that no uid lies between
    /// them.
    pub fn from_bounds(min: Bound, max: Bound) -> (r: Result<Option<UidRange>, PolicyError>)
        ensures
            range_of_limits(r, limits_of(min, max)),
    {
        let lo: u32 = match min {
            Bound::Found(uid) => uid,
            Bound::Absent => Limit::Min.default_uid(),
            Bound::Malformed => {
                return Err(PolicyError::MalformedMin);
            },
        };
        let hi: u32 = match max {
            Bound::Found(uid) => uid,
            Bound::Absent => Limit::Max.default_uid(),
            Bound::Malformed => {
                return Err(PolicyError::MalformedMax);
            },
        };
        Ok(UidRange::new(lo, hi))
    }

    /// The range that the policy file's text sets.
    pub fn from_policy(text: &str) -> (r: Result<Option<UidRange>, PolicyError>)
        ensures
            range_of_limits(r, policy_limits(text@)),
    {
        let min = find_bound(text, Limit::Min);
        let max = find_bound(text, Limit::Max);
        UidRange::from_bounds(min, max)
    }
}

} // verus!
