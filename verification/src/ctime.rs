//! Relative-time expressions such as `b12h` or `a+30m`, and the predicate on
//! creation times that each one stands for.

use crate::text::chars_of;
use crate::utc_time::{
    checked_add_seconds, checked_sub_seconds, span_of_days, span_of_hours, span_of_minutes,
    span_of_seconds, utc_now, UtcTime, MAX_DELTA_SECS, MAX_SECS, MIN_SECS,
};
use vstd::prelude::*;

verus! {

/// The unit that follows the amount of an expression.
#[derive(Clone, Copy, Debug, PartialEq, Eq, Structural)]
pub enum Unit {
    Seconds,
    Minutes,
    Hours,
    Days,
}

impl Unit {
    /// The length of one unit, in seconds.
    pub open spec fn seconds(self) -> int {
        match self {
            Unit::Seconds => 1,
            Unit::Minutes => 60,
            Unit::Hours => 3600,
            Unit::Days => 86400,
        }
    }

    /// The letter that stands for the unit.
    pub open spec fn letter(self) -> char {
        match self {
            Unit::Seconds => 's',
            Unit::Minutes => 'm',
            Unit::Hours => 'h',
            Unit::Days => 'd',
        }
    }

    /// The unit that `c` stands for, if it stands for one.
    pub fn from_letter(c: char) -> (r: Option<Unit>)
        ensures
            r == unit_of(c),
    {
        if c == 's' {
            Some(Unit::Seconds)
        } else if c == 'm' {
            Some(Unit::Minutes)
        } else if c == 'h' {
            Some(Unit::Hours)
        } else if c == 'd' {
            Some(Unit::Days)
        } else {
            None
        }
    }

    /// The length in seconds of `amount` units, or `None` where that is more
    /// than a span of time can hold.
    pub fn span(self, amount: i64) -> (r: Option<i64>)
        ensures
            r == (if -MAX_DELTA_SECS <= amount * self.seconds() <= MAX_DELTA_SECS {
                Some((amount * self.seconds()) as i64)
            } else {
                None
            }),
    {
        let wide: i128 = amount as i128;
        let limit: i128 = MAX_DELTA_SECS as i128;
        match self {
            Unit::Seconds => if -limit <= wide && wide <= limit {
                Some(span_of_seconds(amount))
            } else {
                None
            },
            Unit::Minutes => if -limit <= wide * 60 && wide * 60 <= limit {
                Some(span_of_minutes(amount))
            } else {
                None
            },
            Unit::Hours => if -limit <= wide * 3600 && wide * 3600 <= limit {
                Some(span_of_hours(amount))
            } else {
                None
            },
            Unit::Days => if -limit <= wide * 86400 && wide * 86400 <= limit {
                Some(span_of_days(amount))
            } else {
                None
            },
        }
    }
}

/// A predicate on a creation time: at or before an anchor, or at or after it.
/// The anchor is fixed when the expression is parsed.
#[derive(Clone, Copy, Debug, PartialEq, Eq, Structural)]
pub enum CTime {
    Before(UtcTime),
    After(UtcTime),
}

/// Why an expression was refused.
#[derive(Clone, Copy, Debug, PartialEq, Eq, Structural)]
pub enum ParseError {
    /// The text is not a direction, an optional `+`, digits and a unit.
    Format,
    /// The amount, or the instant it leads to, is more than the clock and
    /// calendar can hold, or the clock itself cannot be read.
    OutOfRange,
}

impl ParseError {
    /// The message that tells a user what was wrong.
    pub open spec fn message_text(self) -> Seq<char> {
        match self {
            ParseError::Format => "Incorrect format : Use '[b|a]+10[d|h|m|s]' '[b|a]10[d|h|m|s]'"@,
            ParseError::OutOfRange => "Time is out of range"@,
        }
    }

    /// The message that tells a user what was wrong.
    pub fn message(&self) -> (text: &'static str)
        ensures
            text@ == self.message_text(),
    {
        match self {
            ParseError::Format => "Incorrect format : Use '[b|a]+10[d|h|m|s]' '[b|a]10[d|h|m|s]'",
            ParseError::OutOfRange => "Time is out of range",
        }
    }
}

/// A decimal digit.
pub open spec fn is_digit(c: char) -> bool {
    '0' <= c && c <= '9'
}

/// A direction: `a` for after, `b` for before.
pub open spec fn is_direction(c: char) -> bool {
    c == 'a' || c == 'b'
}

/// The unit that a letter stands for.
pub open spec fn unit_of(c: char) -> Option<Unit> {
    if c == 's' {
        Some(Unit::Seconds)
    } else if c == 'm' {
        Some(Unit::Minutes)
    } else if c == 'h' {
        Some(Unit::Hours)
    } else if c == 'd' {
        Some(Unit::Days)
    } else {
        None
    }
}

/// The number that one decimal digit writes.
pub open spec fn digit_value(c: char) -> nat {
    if is_digit(c) {
        (c as u32 - '0' as u32) as nat
    } else {
        0
    }
}

/// The number that a run of decimal digits writes.
pub open spec fn decimal_value(digits: Seq<char>) -> nat
    decreases digits.len(),
{
    if digits.len() == 0 {
        0
    } else {
        decimal_value(digits.drop_last()) * 10 + digit_value(digits.last())
    }
}

/// The expression carries a `+` behind its direction.
pub open spec fn has_plus(s: Seq<char>) -> bool {
    s.len() >= 2 && s[1] == '+'
}

/// Where the digits of the amount begin.
pub open spec fn amount_start(s: Seq<char>) -> int {
    if has_plus(s) {
        2
    } else {
        1
    }
}

/// The digits of the amount: what stands between the sign and the unit.
pub open spec fn amount_digits(s: Seq<char>) -> Seq<char> {
    s.subrange(amount_start(s), s.len() - 1)
}

/// The shape of an expression: one character for the direction, an optional
/// `+`, one or more digits, one character for the unit, and nothing else.
pub open spec fn well_formed(s: Seq<char>) -> bool {
    &&& s.len() >= 3
    &&& is_direction(s[0])
    &&& unit_of(s.last()) is Some
    &&& amount_start(s) < s.len() - 1
    &&& forall|i: int| amount_start(s) <= i < s.len() - 1 ==> is_digit(#[trigger] s[i])
}

/// What an expression means at the instant `now`.
///
/// The span is the amount times the unit. Without a sign the anchor lies that
/// far before `now`, with `+` that far after it. Direction `b` gives `Before`
/// the anchor and `a` gives `After` it.
pub open spec fn parse_result(s: Seq<char>, now: UtcTime) -> Result<CTime, ParseError> {
    if !well_formed(s) {
        Err(ParseError::Format)
    } else {
        let span = decimal_value(amount_digits(s)) * unit_of(s.last())->0.seconds();
        let anchor = now.shifted(
            if has_plus(s) {
                span
            } else {
                -span
            },
        );
        if span > MAX_DELTA_SECS || anchor is None {
            Err(ParseError::OutOfRange)
        } else if s[0] == 'a' {
            Ok(CTime::After(anchor->0))
        } else {
            Ok(CTime::Before(anchor->0))
        }
    }
}

/// What an expression means where the clock gave `clock`. Where the clock
/// could not be read, a text of the wrong shape is refused for its shape, and
/// any other for want of an instant to count from.
pub open spec fn parse_outcome(s: Seq<char>, clock: Option<UtcTime>) -> Result<
    CTime,
    ParseError,
> {
    match clock {
        Some(now) => parse_result(s, now),
        None => if well_formed(s) {
            Err(ParseError::OutOfRange)
        } else {
            Err(ParseError::Format)
        },
    }
}

/// A run of one or more decimal digits.
pub open spec fn is_amount(digits: Seq<char>) -> bool {
    &&& digits.len() > 0
    &&& forall|i: int| 0 <= i < digits.len() ==> is_digit(#[trigger] digits[i])
}

/// The expression that is written with the given parts: the direction, a `+`
/// where `plus` holds, the digits of the amount, and the unit's letter.
pub open spec fn expression(direction: char, plus: bool, digits: Seq<char>, unit: Unit) -> Seq<
    char,
> {
    if plus {
        seq![direction, '+'] + digits + seq![unit.letter()]
    } else {
        seq![direction] + digits + seq![unit.letter()]
    }
}

/// An expression written with direction `a` or `b`, with or without `+`, an
/// amount and a unit parses to the predicate of that direction, anchored the
/// amount's span after `now` where it carries a `+` and before `now` where it
/// does not, as long as the span and the anchor are within range.
pub proof fn lemma_parse_expression(
    direction: char,
    plus: bool,
    digits: Seq<char>,
    unit: Unit,
    now: UtcTime,
)
    requires
        direction == 'a' || direction == 'b',
        is_amount(digits),
        decimal_value(digits) * unit.seconds() <= MAX_DELTA_SECS,
        now.shifted(
            if plus {
                decimal_value(digits) * unit.seconds()
            } else {
                -(decimal_value(digits) * unit.seconds())
            },
        ) is Some,
    ensures
        parse_result(expression(direction, plus, digits, unit), now) == Ok::<CTime, ParseError>(
            {
                let anchor = now.shifted(
                    if plus {
                        decimal_value(digits) * unit.seconds()
                    } else {
                        -(decimal_value(digits) * unit.seconds())
                    },
                )->0;
                if direction == 'a' {
                    CTime::After(anchor)
                } else {
                    CTime::Before(anchor)
                }
            },
        ),
{
    let s = expression(direction, plus, digits, unit);
    assert(is_digit(digits[0]));
    assert(has_plus(s) == plus);
    assert(amount_digits(s) =~= digits);
    assert(s.last() == unit.letter());
    assert(unit_of(unit.letter()) == Some(unit));
    assert forall|i: int| amount_start(s) <= i < s.len() - 1 implies is_digit(
        #[trigger] s[i],
    ) by {
        assert(s[i] == digits[i - amount_start(s)]);
    }
    assert(well_formed(s));
    assert(decimal_value(digits) <= MAX_DELTA_SECS) by (nonlinear_arith)
        requires
            decimal_value(digits) * unit.seconds() <= MAX_DELTA_SECS,
            unit.seconds() >= 1,
    ;
}

/// Every expression of digits and a unit with direction `b` and no sign
/// parses to `Before` the instant that lies the amount's span before `now`.
/// Left out are the amounts whose span, or whose anchor, is out of range.
pub proof fn law_before_without_sign(digits: Seq<char>, unit: Unit, now: UtcTime)
    requires
        is_amount(digits),
        decimal_value(digits) * unit.seconds() <= MAX_DELTA_SECS,
        MIN_SECS <= now.secs - decimal_value(digits) * unit.seconds(),
        now.representable(),
    ensures
        parse_result(seq!['b'] + digits + seq![unit.letter()], now) == Ok::<CTime, ParseError>(
            CTime::Before(
                UtcTime {
                    secs: (now.secs - decimal_value(digits) * unit.seconds()) as i64,
                    nanos: now.nanos,
                },
            ),
        ),
{
    lemma_parse_expression('b', false, digits, unit, now);
}

/// Every expression of a `+`, digits and a unit with direction `a` parses to
/// `After` the instant that lies the amount's span after `now`. Left out are
/// the amounts whose span, or whose anchor, is out of range.
pub proof fn law_after_with_plus(digits: Seq<char>, unit: Unit, now: UtcTime)
    requires
        is_amount(digits),
        decimal_value(digits) * unit.seconds() <= MAX_DELTA_SECS,
        now.secs + decimal_value(digits) * unit.seconds() <= MAX_SECS,
        now.representable(),
    ensures
        parse_result(seq!['a', '+'] + digits + seq![unit.letter()], now) == Ok::<CTime, ParseError>(
            CTime::After(
                UtcTime {
                    secs: (now.secs + decimal_value(digits) * unit.seconds()) as i64,
                    nanos: now.nanos,
                },
            ),
        ),
{
    lemma_parse_expression('a', true, digits, unit, now);
}

/// Only a well-formed expression parses, whatever the instant: a text of
/// another shape is refused as a whole.
pub proof fn law_malformed_is_refused(s: Seq<char>, now: UtcTime)
    requires
        !well_formed(s),
    ensures
        parse_result(s, now) == Err::<CTime, ParseError>(ParseError::Format),
{
}

/// A run of digits never writes less than one of its beginnings does.
proof fn lemma_decimal_value_grows(digits: Seq<char>, k: int)
    requires
        0 <= k <= digits.len(),
    ensures
        decimal_value(digits.take(k)) <= decimal_value(digits),
    decreases digits.len(),
{
    if k == digits.len() {
        assert(digits.take(k) =~= digits);
    } else {
        lemma_decimal_value_grows(digits.drop_last(), k);
        assert(digits.drop_last().take(k) =~= digits.take(k));
    }
}

/// Whether `chars` holds only decimal digits from `from` up to `to`.
fn digit_run(chars: &Vec<char>, from: usize, to: usize) -> (b: bool)
    requires
        from <= to <= chars.len(),
    ensures
        b == (forall|i: int| from <= i < to ==> is_digit(#[trigger] chars@[i])),
{
    let mut i: usize = from;
    while i < to
        invariant
            from <= i <= to <= chars.len(),
            forall|j: int| from <= j < i ==> is_digit(#[trigger] chars@[j]),
        decreases to - i,
    {
        let c: char = chars[i];
        if !('0' <= c && c <= '9') {
            return false;
        }
        i += 1;
    }
    true
}

/// The number that the digits of `chars` from `from` up to `to` write, or
/// `None` where it is more than an `i64` holds.
fn decimal_of(chars: &Vec<char>, from: usize, to: usize) -> (r: Option<i64>)
    requires
        from <= to <= chars.len(),
        forall|i: int| from <= i < to ==> is_digit(#[trigger] chars@[i]),
    ensures
        match r {
            Some(v) => v == decimal_value(chars@.subrange(from as int, to as int)),
            None => decimal_value(chars@.subrange(from as int, to as int)) > i64::MAX,
        },
{
    let ghost run = chars@.subrange(from as int, to as int);
    let mut acc: i64 = 0;
    let mut i: usize = from;
    while i < to
        invariant
            from <= i <= to <= chars.len(),
            run == chars@.subrange(from as int, to as int),
            forall|j: int| from <= j < to ==> is_digit(#[trigger] chars@[j]),
            0 <= acc,
            acc == decimal_value(run.take(i - from)),
        decreases to - i,
    {
        let c: char = chars[i];
        let d: i64 = (c as u32 - '0' as u32) as i64;
        proof {
            assert(is_digit(chars@[i as int]));
            assert(run.take(i - from + 1).drop_last() =~= run.take(i - from));
            assert(run.take(i - from + 1).last() == c);
            assert(decimal_value(run.take(i - from + 1)) == acc * 10 + d);
            lemma_decimal_value_grows(run, i - from + 1);
        }
        if acc > (i64::MAX - d) / 10 {
            return None;
        }
        acc = acc * 10 + d;
        i += 1;
    }
    proof {
        assert(run.take(to - from) =~= run);
    }
    Some(acc)
}

impl CTime {
    /// The anchor that creation times are held against.
    pub open spec fn anchor(self) -> UtcTime {
        match self {
            CTime::Before(t) => t,
            CTime::After(t) => t,
        }
    }

    /// Whether a creation time satisfies the predicate: `Before` admits the
    /// anchor and all that is earlier, `After` the anchor and all that is later.
    pub open spec fn admits(self, created: UtcTime) -> bool {
        match self {
            CTime::Before(t) => created.at_or_before(t),
            CTime::After(t) => t.at_or_before(created),
        }
    }

    /// Whether the creation time `other` satisfies the predicate.
    pub fn is_valid(&self, other: &UtcTime) -> (b: bool)
        ensures
            b == self.admits(*other),
    {
        match self {
            CTime::Before(time) => other.is_at_or_before(time),
            CTime::After(time) => time.is_at_or_before(other),
        }
    }

    /// The anchor of the predicate.
    pub fn as_ref(&self) -> (t: &UtcTime)
        ensures
            *t == self.anchor(),
    {
        match self {
            CTime::Before(x) => x,
            CTime::After(x) => x,
        }
    }

    /// Parses an expression as it reads at the instant `now`.
    pub fn parse_at(s: &str, now: UtcTime) -> (r: Result<CTime, ParseError>)
        requires
            now.representable(),
        ensures
            r == parse_result(s@, now),
    {
        let chars = chars_of(s);
        let n: usize = chars.len();
        if n < 3 {
            return Err(ParseError::Format);
        }
        let direction: char = chars[0];
        let letter: char = chars[n - 1];
        let plus: bool = chars[1] == '+';
        let start: usize = if plus { 2 } else { 1 };
        if !(direction == 'a' || direction == 'b') {
            return Err(ParseError::Format);
        }
        let unit: Unit = match Unit::from_letter(letter) {
            Some(u) => u,
            None => {
                return Err(ParseError::Format);
            },
        };
        if start >= n - 1 || !digit_run(&chars, start, n - 1) {
            return Err(ParseError::Format);
        }
        let amount: i64 = match decimal_of(&chars, start, n - 1) {
            Some(v) => v,
            None => {
                proof {
                    assert(decimal_value(amount_digits(s@)) * unit.seconds() > MAX_DELTA_SECS)
                        by (nonlinear_arith)
                        requires
                            decimal_value(amount_digits(s@)) > i64::MAX,
                            unit.seconds() >= 1,
                            MAX_DELTA_SECS < i64::MAX,
                    ;
                }
                return Err(ParseError::OutOfRange);
            },
        };
        let span: i64 = match unit.span(amount) {
            Some(v) => v,
            None => {
                return Err(ParseError::OutOfRange);
            },
        };
        let moved = if plus {
            checked_add_seconds(now, span)
        } else {
            checked_sub_seconds(now, span)
        };
        let anchor: UtcTime = match moved {
            Some(t) => t,
            None => {
                return Err(ParseError::OutOfRange);
            },
        };
        if direction == 'a' {
            Ok(CTime::After(anchor))
        } else {
            Ok(CTime::Before(anchor))
        }
    }

    /// Parses an expression as it reads where the clock gave `clock`: at that
    /// instant, or, where the clock could not be read, at none.
    pub fn parse_by(s: &str, clock: Option<UtcTime>) -> (r: Result<CTime, ParseError>)
        requires
            clock is Some ==> clock->0.representable(),
        ensures
            r == parse_outcome(s@, clock),
    {
        match clock {
            Some(now) => CTime::parse_at(s, now),
            None => match CTime::parse_at(s, UtcTime { secs: 0, nanos: 0 }) {
                Err(ParseError::Format) => Err(ParseError::Format),
                _ => Err(ParseError::OutOfRange),
            },
        }
    }

    /// Parses an expression as it reads now: at the instant that the clock
    /// gives during the call. A text of the wrong shape is refused for its
    /// shape whatever the clock gives.
    pub fn from_str(s: &str) -> (r: Result<CTime, ParseError>)
        ensures
            !well_formed(s@) ==> r == Err::<CTime, ParseError>(ParseError::Format),
            exists|clock: Option<UtcTime>|
                (clock is Some ==> clock->0.representable()) && r == parse_outcome(s@, clock),
    {
        let clock = utc_now();
        CTime::parse_by(s, clock)
    }
}

/// The parser of the value of one command-line flag. It holds the direction
/// that the flag stands for, which goes before the value to make the
/// expression.
#[derive(Debug, Clone)]
pub struct CTimeParser(pub String);

impl CTimeParser {
    /// Parses the flag's value as it reads at the instant `now`.
    pub fn parse_ref_at(&self, value: &str, now: UtcTime) -> (r: Result<CTime, ParseError>)
        requires
            now.representable(),
        ensures
            r == parse_result(self.0@ + value@, now),
    {
        let mut expression = self.0.clone();
        expression.append(value);
        CTime::parse_at(expression.as_str(), now)
    }

    /// Parses the flag's value as it reads where the clock gave `clock`.
    pub fn parse_ref_by(&self, value: &str, clock: Option<UtcTime>) -> (r: Result<
        CTime,
        ParseError,
    >)
        requires
            clock is Some ==> clock->0.representable(),
        ensures
            r == parse_outcome(self.0@ + value@, clock),
    {
        let mut expression = self.0.clone();
        expression.append(value);
        CTime::parse_by(expression.as_str(), clock)
    }

    /// Parses the flag's value as it reads now: at the instant that the clock
    /// gives during the call. A text of the wrong shape is refused for its
    /// shape whatever the clock gives.
    pub fn parse_ref(&self, value: &str) -> (r: Result<CTime, ParseError>)
        ensures
            !well_formed(self.0@ + value@) ==> r == Err::<CTime, ParseError>(ParseError::Format),
            exists|clock: Option<UtcTime>|
                (clock is Some ==> clock->0.representable()) && r == parse_outcome(
                    self.0@ + value@,
                    clock,
                ),
    {
        let clock = utc_now();
        self.parse_ref_by(value, clock)
    }
}

} // verus!
