//! The spacing heuristic: when a card is due again.
//!
//! A card's history is scanned from its oldest review to its newest. The spacing
//! starts at half a day. A recall on a new day doubles it; a lapse on a new day
//! halves it; the first lapse on a day that already has a review quarters it;
//! any other review on such a day leaves it alone. The card is due again when the
//! spacing, rounded to whole days and no less than one day, has passed since its
//! last review. A card never reviewed, or forgotten at its last review, is due.
//!
//! The spacing is always a power of two, so it is kept as its exponent: nothing
//! is rounded on the way, and no history is too long.

use vstd::prelude::*;
use crate::calendar::clock_day;

verus! {

/// One review of a card: its day, and whether the card was recalled.
#[derive(Clone, Copy, Debug, PartialEq, Eq, Structural)]
pub struct ReviewEvent {
    pub date: i32,
    pub remembered: bool,
}

/// What the scan knows after some reviews.
pub struct Pace {
    /// The spacing in days is two to the power of this.
    pub exponent: int,
    /// The day of the last review that fell on a new day.
    pub day: Option<i32>,
    /// Whether a lapse has been counted for that day.
    pub lapsed: bool,
}

/// The scan before any review: half a day, and no day seen.
pub open spec fn first_pace() -> Pace {
    Pace { exponent: -1, day: None, lapsed: false }
}

/// The scan after one more review.
pub open spec fn next_pace(pace: Pace, event: ReviewEvent) -> Pace {
    if pace.day == Some(event.date) {
        if !pace.lapsed && !event.remembered {
            Pace { exponent: pace.exponent - 2, lapsed: true, ..pace }
        } else {
            pace
        }
    } else if event.remembered {
        Pace { exponent: pace.exponent + 1, day: Some(event.date), lapsed: false }
    } else {
        Pace { exponent: pace.exponent - 1, day: Some(event.date), lapsed: true }
    }
}

/// The scan after a whole history, oldest review first.
pub open spec fn pace_of(history: Seq<ReviewEvent>) -> Pace
    decreases history.len(),
{
    if history.len() == 0 {
        first_pace()
    } else {
        next_pace(pace_of(history.drop_last()), history.last())
    }
}

/// Two to the power of `n`.
pub open spec fn doubled(n: nat) -> nat
    decreases n,
{
    if n == 0 {
        1
    } else {
        2 * doubled((n - 1) as nat)
    }
}

/// The whole days to wait for a spacing of two to the power of `exponent` days:
/// the spacing rounded to the nearest day, halves upwards, and no less than one.
/// Half a day and a single day both give one day; anything shorter gives one day
/// too.
pub open spec fn interval(exponent: int) -> nat {
    if exponent <= 0 {
        1
    } else {
        doubled(exponent as nat)
    }
}

/// Whether a card with this history is due on the day `today`.
pub open spec fn due(history: Seq<ReviewEvent>, today: i32) -> bool {
    ||| history.len() == 0
    ||| !history.last().remembered
    ||| history.last().date + interval(pace_of(history).exponent) <= today
}

/// Powers of two grow.
pub proof fn lemma_doubled_grows(a: nat, b: nat)
    requires
        a <= b,
    ensures
        doubled(a) <= doubled(b),
        doubled(a) >= 1,
    decreases b,
{
    if a < b {
        lemma_doubled_grows(a, (b - 1) as nat);
    } else if a > 0 {
        lemma_doubled_grows((a - 1) as nat, (a - 1) as nat);
    }
}

/// A card never reviewed is due, and so is one whose only review was a lapse,
/// whatever the day.
pub proof fn lemma_due_at_once(date: i32, today: i32)
    ensures
        due(Seq::empty(), today),
        due(seq![ReviewEvent { date, remembered: false }], today),
{
}

/// After a single recall the card is due from the next day on, and not before.
pub proof fn lemma_due_after_one_recall(date: i32, today: i32)
    ensures
        due(seq![ReviewEvent { date, remembered: true }], today) <==> date + 1 <= today,
{
    let history = seq![ReviewEvent { date, remembered: true }];
    assert(history.drop_last() =~= Seq::<ReviewEvent>::empty());
    assert(pace_of(history.drop_last()) == first_pace());
    assert(pace_of(history).exponent == 0);
}

/// A history of recalls alone, each on a day of its own, waits two to the power
/// of one less than their number: every such day doubles the spacing.
pub proof fn lemma_recalls_compound(history: Seq<ReviewEvent>)
    requires
        history.len() > 0,
        forall|i: int| 0 <= i < history.len() ==> history[i].remembered,
        forall|i: int| 0 < i < history.len() ==> (#[trigger] history[i]).date != history[i - 1].date,
    ensures
        pace_of(history).exponent == history.len() - 1,
        pace_of(history).day == Some(history.last().date),
        interval(pace_of(history).exponent) == doubled((history.len() - 1) as nat),
    decreases history.len(),
{
    let rest = history.drop_last();
    let last = history[history.len() - 1];
    assert(last.remembered);
    if rest.len() > 0 {
        assert forall|i: int| 0 < i < rest.len() implies (#[trigger] rest[i]).date != rest[i
            - 1].date by {
            assert(rest[i] == history[i] && rest[i - 1] == history[i - 1]);
        }
        lemma_recalls_compound(rest);
        assert(rest.last() == history[history.len() - 2]);
        assert(last.date != history[history.len() - 2].date);
    } else {
        assert(pace_of(rest) == first_pace());
        assert(doubled(0) == 1);
    }
}

/// Two to the power of 32.
proof fn lemma_doubled_32()
    ensures
        doubled(32) == 0x1_0000_0000,
{
    assert(doubled(8) == 0x100) by {
        reveal_with_fuel(doubled, 9);
    }
    assert(doubled(16) == 0x1_0000) by {
        lemma_doubled_adds(8, 8);
    }
    assert(doubled(32) == 0x1_0000_0000) by {
        lemma_doubled_adds(16, 16);
    }
}

/// Powers of two multiply as their exponents add.
proof fn lemma_doubled_adds(a: nat, b: nat)
    ensures
        doubled(a + b) == doubled(a) * doubled(b),
    decreases b,
{
    if b > 0 {
        lemma_doubled_adds(a, (b - 1) as nat);
        assert(doubled(a + b) == 2 * doubled((a + b - 1) as nat));
        assert(2 * (doubled(a) * doubled((b - 1) as nat)) == doubled(a) * (2 * doubled(
            (b - 1) as nat,
        ))) by (nonlinear_arith);
    } else {
        assert(doubled(a) * 1 == doubled(a)) by (nonlinear_arith);
    }
}

/// Two to the power of `n`, for `n` up to 32.
fn power_of_two(n: u32) -> (p: i64)
    requires
        n <= 32,
    ensures
        p == doubled(n as nat),
{
    let mut p: i64 = 1;
    let mut k: u32 = 0;
    while k < n
        invariant
            k <= n <= 32,
            p == doubled(k as nat),
        decreases n - k,
    {
        proof {
            lemma_doubled_grows((k + 1) as nat, 32);
            lemma_doubled_32();
        }
        p = 2 * p;
        k = k + 1;
    }
    p
}

/// Whether a card with this history, oldest review first, is due on the day
/// `today`.
pub fn leitner_on(review_history: &Vec<ReviewEvent>, today: i32) -> (is_due: bool)
    ensures
        is_due == due(review_history@, today),
{
    let count = review_history.len();
    if count == 0 {
        return true;
    }
    let last = review_history[count - 1];
    if !last.remembered {
        return true;
    }
    let mut exponent: i128 = -1;
    let mut day: Option<i32> = None;
    let mut lapsed = false;
    let mut at: usize = 0;
    while at < count
        invariant
            at <= count == review_history.len(),
            pace_of(review_history@.take(at as int)) == (Pace { exponent: exponent as int, day, lapsed }),
            -1 - 2 * at <= exponent <= -1 + at,
        decreases count - at,
    {
        let event = review_history[at];
        proof {
            let seen = review_history@.take(at + 1);
            assert(seen.drop_last() =~= review_history@.take(at as int));
            assert(seen.last() == event);
        }
        let same_day = match day {
            Some(d) => d == event.date,
            None => false,
        };
        if same_day {
            if !lapsed && !event.remembered {
                exponent = exponent - 2;
                lapsed = true;
            }
        } else {
            day = Some(event.date);
            if event.remembered {
                exponent = exponent + 1;
                lapsed = false;
            } else {
                exponent = exponent - 1;
                lapsed = true;
            }
        }
        at = at + 1;
    }
    assert(review_history@.take(count as int) =~= review_history@);
    if exponent > 32 {
        proof {
            lemma_doubled_grows(33, exponent as nat);
            assert(doubled(33) == 2 * doubled(32));
            lemma_doubled_32();
        }
        false
    } else {
        let wait: i64 = if exponent <= 0 {
            1
        } else {
            proof {
                lemma_doubled_grows(exponent as nat, 32);
                lemma_doubled_32();
            }
            power_of_two(exponent as u32)
        };
        last.date as i64 + wait <= today as i64
    }
}

/// Whether a card with this history, oldest review first, is due today. The day
/// is asked of the clock; the history is left as it is.
pub fn leitner(review_history: &mut Vec<ReviewEvent>) -> (is_due: bool)
    ensures
        final(review_history)@ == old(review_history)@,
        exists|today: i32| is_due == due(old(review_history)@, today),
        old(review_history)@.len() == 0 || !old(review_history)@.last().remembered ==> is_due,
{
    let today = clock_day();
    let is_due = leitner_on(review_history, today);
    assert(is_due == due(review_history@, today));
    is_due
}

} // verus!
