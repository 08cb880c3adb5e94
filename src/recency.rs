//! The usage signal of an application: how often it was launched, decayed by
//! the days since its last launch.

use vstd::prelude::*;

verus! {

/// Seconds in one day.
pub const SECONDS_PER_DAY: i64 = 86400;

/// Whole days from `last_used` to `now`; zero when the application was never
/// launched or when the last launch lies in the future.
pub open spec fn days_since(last_used: Option<i64>, now: i64) -> int {
    match last_used {
        Some(t) => if now > t { (now - t) / (SECONDS_PER_DAY as int) } else { 0 },
        None => 0,
    }
}

/// The recency score `usage_count / (days_since_last_used + 1)`, kept as an
/// exact fraction so that scores compare without rounding.
#[derive(Clone, Copy, Debug, PartialEq, Eq, Structural)]
pub struct UsageRecency {
    pub usage_count: u64,
    pub days_since_last_used: u64,
}

/// The score of an application launched `usage_count` times, last at
/// `last_used`, as seen at `now`.
pub open spec fn recency_of(usage_count: u64, last_used: Option<i64>, now: i64) -> UsageRecency {
    UsageRecency { usage_count, days_since_last_used: days_since(last_used, now) as u64 }
}

/// The score of an application that was never launched.
pub open spec fn never_used() -> UsageRecency {
    UsageRecency { usage_count: 0, days_since_last_used: 0 }
}

impl UsageRecency {
    /// The denominator of the score.
    pub open spec fn denominator(self) -> int {
        self.days_since_last_used + 1
    }

    /// The score of `self` is strictly greater than that of `other`.
    pub open spec fn exceeds(self, other: UsageRecency) -> bool {
        self.usage_count * other.denominator() > other.usage_count * self.denominator()
    }

    /// The two scores are equal as fractions.
    pub open spec fn ties(self, other: UsageRecency) -> bool {
        self.usage_count * other.denominator() == other.usage_count * self.denominator()
    }

    /// The score of an application that was never launched.
    pub fn zero() -> (r: UsageRecency)
        ensures
            r == never_used(),
    {
        UsageRecency { usage_count: 0, days_since_last_used: 0 }
    }

    /// Computes the score of an application launched `usage_count` times, last
    /// at `last_used` (Unix seconds), as seen at `now`.
    pub fn from_usage(usage_count: u64, last_used: Option<i64>, now: i64) -> (r: UsageRecency)
        ensures
            r == recency_of(usage_count, last_used, now),
            r.days_since_last_used == days_since(last_used, now),
    {
        let days: u64 = match last_used {
            Some(t) => {
                if now > t {
                    let elapsed: i128 = now as i128 - t as i128;
                    assert(elapsed / 86400 <= elapsed);
                    (elapsed / 86400) as u64
                } else {
                    0
                }
            },
            None => 0,
        };
        UsageRecency { usage_count, days_since_last_used: days }
    }

    /// Whether the score of `self` is strictly greater than that of `other`.
    pub fn is_higher_than(&self, other: &UsageRecency) -> (r: bool)
        ensures
            r == self.exceeds(*other),
    {
        let (lhs, rhs) = self.cross_products(other);
        lhs > rhs
    }

    /// Whether the two scores are equal.
    pub fn is_same_as(&self, other: &UsageRecency) -> (r: bool)
        ensures
            r == self.ties(*other),
    {
        let (lhs, rhs) = self.cross_products(other);
        lhs == rhs
    }

    fn cross_products(&self, other: &UsageRecency) -> (r: (u128, u128))
        ensures
            r.0 == self.usage_count * other.denominator(),
            r.1 == other.usage_count * self.denominator(),
    {
        let a: u128 = self.usage_count as u128;
        let b: u128 = other.usage_count as u128;
        let da: u128 = self.days_since_last_used as u128 + 1;
        let db: u128 = other.days_since_last_used as u128 + 1;
        proof {
            lemma_product_fits(a, db);
            lemma_product_fits(b, da);
        }
        (a * db, b * da)
    }
}

proof fn lemma_product_fits(x: u128, y: u128)
    requires
        x <= u64::MAX,
        y <= u64::MAX + 1,
    ensures
        x * y <= u128::MAX,
{
    assert(x * y <= (u64::MAX as int) * (u64::MAX + 1)) by (nonlinear_arith)
        requires
            x <= u64::MAX,
            y <= u64::MAX + 1,
    ;
}

/// Exactly one of: `a` exceeds `b`, `b` exceeds `a`, they tie.
pub proof fn lemma_recency_trichotomy(a: UsageRecency, b: UsageRecency)
    ensures
        a.exceeds(b) || b.exceeds(a) || a.ties(b),
        !(a.exceeds(b) && b.exceeds(a)),
        !(a.exceeds(b) && a.ties(b)),
        a.ties(b) == b.ties(a),
{
}

/// The order of scores is transitive, also through ties.
pub proof fn lemma_recency_transitive(a: UsageRecency, b: UsageRecency, c: UsageRecency)
    ensures
        a.exceeds(b) && b.exceeds(c) ==> a.exceeds(c),
        a.exceeds(b) && b.ties(c) ==> a.exceeds(c),
        a.ties(b) && b.exceeds(c) ==> a.exceeds(c),
        a.ties(b) && b.ties(c) ==> a.ties(c),
{
    let x = a.usage_count as int;
    let y = b.usage_count as int;
    let z = c.usage_count as int;
    let dx = a.denominator();
    let dy = b.denominator();
    let dz = c.denominator();
    assert(dx > 0 && dy > 0 && dz > 0);
    assert(x * dy > y * dx && y * dz > z * dy ==> x * dz > z * dx) by (nonlinear_arith)
        requires dx > 0, dy > 0, dz > 0, x >= 0, y >= 0, z >= 0;
    assert(x * dy > y * dx && y * dz == z * dy ==> x * dz > z * dx) by (nonlinear_arith)
        requires dx > 0, dy > 0, dz > 0, x >= 0, y >= 0, z >= 0;
    assert(x * dy == y * dx && y * dz > z * dy ==> x * dz > z * dx) by (nonlinear_arith)
        requires dx > 0, dy > 0, dz > 0, x >= 0, y >= 0, z >= 0;
    assert(x * dy == y * dx && y * dz == z * dy ==> x * dz == z * dx) by (nonlinear_arith)
        requires dx > 0, dy > 0, dz > 0, x >= 0, y >= 0, z >= 0;
}

} // verus!
