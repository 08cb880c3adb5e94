//! The index's own state: the time of the last full scan.

use vstd::prelude::*;

verus! {

/// The state key under which the time of the last full scan is stored.
pub const STATE_KEY_LAST_APPLICATION_SEARCH_TIME: &'static str = "last_application_search_time";

/// The value of a decimal numeral.
pub open spec fn decimal_value(s: Seq<char>) -> int
    decreases s.len(),
{
    if s.len() == 0 {
        0
    } else {
        decimal_value(s.drop_last()) * 10 + (s.last() as int - '0' as int)
    }
}

/// `s` is a non-empty run of decimal digits.
pub open spec fn is_decimal(s: Seq<char>) -> bool {
    s.len() > 0 && forall|i: int| 0 <= i < s.len() ==> '0' <= #[trigger] s[i] <= '9'
}

proof fn lemma_decimal_value_nonneg(s: Seq<char>)
    requires
        forall|i: int| 0 <= i < s.len() ==> '0' <= #[trigger] s[i] <= '9',
    ensures
        decimal_value(s) >= 0,
    decreases s.len(),
{
    if s.len() > 0 {
        lemma_decimal_value_nonneg(s.drop_last());
    }
}

/// Reads a stored scan time: `Some` exactly when `text` is a decimal numeral
/// whose value fits an `i64`.
pub fn parse_search_time(text: &str) -> (r: Option<i64>)
    ensures
        r matches Some(v) ==> is_decimal(text@) && v == decimal_value(text@),
        r is None ==> !(is_decimal(text@) && decimal_value(text@) <= i64::MAX),
{
    let n = text.unicode_len();
    if n == 0 {
        return None;
    }
    let mut acc: i64 = 0;
    let mut k: usize = 0;
    while k < n
        invariant
            n == text@.len(),
            k <= n,
            forall|i: int| 0 <= i < k ==> '0' <= #[trigger] text@[i] <= '9',
            acc == decimal_value(text@.subrange(0, k as int)),
            acc >= 0,
        decreases n - k,
    {
        let c = text.get_char(k);
        if c < '0' || c > '9' {
            assert(!is_decimal(text@));
            return None;
        }
        let d: i64 = (c as u32 - '0' as u32) as i64;
        let ghost prefix = text@.subrange(0, k + 1);
        assert(prefix.drop_last() =~= text@.subrange(0, k as int));
        if acc > (i64::MAX - d) / 10 {
            proof {
                assert(acc * 10 + d > i64::MAX) by (nonlinear_arith)
                    requires
                        acc > (i64::MAX - d) / 10,
                        0 <= d <= 9,
                ;
                let rest = text@.subrange(k + 1, n as int);
                lemma_decimal_grows(text@, k as int + 1);
            }
            return None;
        }
        assert(acc * 10 + d <= i64::MAX) by (nonlinear_arith)
            requires
                acc <= (i64::MAX - d) / 10,
                0 <= d <= 9,
                acc >= 0,
        ;
        acc = acc * 10 + d;
        k = k + 1;
    }
    assert(text@.subrange(0, n as int) =~= text@);
    Some(acc)
}

/// A numeral of digits is worth at least any of its prefixes.
proof fn lemma_decimal_grows(s: Seq<char>, k: int)
    requires
        0 <= k <= s.len(),
        forall|i: int| 0 <= i < k ==> '0' <= #[trigger] s[i] <= '9',
    ensures
        is_decimal(s) ==> decimal_value(s) >= decimal_value(s.subrange(0, k)),
    decreases s.len() - k,
{
    if is_decimal(s) && k < s.len() {
        lemma_decimal_grows(s, k + 1);
        let p = s.subrange(0, k + 1);
        assert(p.drop_last() =~= s.subrange(0, k));
        lemma_decimal_value_nonneg(s.subrange(0, k));
        assert(decimal_value(p) >= decimal_value(s.subrange(0, k)));
    } else if k == s.len() {
        assert(s.subrange(0, k) =~= s);
    }
}

/// The time of the last full scan, in Unix seconds; zero when none was made.
#[derive(Debug)]
pub struct KasuriRepository {
    pub last_application_search_time: i64,
}

impl KasuriRepository {
    /// State with no scan made yet.
    pub fn new() -> (r: KasuriRepository)
        ensures
            r.last_application_search_time == 0,
    {
        KasuriRepository { last_application_search_time: 0 }
    }

    /// State read from the stored value of the scan time: zero when nothing
    /// is stored, `None` when the stored text is not a time.
    pub fn with_stored_value(value: Option<String>) -> (r: Option<KasuriRepository>)
        ensures
            value is None ==> r == Some(KasuriRepository { last_application_search_time: 0 }),
            value matches Some(t) ==> (r is Some <==> is_decimal(t@) && decimal_value(t@)
                <= i64::MAX),
            value is Some && r is Some ==> r->Some_0.last_application_search_time == decimal_value(
                value->Some_0@,
            ),
    {
        match value {
            None => Some(KasuriRepository::new()),
            Some(text) => match parse_search_time(text.as_str()) {
                Some(t) => Some(KasuriRepository { last_application_search_time: t }),
                None => None,
            },
        }
    }

    pub fn get_last_application_search_time(&self) -> (r: i64)
        ensures
            r == self.last_application_search_time,
    {
        self.last_application_search_time
    }

    pub fn set_last_application_search_time(&mut self, now: i64)
        ensures
            final(self).last_application_search_time == now,
    {
        self.last_application_search_time = now;
    }
}

} // verus!
