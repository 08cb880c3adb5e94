//! The record of known applications: reconciliation of a fresh scan against
//! it, usage bookkeeping, and the working set loaded from it.

use crate::application::{copy_optional, Application, ApplicationRepositoryRecord};
use crate::recency::recency_of;
use vstd::prelude::*;

verus! {

/// No two records share an identity.
pub open spec fn unique_ids(recs: Seq<ApplicationRepositoryRecord>) -> bool {
    forall|i: int, j: int| 0 <= i < j < recs.len() ==> recs[i].app_id@ != recs[j].app_id@
}

/// Some record has identity `id`.
pub open spec fn has_record(recs: Seq<ApplicationRepositoryRecord>, id: Seq<char>) -> bool {
    exists|k: int| 0 <= k < recs.len() && recs[k].app_id@ == id
}

/// Some candidate at position `from` or later has identity `id`.
pub open spec fn scanned_from(c: Seq<Application>, from: int, id: Seq<char>) -> bool {
    exists|j: int| from <= j < c.len() && c[j].app_id@ == id
}

/// Some candidate has identity `id`.
pub open spec fn scanned(c: Seq<Application>, id: Seq<char>) -> bool {
    scanned_from(c, 0, id)
}

/// Candidate `i` is new: no record has its identity, and it is the last
/// candidate with that identity (the last one wins).
pub open spec fn is_new_candidate(
    recs: Seq<ApplicationRepositoryRecord>,
    c: Seq<Application>,
    i: int,
) -> bool {
    !has_record(recs, c[i].app_id@) && !scanned_from(c, i + 1, c[i].app_id@)
}

/// The records among the first `n` whose identity was scanned, in order.
pub open spec fn kept_upto(
    recs: Seq<ApplicationRepositoryRecord>,
    c: Seq<Application>,
    n: int,
) -> Seq<ApplicationRepositoryRecord>
    decreases n,
{
    if n <= 0 {
        seq![]
    } else if scanned(c, recs[n - 1].app_id@) {
        kept_upto(recs, c, n - 1).push(recs[n - 1])
    } else {
        kept_upto(recs, c, n - 1)
    }
}

/// The identities of the records among the first `n` that were not scanned.
pub open spec fn removed_upto(
    recs: Seq<ApplicationRepositoryRecord>,
    c: Seq<Application>,
    n: int,
) -> Seq<String>
    decreases n,
{
    if n <= 0 {
        seq![]
    } else if !scanned(c, recs[n - 1].app_id@) {
        removed_upto(recs, c, n - 1).push(recs[n - 1].app_id)
    } else {
        removed_upto(recs, c, n - 1)
    }
}

/// The new candidates among the first `n`, in order.
pub open spec fn added_upto(
    recs: Seq<ApplicationRepositoryRecord>,
    c: Seq<Application>,
    n: int,
) -> Seq<Application>
    decreases n,
{
    if n <= 0 {
        seq![]
    } else if is_new_candidate(recs, c, n - 1) {
        added_upto(recs, c, n - 1).push(c[n - 1])
    } else {
        added_upto(recs, c, n - 1)
    }
}

/// The records that survive a scan `c` unchanged.
pub open spec fn kept_of(recs: Seq<ApplicationRepositoryRecord>, c: Seq<Application>) -> Seq<
    ApplicationRepositoryRecord,
> {
    kept_upto(recs, c, recs.len() as int)
}

/// The identities that a scan `c` retires.
pub open spec fn removed_of(recs: Seq<ApplicationRepositoryRecord>, c: Seq<Application>) -> Seq<
    String,
> {
    removed_upto(recs, c, recs.len() as int)
}

/// The candidates of a scan `c` that become new records.
pub open spec fn added_of(recs: Seq<ApplicationRepositoryRecord>, c: Seq<Application>) -> Seq<
    Application,
> {
    added_upto(recs, c, c.len() as int)
}

/// The record stored for a new application at time `now`: no usage yet.
pub open spec fn fresh_record(a: Application, now: i64) -> ApplicationRepositoryRecord {
    ApplicationRepositoryRecord {
        app_id: a.app_id,
        name: a.name,
        path: a.path,
        usage_count: 0,
        last_used: None,
        added_date: now,
    }
}

/// The records after reconciling `recs` with the scan `c` at time `now`: the
/// surviving records unchanged and in order, then one fresh record for each
/// new candidate.
pub open spec fn renewed(
    recs: Seq<ApplicationRepositoryRecord>,
    c: Seq<Application>,
    now: i64,
) -> Seq<ApplicationRepositoryRecord> {
    kept_of(recs, c) + added_of(recs, c).map_values(|a: Application| fresh_record(a, now))
}

/// A record after one more launch at `now`.
pub open spec fn launched(r: ApplicationRepositoryRecord, now: i64) -> ApplicationRepositoryRecord {
    ApplicationRepositoryRecord {
        usage_count: if r.usage_count < u64::MAX { (r.usage_count + 1) as u64 } else { r.usage_count },
        last_used: Some(now),
        ..r
    }
}

/// The working form of a record as seen at `now`.
pub open spec fn working_of(r: ApplicationRepositoryRecord, now: i64) -> Application {
    Application {
        name: r.name,
        alias: None,
        app_id: r.app_id,
        path: r.path,
        icon_path: None,
        usage_recency_score: recency_of(r.usage_count, r.last_used, now),
    }
}

/// `n` copies of `unit` separated by `sep`.
pub open spec fn repeated(unit: Seq<char>, sep: Seq<char>, n: nat) -> Seq<char>
    decreases n,
{
    if n == 0 {
        Seq::empty()
    } else if n == 1 {
        unit
    } else {
        repeated(unit, sep, (n - 1) as nat) + sep + unit
    }
}

/// Writes `n` copies of `unit` separated by `sep`.
pub fn repeat_joined(unit: &str, sep: &str, n: usize) -> (r: String)
    ensures
        r@ == repeated(unit@, sep@, n as nat),
{
    let mut out = String::new();
    let mut k: usize = 0;
    while k < n
        invariant
            k <= n,
            out@ == repeated(unit@, sep@, k as nat),
        decreases n - k,
    {
        if k > 0 {
            out.append(sep);
        }
        out.append(unit);
        k = k + 1;
    }
    out
}

/// The statement that deletes `count` records in one go, one parameter per
/// identity.
pub fn bulk_delete_sql(count: usize) -> (r: String)
    ensures
        r@ == "DELETE FROM applications WHERE app_id IN ("@ + repeated("?"@, ","@, count as nat)
            + ");"@,
{
    let list = repeat_joined("?", ",", count);
    String::from_str("DELETE FROM applications WHERE app_id IN (").concat(list.as_str()).concat(
        ");",
    )
}

/// The statement that inserts `count` fresh records in one go, with four
/// parameters per record: identity, name, path and time added.
pub fn bulk_insert_sql(count: usize) -> (r: String)
    ensures
        r@ == "INSERT INTO applications (app_id, name, path, added_date) VALUES "@ + repeated(
            "(?, ?, ?, ?)"@,
            ", "@,
            count as nat,
        ) + ";"@,
{
    let rows = repeat_joined("(?, ?, ?, ?)", ", ", count);
    String::from_str("INSERT INTO applications (app_id, name, path, added_date) VALUES ").concat(
        rows.as_str(),
    ).concat(";")
}

/// What a reconciliation changed: the candidates that became new records (for
/// icon generation) and the identities of the records it retired.
#[derive(Debug)]
pub struct Renewal {
    pub added: Vec<Application>,
    pub removed: Vec<String>,
}

/// The known applications, at most one record per identity.
#[derive(Debug)]
pub struct ApplicationRepository {
    records: Vec<ApplicationRepositoryRecord>,
}

impl ApplicationRepositoryRecord {
    /// A field-by-field copy.
    pub fn duplicate(&self) -> (r: ApplicationRepositoryRecord)
        ensures
            r == *self,
    {
        ApplicationRepositoryRecord {
            app_id: self.app_id.clone(),
            name: self.name.clone(),
            path: self.path.clone(),
            usage_count: self.usage_count,
            last_used: self.last_used,
            added_date: self.added_date,
        }
    }
}

fn find_record(recs: &Vec<ApplicationRepositoryRecord>, id: &String) -> (r: Option<usize>)
    ensures
        match r {
            Some(k) => k < recs.len() && recs@[k as int].app_id@ == id@,
            None => !has_record(recs@, id@),
        },
{
    let mut k: usize = 0;
    while k < recs.len()
        invariant
            k <= recs.len(),
            forall|m: int| 0 <= m < k ==> recs@[m].app_id@ != id@,
        decreases recs.len() - k,
    {
        if recs[k].app_id == *id {
            return Some(k);
        }
        k = k + 1;
    }
    None
}

fn is_scanned_from(c: &Vec<Application>, from: usize, id: &String) -> (r: bool)
    ensures
        r == scanned_from(c@, from as int, id@),
{
    let mut j: usize = from;
    while j < c.len()
        invariant
            from <= j,
            forall|m: int| from <= m < j ==> c@[m].app_id@ != id@,
        decreases c.len() - j,
    {
        if c[j].app_id == *id {
            assert(from <= j && c@[j as int].app_id@ == id@);
            return true;
        }
        j = j + 1;
    }
    false
}

impl ApplicationRepository {
    /// The records are well formed: identities are unique.
    pub open spec fn wf(&self) -> bool {
        unique_ids(self.view_records())
    }

    /// The records, in order.
    pub closed spec fn view_records(&self) -> Seq<ApplicationRepositoryRecord> {
        self.records@
    }

    /// An empty record.
    pub fn new() -> (r: ApplicationRepository)
        ensures
            r.wf(),
            r.view_records().len() == 0,
    {
        ApplicationRepository { records: Vec::new() }
    }

    /// Takes over stored records; `None` when two of them share an identity.
    pub fn with_records(records: Vec<ApplicationRepositoryRecord>) -> (r: Option<
        ApplicationRepository,
    >)
        ensures
            r is Some <==> unique_ids(records@),
            r matches Some(repo) ==> repo.wf() && repo.view_records() == records@,
    {
        let mut j: usize = 0;
        while j < records.len()
            invariant
                j <= records.len(),
                forall|a: int, b: int| 0 <= a < b < records.len() && a < j ==> records@[a].app_id@
                    != records@[b].app_id@,
            decreases records.len() - j,
        {
            let mut k: usize = j + 1;
            while k < records.len()
                invariant
                    j < records.len(),
                    j + 1 <= k <= records.len(),
                    forall|a: int, b: int| 0 <= a < b < records.len() && a < j ==> records@[a].app_id@
                        != records@[b].app_id@,
                    forall|b: int| j < b < k ==> records@[j as int].app_id@ != records@[b].app_id@,
                decreases records.len() - k,
            {
                if records[j].app_id == records[k].app_id {
                    return None;
                }
                k = k + 1;
            }
            j = j + 1;
        }
        Some(ApplicationRepository { records })
    }

    /// The stored records.
    pub fn records(&self) -> (r: &Vec<ApplicationRepositoryRecord>)
        ensures
            r@ == self.view_records(),
    {
        &self.records
    }

    /// Reconciles the records with a fresh scan at time `now`: records whose
    /// identity was not scanned are retired, records whose identity was scanned
    /// stay unchanged, and each new identity (its last candidate wins) gets a
    /// fresh record with no usage. Returns the new candidates and the retired
    /// identities.
    pub fn renew_applications(&mut self, applications: Vec<Application>, now: i64) -> (r: Renewal)
        requires
            old(self).wf(),
        ensures
            final(self).wf(),
            final(self).view_records() == renewed(old(self).view_records(), applications@, now),
            r.added@ == added_of(old(self).view_records(), applications@),
            r.removed@ == removed_of(old(self).view_records(), applications@),
    {
        let ghost recs = self.records@;
        let ghost c = applications@;
        let mut kept: Vec<ApplicationRepositoryRecord> = Vec::new();
        let mut removed: Vec<String> = Vec::new();
        let mut k: usize = 0;
        while k < self.records.len()
            invariant
                recs == self.records@,
                c == applications@,
                k <= recs.len(),
                kept@ == kept_upto(recs, c, k as int),
                removed@ == removed_upto(recs, c, k as int),
            decreases recs.len() - k,
        {
            let rec = &self.records[k];
            if is_scanned_from(&applications, 0, &rec.app_id) {
                kept.push(rec.duplicate());
            } else {
                removed.push(rec.app_id.clone());
            }
            k = k + 1;
        }
        let mut added: Vec<Application> = Vec::new();
        let mut next = kept;
        let mut i: usize = 0;
        while i < applications.len()
            invariant
                recs == self.records@,
                c == applications@,
                i <= c.len(),
                added@ == added_upto(recs, c, i as int),
                next@ == kept_of(recs, c) + added@.map_values(
                    |a: Application| fresh_record(a, now),
                ),
            decreases c.len() - i,
        {
            let cand = &applications[i];
            if find_record(&self.records, &cand.app_id).is_none() && !is_scanned_from(
                &applications,
                i + 1,
                &cand.app_id,
            ) {
                let ghost before = added@;
                added.push(cand.duplicate());
                next.push(
                    ApplicationRepositoryRecord {
                        app_id: cand.app_id.clone(),
                        name: cand.name.clone(),
                        path: cand.path.clone(),
                        usage_count: 0,
                        last_used: None,
                        added_date: now,
                    },
                );
                assert(added@.map_values(|a: Application| fresh_record(a, now)) =~= before.map_values(
                    |a: Application| fresh_record(a, now),
                ).push(fresh_record(c[i as int], now)));
            }
            i = i + 1;
        }
        proof {
            lemma_renewed_facts(recs, c, now);
        }
        self.records = next;
        Renewal { added, removed }
    }

    /// All records in their working form as seen at `now`.
    pub fn get_applications(&self, now: i64) -> (r: Vec<Application>)
        ensures
            r@ == self.view_records().map_values(|x: ApplicationRepositoryRecord| working_of(x, now)),
    {
        let mut out: Vec<Application> = Vec::new();
        let mut k: usize = 0;
        while k < self.records.len()
            invariant
                k <= self.records.len(),
                out@ == self.records@.subrange(0, k as int).map_values(
                    |x: ApplicationRepositoryRecord| working_of(x, now),
                ),
            decreases self.records.len() - k,
        {
            out.push(Application::from_record(self.records[k].duplicate(), now));
            k = k + 1;
            assert(self.records@.subrange(0, k as int) =~= self.records@.subrange(0, k - 1).push(
                self.records@[k - 1],
            ));
        }
        assert(self.records@.subrange(0, k as int) =~= self.records@);
        out
    }

    /// Records a launch of `app_id` at `now`: its usage count goes up by one
    /// (saturating) and its last use becomes `now`. An empty or unknown
    /// identity changes nothing.
    pub fn update_usage(&mut self, app_id: &str, now: i64)
        requires
            old(self).wf(),
        ensures
            final(self).wf(),
            final(self).view_records().len() == old(self).view_records().len(),
            forall|k: int|
                0 <= k < old(self).view_records().len() ==> #[trigger] final(self).view_records()[k]
                    == if app_id@.len() > 0 && old(self).view_records()[k].app_id@ == app_id@ {
                    launched(old(self).view_records()[k], now)
                } else {
                    old(self).view_records()[k]
                },
    {
        if app_id.unicode_len() == 0 {
            return;
        }
        let id = String::from_str(app_id);
        match find_record(&self.records, &id) {
            Some(k) => {
                let cur = &self.records[k];
                let count = if cur.usage_count < u64::MAX {
                    cur.usage_count + 1
                } else {
                    cur.usage_count
                };
                let updated = ApplicationRepositoryRecord {
                    app_id: cur.app_id.clone(),
                    name: cur.name.clone(),
                    path: cur.path.clone(),
                    usage_count: count,
                    last_used: Some(now),
                    added_date: cur.added_date,
                };
                let ghost before = self.records@;
                self.records.set(k, updated);
                assert forall|m: int| 0 <= m < before.len() && m != k implies before[m].app_id@
                    != app_id@ by {
                    if m < k {
                        assert(before[m].app_id@ != before[k as int].app_id@);
                    } else {
                        assert(before[k as int].app_id@ != before[m].app_id@);
                    }
                }
            },
            None => {},
        }
    }
}

proof fn lemma_kept_upto(recs: Seq<ApplicationRepositoryRecord>, c: Seq<Application>, n: int)
    requires
        0 <= n <= recs.len(),
    ensures
        forall|x: ApplicationRepositoryRecord| #[trigger]
            kept_upto(recs, c, n).contains(x) ==> exists|k: int|
                0 <= k < n && recs[k] == x && scanned(c, x.app_id@),
        forall|k: int|
            0 <= k < n && scanned(c, recs[k].app_id@) ==> kept_upto(recs, c, n).contains(recs[k]),
        unique_ids(recs) ==> unique_ids(kept_upto(recs, c, n)),
        (forall|k: int| 0 <= k < n ==> scanned(c, #[trigger] recs[k].app_id@)) ==> kept_upto(
            recs,
            c,
            n,
        ) == recs.subrange(0, n),
        (forall|k: int| 0 <= k < n ==> !scanned(c, #[trigger] recs[k].app_id@)) ==> kept_upto(
            recs,
            c,
            n,
        ).len() == 0,
    decreases n,
{
    if n > 0 {
        lemma_kept_upto(recs, c, n - 1);
        let prev = kept_upto(recs, c, n - 1);
        let cur = kept_upto(recs, c, n);
        assert forall|x: ApplicationRepositoryRecord| #[trigger] cur.contains(x) implies exists|k: int|
            0 <= k < n && recs[k] == x && scanned(c, x.app_id@) by {
            let m = choose|m: int| 0 <= m < cur.len() && cur[m] == x;
            if m < prev.len() {
                assert(prev[m] == x);
                assert(prev.contains(x));
            } else {
                assert(x == recs[n - 1]);
            }
        }
        assert forall|k: int|
            0 <= k < n && scanned(c, recs[k].app_id@) implies cur.contains(recs[k]) by {
            if k < n - 1 {
                assert(prev.contains(recs[k]));
                let m = choose|m: int| 0 <= m < prev.len() && prev[m] == recs[k];
                assert(cur[m] == recs[k]);
            } else {
                assert(cur[cur.len() - 1] == recs[k]);
            }
        }
        if unique_ids(recs) && scanned(c, recs[n - 1].app_id@) {
            assert forall|i: int, j: int| 0 <= i < j < cur.len() implies cur[i].app_id@
                != cur[j].app_id@ by {
                if j == cur.len() - 1 {
                    assert(prev.contains(cur[i]));
                    let k = choose|k: int| 0 <= k < n - 1 && recs[k] == cur[i];
                } else {
                    assert(cur[i] == prev[i] && cur[j] == prev[j]);
                }
            }
        }
        if forall|k: int| 0 <= k < n ==> scanned(c, #[trigger] recs[k].app_id@) {
            assert(scanned(c, recs[n - 1].app_id@));
            assert(cur =~= recs.subrange(0, n));
        }
    }
}

proof fn lemma_removed_upto(recs: Seq<ApplicationRepositoryRecord>, c: Seq<Application>, n: int)
    requires
        0 <= n <= recs.len(),
    ensures
        (forall|k: int| 0 <= k < n ==> scanned(c, #[trigger] recs[k].app_id@)) ==> removed_upto(
            recs,
            c,
            n,
        ).len() == 0,
        (forall|k: int| 0 <= k < n ==> !scanned(c, #[trigger] recs[k].app_id@)) ==> removed_upto(
            recs,
            c,
            n,
        ) == recs.subrange(0, n).map_values(|r: ApplicationRepositoryRecord| r.app_id),
    decreases n,
{
    if n > 0 {
        lemma_removed_upto(recs, c, n - 1);
        if forall|k: int| 0 <= k < n ==> !scanned(c, #[trigger] recs[k].app_id@) {
            assert(!scanned(c, recs[n - 1].app_id@));
            assert(removed_upto(recs, c, n) =~= recs.subrange(0, n).map_values(
                |r: ApplicationRepositoryRecord| r.app_id,
            ));
        }
        if forall|k: int| 0 <= k < n ==> scanned(c, #[trigger] recs[k].app_id@) {
            assert(scanned(c, recs[n - 1].app_id@));
        }
    }
}

proof fn lemma_added_upto(recs: Seq<ApplicationRepositoryRecord>, c: Seq<Application>, n: int)
    requires
        0 <= n <= c.len(),
    ensures
        forall|x: Application| #[trigger]
            added_upto(recs, c, n).contains(x) ==> exists|i: int|
                0 <= i < n && c[i] == x && is_new_candidate(recs, c, i),
        forall|i: int|
            0 <= i < n && is_new_candidate(recs, c, i) ==> added_upto(recs, c, n).contains(c[i]),
        forall|i: int, j: int|
            0 <= i < j < added_upto(recs, c, n).len() ==> added_upto(recs, c, n)[i].app_id@
                != added_upto(recs, c, n)[j].app_id@,
        (forall|i: int| 0 <= i < n ==> !is_new_candidate(recs, c, i)) ==> added_upto(
            recs,
            c,
            n,
        ).len() == 0,
    decreases n,
{
    if n > 0 {
        lemma_added_upto(recs, c, n - 1);
        let prev = added_upto(recs, c, n - 1);
        let cur = added_upto(recs, c, n);
        assert forall|x: Application| #[trigger] cur.contains(x) implies exists|i: int|
            0 <= i < n && c[i] == x && is_new_candidate(recs, c, i) by {
            let m = choose|m: int| 0 <= m < cur.len() && cur[m] == x;
            if m < prev.len() {
                assert(prev[m] == x);
                assert(prev.contains(x));
            } else {
                assert(x == c[n - 1]);
            }
        }
        assert forall|i: int| 0 <= i < n && is_new_candidate(recs, c, i) implies cur.contains(
            c[i],
        ) by {
            if i < n - 1 {
                assert(prev.contains(c[i]));
                let m = choose|m: int| 0 <= m < prev.len() && prev[m] == c[i];
                assert(cur[m] == c[i]);
            } else {
                assert(cur[cur.len() - 1] == c[i]);
            }
        }
        if is_new_candidate(recs, c, n - 1) {
            assert forall|i: int, j: int| 0 <= i < j < cur.len() implies cur[i].app_id@
                != cur[j].app_id@ by {
                if j == cur.len() - 1 {
                    assert(prev.contains(cur[i]));
                    let k = choose|k: int|
                        0 <= k < n - 1 && c[k] == cur[i] && is_new_candidate(recs, c, k);
                    if cur[i].app_id@ == cur[j].app_id@ {
                        assert(c[n - 1].app_id@ == c[k].app_id@);
                        assert(scanned_from(c, k + 1, c[k].app_id@));
                    }
                } else {
                    assert(cur[i] == prev[i] && cur[j] == prev[j]);
                }
            }
        }
    }
}

/// Facts about the records after a reconciliation that the laws below share.
proof fn lemma_renewed_facts(recs: Seq<ApplicationRepositoryRecord>, c: Seq<Application>, now: i64)
    requires
        unique_ids(recs),
    ensures
        unique_ids(renewed(recs, c, now)),
        forall|k: int|
            0 <= k < renewed(recs, c, now).len() ==> scanned(
                c,
                #[trigger] renewed(recs, c, now)[k].app_id@,
            ),
        forall|j: int| 0 <= j < c.len() ==> has_record(renewed(recs, c, now), #[trigger] c[j].app_id@) || scanned_from(c, j + 1, c[j].app_id@),
{
    let kept = kept_of(recs, c);
    let added = added_of(recs, c);
    let fresh = added.map_values(|a: Application| fresh_record(a, now));
    let all = renewed(recs, c, now);
    lemma_kept_upto(recs, c, recs.len() as int);
    lemma_added_upto(recs, c, c.len() as int);
    assert(all == kept + fresh);
    assert forall|k: int| 0 <= k < all.len() implies scanned(c, #[trigger] all[k].app_id@) by {
        if k < kept.len() {
            assert(kept.contains(all[k]));
        } else {
            let a = added[k - kept.len()];
            assert(added.contains(a));
            let i = choose|i: int| 0 <= i < c.len() && c[i] == a && is_new_candidate(recs, c, i);
            assert(all[k].app_id@ == c[i].app_id@);
        }
    }
    assert forall|i: int, j: int| 0 <= i < j < all.len() implies all[i].app_id@
        != all[j].app_id@ by {
        if j < kept.len() {
            assert(all[i] == kept[i] && all[j] == kept[j]);
        } else if i >= kept.len() {
            assert(all[i].app_id == added[i - kept.len()].app_id);
            assert(all[j].app_id == added[j - kept.len()].app_id);
        } else {
            assert(kept.contains(all[i]));
            let k = choose|k: int|
                0 <= k < recs.len() && recs[k] == all[i] && scanned(c, all[i].app_id@);
            let a = added[j - kept.len()];
            assert(added.contains(a));
            let m = choose|m: int| 0 <= m < c.len() && c[m] == a && is_new_candidate(recs, c, m);
            assert(all[j].app_id@ == c[m].app_id@);
        }
    }
    assert forall|j: int| 0 <= j < c.len() implies has_record(all, #[trigger] c[j].app_id@) || scanned_from(c, j + 1, c[j].app_id@) by {
        if !scanned_from(c, j + 1, c[j].app_id@) {
            if has_record(recs, c[j].app_id@) {
                let k = choose|k: int| 0 <= k < recs.len() && recs[k].app_id@ == c[j].app_id@;
                assert(scanned(c, recs[k].app_id@));
                assert(kept.contains(recs[k]));
                let m = choose|m: int| 0 <= m < kept.len() && kept[m] == recs[k];
                assert(all[m] == recs[k]);
            } else {
                assert(is_new_candidate(recs, c, j));
                assert(added.contains(c[j]));
                let m = choose|m: int| 0 <= m < added.len() && added[m] == c[j];
                assert(all[kept.len() + m].app_id == c[j].app_id);
            }
        }
    }
}

/// Reconciliation is idempotent: reconciling the result with the same scan
/// again adds nothing, retires nothing, and leaves the records as they are.
pub proof fn lemma_renew_idempotent(
    recs: Seq<ApplicationRepositoryRecord>,
    c: Seq<Application>,
    now: i64,
    later: i64,
)
    requires
        unique_ids(recs),
    ensures
        added_of(renewed(recs, c, now), c).len() == 0,
        removed_of(renewed(recs, c, now), c).len() == 0,
        renewed(renewed(recs, c, now), c, later) == renewed(recs, c, now),
{
    let once = renewed(recs, c, now);
    lemma_renewed_facts(recs, c, now);
    lemma_kept_upto(once, c, once.len() as int);
    lemma_removed_upto(once, c, once.len() as int);
    assert forall|i: int| 0 <= i < c.len() implies !is_new_candidate(once, c, i) by {
        assert(has_record(once, c[i].app_id@) || scanned_from(c, i + 1, c[i].app_id@));
    }
    lemma_added_upto(once, c, c.len() as int);
    assert(once.subrange(0, once.len() as int) =~= once);
    assert(renewed(once, c, later) =~= once);
}

/// Reconciliation preserves usage: a record whose identity is scanned again
/// stays, with its usage count and last use unchanged.
pub proof fn lemma_renew_keeps_scanned(
    recs: Seq<ApplicationRepositoryRecord>,
    c: Seq<Application>,
    now: i64,
    k: int,
)
    requires
        0 <= k < recs.len(),
        scanned(c, recs[k].app_id@),
    ensures
        renewed(recs, c, now).contains(recs[k]),
{
    lemma_kept_upto(recs, c, recs.len() as int);
    let kept = kept_of(recs, c);
    assert(kept.contains(recs[k]));
    let m = choose|m: int| 0 <= m < kept.len() && kept[m] == recs[k];
    assert(renewed(recs, c, now)[m] == recs[k]);
}

/// Reconciling with an empty scan retires every record and adds none.
pub proof fn lemma_renew_empty_scan(recs: Seq<ApplicationRepositoryRecord>, now: i64)
    ensures
        renewed(recs, seq![], now).len() == 0,
        added_of(recs, seq![]).len() == 0,
        removed_of(recs, seq![]) == recs.map_values(|r: ApplicationRepositoryRecord| r.app_id),
{
    let c: Seq<Application> = seq![];
    lemma_kept_upto(recs, c, recs.len() as int);
    lemma_removed_upto(recs, c, recs.len() as int);
    assert(recs.subrange(0, recs.len() as int) =~= recs);
}

} // verus!
