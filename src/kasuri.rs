//! The index controller: owns the working set, decides when a full scan is
//! due, and answers searches and launch requests.

use crate::application::{copy_optional, icon_name_of, AppForView, Application, ApplicationRepositoryRecord};
use crate::application_repository::{
    added_of, launched, removed_of, renewed, unique_ids, ApplicationRepository, Renewal,
};
use crate::fuzzy_sorter::{is_ranked_result, name_scores, FuzzySorter, SEARCH_RESULT_LIMIT};
use crate::kasuri_repository::KasuriRepository;
use crate::recency::recency_of;
use crate::settings::{ApplicationNameAlias, Settings};
use vstd::prelude::*;

verus! {

/// Why the controller could not serve a request.
#[derive(Clone, Copy, Debug, PartialEq, Eq, Structural)]
pub enum KasuriError {
    /// The working set has not been loaded yet.
    CacheNotInitialized,
}

/// The alias configured for `path`: the last entry for that path wins.
pub open spec fn alias_for(aliases: Seq<ApplicationNameAlias>, path: Seq<char>) -> Option<String>
    decreases aliases.len(),
{
    if aliases.len() == 0 {
        None
    } else if aliases.last().path@ == path {
        Some(aliases.last().alias)
    } else {
        alias_for(aliases.drop_last(), path)
    }
}

/// `a` with the alias configured for its path, if there is one.
pub open spec fn with_alias(a: Application, aliases: Seq<ApplicationNameAlias>) -> Application {
    match alias_for(aliases, a.path@) {
        Some(al) => Application { alias: Some(al), ..a },
        None => a,
    }
}

/// `b` is `a` with its icon path resolved under `icon_dir`.
pub open spec fn is_icon_resolved(a: Application, b: Application, icon_dir: Seq<char>) -> bool {
    &&& b.icon_path is Some
    &&& b.icon_path->Some_0@ == icon_dir + icon_name_of(a.app_id@)
    &&& b == Application { icon_path: b.icon_path, ..a }
}

/// `a` is the working form of `rec` at `now`, with its icon resolved under
/// `icon_dir` and its alias joined in.
pub open spec fn is_loaded(
    a: Application,
    rec: ApplicationRepositoryRecord,
    now: i64,
    icon_dir: Seq<char>,
    aliases: Seq<ApplicationNameAlias>,
) -> bool {
    &&& a.name == rec.name
    &&& a.app_id == rec.app_id
    &&& a.path == rec.path
    &&& a.alias == alias_for(aliases, rec.path@)
    &&& a.usage_recency_score == recency_of(rec.usage_count, rec.last_used, now)
    &&& a.icon_path is Some
    &&& a.icon_path->Some_0@ == icon_dir + icon_name_of(rec.app_id@)
}

/// `v` shows `a`: its name, identity and icon path (empty when unresolved).
pub open spec fn is_view_of(v: AppForView, a: Application) -> bool {
    &&& v.name == a.name
    &&& v.app_id == a.app_id
    &&& v.icon_path@ == match a.icon_path {
        Some(p) => p@,
        None => Seq::<char>::empty(),
    }
}

/// The working set, or nothing before it is loaded.
pub open spec fn cache_or_empty(cache: Option<Seq<Application>>) -> Seq<Application> {
    match cache {
        Some(c) => c,
        None => Seq::empty(),
    }
}

/// The controller of the index.
#[derive(Debug)]
pub struct Kasuri {
    pub settings: Settings,
    application_repository: ApplicationRepository,
    kasuri_repository: KasuriRepository,
    fuzzy_sorter: FuzzySorter,
    app_cache: Option<Vec<Application>>,
}

fn alias_lookup(aliases: &Vec<ApplicationNameAlias>, path: &String) -> (r: Option<String>)
    ensures
        r == alias_for(aliases@, path@),
{
    let mut k: usize = aliases.len();
    assert(aliases@.subrange(0, k as int) =~= aliases@);
    while k > 0
        invariant
            k <= aliases.len(),
            alias_for(aliases@, path@) == alias_for(aliases@.subrange(0, k as int), path@),
        decreases k,
    {
        let ghost prefix = aliases@.subrange(0, k as int);
        assert(prefix.drop_last() =~= aliases@.subrange(0, k - 1));
        k = k - 1;
        if aliases[k].path == *path {
            return Some(aliases[k].alias.clone());
        }
    }
    None
}

impl Kasuri {
    /// The stored records.
    pub closed spec fn records(&self) -> Seq<ApplicationRepositoryRecord> {
        self.application_repository.view_records()
    }

    /// The settings the controller runs with.
    pub closed spec fn config(&self) -> Settings {
        self.settings
    }

    /// The time of the last full scan.
    pub closed spec fn last_scan(&self) -> i64 {
        self.kasuri_repository.last_application_search_time
    }

    /// The working set, once loaded.
    pub closed spec fn cache(&self) -> Option<Seq<Application>> {
        match self.app_cache {
            Some(v) => Some(v@),
            None => None,
        }
    }

    /// The stored records keep one record per identity.
    pub open spec fn wf(&self) -> bool {
        unique_ids(self.records())
    }

    /// A controller over stored state; the working set is not loaded yet.
    pub fn with_settings(
        settings: Settings,
        application_repository: ApplicationRepository,
        kasuri_repository: KasuriRepository,
    ) -> (r: Kasuri)
        requires
            application_repository.wf(),
        ensures
            r.wf(),
            r.config() == settings,
            r.records() == application_repository.view_records(),
            r.last_scan() == kasuri_repository.last_application_search_time,
            r.cache() is None,
    {
        Kasuri {
            settings,
            application_repository,
            kasuri_repository,
            fuzzy_sorter: FuzzySorter::new(),
            app_cache: None,
        }
    }

    /// The stored records.
    pub fn application_repository(&self) -> (r: &ApplicationRepository)
        ensures
            r.view_records() == self.records(),
    {
        &self.application_repository
    }

    /// The time of the last full scan.
    pub fn last_application_search_time(&self) -> (r: i64)
        ensures
            r == self.last_scan(),
    {
        self.kasuri_repository.get_last_application_search_time()
    }

    /// Whether a full scan is due at `now`: more than the configured interval
    /// has passed since the last one.
    pub fn is_search_application_needed(&self, now: i64) -> (r: bool)
        ensures
            r == (now - self.last_scan() > self.config().application_search_interval_on_startup_minute
                * 60),
    {
        let last = self.kasuri_repository.get_last_application_search_time();
        let elapsed: i128 = now as i128 - last as i128;
        let interval: i128 = self.settings.get_application_search_interval_on_startup_minute() as i128
            * 60;
        elapsed > interval
    }

    /// Takes in the candidates of a full scan made at `now`: the scan time is
    /// recorded and the records are reconciled with the candidates. Returns
    /// what the reconciliation added and retired.
    pub fn load_applications_from_search_path(
        &mut self,
        applications: Vec<Application>,
        now: i64,
    ) -> (r: Renewal)
        requires
            old(self).wf(),
        ensures
            final(self).wf(),
            final(self).last_scan() == now,
            final(self).records() == renewed(old(self).records(), applications@, now),
            r.added@ == added_of(old(self).records(), applications@),
            r.removed@ == removed_of(old(self).records(), applications@),
            final(self).cache() == old(self).cache(),
            final(self).config() == old(self).config(),
    {
        self.kasuri_repository.set_last_application_search_time(now);
        self.application_repository.renew_applications(applications, now)
    }

    /// Resolves the icon path of each application under `icon_dir`.
    pub fn setup_applications_icon_path(applications: &mut Vec<Application>, icon_dir: &str)
        ensures
            final(applications).len() == old(applications).len(),
            forall|k: int|
                0 <= k < old(applications).len() ==> is_icon_resolved(
                    old(applications)@[k],
                    #[trigger] final(applications)@[k],
                    icon_dir@,
                ),
    {
        let ghost before = applications@;
        let mut k: usize = 0;
        while k < applications.len()
            invariant
                applications.len() == before.len(),
                k <= before.len(),
                forall|m: int|
                    0 <= m < k ==> is_icon_resolved(before[m], #[trigger] applications@[m], icon_dir@),
                forall|m: int| k <= m < before.len() ==> applications@[m] == before[m],
            decreases before.len() - k,
        {
            let name = applications[k].get_icon_name();
            let path = String::from_str(icon_dir).concat(name.as_str());
            let mut app = applications[k].duplicate();
            app.icon_path = Some(path);
            applications.set(k, app);
            k = k + 1;
        }
    }

    /// Replaces the working set with `applications`, joining in the aliases
    /// configured for their paths.
    pub fn set_app_cache(&mut self, applications: Vec<Application>)
        requires
            old(self).wf(),
        ensures
            final(self).wf(),
            final(self).cache() == Some(
                applications@.map_values(
                    |a: Application| with_alias(a, old(self).config().application_name_aliases@),
                ),
            ),
            final(self).records() == old(self).records(),
            final(self).last_scan() == old(self).last_scan(),
            final(self).config() == old(self).config(),
    {
        let ghost aliases = self.settings.application_name_aliases@;
        let mut out: Vec<Application> = Vec::new();
        let mut k: usize = 0;
        while k < applications.len()
            invariant
                aliases == self.settings.application_name_aliases@,
                k <= applications.len(),
                out@ == applications@.subrange(0, k as int).map_values(
                    |a: Application| with_alias(a, aliases),
                ),
            decreases applications.len() - k,
        {
            let mut app = applications[k].duplicate();
            match alias_lookup(&self.settings.application_name_aliases, &app.path) {
                Some(alias) => {
                    app.alias = Some(alias);
                },
                None => {},
            }
            out.push(app);
            k = k + 1;
            assert(applications@.subrange(0, k as int) =~= applications@.subrange(0, k - 1).push(
                applications@[k - 1],
            ));
        }
        assert(applications@.subrange(0, k as int) =~= applications@);
        self.app_cache = Some(out);
    }

    /// Rebuilds the working set from the stored records as seen at `now`,
    /// with icons resolved under `icon_dir` and aliases joined in.
    pub fn load_applications_to_cache(&mut self, now: i64, icon_dir: &str)
        requires
            old(self).wf(),
        ensures
            final(self).wf(),
            final(self).cache() is Some,
            final(self).cache()->Some_0.len() == old(self).records().len(),
            forall|k: int|
                0 <= k < old(self).records().len() ==> is_loaded(
                    #[trigger] final(self).cache()->Some_0[k],
                    old(self).records()[k],
                    now,
                    icon_dir@,
                    old(self).config().application_name_aliases@,
                ),
            final(self).records() == old(self).records(),
            final(self).last_scan() == old(self).last_scan(),
            final(self).config() == old(self).config(),
    {
        let mut applications = self.application_repository.get_applications(now);
        let ghost loaded = applications@;
        Kasuri::setup_applications_icon_path(&mut applications, icon_dir);
        let ghost resolved = applications@;
        self.set_app_cache(applications);
        proof {
            let recs = self.records();
            let aliases = self.settings.application_name_aliases@;
            assert forall|k: int| 0 <= k < recs.len() implies is_loaded(
                #[trigger] self.cache()->Some_0[k],
                recs[k],
                now,
                icon_dir@,
                aliases,
            ) by {
                assert(is_icon_resolved(loaded[k], resolved[k], icon_dir@));
            }
        }
    }

    /// The search results for `query` over the working set: the ranking of
    /// the working set by fuzzy match of names, cut to the result limit.
    /// Before the working set is loaded there are none, and an empty query
    /// finds nothing.
    pub fn handle_search_application(&self, query: &str) -> (r: Vec<AppForView>)
        ensures
            exists|out: Seq<Application>|
                {
                    &&& is_ranked_result(
                        cache_or_empty(self.cache()),
                        name_scores(cache_or_empty(self.cache()), query@),
                        out,
                        SEARCH_RESULT_LIMIT as int,
                    )
                    &&& r@.len() == out.len()
                    &&& forall|k: int| 0 <= k < out.len() ==> is_view_of(r@[k], out[k])
                },
            r.len() <= SEARCH_RESULT_LIMIT,
            query@.len() == 0 ==> r.len() == 0,
    {
        let empty: Vec<Application> = Vec::new();
        let pool = match &self.app_cache {
            Some(v) => v,
            None => &empty,
        };
        assert(pool@ == cache_or_empty(self.cache()));
        let ranked = self.fuzzy_sorter.search(query, pool, SEARCH_RESULT_LIMIT);
        let mut views: Vec<AppForView> = Vec::new();
        let mut k: usize = 0;
        while k < ranked.len()
            invariant
                k <= ranked.len(),
                views.len() == k,
                forall|m: int| 0 <= m < k ==> is_view_of(views@[m], ranked@[m]),
            decreases ranked.len() - k,
        {
            let app = &ranked[k];
            let icon = match &app.icon_path {
                Some(p) => p.clone(),
                None => String::new(),
            };
            views.push(AppForView { name: app.name.clone(), app_id: app.app_id.clone(), icon_path: icon });
            k = k + 1;
        }
        views
    }

    /// The application in the working set that a launch request names: the
    /// first with identity `app_id`, or `None` when there is none. Fails when
    /// the working set is not loaded.
    pub fn handle_launch_application(&self, app_id: &str) -> (r: Result<Option<Application>, KasuriError>)
        ensures
            self.cache() is None ==> r == Err::<Option<Application>, KasuriError>(KasuriError::CacheNotInitialized),
            self.cache() is Some ==> r is Ok,
            r matches Ok(Some(a)) ==> exists|k: int|
                0 <= k < self.cache()->Some_0.len() && a == self.cache()->Some_0[k] && a.app_id@ == app_id@
                    && forall|m: int| 0 <= m < k ==> self.cache()->Some_0[m].app_id@ != app_id@,
            r matches Ok(None) ==> forall|k: int|
                0 <= k < self.cache()->Some_0.len() ==> self.cache()->Some_0[k].app_id@ != app_id@,
    {
        match &self.app_cache {
            None => Err(KasuriError::CacheNotInitialized),
            Some(cache) => {
                let id = String::from_str(app_id);
                let mut k: usize = 0;
                while k < cache.len()
                    invariant
                        k <= cache.len(),
                        id@ == app_id@,
                        self.cache() == Some(cache@),
                        forall|m: int| 0 <= m < k ==> cache@[m].app_id@ != app_id@,
                    decreases cache.len() - k,
                {
                    if cache[k].app_id == id {
                        assert(cache@[k as int].app_id@ == app_id@);
                        return Ok(Some(cache[k].duplicate()));
                    }
                    k = k + 1;
                }
                Ok(None)
            },
        }
    }

    /// Whether the working set holds an application with identity `app_id`.
    pub open spec fn in_working_set(&self, app_id: Seq<char>) -> bool {
        self.cache() is Some && exists|k: int|
            0 <= k < self.cache()->Some_0.len() && self.cache()->Some_0[k].app_id@ == app_id
    }

    /// Records a launch of `app_id` at `now`. The identity is looked up in the
    /// working set first: when it is not there (the set may be stale) nothing
    /// is recorded and `false` is returned; otherwise the stored usage of that
    /// identity goes up by one.
    pub fn record_launch(&mut self, app_id: &str, now: i64) -> (r: bool)
        requires
            old(self).wf(),
        ensures
            final(self).wf(),
            r == old(self).in_working_set(app_id@),
            final(self).records().len() == old(self).records().len(),
            forall|k: int|
                0 <= k < old(self).records().len() ==> #[trigger] final(self).records()[k] == if r
                    && app_id@.len() > 0 && old(self).records()[k].app_id@ == app_id@ {
                    launched(old(self).records()[k], now)
                } else {
                    old(self).records()[k]
                },
            final(self).cache() == old(self).cache(),
            final(self).last_scan() == old(self).last_scan(),
            final(self).config() == old(self).config(),
    {
        let found = match self.handle_launch_application(app_id) {
            Ok(Some(_)) => true,
            _ => false,
        };
        if found {
            self.application_repository.update_usage(app_id, now);
        }
        found
    }
}

} // verus!
