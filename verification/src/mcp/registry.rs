//! A registry of tenants that is read again and again, and trusted only for so
//! long. Moments and spans are held as nanoseconds; moments are taken from a
//! clock that never goes back.

use crate::env;
use crate::env::EnvValue;
use crate::mcp::postgres;
use crate::mcp::tenants;
use crate::mcp::tenants::{read_trimmed, Tenant, TenantSnapshot};
use crate::text;
use vstd::prelude::*;
use vstd::string::*;

verus! {

pub const TENANT_SOURCE_ENV: &'static str = "NEXUS_MCP_TENANT_SOURCE";

pub const TENANT_DB_URL_ENV: &'static str = "NEXUS_MCP_TENANT_DB_URL";

pub const TENANT_DB_RELATION_ENV: &'static str = "NEXUS_MCP_TENANT_DB_RELATION";

pub const TENANT_REFRESH_SECS_ENV: &'static str = "NEXUS_MCP_TENANT_REFRESH_SECS";

pub const TENANT_MAX_STALE_SECS_ENV: &'static str = "NEXUS_MCP_TENANT_MAX_STALE_SECS";

pub const TENANT_DB_TIMEOUT_SECS_ENV: &'static str = "NEXUS_MCP_TENANT_DB_TIMEOUT_SECS";

/// Where tenants come from.
#[derive(Debug, Clone, Copy, PartialEq, Eq, Structural)]
pub enum TenantSource {
    File,
    Postgres,
}

/// The source that a setting names. One that cannot be read counts as not set.
pub open spec fn source_of(v: env::Setting) -> Option<TenantSource> {
    let w = match v {
        env::Setting::Value(t) => text::ascii_lowered(text::trimmed(t)),
        _ => "file"@,
    };
    if w == "file"@ {
        Some(TenantSource::File)
    } else if w == "postgres"@ {
        Some(TenantSource::Postgres)
    } else {
        None
    }
}

/// Where tenants come from.
pub fn parse_tenant_source(v: &EnvValue) -> (r: Result<TenantSource, String>)
    ensures
        match r {
            Ok(s) => source_of(v@) == Some(s),
            Err(e) => source_of(v@) is None && e@ == "invalid "@ + TENANT_SOURCE_ENV@
                + "; expected 'file' or 'postgres'"@,
        },
{
    let w: String = match v {
        EnvValue::Value(t) => {
            let trimmed = text::trim(t.as_str());
            text::ascii_lowercase(trimmed.as_str())
        },
        _ => "file".to_string(),
    };
    if text::same_text(w.as_str(), "file") {
        Ok(TenantSource::File)
    } else if text::same_text(w.as_str(), "postgres") {
        Ok(TenantSource::Postgres)
    } else {
        Err(text::cat3("invalid ", TENANT_SOURCE_ENV, "; expected 'file' or 'postgres'"))
    }
}

/// The database, if one is set.
pub fn parse_tenant_db_url(v: &EnvValue) -> (r: Result<Option<String>, String>)
    ensures
        tenants::setting_outcome(r) == tenants::trimmed_setting(
            v@,
            TENANT_DB_URL_ENV@ + " must be valid UTF-8"@,
        ),
{
    read_trimmed(v, TENANT_DB_URL_ENV, " must be valid UTF-8")
}

/// Whether a text can name a relation.
pub open spec fn relation_name(s: Seq<char>) -> bool {
    s.len() > 0 && forall|i: int|
        0 <= i < s.len() ==> text::alnum(#[trigger] s[i]) || s[i] == '_' || s[i] == '.'
}

/// The relation that a setting names. One that cannot be read counts as not
/// set.
pub open spec fn relation_of(v: env::Setting) -> Seq<char> {
    match v {
        env::Setting::Value(t) => text::trimmed(t),
        _ => text::trimmed(postgres::RELATION_DEFAULT@),
    }
}

/// The complaint about a relation.
pub open spec fn relation_fault() -> Seq<char> {
    TENANT_DB_RELATION_ENV@ + " must be a non-empty relation name"@
}

/// The relation that holds the tenants.
pub fn parse_tenant_db_relation(v: &EnvValue) -> (r: Result<String, String>)
    ensures
        match r {
            Ok(s) => s@ == relation_of(v@) && relation_name(s@),
            Err(e) => !relation_name(relation_of(v@)) && e@ == relation_fault(),
        },
{
    let relation: String = match v {
        EnvValue::Value(t) => text::trim(t.as_str()),
        _ => text::trim(postgres::RELATION_DEFAULT),
    };
    let cs = text::chars_of(relation.as_str());
    let mut ok: bool = cs.len() > 0;
    let mut i: usize = 0;
    while i < cs.len()
        invariant
            i <= cs.len(),
            cs@ == relation@,
            ok == (cs@.len() > 0 && forall|j: int|
                0 <= j < i ==> text::alnum(#[trigger] cs@[j]) || cs@[j] == '_' || cs@[j] == '.'),
        decreases cs.len() - i,
    {
        let c: char = cs[i];
        if !(text::is_alnum(c) || c == '_' || c == '.') {
            ok = false;
        }
        i = i + 1;
    }
    if ok {
        Ok(relation)
    } else {
        Err(text::cat2(TENANT_DB_RELATION_ENV, " must be a non-empty relation name"))
    }
}

/// A number of seconds that has a default. White space is not overlooked.
pub open spec fn seconds_of(name: Seq<char>, v: env::Setting, default: u64) -> Result<
    u64,
    Seq<char>,
> {
    match v {
        env::Setting::Value(t) => match text::number(t) {
            Some(n) => if n <= u64::MAX {
                Ok(n as u64)
            } else {
                Err(name + " must be an unsigned integer: "@ + env::number_fault(t))
            },
            None => Err(name + " must be an unsigned integer: "@ + env::number_fault(t)),
        },
        env::Setting::Absent => Ok(default),
        env::Setting::NotUnicode => Err(name + " must be valid UTF-8"@),
    }
}

/// The outcome of reading a number.
pub open spec fn seconds_outcome(r: Result<u64, String>) -> Result<u64, Seq<char>> {
    match r {
        Ok(n) => Ok(n),
        Err(e) => Err(e@),
    }
}

/// Reads a number of seconds.
pub fn parse_tenant_env_u64(name: &str, v: &EnvValue, default: u64) -> (r: Result<u64, String>)
    ensures
        seconds_outcome(r) == seconds_of(name@, v@, default),
{
    match v {
        EnvValue::Value(t) => match text::parse_number(t.as_str()) {
            Some(n) => Ok(n),
            None => {
                let why = env::number_fault_text(t.as_str());
                Err(text::cat3(name, " must be an unsigned integer: ", why.as_str()))
            },
        },
        EnvValue::Absent => Ok(default),
        EnvValue::NotUnicode => Err(text::cat2(name, " must be valid UTF-8")),
    }
}

/// The variables of a registry.
#[derive(Debug, Clone, PartialEq, Eq)]
pub struct RegistryEnv {
    pub relation: EnvValue,
    pub refresh_secs: EnvValue,
    pub max_stale_secs: EnvValue,
    pub timeout_secs: EnvValue,
    pub db_url: EnvValue,
}

/// What a registry is set up with.
#[derive(Debug, Clone, PartialEq, Eq)]
pub struct RegistrySettings {
    pub db_url: String,
    pub relation: String,
    pub refresh_secs: u64,
    pub max_stale_secs: u64,
    pub timeout_secs: u64,
}

/// The setup of a registry, by its contents.
pub struct Settings {
    pub db_url: Seq<char>,
    pub relation: Seq<char>,
    pub refresh_secs: u64,
    pub max_stale_secs: u64,
    pub timeout_secs: u64,
}

impl View for RegistrySettings {
    type V = Settings;

    open spec fn view(&self) -> Settings {
        Settings {
            db_url: self.db_url@,
            relation: self.relation@,
            refresh_secs: self.refresh_secs,
            max_stale_secs: self.max_stale_secs,
            timeout_secs: self.timeout_secs,
        }
    }
}

/// What the variables come to: the first that is wrong decides.
pub open spec fn settings_of(v: RegistryEnv) -> Result<Settings, Seq<char>> {
    let relation = relation_of(v.relation@);
    if !relation_name(relation) {
        Err(relation_fault())
    } else {
        match seconds_of(TENANT_REFRESH_SECS_ENV@, v.refresh_secs@, 20) {
            Err(e) => Err(e),
            Ok(refresh) => if refresh == 0 {
                Err(TENANT_REFRESH_SECS_ENV@ + " must be greater than 0"@)
            } else {
                match seconds_of(TENANT_MAX_STALE_SECS_ENV@, v.max_stale_secs@, 60) {
                    Err(e) => Err(e),
                    Ok(stale) => if stale == 0 || stale < refresh {
                        Err(
                            TENANT_MAX_STALE_SECS_ENV@ + " must be >= "@ + TENANT_REFRESH_SECS_ENV@
                                + " and greater than 0"@,
                        )
                    } else {
                        match seconds_of(TENANT_DB_TIMEOUT_SECS_ENV@, v.timeout_secs@, 10) {
                            Err(e) => Err(e),
                            Ok(timeout) => if timeout == 0 {
                                Err(TENANT_DB_TIMEOUT_SECS_ENV@ + " must be greater than 0"@)
                            } else {
                                match tenants::trimmed_setting(
                                    v.db_url@,
                                    TENANT_DB_URL_ENV@ + " must be valid UTF-8"@,
                                ) {
                                    Err(e) => Err(e),
                                    Ok(None) => Err(
                                        TENANT_DB_URL_ENV@ + " is required when "@
                                            + TENANT_SOURCE_ENV@ + " is set to 'postgres'"@,
                                    ),
                                    Ok(Some(url)) => Ok(
                                        Settings {
                                            db_url: url,
                                            relation,
                                            refresh_secs: refresh,
                                            max_stale_secs: stale,
                                            timeout_secs: timeout,
                                        },
                                    ),
                                }
                            },
                        }
                    },
                }
            },
        }
    }
}

/// The outcome of reading the variables.
pub open spec fn settings_outcome(r: Result<RegistrySettings, String>) -> Result<
    Settings,
    Seq<char>,
> {
    match r {
        Ok(s) => Ok(s@),
        Err(e) => Err(e@),
    }
}

/// Reads the variables of a registry.
pub fn build_postgres_tenant_registry(v: &RegistryEnv) -> (r: Result<RegistrySettings, String>)
    ensures
        settings_outcome(r) == settings_of(*v),
{
    let relation = match parse_tenant_db_relation(&v.relation) {
        Ok(s) => s,
        Err(e) => {
            return Err(e);
        },
    };
    let refresh_secs: u64 = match parse_tenant_env_u64(
        TENANT_REFRESH_SECS_ENV,
        &v.refresh_secs,
        20,
    ) {
        Ok(n) => n,
        Err(e) => {
            return Err(e);
        },
    };
    if refresh_secs == 0 {
        return Err(text::cat2(TENANT_REFRESH_SECS_ENV, " must be greater than 0"));
    }
    let max_stale_secs: u64 = match parse_tenant_env_u64(
        TENANT_MAX_STALE_SECS_ENV,
        &v.max_stale_secs,
        60,
    ) {
        Ok(n) => n,
        Err(e) => {
            return Err(e);
        },
    };
    if max_stale_secs == 0 || max_stale_secs < refresh_secs {
        return Err(
            text::cat4(
                TENANT_MAX_STALE_SECS_ENV,
                " must be >= ",
                TENANT_REFRESH_SECS_ENV,
                " and greater than 0",
            ),
        );
    }
    let timeout_secs: u64 = match parse_tenant_env_u64(
        TENANT_DB_TIMEOUT_SECS_ENV,
        &v.timeout_secs,
        10,
    ) {
        Ok(n) => n,
        Err(e) => {
            return Err(e);
        },
    };
    if timeout_secs == 0 {
        return Err(text::cat2(TENANT_DB_TIMEOUT_SECS_ENV, " must be greater than 0"));
    }
    let db_url: String = match parse_tenant_db_url(&v.db_url) {
        Err(e) => {
            return Err(e);
        },
        Ok(None) => {
            return Err(
                text::cat4(
                    TENANT_DB_URL_ENV,
                    " is required when ",
                    TENANT_SOURCE_ENV,
                    " is set to 'postgres'",
                ),
            );
        },
        Ok(Some(u)) => u,
    };
    Ok(RegistrySettings { db_url, relation, refresh_secs, max_stale_secs, timeout_secs })
}

/// The tenants as they were last read, and when that was.
#[derive(Debug, Clone)]
pub struct TenantSnapshotState {
    pub snapshot: TenantSnapshot,
    pub refreshed_at: Option<u128>,
}

impl TenantSnapshotState {
    /// Tenants that were read just now.
    pub fn fresh(snapshot: TenantSnapshot, refreshed_at: u128) -> (r: Self)
        ensures
            r == (TenantSnapshotState { snapshot, refreshed_at: Some(refreshed_at) }),
    {
        TenantSnapshotState { snapshot, refreshed_at: Some(refreshed_at) }
    }

    /// No tenants.
    pub fn empty() -> (r: Self)
        ensures
            r.snapshot@ == Map::<Seq<char>, Tenant>::empty(),
            r.refreshed_at is None,
    {
        TenantSnapshotState { snapshot: TenantSnapshot::new(), refreshed_at: None }
    }
}

/// A registry: what it holds, and for how long that is trusted.
#[derive(Debug, Clone)]
pub struct PostgresTenantRegistry {
    pub max_stale: u128,
    pub state: TenantSnapshotState,
}

/// The tenants that a registry serves, and when they were read.
pub struct Served {
    pub tenants: Map<Seq<char>, Tenant>,
    pub refreshed_at: Option<u128>,
}

impl View for TenantSnapshotState {
    type V = Served;

    open spec fn view(&self) -> Served {
        Served { tenants: self.snapshot@, refreshed_at: self.refreshed_at }
    }
}

/// How long ago tenants were read.
pub open spec fn age(refreshed_at: u128, now: u128) -> int {
    if now >= refreshed_at {
        now - refreshed_at
    } else {
        0
    }
}

/// What is served at `now`: nothing where it was read too long ago.
pub open spec fn cleared(s: Served, max_stale: u128, now: u128) -> Served {
    match s.refreshed_at {
        None => s,
        Some(t) => if age(t, now) < max_stale || s.tenants == Map::<Seq<char>, Tenant>::empty() {
            s
        } else {
            Served { tenants: Map::empty(), refreshed_at: None }
        },
    }
}

/// How long a new reading may take: as long as configured, but not beyond the
/// moment at which what is served is dropped.
pub open spec fn budget(s: Served, max_stale: u128, configured: u128, now: u128) -> int {
    match s.refreshed_at {
        None => configured as int,
        Some(t) => if age(t, now) >= max_stale {
            0
        } else if configured <= max_stale - age(t, now) {
            configured as int
        } else {
            max_stale - age(t, now)
        },
    }
}

/// Why a reading failed.
#[derive(Debug, Clone, PartialEq, Eq)]
pub enum RefreshFault {
    TimedOut,
    Failed(String),
}

/// What a failed reading is reported as.
pub open spec fn refresh_fault_text(f: RefreshFault) -> Seq<char> {
    match f {
        RefreshFault::TimedOut => "tenant registry refresh from PostgreSQL timed out"@,
        RefreshFault::Failed(e) => e@,
    }
}

impl PostgresTenantRegistry {
    /// A registry that has read nothing yet.
    pub fn new(settings: &RegistrySettings) -> (r: Self)
        ensures
            r.state@.tenants == Map::<Seq<char>, Tenant>::empty(),
            r.state@.refreshed_at is None,
            r.max_stale == settings.max_stale_secs * 1_000_000_000,
    {
        PostgresTenantRegistry {
            max_stale: settings.max_stale_secs as u128 * 1_000_000_000,
            state: TenantSnapshotState::empty(),
        }
    }

    /// What is served.
    pub fn current_snapshot(&self) -> (r: &TenantSnapshot)
        ensures
            r@ == self.state@.tenants,
    {
        &self.state.snapshot
    }

    /// Serves what was read just now.
    pub fn refresh_from_snapshot(&mut self, snapshot: TenantSnapshot, now: u128)
        ensures
            final(self).max_stale == old(self).max_stale,
            final(self).state@ == (Served { tenants: snapshot@, refreshed_at: Some(now) }),
    {
        self.state = TenantSnapshotState::fresh(snapshot, now);
    }

    /// Drops what was read too long ago.
    pub fn clear_if_stale(&mut self, now: u128)
        ensures
            final(self).max_stale == old(self).max_stale,
            final(self).state@ == cleared(old(self).state@, old(self).max_stale, now),
    {
        let refreshed_at: u128 = match self.state.refreshed_at {
            None => {
                return ;
            },
            Some(t) => t,
        };
        let age: u128 = if now >= refreshed_at {
            now - refreshed_at
        } else {
            0
        };
        if age < self.max_stale {
            return ;
        }
        if !self.state.snapshot.is_empty() {
            self.state = TenantSnapshotState::empty();
        }
    }

    /// How long a reading that starts at `now` may take.
    pub fn refresh_timeout_budget(&self, configured_timeout: u128, now: u128) -> (r: u128)
        ensures
            r == budget(self.state@, self.max_stale, configured_timeout, now),
    {
        let refreshed_at: u128 = match self.state.refreshed_at {
            None => {
                return configured_timeout;
            },
            Some(t) => t,
        };
        let age: u128 = if now >= refreshed_at {
            now - refreshed_at
        } else {
            0
        };
        if age >= self.max_stale {
            0
        } else if configured_timeout <= self.max_stale - age {
            configured_timeout
        } else {
            self.max_stale - age
        }
    }

    /// Starts a reading: drops what is too old, and says how long the reading
    /// may take.
    pub fn begin_refresh(&mut self, configured_timeout: u128, now: u128) -> (r: u128)
        ensures
            final(self).max_stale == old(self).max_stale,
            final(self).state@ == cleared(old(self).state@, old(self).max_stale, now),
            r == budget(final(self).state@, old(self).max_stale, configured_timeout, now),
    {
        self.clear_if_stale(now);
        self.refresh_timeout_budget(configured_timeout, now)
    }

    /// Ends a reading: serves what was read, or drops what is too old by now.
    pub fn finish_refresh(&mut self, outcome: Result<TenantSnapshot, RefreshFault>, now: u128) -> (r:
        Result<(), String>)
        ensures
            final(self).max_stale == old(self).max_stale,
            is_refreshed(
                old(self).state@,
                final(self).state@,
                match outcome {
                    Ok(s) => Some(s@),
                    Err(_) => None,
                },
                old(self).max_stale,
                now,
            ),
            match outcome {
                Ok(_) => r is Ok,
                Err(f) => r is Err && r->Err_0@ == refresh_fault_text(f),
            },
    {
        match outcome {
            Ok(s) => {
                self.refresh_from_snapshot(s, now);
                Ok(())
            },
            Err(f) => {
                self.clear_if_stale(now);
                match f {
                    RefreshFault::TimedOut => Err(
                        "tenant registry refresh from PostgreSQL timed out".to_string(),
                    ),
                    RefreshFault::Failed(e) => Err(e),
                }
            },
        }
    }
}

/// What was read too long ago is not served, and what was read in time is kept.
pub proof fn lemma_stale_tenants_are_dropped(s: Served, max_stale: u128, now: u128)
    ensures
        ({
            let after = cleared(s, max_stale, now);
            match s.refreshed_at {
                Some(t) => if age(t, now) >= max_stale {
                    after.tenants == Map::<Seq<char>, Tenant>::empty()
                } else {
                    after == s
                },
                None => after == s,
            }
        }),
{
}

/// A reading that keeps to its budget ends before what is served must be
/// dropped.
pub proof fn lemma_budget_keeps_trust(s: Served, max_stale: u128, configured: u128, now: u128)
    ensures
        0 <= budget(s, max_stale, configured, now) <= configured,
        s.refreshed_at matches Some(t) && age(t, now) < max_stale ==> age(
            s.refreshed_at->0,
            now,
        ) + budget(s, max_stale, configured, now) <= max_stale,
        s.refreshed_at is None ==> budget(s, max_stale, configured, now) == configured,
        s.refreshed_at matches Some(t) && age(t, now) < max_stale && budget(
            s,
            max_stale,
            configured,
            now,
        ) < configured ==> age(s.refreshed_at->0, now) + budget(s, max_stale, configured, now)
            == max_stale,
{
}

/// To drop what is stale twice changes nothing more.
pub proof fn lemma_clearing_is_idempotent(s: Served, max_stale: u128, now: u128)
    ensures
        cleared(cleared(s, max_stale, now), max_stale, now) == cleared(s, max_stale, now),
{
}

/// Tenants come from a file or from a database, by the word that is set, in
/// whatever case; without one they come from a file.
pub proof fn lemma_sources_are_chosen_by_word(t: Seq<char>, w: Seq<char>)
    requires
        w == text::ascii_lowered(text::trimmed(t)),
    ensures
        source_of(env::Setting::Value(t)) == Some(TenantSource::File) <==> w == "file"@,
        source_of(env::Setting::Value(t)) == Some(TenantSource::Postgres) <==> w == "postgres"@,
        source_of(env::Setting::Absent) == Some(TenantSource::File),
{
    reveal_strlit("file");
    reveal_strlit("postgres");
    assert("file"@.len() != "postgres"@.len());
}

/// Every setting of the registry goes to its own field, or leaves its default;
/// none of the times is nought, tenants are trusted no shorter than they are
/// refreshed, and there is an address to fetch them from.
pub proof fn lemma_registry_settings_go_to_their_fields(v: RegistryEnv)
    requires
        settings_of(v) is Ok,
    ensures
        ({
            let s = settings_of(v)->Ok_0;
            &&& v.refresh_secs is Absent ==> s.refresh_secs == 20
            &&& v.refresh_secs matches EnvValue::Value(t) ==> text::number(t@) == Some(
                s.refresh_secs as nat,
            )
            &&& v.max_stale_secs is Absent ==> s.max_stale_secs == 60
            &&& v.max_stale_secs matches EnvValue::Value(t) ==> text::number(t@) == Some(
                s.max_stale_secs as nat,
            )
            &&& v.timeout_secs is Absent ==> s.timeout_secs == 10
            &&& v.timeout_secs matches EnvValue::Value(t) ==> text::number(t@) == Some(
                s.timeout_secs as nat,
            )
            &&& 0 < s.refresh_secs <= s.max_stale_secs && s.timeout_secs > 0
            &&& v.db_url matches EnvValue::Value(t) && s.db_url == text::trimmed(t@)
                && s.db_url.len() > 0
            &&& v.relation matches EnvValue::Value(t) ==> s.relation == text::trimmed(t@)
            &&& s.relation.len() > 0
            &&& forall|i: int|
                0 <= i < s.relation.len() ==> text::alnum(#[trigger] s.relation[i])
                    || s.relation[i] == '_' || s.relation[i] == '.'
        }),
{
}

/// A registry without an address, with a time of nought or with a trust shorter
/// than its refresh is not set up.
pub proof fn lemma_bad_registry_settings_are_refused(v: RegistryEnv)
    ensures
        v.db_url is Absent ==> settings_of(v) is Err,
        v.refresh_secs matches EnvValue::Value(t) ==> (text::number(t@) is None || text::number(t@)
            == Some(0nat) ==> settings_of(v) is Err),
        v.timeout_secs matches EnvValue::Value(t) ==> (text::number(t@) is None || text::number(t@)
            == Some(0nat) ==> settings_of(v) is Err),
        (v.refresh_secs matches EnvValue::Value(a) && text::number(a@) is Some) && (
        v.max_stale_secs matches EnvValue::Value(b) && text::number(b@) is Some) ==> (text::number(
            v.max_stale_secs->Value_0@,
        )->0 < text::number(v.refresh_secs->Value_0@)->0 ==> settings_of(v) is Err),
{
}

/// Whether `after` is what is served once a reading ended: what was read, or what
/// is left of what was served.
pub open spec fn is_refreshed(
    before: Served,
    after: Served,
    read: Option<Map<Seq<char>, Tenant>>,
    max_stale: u128,
    now: u128,
) -> bool {
    match read {
        Some(m) => after == (Served { tenants: m, refreshed_at: Some(now) }),
        None => after == cleared(before, max_stale, now),
    }
}

/// What was read is served from now on, in place of what was served; after a
/// reading that failed no tenant is served that was not before, and none once
/// they are too old.
pub proof fn lemma_refreshes_serve_what_was_read(
    before: Served,
    after: Served,
    read: Option<Map<Seq<char>, Tenant>>,
    max_stale: u128,
    now: u128,
    key: Seq<char>,
)
    requires
        is_refreshed(before, after, read, max_stale, now),
    ensures
        read matches Some(m) ==> after.tenants == m && after.refreshed_at == Some(now),
        read is None && after.tenants.contains_key(key) ==> before.tenants.contains_key(key)
            && after.tenants[key] == before.tenants[key],
        read is None && (before.refreshed_at matches Some(t) && now >= t && now - t >= max_stale)
            ==> !after.tenants.contains_key(key),
        read is None && (before.refreshed_at matches Some(t) && now >= t && now - t < max_stale)
            ==> after == before,
{
}

} // verus!
