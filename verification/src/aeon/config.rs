//! Where the memory service is, and who asks.

use crate::env;
use crate::env::EnvValue;
use crate::error::{Fault, NexusError};
use crate::text;
use vstd::prelude::*;
use vstd::string::*;

verus! {

pub const ENABLED_ENV: &'static str = "NEXUS_AEON_ENABLED";

pub const BASE_URL_ENV: &'static str = "NEXUS_AEON_BASE_URL";

pub const AGENT_ID_ENV: &'static str = "NEXUS_AEON_AGENT_ID";

pub const SESSION_ID_ENV: &'static str = "NEXUS_AEON_SESSION_ID";

pub const TIMEOUT_MS_ENV: &'static str = "NEXUS_AEON_TIMEOUT_MS";

pub const MANAGEMENT_KEY_ENV: &'static str = "NEXUS_AEON_MANAGEMENT_KEY";

pub const HMAC_KEY_ENV: &'static str = "NEXUS_AEON_HMAC_KEY";

pub const TIMELINE_SPOOL_ENV: &'static str = "NEXUS_AEON_TIMELINE_SPOOL";

/// How memory is reached.
#[derive(Clone, PartialEq, Eq)]
pub struct AeonConfig {
    pub enabled: bool,
    pub base_url: String,
    pub agent_id: String,
    pub session_id: Option<String>,
    pub timeout_ms: u64,
    pub management_key: Option<String>,
    /// The key that binds evidence to the service. Without it there is no
    /// evidence.
    pub hmac_key: Option<Vec<u8>>,
}

/// A configuration, by its contents.
pub struct Aeon {
    pub enabled: bool,
    pub base_url: Seq<char>,
    pub agent_id: Seq<char>,
    pub session_id: Option<Seq<char>>,
    pub timeout_ms: u64,
    pub management_key: Option<Seq<char>>,
    pub hmac_key: Option<Seq<u8>>,
}

/// The contents of an optional key.
pub open spec fn key_view(k: Option<Vec<u8>>) -> Option<Seq<u8>> {
    match k {
        Some(b) => Some(b@),
        None => None,
    }
}

impl View for AeonConfig {
    type V = Aeon;

    open spec fn view(&self) -> Aeon {
        Aeon {
            enabled: self.enabled,
            base_url: self.base_url@,
            agent_id: self.agent_id@,
            session_id: text::opt_text(self.session_id),
            timeout_ms: self.timeout_ms,
            management_key: text::opt_text(self.management_key),
            hmac_key: key_view(self.hmac_key),
        }
    }
}

/// The configuration of a machine that was told nothing: memory is off.
pub open spec fn unconfigured() -> Aeon {
    Aeon {
        enabled: false,
        base_url: "http://localhost:8080"@,
        agent_id: "nexus"@,
        session_id: None,
        timeout_ms: 30_000,
        management_key: None,
        hmac_key: None,
    }
}

impl Default for AeonConfig {
    fn default() -> (r: Self)
        ensures
            r@ == unconfigured(),
    {
        AeonConfig {
            enabled: false,
            base_url: "http://localhost:8080".to_string(),
            agent_id: "nexus".to_string(),
            session_id: None,
            timeout_ms: 30_000,
            management_key: None,
            hmac_key: None,
        }
    }
}

/// The variables that configure memory.
#[derive(Debug, Clone, PartialEq, Eq)]
pub struct AeonEnv {
    pub enabled: EnvValue,
    pub base_url: EnvValue,
    pub agent_id: EnvValue,
    pub session_id: EnvValue,
    pub timeout_ms: EnvValue,
    pub management_key: EnvValue,
    pub hmac_key: EnvValue,
}

/// The scheme of a URL, or what is wrong with the URL.
pub uninterp spec fn url_scheme(s: Seq<char>) -> Result<Seq<char>, Seq<char>>;

/// `reqwest::Url::parse`, with the scheme and the error as text: both depend on
/// the given text alone.
#[verifier::external_body]
fn scheme_of(s: &str) -> (r: Result<String, String>)
    ensures
        crate::ids::reading(r) == url_scheme(s@),
{
    match reqwest::Url::parse(s) {
        Ok(url) => Ok(url.scheme().to_string()),
        Err(e) => Err(e.to_string()),
    }
}

/// Why a base URL is refused, given what a reading of it came to.
pub open spec fn base_url_fault(reading: Result<Seq<char>, Seq<char>>) -> Option<Fault> {
    match reading {
        Err(e) => Some(Fault::ConfigError("AEON_BASE_URL is not a valid URL: "@ + e)),
        Ok(scheme) => if scheme == "http"@ || scheme == "https"@ {
            None
        } else {
            Some(
                Fault::ConfigError(
                    "AEON_BASE_URL must use http or https scheme, got '"@ + scheme + "'"@,
                ),
            )
        },
    }
}

/// Judges a base URL by what a reading of it came to: its scheme, or an error.
pub fn check_base_url(reading: &Result<String, String>) -> (r: Option<NexusError>)
    ensures
        match r {
            Some(e) => base_url_fault(crate::ids::reading(*reading)) == Some(e@),
            None => base_url_fault(crate::ids::reading(*reading)) is None,
        },
{
    match reading {
        Err(e) => Some(
            NexusError::ConfigError(text::cat2("AEON_BASE_URL is not a valid URL: ", e.as_str())),
        ),
        Ok(scheme) => if text::same_text(scheme.as_str(), "http") || text::same_text(
            scheme.as_str(),
            "https",
        ) {
            None
        } else {
            Some(
                NexusError::ConfigError(
                    text::cat3(
                        "AEON_BASE_URL must use http or https scheme, got '",
                        scheme.as_str(),
                        "'",
                    ),
                ),
            )
        },
    }
}

/// Why a key is refused.
pub open spec fn hmac_key_fault(key: Option<Seq<u8>>) -> Option<Fault> {
    match key {
        Some(k) => if k.len() < 32 {
            Some(
                Fault::ConfigError(
                    "AEON_HMAC_KEY must be at least 32 bytes (256 bits); got "@ + text::decimal(
                        k.len(),
                    ) + " bytes"@,
                ),
            )
        } else {
            None
        },
        None => None,
    }
}

/// Whether any variable but the switch is set. Memory is then on, unless the
/// switch says otherwise.
pub open spec fn others_set(env: AeonEnv) -> bool {
    !(env.base_url is Absent && env.agent_id is Absent && env.session_id is Absent
        && env.timeout_ms is Absent && env.management_key is Absent && env.hmac_key is Absent)
}

fn is_set(v: &EnvValue) -> (r: bool)
    ensures
        r == !(v is Absent),
{
    match v {
        EnvValue::Absent => false,
        _ => true,
    }
}

/// What the variables come to, when `scheme` is what a reading of the base URL
/// came to, and `fresh` is a new identifier, which names the session where no
/// variable does. The variables are read in a fixed order, and the first that
/// is wrong decides.
pub open spec fn configured(
    env: AeonEnv,
    scheme: Result<Seq<char>, Seq<char>>,
    fresh: Seq<char>,
) -> Result<Aeon, Fault> {
    let d = unconfigured();
    match env::string_setting(BASE_URL_ENV@, env.base_url@, d.base_url) {
        Err(e) => Err(e),
        Ok(base_url) => match base_url_fault(scheme) {
            Some(e) => Err(e),
            None => match env::bool_setting(ENABLED_ENV@, env.enabled@, others_set(env)) {
                Err(e) => Err(e),
                Ok(enabled) => match env::string_setting(
                    AGENT_ID_ENV@,
                    env.agent_id@,
                    d.agent_id,
                ) {
                    Err(e) => Err(e),
                    Ok(agent_id) => match env::optional_setting(SESSION_ID_ENV@, env.session_id@) {
                        Err(e) => Err(e),
                        Ok(session_id) => match env::u64_setting(
                            TIMEOUT_MS_ENV@,
                            env.timeout_ms@,
                            d.timeout_ms,
                        ) {
                            Err(e) => Err(e),
                            Ok(timeout_ms) => match env::optional_setting(
                                MANAGEMENT_KEY_ENV@,
                                env.management_key@,
                            ) {
                                Err(e) => Err(e),
                                Ok(management_key) => match env::hex_setting(
                                    HMAC_KEY_ENV@,
                                    env.hmac_key@,
                                ) {
                                    Err(e) => Err(e),
                                    Ok(hmac_key) => match hmac_key_fault(hmac_key) {
                                        Some(e) => Err(e),
                                        None => Ok(
                                            Aeon {
                                                enabled,
                                                base_url,
                                                agent_id,
                                                session_id: Some(
                                                    session_or(session_id, fresh),
                                                ),
                                                timeout_ms,
                                                management_key,
                                                hmac_key,
                                            },
                                        ),
                                    },
                                },
                            },
                        },
                    },
                },
            },
        },
    }
}

/// The session: the one that a variable names, or else a fresh one.
pub open spec fn session_or(named: Option<Seq<char>>, fresh: Seq<char>) -> Seq<char> {
    match named {
        Some(s) => s,
        None => fresh,
    }
}

/// The base URL that the variables come to, before it is judged.
pub open spec fn chosen_base_url(env: AeonEnv) -> Seq<char> {
    match env.base_url@ {
        env::Setting::Value(t) => t,
        _ => unconfigured().base_url,
    }
}

/// The outcome of reading the variables.
pub open spec fn config_outcome(r: Result<AeonConfig, NexusError>) -> Result<Aeon, Fault> {
    match r {
        Ok(c) => Ok(c@),
        Err(e) => Err(e@),
    }
}

// The text without the slashes at its end.
fn without_slashes(s: &str) -> (r: String)
    ensures
        r@ == unslashed(s@),
{
    let cs = text::chars_of(s);
    let mut to: usize = cs.len();
    assert(s@.take(to as int) =~= s@);
    while to > 0 && cs[to - 1] == '/'
        invariant
            to <= cs.len(),
            cs@ == s@,
            unslashed(s@) == unslashed(s@.take(to as int)),
        decreases to,
    {
        assert(s@.take(to as int).drop_last() =~= s@.take(to - 1));
        to = to - 1;
    }
    assert(cs@.subrange(0, to as int) =~= s@.take(to as int));
    text::sub_text(&cs, 0, to)
}

/// A text without the slashes at its end.
pub open spec fn unslashed(s: Seq<char>) -> Seq<char>
    decreases s.len(),
{
    if s.len() > 0 && s.last() == '/' {
        unslashed(s.drop_last())
    } else {
        s
    }
}

/// A text in quotes, as `{:?}` writes it.
pub uninterp spec fn debug_quoted(s: Seq<char>) -> Seq<char>;

/// `{:?}` on a text: what is written depends on the text alone.
#[verifier::external_body]
pub(crate) fn debug_text_of(s: &str) -> (r: String)
    ensures
        r@ == debug_quoted(s@),
{
    format!("{:?}", s)
}

/// An optional text, as `{:?}` writes it.
pub open spec fn debug_option(o: Option<Seq<char>>) -> Seq<char> {
    match o {
        Some(t) => "Some("@ + debug_quoted(t) + ")"@,
        None => "None"@,
    }
}

/// What is shown of a configuration: neither key is.
pub open spec fn debug_view(c: Aeon) -> Seq<char> {
    "AeonConfig { enabled: "@ + (if c.enabled {
        "true"@
    } else {
        "false"@
    }) + ", base_url: "@ + debug_quoted(c.base_url) + (", agent_id: "@ + debug_quoted(c.agent_id)
        + ", session_id: "@ + debug_option(c.session_id) + ", timeout_ms: "@) + (text::decimal(
        c.timeout_ms as nat,
    ) + ", management_key: "@ + (match c.management_key {
        Some(_) => "Some(\"[REDACTED]\")"@,
        None => "None"@,
    }) + ", hmac_key: "@ + (match c.hmac_key {
        Some(k) => "Some(\"[REDACTED "@ + text::decimal(k.len()) + " bytes]\")"@,
        None => "None"@,
    })) + " }"@
}

impl AeonConfig {
    /// Reads the configuration from its variables. The session is `fresh` where
    /// its variable is absent or blank.
    pub fn from_env(env: &AeonEnv, fresh: String) -> (r: Result<Self, NexusError>)
        ensures
            config_outcome(r) == configured(*env, url_scheme(chosen_base_url(*env)), fresh@),
            r is Ok && (env.session_id matches EnvValue::Value(t) ==> env::blank(t@))
                ==> text::opt_text(r->Ok_0.session_id) == Some(fresh@),
    {
        let chosen: String = match &env.base_url {
            EnvValue::Value(t) => t.clone(),
            _ => AeonConfig::default().base_url,
        };
        let scheme = scheme_of(chosen.as_str());
        AeonConfig::from_values(env, &scheme, fresh)
    }

    /// Reads the configuration from its variables, when `scheme` is what a
    /// reading of the base URL came to.
    pub fn from_values(env: &AeonEnv, scheme: &Result<String, String>, fresh: String) -> (r: Result<
        Self,
        NexusError,
    >)
        ensures
            config_outcome(r) == configured(*env, crate::ids::reading(*scheme), fresh@),
    {
        let d = AeonConfig::default();
        let base_url = match env::env_string(BASE_URL_ENV, &env.base_url, d.base_url) {
            Ok(v) => v,
            Err(e) => {
                return Err(e);
            },
        };
        if let Some(e) = check_base_url(scheme) {
            return Err(e);
        }
        let others: bool = is_set(&env.base_url) || is_set(&env.agent_id) || is_set(
            &env.session_id,
        ) || is_set(&env.timeout_ms) || is_set(&env.management_key) || is_set(&env.hmac_key);
        let enabled: bool = match env::env_bool(ENABLED_ENV, &env.enabled, others) {
            Ok(v) => v,
            Err(e) => {
                return Err(e);
            },
        };
        let agent_id = match env::env_string(AGENT_ID_ENV, &env.agent_id, d.agent_id) {
            Ok(v) => v,
            Err(e) => {
                return Err(e);
            },
        };
        let session_id = match env::env_optional_string(SESSION_ID_ENV, &env.session_id) {
            Ok(v) => v,
            Err(e) => {
                return Err(e);
            },
        };
        let timeout_ms: u64 = match env::env_u64(TIMEOUT_MS_ENV, &env.timeout_ms, d.timeout_ms) {
            Ok(v) => v,
            Err(e) => {
                return Err(e);
            },
        };
        let management_key = match env::env_optional_string(
            MANAGEMENT_KEY_ENV,
            &env.management_key,
        ) {
            Ok(v) => v,
            Err(e) => {
                return Err(e);
            },
        };
        let hmac_key = match env::env_optional_hex(HMAC_KEY_ENV, &env.hmac_key) {
            Ok(v) => v,
            Err(e) => {
                return Err(e);
            },
        };
        if let Some(k) = &hmac_key {
            if k.len() < 32 {
                let n = text::to_decimal(k.len() as u64);
                return Err(
                    NexusError::ConfigError(
                        text::cat3(
                            "AEON_HMAC_KEY must be at least 32 bytes (256 bits); got ",
                            n.as_str(),
                            " bytes",
                        ),
                    ),
                );
            }
        }
        let session = match session_id {
            Some(s) => s,
            None => fresh,
        };
        Ok(
            AeonConfig {
                enabled,
                base_url,
                agent_id,
                session_id: Some(session),
                timeout_ms,
                management_key,
                hmac_key,
            },
        )
    }

    /// The chat endpoint of the service.
    pub fn chat_completions_url(&self) -> (r: String)
        ensures
            r@ == unslashed(self.base_url@) + "/v1/chat/completions"@,
    {
        let base = without_slashes(self.base_url.as_str());
        text::cat2(base.as_str(), "/v1/chat/completions")
    }

    /// The base URL without the slashes at its end.
    pub fn trimmed_base_url(&self) -> (r: String)
        ensures
            r@ == unslashed(self.base_url@),
    {
        without_slashes(self.base_url.as_str())
    }

    /// The configuration for a log, without its keys.
    pub fn debug_text(&self) -> (r: String)
        ensures
            r@ == debug_view(self@),
    {
        let enabled: &str = if self.enabled {
            "true"
        } else {
            "false"
        };
        let base = debug_text_of(self.base_url.as_str());
        let agent = debug_text_of(self.agent_id.as_str());
        let session: String = match &self.session_id {
            Some(s) => {
                let q = debug_text_of(s.as_str());
                text::cat3("Some(", q.as_str(), ")")
            },
            None => "None".to_string(),
        };
        let timeout = text::to_decimal(self.timeout_ms);
        let management: &str = match &self.management_key {
            Some(_) => "Some(\"[REDACTED]\")",
            None => "None",
        };
        let hmac: String = match &self.hmac_key {
            Some(k) => {
                let n = text::to_decimal(k.len() as u64);
                text::cat3("Some(\"[REDACTED ", n.as_str(), " bytes]\")")
            },
            None => "None".to_string(),
        };
        let head = text::cat4("AeonConfig { enabled: ", enabled, ", base_url: ", base.as_str());
        let middle = text::cat5(
            ", agent_id: ",
            agent.as_str(),
            ", session_id: ",
            session.as_str(),
            ", timeout_ms: ",
        );
        let tail = text::cat5(
            timeout.as_str(),
            ", management_key: ",
            management,
            ", hmac_key: ",
            hmac.as_str(),
        );
        text::cat4(head.as_str(), middle.as_str(), tail.as_str(), " }")
    }
}

/// An accepted configuration has a key of at least 256 bits, or none, a web
/// address, and a session.
pub proof fn lemma_accepted_config(
    env: AeonEnv,
    scheme: Result<Seq<char>, Seq<char>>,
    fresh: Seq<char>,
)
    requires
        configured(env, scheme, fresh) is Ok,
    ensures
        configured(env, scheme, fresh)->Ok_0.hmac_key matches Some(k) ==> 32 <= k.len() <= 512,
        scheme == Ok::<Seq<char>, Seq<char>>("http"@) || scheme == Ok::<Seq<char>, Seq<char>>(
            "https"@,
        ),
        configured(env, scheme, fresh)->Ok_0.session_id is Some,
{
}

/// Without the switch memory is on exactly where something else is configured;
/// and where nothing is, everything but the session is as on a machine that was
/// told nothing.
pub proof fn lemma_switch_decides(
    env: AeonEnv,
    scheme: Result<Seq<char>, Seq<char>>,
    fresh: Seq<char>,
)
    requires
        configured(env, scheme, fresh) is Ok,
        env.enabled is Absent,
    ensures
        configured(env, scheme, fresh)->Ok_0.enabled == others_set(env),
        !others_set(env) ==> configured(env, scheme, fresh)->Ok_0 == (Aeon {
            session_id: Some(fresh),
            ..unconfigured()
        }),
{
}

/// What a log shows is the same whatever the keys are, as long as there are
/// keys of the same length.
pub proof fn lemma_debug_hides_keys(a: Aeon, b: Aeon)
    requires
        b == (Aeon { management_key: b.management_key, hmac_key: b.hmac_key, ..a }),
        a.management_key is Some <==> b.management_key is Some,
        match (a.hmac_key, b.hmac_key) {
            (Some(x), Some(y)) => x.len() == y.len(),
            (None, None) => true,
            _ => false,
        },
    ensures
        debug_view(a) == debug_view(b),
{
}

/// The chat endpoint is the same with and without a slash behind the base URL.
pub proof fn lemma_trailing_slash_is_ignored(base: Seq<char>)
    ensures
        unslashed(base.push('/')) == unslashed(base),
{
    assert(base.push('/').drop_last() =~= base);
}

/// Every setting goes to its own field, and only there: what is set stands in
/// the configuration, and what is not leaves the default. The session is the
/// named one, or else the fresh one.
pub proof fn lemma_settings_go_to_their_fields(
    env: AeonEnv,
    scheme: Result<Seq<char>, Seq<char>>,
    fresh: Seq<char>,
)
    requires
        configured(env, scheme, fresh) is Ok,
    ensures
        ({
            let c = configured(env, scheme, fresh)->Ok_0;
            &&& env.base_url matches EnvValue::Value(t) ==> c.base_url == t@
            &&& env.base_url is Absent ==> c.base_url == "http://localhost:8080"@
            &&& env.agent_id matches EnvValue::Value(t) ==> c.agent_id == t@
            &&& env.agent_id is Absent ==> c.agent_id == "nexus"@
            &&& env.session_id is Absent ==> c.session_id == Some(fresh)
            &&& env.session_id matches EnvValue::Value(t) ==> c.session_id == Some(
                if env::blank(t@) {
                    fresh
                } else {
                    t@
                },
            )
            &&& env.timeout_ms is Absent ==> c.timeout_ms == 30_000
            &&& env.timeout_ms matches EnvValue::Value(t) ==> text::number(text::trimmed(t@))
                == Some(c.timeout_ms as nat)
            &&& env.management_key matches EnvValue::Value(t) ==> (!env::blank(t@)
                ==> c.management_key == Some(t@))
            &&& env.management_key is Absent ==> c.management_key is None
            &&& env.hmac_key is Absent ==> c.hmac_key is None
            &&& c.hmac_key matches Some(k) ==> 32 <= k.len() <= 512
            &&& env.enabled matches EnvValue::Value(t) ==> env::truth_word(t@) == Some(c.enabled)
            &&& env.enabled is Absent ==> (c.enabled <==> !(env.base_url is Absent && env.agent_id
                is Absent && env.session_id is Absent && env.timeout_ms is Absent
                && env.management_key is Absent && env.hmac_key is Absent))
        }),
{
}

/// An address is taken exactly if it can be read and is one of the web; another
/// scheme is named where it is refused.
pub proof fn lemma_addresses_are_of_the_web(reading: Result<Seq<char>, Seq<char>>)
    ensures
        base_url_fault(reading) is None <==> reading == Ok::<Seq<char>, Seq<char>>("http"@)
            || reading == Ok::<Seq<char>, Seq<char>>("https"@),
        reading is Ok && base_url_fault(reading) is Some ==> (base_url_fault(reading) matches Some(
            Fault::ConfigError(t),
        ) && text::has_text(t, reading->Ok_0)),
{
    if reading is Ok {
        text::lemma_part_is_held(
            "AEON_BASE_URL must use http or https scheme, got '"@,
            reading->Ok_0,
            "'"@,
        );
    }
}

/// A key is taken exactly if it is long enough, or there is none.
pub proof fn lemma_keys_are_long_enough(key: Option<Seq<u8>>)
    ensures
        hmac_key_fault(key) is None <==> (key matches Some(k) ==> k.len() >= 32),
{
}

/// What is left of an address without its last slashes does not end in one, and
/// nothing but slashes was cut.
pub proof fn lemma_only_slashes_are_cut(s: Seq<char>)
    ensures
        unslashed(s).len() <= s.len(),
        unslashed(s) == s.take(unslashed(s).len() as int),
        unslashed(s).len() > 0 ==> unslashed(s).last() != '/',
        forall|i: int| unslashed(s).len() <= i < s.len() ==> #[trigger] s[i] == '/',
    decreases s.len(),
{
    if s.len() > 0 && s.last() == '/' {
        let t = s.drop_last();
        lemma_only_slashes_are_cut(t);
        let n = unslashed(t).len() as int;
        assert(t.take(n) =~= s.take(n));
        assert forall|i: int| unslashed(s).len() <= i < s.len() implies #[trigger] s[i] == '/' by {
            if i < t.len() {
                assert(t[i] == s[i]);
            }
        }
    } else {
        assert(s.take(s.len() as int) =~= s);
    }
}

} // verus!
