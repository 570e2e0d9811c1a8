//! How the server is set up, and which modules it may read.

use crate::aeon::config;
use crate::aeon::config::debug_text_of;
use crate::env;
use crate::env::EnvValue;
use crate::error::{Fault, NexusError};
use crate::json;
use crate::mcp::capability;
use crate::mcp::capability::{parse_capability, sanitize_token_request};
use crate::mcp::params::CapabilitySpec;
use crate::paths;
use crate::profile::ValidationError;
use crate::security;
use crate::security::{Cap, Capability};
use crate::text;
use vstd::prelude::*;
use vstd::string::*;

verus! {

pub const MCP_FUEL_ENV: &'static str = "NEXUS_MCP_FUEL";

pub const MCP_TIMEOUT_MS_ENV: &'static str = "NEXUS_MCP_TIMEOUT_MS";

pub const MODULE_DIR_ENV: &'static str = "NEXUS_MCP_MODULE_DIR";

pub const CAPABILITY_ALLOWLIST_ENV: &'static str = "NEXUS_MCP_CAPABILITY_ALLOWLIST";

pub const IQ_ALLOWLIST_ENV: &'static str = "NEXUS_IQ_ALLOWLIST";

pub const PROFILE_ENV: &'static str = "NEXUS_MCP_PROFILE";

pub const RETURN_FULL_PROOF_ENV: &'static str = "NEXUS_MCP_RETURN_FULL_PROOF";

pub const TRANSPORT_ENV: &'static str = "NEXUS_MCP_TRANSPORT";

pub const HTTP_ADDR_ENV: &'static str = "NEXUS_MCP_HTTP_ADDR";

pub const HTTP_DEFAULT_ADDR: &'static str = "127.0.0.1:8765";

/// How callers reach the server.
#[derive(Debug, Clone, Copy, PartialEq, Eq, Structural)]
pub enum Transport {
    Stdio,
    Http,
}

/// The word that a setting holds, or the default. One that cannot be read
/// counts as not set.
pub open spec fn word_or(v: env::Setting, default: Seq<char>) -> Seq<char> {
    match v {
        env::Setting::Value(t) => t,
        _ => default,
    }
}

/// Whether `r` is how callers reach the server, as it is set.
pub open spec fn is_transport(v: env::Setting, r: Result<Transport, String>) -> bool {
    let w = word_or(v, "stdio"@);
    match r {
        Ok(t) => w == (match t {
            Transport::Stdio => "stdio"@,
            Transport::Http => "http"@,
        }),
        Err(e) => w != "stdio"@ && w != "http"@ && e@ == "unsupported "@ + TRANSPORT_ENV@
            + " value '"@ + w + "', expected 'stdio' or 'http'"@,
    }
}

/// How callers reach the server.
pub fn parse_nexus_mcp_transport(v: &EnvValue) -> (r: Result<Transport, String>)
    ensures
        is_transport(v@, r),
{
    let w: String = match v {
        EnvValue::Value(t) => t.clone(),
        _ => "stdio".to_string(),
    };
    if text::same_text(w.as_str(), "stdio") {
        Ok(Transport::Stdio)
    } else if text::same_text(w.as_str(), "http") {
        Ok(Transport::Http)
    } else {
        Err(
            text::cat5(
                "unsupported ",
                TRANSPORT_ENV,
                " value '",
                w.as_str(),
                "', expected 'stdio' or 'http'",
            ),
        )
    }
}

/// The address that the server listens on, as text.
pub fn http_addr_text(v: &EnvValue) -> (r: String)
    ensures
        r@ == word_or(v@, HTTP_DEFAULT_ADDR@),
{
    match v {
        EnvValue::Value(t) => t.clone(),
        _ => HTTP_DEFAULT_ADDR.to_string(),
    }
}

/// An optional number. White space is not overlooked.
pub open spec fn optional_number(name: Seq<char>, v: env::Setting) -> Result<
    Option<u64>,
    Seq<char>,
> {
    match v {
        env::Setting::Value(t) => match text::number(t) {
            Some(n) => if n <= u64::MAX {
                Ok(Some(n as u64))
            } else {
                Err(name + " must be an unsigned integer: "@ + env::number_fault(t))
            },
            None => Err(name + " must be an unsigned integer: "@ + env::number_fault(t)),
        },
        env::Setting::Absent => Ok(None),
        env::Setting::NotUnicode => Err(name + " must be valid Unicode"@),
    }
}

/// The outcome of reading an optional number.
pub open spec fn number_outcome(r: Result<Option<u64>, String>) -> Result<Option<u64>, Seq<char>> {
    match r {
        Ok(n) => Ok(n),
        Err(e) => Err(e@),
    }
}

/// Reads an optional number.
pub fn env_u64(name: &str, v: &EnvValue) -> (r: Result<Option<u64>, String>)
    ensures
        number_outcome(r) == optional_number(name@, v@),
{
    match v {
        EnvValue::Value(t) => match text::parse_number(t.as_str()) {
            Some(n) => Ok(Some(n)),
            None => {
                let why = env::number_fault_text(t.as_str());
                Err(text::cat3(name, " must be an unsigned integer: ", why.as_str()))
            },
        },
        EnvValue::Absent => Ok(None),
        EnvValue::NotUnicode => Err(text::cat2(name, " must be valid Unicode")),
    }
}

/// The limits of executions: the fuel, and the time in milliseconds.
#[derive(Debug, Clone, Copy, PartialEq, Eq, Structural)]
pub struct SandboxLimits {
    pub max_fuel: u64,
    pub time_limit_ms: u64,
}

/// Whether `r` are the limits that the variables set.
pub open spec fn are_limits(
    limits: SandboxLimits,
    fuel: env::Setting,
    timeout: env::Setting,
    r: Result<SandboxLimits, String>,
) -> bool {
    match r {
        Ok(l) => {
            let f = optional_number(MCP_FUEL_ENV@, fuel);
            let t = optional_number(MCP_TIMEOUT_MS_ENV@, timeout);
            &&& f is Ok
            &&& t is Ok
            &&& l.max_fuel == (match f->Ok_0 {
                Some(n) => n,
                None => limits.max_fuel,
            })
            &&& l.time_limit_ms == (match t->Ok_0 {
                Some(n) => n,
                None => limits.time_limit_ms,
            })
        },
        Err(e) => match optional_number(MCP_FUEL_ENV@, fuel) {
            Err(f) => e@ == f,
            Ok(_) => optional_number(MCP_TIMEOUT_MS_ENV@, timeout) == Err::<Option<u64>, Seq<char>>(
                e@,
            ),
        },
    }
}

/// The limits that the variables set; the others stay.
pub fn apply_mcp_sandbox_env(limits: SandboxLimits, fuel: &EnvValue, timeout: &EnvValue) -> (r:
    Result<SandboxLimits, String>)
    ensures
        are_limits(limits, fuel@, timeout@, r),
{
    let mut out = limits;
    match env_u64(MCP_FUEL_ENV, fuel) {
        Err(e) => {
            return Err(e);
        },
        Ok(Some(n)) => {
            out.max_fuel = n;
        },
        Ok(None) => {},
    }
    match env_u64(MCP_TIMEOUT_MS_ENV, timeout) {
        Err(e) => {
            return Err(e);
        },
        Ok(Some(n)) => {
            out.time_limit_ms = n;
        },
        Ok(None) => {},
    }
    Ok(out)
}

/// Whether a word asks for whole capsules.
pub open spec fn wants_full(w: Seq<char>) -> bool {
    let l = text::ascii_lowered(w);
    l == "1"@ || l == "true"@ || l == "yes"@ || l == "on"@ || l == "debug"@ || l == "enabled"@
}

/// Whether answers hold whole capsules: as the variable says, and otherwise in
/// debug builds.
pub fn should_include_full_proof_capsule(v: &EnvValue, debug_build: bool) -> (r: bool)
    ensures
        r == (match v@ {
            env::Setting::Value(t) => wants_full(t),
            _ => debug_build,
        }),
{
    match v {
        EnvValue::Value(t) => {
            let l = text::ascii_lowercase(t.as_str());
            let w = l.as_str();
            text::same_text(w, "1") || text::same_text(w, "true") || text::same_text(w, "yes")
                || text::same_text(w, "on") || text::same_text(w, "debug") || text::same_text(
                w,
                "enabled",
            )
        },
        _ => debug_build,
    }
}

/// What a directory turned out to be.
#[derive(Debug, Clone, PartialEq, Eq)]
pub enum ResolvedDir {
    /// It could not be resolved, for this reason.
    Missing(String),
    NotDirectory,
    /// Its resolved path.
    Dir(String),
}

/// A directory as it was named, and what it turned out to be.
#[derive(Debug, Clone, PartialEq, Eq)]
pub struct NamedDir {
    pub shown: String,
    pub found: ResolvedDir,
}

/// What is wrong with a directory. `head` says where it was named, and `tail`
/// that it is none.
pub open spec fn dir_fault(d: NamedDir, head: Seq<char>, tail: Seq<char>) -> Option<Seq<char>> {
    match d.found {
        ResolvedDir::Missing(e) => Some(head + " '"@ + d.shown@ + "': "@ + e@),
        ResolvedDir::NotDirectory => Some(head + " '"@ + d.shown@ + "': "@ + tail),
        ResolvedDir::Dir(_) => None,
    }
}

/// The resolved directories: the first that is wrong decides.
pub open spec fn dirs_of(dirs: Seq<NamedDir>, head: Seq<char>, tail: Seq<char>) -> Result<
    Seq<Seq<char>>,
    Seq<char>,
>
    decreases dirs.len(),
{
    if dirs.len() == 0 {
        Ok(Seq::empty())
    } else {
        match dirs_of(dirs.drop_last(), head, tail) {
            Err(e) => Err(e),
            Ok(before) => match dirs.last().found {
                ResolvedDir::Dir(p) => Ok(before.push(p@)),
                _ => Err(dir_fault(dirs.last(), head, tail)->0),
            },
        }
    }
}

proof fn lemma_dir_error_stays(dirs: Seq<NamedDir>, head: Seq<char>, tail: Seq<char>, k: int)
    requires
        0 <= k <= dirs.len(),
        dirs_of(dirs.take(k), head, tail) is Err,
    ensures
        dirs_of(dirs, head, tail) == dirs_of(dirs.take(k), head, tail),
    decreases dirs.len() - k,
{
    if k < dirs.len() {
        assert(dirs.take(k + 1).drop_last() =~= dirs.take(k));
        lemma_dir_error_stays(dirs, head, tail, k + 1);
    } else {
        assert(dirs.take(k) =~= dirs);
    }
}

/// The outcome of resolving directories.
pub open spec fn dirs_outcome(r: Result<Vec<String>, String>) -> Result<
    Seq<Seq<char>>,
    Seq<char>,
> {
    match r {
        Ok(v) => Ok(text::texts(v@)),
        Err(e) => Err(e@),
    }
}

fn resolve_dirs(dirs: &Vec<NamedDir>, head: &str, tail: &str) -> (r: Result<Vec<String>, String>)
    ensures
        dirs_outcome(r) == dirs_of(dirs@, head@, tail@),
{
    let mut out: Vec<String> = Vec::new();
    let mut i: usize = 0;
    assert(text::texts(out@) =~= Seq::<Seq<char>>::empty());
    while i < dirs.len()
        invariant
            i <= dirs.len(),
            dirs_of(dirs@.take(i as int), head@, tail@) == Ok::<Seq<Seq<char>>, Seq<char>>(
                text::texts(out@),
            ),
        decreases dirs.len() - i,
    {
        let ghost had = text::texts(out@);
        proof {
            assert(dirs@.take(i + 1).drop_last() =~= dirs@.take(i as int));
            if !(dirs@[i as int].found is Dir) {
                lemma_dir_error_stays(dirs@, head@, tail@, i + 1);
            }
        }
        match &dirs[i].found {
            ResolvedDir::Dir(p) => {
                let ghost pv = p@;
                out.push(p.clone());
                assert(text::texts(out@) =~= had.push(pv));
            },
            ResolvedDir::Missing(e) => {
                return Err(text::cat5(head, " '", dirs[i].shown.as_str(), "': ", e.as_str()));
            },
            ResolvedDir::NotDirectory => {
                return Err(text::cat5(head, " '", dirs[i].shown.as_str(), "': ", tail));
            },
        }
        i = i + 1;
    }
    assert(dirs@.take(dirs.len() as int) =~= dirs@);
    Ok(out)
}

/// The directories that the environment allows.
pub fn allowed_wasm_module_dirs(dirs: &Vec<NamedDir>) -> (r: Result<Vec<String>, String>)
    ensures
        dirs_outcome(r) == (if dirs@.len() == 0 {
            Err::<Seq<Seq<char>>, Seq<char>>(
                MODULE_DIR_ENV@ + " must contain at least one module directory"@,
            )
        } else {
            dirs_of(
                dirs@,
                "invalid MCP module dir"@,
                "resolved path is not a directory"@,
            )
        }),
{
    if dirs.len() == 0 {
        return Err(text::cat2(MODULE_DIR_ENV, " must contain at least one module directory"));
    }
    resolve_dirs(dirs, "invalid MCP module dir", "resolved path is not a directory")
}

/// The directories that a profile allows.
pub fn canonicalize_module_dirs(dirs: &Vec<NamedDir>) -> (r: Result<Vec<String>, String>)
    ensures
        dirs_outcome(r) == (if dirs@.len() == 0 {
            Err::<Seq<Seq<char>>, Seq<char>>(
                "profile execution.module_dirs must contain at least one directory"@,
            )
        } else {
            dirs_of(dirs@, "invalid profile module dir"@, "not a directory"@)
        }),
{
    if dirs.len() == 0 {
        return Err(
            "profile execution.module_dirs must contain at least one directory".to_string(),
        );
    }
    resolve_dirs(dirs, "invalid profile module dir", "not a directory")
}

/// The directories that modules are read from: those of the profile where it
/// names any, and otherwise those of the environment.
pub fn module_dirs(profile_dirs: &Vec<NamedDir>, env_dirs: &Vec<NamedDir>) -> (r: Result<
    Vec<String>,
    String,
>)
    ensures
        dirs_outcome(r) == dirs_chosen(profile_dirs@, env_dirs@),
{
    if profile_dirs.len() > 0 {
        canonicalize_module_dirs(profile_dirs)
    } else {
        allowed_wasm_module_dirs(env_dirs)
    }
}

/// A path as it is asked for, made absolute.
pub fn absolute_request_path(path: &str, current_dir: &str) -> (r: String)
    ensures
        r@ == paths::joined_path(current_dir@, path@),
{
    paths::join_path(current_dir, path)
}

/// The refusal of a path outside the allowed directories.
pub open spec fn outside(path: Seq<char>) -> Fault {
    Fault::FilesystemError(
        "wasm path '"@ + path + "' is outside allowed MCP module directories"@,
    )
}

fn outside_error(path: &str) -> (r: NexusError)
    ensures
        r@ == outside(path@),
{
    NexusError::FilesystemError(
        text::cat3("wasm path '", path, "' is outside allowed MCP module directories"),
    )
}

/// Judges a path by its text, before the file system is asked about it: a path
/// that leads outside the allowed directories is refused whether or not there
/// is such a file.
pub fn check_wasm_request(wasm_path: &str, current_dir: &str, allowed_dirs: &Vec<String>) -> (r:
    Result<(), NexusError>)
    ensures
        is_judged(wasm_path@, current_dir@, text::texts(allowed_dirs@), r),
{
    let requested = absolute_request_path(wasm_path, current_dir);
    if paths::path_is_lexically_allowed(requested.as_str(), allowed_dirs) {
        Ok(())
    } else {
        Err(outside_error(wasm_path))
    }
}

/// What a request for a module comes to, when `resolved` is its resolved path,
/// if it has one, and `is_file` says whether a plain file is there.
pub open spec fn found_module(
    wasm_path: Seq<char>,
    current_dir: Seq<char>,
    dirs: Seq<Seq<char>>,
    resolved: Option<Seq<char>>,
    is_file: bool,
) -> Result<Seq<char>, Fault> {
    if !paths::lexically_under_any(paths::joined_path(current_dir, wasm_path), dirs) {
        Err(outside(wasm_path))
    } else {
        match resolved {
            None => Err(
                Fault::FilesystemError(
                    "wasm path '"@ + wasm_path + "' not found or inaccessible"@,
                ),
            ),
            Some(p) => if !is_file {
                Err(Fault::FilesystemError("wasm path '"@ + wasm_path + "' is not a file"@))
            } else if paths::under_any(p, dirs) {
                Ok(p)
            } else {
                Err(outside(wasm_path))
            },
        }
    }
}

/// The path of a module that may be read. Every refusal names the path as it
/// was asked for, and never the resolved one.
pub fn resolve_wasm_path(
    wasm_path: &str,
    current_dir: &str,
    allowed_dirs: &Vec<String>,
    resolved: Option<&str>,
    is_file: bool,
) -> (r: Result<String, NexusError>)
    ensures
        env::text_outcome(r) == found_module(
            wasm_path@,
            current_dir@,
            text::texts(allowed_dirs@),
            crate::daemon::slice_text(resolved),
            is_file,
        ),
{
    match check_wasm_request(wasm_path, current_dir, allowed_dirs) {
        Ok(_) => {},
        Err(e) => {
            return Err(e);
        },
    }
    match resolved {
        None => Err(
            NexusError::FilesystemError(
                text::cat3("wasm path '", wasm_path, "' not found or inaccessible"),
            ),
        ),
        Some(p) => if !is_file {
            Err(
                NexusError::FilesystemError(
                    text::cat3("wasm path '", wasm_path, "' is not a file"),
                ),
            )
        } else if paths::path_is_under_any(p, allowed_dirs) {
            Ok(p.to_string())
        } else {
            Err(outside_error(wasm_path))
        },
    }
}

/// The complaint about an invalid profile.
pub fn profile_complaint(path: &str, errors: &Vec<ValidationError>) -> (r: String)
    ensures
        r@ == "invalid "@ + PROFILE_ENV@ + " '"@ + path@ + "': "@ + text::joined(
            Seq::new(errors@.len(), |i: int| errors@[i]@.message()),
            "; "@,
        ),
{
    let mut said: Vec<String> = Vec::new();
    let mut i: usize = 0;
    while i < errors.len()
        invariant
            i <= errors.len(),
            said@.len() == i,
            forall|j: int| 0 <= j < i ==> (#[trigger] said@[j])@ == errors@[j]@.message(),
        decreases errors.len() - i,
    {
        said.push(errors[i].to_text());
        i = i + 1;
    }
    assert(text::texts(said@) =~= Seq::new(errors@.len(), |i: int| errors@[i]@.message()));
    let joined = text::join(&said, "; ");
    let head = text::cat4("invalid ", PROFILE_ENV, " '", path);
    text::cat3(head.as_str(), "': ", joined.as_str())
}

/// A capability as a caller wrote it, for a complaint.
pub open spec fn spec_debug(s: CapabilitySpec) -> Seq<char> {
    "CapabilitySpec { type: "@ + config::debug_quoted(s.kind@) + ", path: "@ + config::debug_option(
        text::opt_text(s.path),
    ) + " }"@
}

fn spec_debug_text(s: &CapabilitySpec) -> (r: String)
    ensures
        r@ == spec_debug(*s),
{
    let kind = debug_text_of(s.kind.as_str());
    let path: String = match &s.path {
        Some(p) => {
            let q = debug_text_of(p.as_str());
            text::cat3("Some(", q.as_str(), ")")
        },
        None => "None".to_string(),
    };
    text::cat5("CapabilitySpec { type: ", kind.as_str(), ", path: ", path.as_str(), " }")
}

/// What the operator allows with one entry.
pub open spec fn entry_of(s: CapabilitySpec) -> Result<Cap, Seq<char>> {
    match capability::capability_from_spec(s.kind@, text::opt_text(s.path)) {
        Err(e) => Err(e),
        Ok(c) => match capability::granted(c, None) {
            Ok(g) => Ok(g.0),
            Err(e) => Err(
                "invalid "@ + CAPABILITY_ALLOWLIST_ENV@ + " entry "@ + spec_debug(s) + ": "@ + e,
            ),
        },
    }
}

/// What the operator allows: the first entry that is wrong decides.
pub open spec fn entries_of(specs: Seq<CapabilitySpec>) -> Result<Seq<Cap>, Seq<char>>
    decreases specs.len(),
{
    if specs.len() == 0 {
        Ok(Seq::empty())
    } else {
        match entries_of(specs.drop_last()) {
            Err(e) => Err(e),
            Ok(before) => match entry_of(specs.last()) {
                Err(e) => Err(e),
                Ok(c) => Ok(before.push(c)),
            },
        }
    }
}

proof fn lemma_entry_error_stays(specs: Seq<CapabilitySpec>, k: int)
    requires
        0 <= k <= specs.len(),
        entries_of(specs.take(k)) is Err,
    ensures
        entries_of(specs) == entries_of(specs.take(k)),
    decreases specs.len() - k,
{
    if k < specs.len() {
        assert(specs.take(k + 1).drop_last() =~= specs.take(k));
        lemma_entry_error_stays(specs, k + 1);
    } else {
        assert(specs.take(k) =~= specs);
    }
}

/// The operator's list, as it was found.
#[derive(Debug, Clone, PartialEq, Eq)]
pub enum AllowlistSetting {
    Absent,
    NotUnicode,
    /// It is no list of capabilities in JSON, for this reason.
    Malformed(String),
    Specs(Vec<CapabilitySpec>),
}

/// What the operator allows, or what is wrong with the list.
pub open spec fn allowlist_of(v: AllowlistSetting) -> Result<Option<Seq<Cap>>, Seq<char>> {
    match v {
        AllowlistSetting::Absent => Ok(None),
        AllowlistSetting::NotUnicode => Err(
            CAPABILITY_ALLOWLIST_ENV@ + " must be a UTF-8 JSON array of capability objects"@,
        ),
        AllowlistSetting::Malformed(e) => Err(
            CAPABILITY_ALLOWLIST_ENV@ + " must be a JSON array of capability objects: "@ + e@,
        ),
        AllowlistSetting::Specs(s) => match entries_of(s@) {
            Ok(c) => Ok(Some(c)),
            Err(e) => Err(e),
        },
    }
}

/// The outcome of reading the operator's list.
pub open spec fn allowlist_outcome(r: Result<Option<Vec<Capability>>, String>) -> Result<
    Option<Seq<Cap>>,
    Seq<char>,
> {
    match r {
        Ok(Some(v)) => Ok(Some(security::caps(v@))),
        Ok(None) => Ok(None),
        Err(e) => Err(e@),
    }
}

/// What the operator allows. Not even the operator can allow everything.
pub fn capability_allowlist_from_env(v: &AllowlistSetting) -> (r: Result<
    Option<Vec<Capability>>,
    String,
>)
    ensures
        allowlist_outcome(r) == allowlist_of(*v),
{
    let specs: &Vec<CapabilitySpec> = match v {
        AllowlistSetting::Absent => {
            return Ok(None);
        },
        AllowlistSetting::NotUnicode => {
            return Err(
                text::cat2(
                    CAPABILITY_ALLOWLIST_ENV,
                    " must be a UTF-8 JSON array of capability objects",
                ),
            );
        },
        AllowlistSetting::Malformed(e) => {
            return Err(
                text::cat3(
                    CAPABILITY_ALLOWLIST_ENV,
                    " must be a JSON array of capability objects: ",
                    e.as_str(),
                ),
            );
        },
        AllowlistSetting::Specs(s) => s,
    };
    let mut out: Vec<Capability> = Vec::new();
    let mut i: usize = 0;
    assert(security::caps(out@) =~= Seq::<Cap>::empty());
    while i < specs.len()
        invariant
            i <= specs.len(),
            *v == AllowlistSetting::Specs(*specs),
            entries_of(specs@.take(i as int)) == Ok::<Seq<Cap>, Seq<char>>(security::caps(out@)),
        decreases specs.len() - i,
    {
        let ghost had = security::caps(out@);
        proof {
            assert(specs@.take(i + 1).drop_last() =~= specs@.take(i as int));
            if entry_of(specs@[i as int]) is Err {
                lemma_entry_error_stays(specs@, i + 1);
            }
        }
        match parse_capability(&specs[i]) {
            Err(e) => {
                return Err(e);
            },
            Ok(c) => match sanitize_token_request(c, None) {
                Err(e) => {
                    let shown = spec_debug_text(&specs[i]);
                    let head = text::cat4(
                        "invalid ",
                        CAPABILITY_ALLOWLIST_ENV,
                        " entry ",
                        shown.as_str(),
                    );
                    return Err(text::cat3(head.as_str(), ": ", e.as_str()));
                },
                Ok(g) => {
                    let ghost cv = (g.0)@;
                    out.push(g.0);
                    assert(security::caps(out@) =~= had.push(cv));
                },
            },
        }
        i = i + 1;
    }
    assert(specs@.take(specs.len() as int) =~= specs@);
    Ok(Some(out))
}

/// The names of a list that are not blank, white space around them aside.
pub open spec fn listed_names(parts: Seq<Seq<char>>) -> Seq<Seq<char>>
    decreases parts.len(),
{
    if parts.len() == 0 {
        Seq::empty()
    } else if env::blank(parts.last()) {
        listed_names(parts.drop_last())
    } else {
        listed_names(parts.drop_last()).push(text::trimmed(parts.last()))
    }
}

/// The tools that the attested tool may run: a JSON list, or names between
/// commas. Where the list is empty none may be run, and where it is not set
/// all may be.
pub open spec fn iq_allowlist_of(v: env::Setting) -> Result<Option<Seq<Seq<char>>>, Seq<char>> {
    match v {
        env::Setting::Absent => Ok(None),
        env::Setting::NotUnicode => Err(
            IQ_ALLOWLIST_ENV@ + " must be UTF-8 JSON or comma-separated tool names"@,
        ),
        env::Setting::Value(t) => {
            let raw = text::trimmed(t);
            if raw.len() == 0 {
                Ok(Some(Seq::empty()))
            } else if raw[0] == '[' {
                match json::text_list(raw) {
                    Ok(v) => Ok(Some(v)),
                    Err(e) => Err(
                        IQ_ALLOWLIST_ENV@ + " must be a JSON array of strings: "@ + e,
                    ),
                }
            } else {
                Ok(Some(listed_names(text::fields(raw, ','))))
            }
        },
    }
}

/// The outcome of reading a list of tools.
pub open spec fn names_outcome(r: Result<Option<Vec<String>>, String>) -> Result<
    Option<Seq<Seq<char>>>,
    Seq<char>,
> {
    match r {
        Ok(Some(v)) => Ok(Some(text::texts(v@))),
        Ok(None) => Ok(None),
        Err(e) => Err(e@),
    }
}

/// The names between the commas of a text.
pub fn split_names(raw: &str) -> (r: Vec<String>)
    ensures
        text::texts(r@) == listed_names(text::fields(raw@, ',')),
{
    let parts = text::split_on(raw, ',');
    let mut out: Vec<String> = Vec::new();
    let mut i: usize = 0;
    assert(text::texts(out@) =~= Seq::<Seq<char>>::empty());
    while i < parts.len()
        invariant
            i <= parts.len(),
            text::texts(out@) == listed_names(text::texts(parts@).take(i as int)),
        decreases parts.len() - i,
    {
        let ghost had = text::texts(out@);
        let ghost before = text::texts(parts@).take(i as int);
        let name = text::trim(parts[i].as_str());
        let ghost nv = name@;
        if !name.as_str().is_empty() {
            out.push(name);
            assert(text::texts(out@) =~= had.push(nv));
        }
        i = i + 1;
        proof {
            let now = text::texts(parts@).take(i as int);
            assert(now.drop_last() =~= before);
            assert(now.last() == parts@[i - 1]@);
        }
    }
    assert(text::texts(parts@).take(parts.len() as int) =~= text::texts(parts@));
    out
}

/// The tools that the attested tool may run.
pub fn nexus_iq_allowlist_from_env(v: &EnvValue) -> (r: Result<Option<Vec<String>>, String>)
    ensures
        names_outcome(r) == iq_allowlist_of(v@),
{
    let value: &String = match v {
        EnvValue::Absent => {
            return Ok(None);
        },
        EnvValue::NotUnicode => {
            return Err(
                text::cat2(
                    IQ_ALLOWLIST_ENV,
                    " must be UTF-8 JSON or comma-separated tool names",
                ),
            );
        },
        EnvValue::Value(t) => t,
    };
    let raw = text::trim(value.as_str());
    let cs = text::chars_of(raw.as_str());
    if cs.len() == 0 {
        let none: Vec<String> = Vec::new();
        assert(text::texts(none@) =~= Seq::<Seq<char>>::empty());
        return Ok(Some(none));
    }
    if cs[0] == '[' {
        match json::parse_text_list(raw.as_str()) {
            Ok(v) => Ok(Some(v)),
            Err(e) => Err(
                text::cat3(IQ_ALLOWLIST_ENV, " must be a JSON array of strings: ", e.as_str()),
            ),
        }
    } else {
        Ok(Some(split_names(raw.as_str())))
    }
}

/// A module that may be read lies in an allowed directory twice over: by its
/// text, and by where it really is.
pub proof fn lemma_modules_stay_inside(
    wasm_path: Seq<char>,
    current_dir: Seq<char>,
    dirs: Seq<Seq<char>>,
    resolved: Option<Seq<char>>,
    is_file: bool,
)
    requires
        found_module(wasm_path, current_dir, dirs, resolved, is_file) is Ok,
    ensures
        is_file,
        resolved == Some(found_module(wasm_path, current_dir, dirs, resolved, is_file)->Ok_0),
        paths::under_any(resolved->0, dirs),
        paths::lexically_under_any(paths::joined_path(current_dir, wasm_path), dirs),
{
}

/// A path outside is refused alike whether or not there is such a file.
pub proof fn lemma_refusals_do_not_tell(
    wasm_path: Seq<char>,
    current_dir: Seq<char>,
    dirs: Seq<Seq<char>>,
    resolved: Option<Seq<char>>,
    is_file: bool,
)
    requires
        !paths::lexically_under_any(paths::joined_path(current_dir, wasm_path), dirs),
    ensures
        found_module(wasm_path, current_dir, dirs, resolved, is_file) == found_module(
            wasm_path,
            current_dir,
            dirs,
            None,
            false,
        ),
{
}

/// The operator's list never holds everything.
pub proof fn lemma_allowlist_excludes_all(specs: Seq<CapabilitySpec>)
    requires
        entries_of(specs) is Ok,
    ensures
        !entries_of(specs)->Ok_0.contains(Cap::All),
    decreases specs.len(),
{
    if specs.len() > 0 {
        lemma_allowlist_excludes_all(specs.drop_last());
        let before = entries_of(specs.drop_last())->Ok_0;
        let now = entries_of(specs)->Ok_0;
        if now.contains(Cap::All) {
            let i = choose|i: int| 0 <= i < now.len() && now[i] == Cap::All;
            if i < before.len() {
                assert(before[i] == now[i]);
                assert(before.contains(Cap::All));
            }
        }
    }
}

/// A number that is set is taken, one that is not leaves none, and what is no
/// number is refused under the name of its setting.
pub proof fn lemma_numbers_are_taken(name: Seq<char>, t: Seq<char>, n: u64)
    ensures
        optional_number(name, env::Setting::Absent) == Ok::<Option<u64>, Seq<char>>(None),
        optional_number(name, env::Setting::Value(t)) matches Ok(x) ==> x is Some && text::number(t)
            == Some(x->0 as nat),
        optional_number(name, env::Setting::Value(text::decimal(n as nat))) == Ok::<
            Option<u64>,
            Seq<char>,
        >(Some(n)),
        optional_number(name, env::Setting::NotUnicode) is Err,
        optional_number(name, env::Setting::Value(t)) matches Err(e) ==> text::starts(e, name),
{
    text::lemma_decimals_read_back(n as nat);
    let lead = name + " must be an unsigned integer: "@ + env::number_fault(t);
    assert(lead.subrange(0, name.len() as int) =~= name);
}

/// A proof is returned whole only where one of the words for that is set, in
/// whatever case.
pub proof fn lemma_full_proofs_are_asked_for(w: Seq<char>, l: Seq<char>)
    requires
        l == text::ascii_lowered(w),
    ensures
        wants_full(w) <==> l == "1"@ || l == "true"@ || l == "yes"@ || l == "on"@ || l == "debug"@
            || l == "enabled"@,
        l == "0"@ || l == "false"@ || l == "no"@ || l == "off"@ || l == ""@ ==> !wants_full(w),
{
    reveal_strlit("1");
    reveal_strlit("true");
    reveal_strlit("yes");
    reveal_strlit("on");
    reveal_strlit("debug");
    reveal_strlit("enabled");
    reveal_strlit("0");
    reveal_strlit("false");
    reveal_strlit("no");
    reveal_strlit("off");
    reveal_strlit("");
    if l == "0"@ {
        assert(l[0] != "1"@[0]);
    } else if l == "false"@ {
        assert(l.len() == 5 && l[0] != "debug"@[0]);
    } else if l == "no"@ {
        assert(l.len() == 2 && l[0] != "on"@[0]);
    } else if l == "off"@ {
        assert(l.len() == 3 && l[0] != "yes"@[0]);
    }
}

/// Directories are taken all or none: each as it was resolved and in its order,
/// or a fault that names one of them.
pub proof fn lemma_directories_are_taken_in_order(
    dirs: Seq<NamedDir>,
    head: Seq<char>,
    tail: Seq<char>,
    i: int,
)
    requires
        0 <= i < dirs.len(),
    ensures
        dirs_of(dirs, head, tail) matches Ok(v) ==> v.len() == dirs.len() && (
        dirs[i].found matches ResolvedDir::Dir(p) && v[i] == p@),
        !(dirs[i].found is Dir) ==> dirs_of(dirs, head, tail) is Err,
    decreases dirs.len(),
{
    lemma_directories_len(dirs.drop_last(), head, tail);
    if i < dirs.len() - 1 {
        lemma_directories_are_taken_in_order(dirs.drop_last(), head, tail, i);
    }
}

proof fn lemma_directories_len(dirs: Seq<NamedDir>, head: Seq<char>, tail: Seq<char>)
    ensures
        dirs_of(dirs, head, tail) matches Ok(v) ==> v.len() == dirs.len(),
    decreases dirs.len(),
{
    if dirs.len() > 0 {
        lemma_directories_len(dirs.drop_last(), head, tail);
    }
}

/// A fault of a directory names it.
pub proof fn lemma_directory_faults_name_it(d: NamedDir, head: Seq<char>, tail: Seq<char>)
    ensures
        dir_fault(d, head, tail) is None <==> d.found is Dir,
        dir_fault(d, head, tail) matches Some(t) ==> text::starts(t, head) && text::has_text(
            t,
            d.shown@,
        ),
{
    if dir_fault(d, head, tail) is Some {
        let why = match d.found {
            ResolvedDir::Missing(e) => e@,
            _ => tail,
        };
        let t = head + " '"@ + d.shown@ + "': "@ + why;
        assert(t.subrange(0, head.len() as int) =~= head);
        text::lemma_part_is_held(head + " '"@, d.shown@, "': "@);
        text::lemma_held_in_longer(
            Seq::empty(),
            head + " '"@ + d.shown@ + "': "@,
            why,
            d.shown@,
        );
    }
}

/// A list of capabilities is taken as it was written: without one there is none,
/// with one each entry is read in its order, and none of them is everything.
pub proof fn lemma_listed_capabilities_are_read_in_order(specs: Seq<CapabilitySpec>, i: int)
    requires
        0 <= i < specs.len(),
    ensures
        entries_of(specs) matches Ok(v) ==> v.len() == specs.len() && Ok::<Cap, Seq<char>>(v[i])
            == capability::capability_from_spec(specs[i].kind@, text::opt_text(specs[i].path))
            && !(v[i] is All),
        capability::capability_from_spec(specs[i].kind@, text::opt_text(specs[i].path)) is Err
            ==> entries_of(specs) is Err,
        allowlist_of(AllowlistSetting::Absent) == Ok::<Option<Seq<Cap>>, Seq<char>>(None),
        allowlist_of(AllowlistSetting::NotUnicode) is Err,
    decreases specs.len(),
{
    lemma_entries_len(specs.drop_last());
    if i < specs.len() - 1 {
        lemma_listed_capabilities_are_read_in_order(specs.drop_last(), i);
    }
}

proof fn lemma_entries_len(specs: Seq<CapabilitySpec>)
    ensures
        entries_of(specs) matches Ok(v) ==> v.len() == specs.len(),
    decreases specs.len(),
{
    if specs.len() > 0 {
        lemma_entries_len(specs.drop_last());
    }
}

/// Tools are listed by their names between commas, without white space; blank
/// places name nothing.
pub proof fn lemma_names_are_listed(parts: Seq<Seq<char>>, n: Seq<char>)
    ensures
        listed_names(parts).contains(n) <==> n.len() > 0 && exists|i: int|
            0 <= i < parts.len() && text::trimmed(#[trigger] parts[i]) == n,
    decreases parts.len(),
{
    if parts.len() > 0 {
        let before = parts.drop_last();
        lemma_names_are_listed(before, n);
        let kept = listed_names(before);
        let all = listed_names(parts);
        if all.contains(n) {
            let i = choose|i: int| 0 <= i < all.len() && all[i] == n;
            if i < kept.len() {
                assert(kept[i] == n);
                let j = choose|j: int|
                    0 <= j < before.len() && text::trimmed(#[trigger] before[j]) == n;
                assert(text::trimmed(parts[j]) == n);
            } else {
                assert(text::trimmed(parts[parts.len() - 1]) == n);
            }
        }
        if n.len() > 0 && exists|i: int|
            0 <= i < parts.len() && text::trimmed(#[trigger] parts[i]) == n {
            let j = choose|j: int| 0 <= j < parts.len() && text::trimmed(#[trigger] parts[j]) == n;
            if j < before.len() {
                assert(text::trimmed(before[j]) == n);
                let i = choose|i: int| 0 <= i < kept.len() && kept[i] == n;
                assert(all[i] == n);
            } else {
                assert(all[all.len() - 1] == n);
            }
        }
    }
}

/// Without a list every tool may be called; a blank one names none.
pub proof fn lemma_tool_lists(t: Seq<char>)
    ensures
        iq_allowlist_of(env::Setting::Absent) == Ok::<Option<Seq<Seq<char>>>, Seq<char>>(None),
        text::trimmed(t).len() == 0 ==> iq_allowlist_of(env::Setting::Value(t)) == Ok::<
            Option<Seq<Seq<char>>>,
            Seq<char>,
        >(Some(Seq::empty())),
        iq_allowlist_of(env::Setting::NotUnicode) is Err,
        text::trimmed(t).len() > 0 && text::trimmed(t)[0] != '[' ==> iq_allowlist_of(
            env::Setting::Value(t),
        ) is Ok,
{
}

/// The fuel is set by the fuel's variable and the time by the time's, each alone;
/// what is not set stays as it was.
pub proof fn lemma_limits_are_set_by_name(
    limits: SandboxLimits,
    fuel: env::Setting,
    timeout: env::Setting,
    r: Result<SandboxLimits, String>,
)
    requires
        are_limits(limits, fuel, timeout, r),
    ensures
        r is Ok && fuel is Absent ==> r->Ok_0.max_fuel == limits.max_fuel,
        r is Ok && timeout is Absent ==> r->Ok_0.time_limit_ms == limits.time_limit_ms,
        r is Ok && fuel is Value ==> text::number(fuel->Value_0) == Some(
            r->Ok_0.max_fuel as nat,
        ),
        r is Ok && timeout is Value ==> text::number(timeout->Value_0) == Some(
            r->Ok_0.time_limit_ms as nat,
        ),
        fuel is Absent && timeout is Absent ==> r is Ok,
        fuel is NotUnicode || timeout is NotUnicode ==> r is Err,
{
}

/// Callers reach the server as the word says, and by its standard streams where
/// there is none; another word is refused and told.
pub proof fn lemma_transports_are_chosen_by_word(v: env::Setting, r: Result<Transport, String>)
    requires
        is_transport(v, r),
    ensures
        v is Absent ==> r == Ok::<Transport, String>(Transport::Stdio),
        v matches env::Setting::Value(t) ==> (r == Ok::<Transport, String>(Transport::Http) <==> t
            == "http"@),
        v matches env::Setting::Value(t) ==> (r == Ok::<Transport, String>(Transport::Stdio) <==> t
            == "stdio"@),
        r matches Err(e) ==> (v matches env::Setting::Value(t) && text::has_text(e@, t)),
{
    reveal_strlit("http");
    reveal_strlit("stdio");
    assert("http"@.len() != "stdio"@.len());
    if r is Err {
        let w = word_or(v, "stdio"@);
        text::lemma_part_is_held(
            "unsupported "@ + TRANSPORT_ENV@ + " value '"@,
            w,
            "', expected 'stdio' or 'http'"@,
        );
    }
}

/// The directories that modules are read from.
pub open spec fn dirs_chosen(profile_dirs: Seq<NamedDir>, env_dirs: Seq<NamedDir>) -> Result<
    Seq<Seq<char>>,
    Seq<char>,
> {
    if profile_dirs.len() > 0 {
        dirs_of(profile_dirs, "invalid profile module dir"@, "not a directory"@)
    } else if env_dirs.len() > 0 {
        dirs_of(env_dirs, "invalid MCP module dir"@, "resolved path is not a directory"@)
    } else {
        Err(MODULE_DIR_ENV@ + " must contain at least one module directory"@)
    }
}

/// The profile's directories go before those of the environment; there is always
/// at least one, and each is one that was named and found.
pub proof fn lemma_profile_directories_come_first(
    profile_dirs: Seq<NamedDir>,
    env_dirs: Seq<NamedDir>,
    i: int,
)
    ensures
        dirs_chosen(profile_dirs, env_dirs) matches Ok(v) ==> {
            let named = if profile_dirs.len() > 0 {
                profile_dirs
            } else {
                env_dirs
            };
            &&& v.len() == named.len() && v.len() > 0
            &&& 0 <= i < v.len() ==> (named[i].found matches ResolvedDir::Dir(p) && v[i] == p@)
        },
        profile_dirs.len() == 0 && env_dirs.len() == 0 ==> dirs_chosen(profile_dirs, env_dirs)
            is Err,
{
    let h = "invalid profile module dir"@;
    let t = "not a directory"@;
    let g = "invalid MCP module dir"@;
    let u = "resolved path is not a directory"@;
    lemma_directories_len(profile_dirs, h, t);
    lemma_directories_len(env_dirs, g, u);
    if 0 <= i < profile_dirs.len() {
        lemma_directories_are_taken_in_order(profile_dirs, h, t, i);
    }
    if 0 <= i < env_dirs.len() {
        lemma_directories_are_taken_in_order(env_dirs, g, u, i);
    }
}

/// Whether `r` judges a path by its text.
pub open spec fn is_judged(
    path: Seq<char>,
    current_dir: Seq<char>,
    dirs: Seq<Seq<char>>,
    r: Result<(), NexusError>,
) -> bool {
    match r {
        Ok(_) => paths::lexically_under_any(paths::joined_path(current_dir, path), dirs),
        Err(e) => e@ == outside(path) && !paths::lexically_under_any(
            paths::joined_path(current_dir, path),
            dirs,
        ),
    }
}

/// A path passes exactly if what it comes to lies below an allowed directory; a
/// refusal names the path, and where no directory is allowed all are refused.
pub proof fn lemma_paths_outside_are_refused(
    path: Seq<char>,
    current_dir: Seq<char>,
    dirs: Seq<Seq<char>>,
    r: Result<(), NexusError>,
    i: int,
)
    requires
        is_judged(path, current_dir, dirs, r),
    ensures
        0 <= i < dirs.len() && paths::under(
            paths::normal(paths::joined_path(current_dir, path)),
            paths::normal(dirs[i]),
        ) ==> r is Ok,
        dirs.len() == 0 ==> r is Err,
        r matches Err(e) ==> (e@ matches Fault::FilesystemError(t) && text::has_text(t, path)),
{
    if r is Err {
        text::lemma_part_is_held(
            "wasm path '"@,
            path,
            "' is outside allowed MCP module directories"@,
        );
    }
}

} // verus!
