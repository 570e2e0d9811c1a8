//! Capabilities as callers and operators write them.

use crate::mcp::params::CapabilitySpec;
use crate::security;
use crate::security::{Cap, Capability, MemoryScope};
use crate::text;
use vstd::prelude::*;
use vstd::string::*;

verus! {

/// The capability to see restored memory.
pub const NEXUS_MEMORY_PREVIEW_CAPABILITY: &'static str = "nexus:memory_preview";

/// How long a token lasts at most, in seconds.
pub const MAX_TOKEN_VALIDITY_SECS: u64 = 3600;

/// The capability of a type and a path; none where the type is not known or the
/// path is missing or no scope.
pub open spec fn capability_of(kind: Seq<char>, path: Option<Seq<char>>) -> Option<Cap> {
    if kind == "memory_preview"@ || kind == NEXUS_MEMORY_PREVIEW_CAPABILITY@ {
        Some(Cap::MemoryPreview)
    } else if kind == "all"@ {
        Some(Cap::All)
    } else {
        match path {
            None => None,
            Some(p) => if kind == "read_file"@ {
                Some(Cap::ReadFile(p))
            } else if kind == "write_file"@ {
                Some(Cap::WriteFile(p))
            } else if kind == "list_dir"@ {
                Some(Cap::ListDirectory(p))
            } else if kind == "http_get"@ {
                Some(Cap::HttpGet(p))
            } else if kind == "http_post"@ {
                Some(Cap::HttpPost(p))
            } else if kind == "execute"@ {
                Some(Cap::ExecuteBinary(p))
            } else if kind == "mount_tmpfs"@ {
                Some(Cap::MountTmpfs(p))
            } else if kind == "read_memory"@ {
                match security::scope_of(p) {
                    Some(m) => Some(Cap::ReadMemory(m)),
                    None => None,
                }
            } else if kind == "write_memory"@ {
                match security::scope_of(p) {
                    Some(m) => Some(Cap::WriteMemory(m)),
                    None => None,
                }
            } else {
                None
            },
        }
    }
}

/// The contents of an optional capability.
pub open spec fn opt_cap(o: Option<Capability>) -> Option<Cap> {
    match o {
        Some(c) => Some(c@),
        None => None,
    }
}

/// The capability of a type and a path.
pub fn parse_capability_from_str(cap_type: &str, path: Option<&str>) -> (r: Option<Capability>)
    ensures
        opt_cap(r) == capability_of(cap_type@, crate::daemon::slice_text(path)),
{
    if text::same_text(cap_type, "memory_preview") || text::same_text(
        cap_type,
        NEXUS_MEMORY_PREVIEW_CAPABILITY,
    ) {
        return Some(Capability::MemoryPreview);
    }
    if text::same_text(cap_type, "all") {
        return Some(Capability::All);
    }
    let p: &str = match path {
        Some(p) => p,
        None => {
            return None;
        },
    };
    if text::same_text(cap_type, "read_file") {
        Some(Capability::ReadFile(p.to_string()))
    } else if text::same_text(cap_type, "write_file") {
        Some(Capability::WriteFile(p.to_string()))
    } else if text::same_text(cap_type, "list_dir") {
        Some(Capability::ListDirectory(p.to_string()))
    } else if text::same_text(cap_type, "http_get") {
        Some(Capability::HttpGet(p.to_string()))
    } else if text::same_text(cap_type, "http_post") {
        Some(Capability::HttpPost(p.to_string()))
    } else if text::same_text(cap_type, "execute") {
        Some(Capability::ExecuteBinary(p.to_string()))
    } else if text::same_text(cap_type, "mount_tmpfs") {
        Some(Capability::MountTmpfs(p.to_string()))
    } else if text::same_text(cap_type, "read_memory") {
        match MemoryScope::parse(p) {
            Some(m) => Some(Capability::ReadMemory(m)),
            None => None,
        }
    } else if text::same_text(cap_type, "write_memory") {
        match MemoryScope::parse(p) {
            Some(m) => Some(Capability::WriteMemory(m)),
            None => None,
        }
    } else {
        None
    }
}

/// The types that need a path.
pub open spec fn needs_path(kind: Seq<char>) -> bool {
    kind == "read_file"@ || kind == "write_file"@ || kind == "list_dir"@ || kind == "execute"@
        || kind == "mount_tmpfs"@ || kind == "read_memory"@ || kind == "write_memory"@
}

/// The types that need a pattern.
pub open spec fn needs_pattern(kind: Seq<char>) -> bool {
    kind == "http_get"@ || kind == "http_post"@
}

/// The capability that a caller wrote, or what is wrong with it.
pub open spec fn capability_from_spec(kind: Seq<char>, path: Option<Seq<char>>) -> Result<
    Cap,
    Seq<char>,
> {
    if needs_path(kind) && path is None {
        Err("capability type '"@ + kind + "' requires a 'path' field"@)
    } else if needs_pattern(kind) && path is None {
        Err("capability type '"@ + kind + "' requires a 'path' (URL pattern) field"@)
    } else {
        match capability_of(kind, path) {
            Some(c) => Ok(c),
            None => Err("Unknown capability type: "@ + kind),
        }
    }
}

/// The outcome of reading a capability.
pub open spec fn cap_outcome(r: Result<Capability, String>) -> Result<Cap, Seq<char>> {
    match r {
        Ok(c) => Ok(c@),
        Err(e) => Err(e@),
    }
}

/// The text behind an optional text.
pub(crate) fn opt_str(o: &Option<String>) -> (r: Option<&str>)
    ensures
        crate::daemon::slice_text(r) == text::opt_text(*o),
{
    match o {
        Some(t) => Some(t.as_str()),
        None => None,
    }
}

/// The capability that a caller wrote.
pub fn parse_capability(spec: &CapabilitySpec) -> (r: Result<Capability, String>)
    ensures
        cap_outcome(r) == capability_from_spec(spec.kind@, text::opt_text(spec.path)),
{
    let kind = spec.kind.as_str();
    let path_required: bool = text::same_text(kind, "read_file") || text::same_text(
        kind,
        "write_file",
    ) || text::same_text(kind, "list_dir") || text::same_text(kind, "execute") || text::same_text(
        kind,
        "mount_tmpfs",
    ) || text::same_text(kind, "read_memory") || text::same_text(kind, "write_memory");
    if path_required && spec.path.is_none() {
        return Err(text::cat3("capability type '", kind, "' requires a 'path' field"));
    }
    let url_required: bool = text::same_text(kind, "http_get") || text::same_text(
        kind,
        "http_post",
    );
    if url_required && spec.path.is_none() {
        return Err(
            text::cat3("capability type '", kind, "' requires a 'path' (URL pattern) field"),
        );
    }
    match parse_capability_from_str(kind, opt_str(&spec.path)) {
        Some(c) => Ok(c),
        None => Err(text::cat2("Unknown capability type: ", kind)),
    }
}

/// The capabilities that a caller wrote: the first that is wrong decides.
pub open spec fn capabilities_from_specs(specs: Seq<CapabilitySpec>) -> Result<Seq<Cap>, Seq<char>>
    decreases specs.len(),
{
    if specs.len() == 0 {
        Ok(Seq::empty())
    } else {
        match capabilities_from_specs(specs.drop_last()) {
            Err(e) => Err(e),
            Ok(before) => match capability_from_spec(
                specs.last().kind@,
                text::opt_text(specs.last().path),
            ) {
                Err(e) => Err(e),
                Ok(c) => Ok(before.push(c)),
            },
        }
    }
}

/// The outcome of reading capabilities.
pub open spec fn caps_outcome(r: Result<Vec<Capability>, String>) -> Result<Seq<Cap>, Seq<char>> {
    match r {
        Ok(v) => Ok(security::caps(v@)),
        Err(e) => Err(e@),
    }
}

/// A first error of a list stays the first.
proof fn lemma_first_error_stays(specs: Seq<CapabilitySpec>, k: int)
    requires
        0 <= k <= specs.len(),
        capabilities_from_specs(specs.take(k)) is Err,
    ensures
        capabilities_from_specs(specs) == capabilities_from_specs(specs.take(k)),
    decreases specs.len() - k,
{
    if k < specs.len() {
        assert(specs.take(k + 1).drop_last() =~= specs.take(k));
        lemma_first_error_stays(specs, k + 1);
    } else {
        assert(specs.take(k) =~= specs);
    }
}

/// The capabilities that a caller wrote.
pub fn parse_capabilities(specs: &Vec<CapabilitySpec>) -> (r: Result<Vec<Capability>, String>)
    ensures
        caps_outcome(r) == capabilities_from_specs(specs@),
{
    let mut out: Vec<Capability> = Vec::new();
    let mut i: usize = 0;
    assert(security::caps(out@) =~= Seq::<Cap>::empty());
    while i < specs.len()
        invariant
            i <= specs.len(),
            capabilities_from_specs(specs@.take(i as int)) == Ok::<Seq<Cap>, Seq<char>>(
                security::caps(out@),
            ),
        decreases specs.len() - i,
    {
        let ghost before = security::caps(out@);
        assert(specs@.take(i + 1).drop_last() =~= specs@.take(i as int));
        match parse_capability(&specs[i]) {
            Err(e) => {
                proof {
                    lemma_first_error_stays(specs@, i + 1);
                }
                return Err(e);
            },
            Ok(c) => {
                let ghost cv = c@;
                out.push(c);
                assert(security::caps(out@) =~= before.push(cv));
            },
        }
        i = i + 1;
    }
    assert(specs@.take(specs.len() as int) =~= specs@);
    Ok(out)
}

/// The capability that a description stands for, or what is wrong with it. A
/// description is a JSON object, read as `object`, or a word and a value.
/// `url_fault` says what is wrong with the value as a pattern of addresses.
pub open spec fn described(
    spec: Seq<char>,
    object: Option<CapabilitySpec>,
    url_fault: Option<Seq<char>>,
) -> Result<Cap, Seq<char>> {
    if object is Some {
        capability_from_spec(object->0.kind@, text::opt_text(object->0.path))
    } else if spec == "memory_preview"@ || spec == NEXUS_MEMORY_PREVIEW_CAPABILITY@ {
        Ok(Cap::MemoryPreview)
    } else {
        match text::cut(spec, ':') {
            None => Err("invalid capability '"@ + spec + "'; expected kind:value"@),
            Some(p) => if (p.0 == "http_get"@ || p.0 == "http_post"@) && url_fault is Some {
                Err(url_fault->0)
            } else {
                match capability_in_words(p.0, p.1) {
                    Some(c) => Ok(c),
                    None => Err("unknown capability type: "@ + p.0),
                }
            },
        }
    }
}

/// The capability of a word and a value.
pub open spec fn capability_in_words(kind: Seq<char>, value: Seq<char>) -> Option<Cap> {
    if kind == "read"@ || kind == "read_file"@ {
        Some(Cap::ReadFile(value))
    } else if kind == "write"@ || kind == "write_file"@ {
        Some(Cap::WriteFile(value))
    } else if kind == "list"@ || kind == "list_dir"@ {
        Some(Cap::ListDirectory(value))
    } else if kind == "http_get"@ {
        Some(Cap::HttpGet(value))
    } else if kind == "http_post"@ {
        Some(Cap::HttpPost(value))
    } else if kind == "read_memory"@ {
        read_scope(value)
    } else if kind == "write_memory"@ {
        write_scope(value)
    } else if kind == "exec"@ || kind == "execute"@ {
        Some(Cap::ExecuteBinary(value))
    } else if kind == "tmpfs"@ || kind == "mount_tmpfs"@ {
        Some(Cap::MountTmpfs(value))
    } else if kind == "nexus"@ {
        if value == "memory_recall"@ {
            Some(Cap::MemoryRecall)
        } else if text::starts(value, "read_memory:"@) {
            read_scope(value.skip("read_memory:"@.len() as int))
        } else if text::starts(value, "write_memory:"@) {
            write_scope(value.skip("write_memory:"@.len() as int))
        } else {
            None
        }
    } else {
        None
    }
}

/// Reading the memory of a scope.
pub open spec fn read_scope(s: Seq<char>) -> Option<Cap> {
    match security::scope_of(s) {
        Some(m) => Some(Cap::ReadMemory(m)),
        None => None,
    }
}

/// Writing the memory of a scope.
pub open spec fn write_scope(s: Seq<char>) -> Option<Cap> {
    match security::scope_of(s) {
        Some(m) => Some(Cap::WriteMemory(m)),
        None => None,
    }
}

fn reading(s: &str) -> (r: Option<Capability>)
    ensures
        opt_cap(r) == read_scope(s@),
{
    match MemoryScope::parse(s) {
        Some(m) => Some(Capability::ReadMemory(m)),
        None => None,
    }
}

fn writing(s: &str) -> (r: Option<Capability>)
    ensures
        opt_cap(r) == write_scope(s@),
{
    match MemoryScope::parse(s) {
        Some(m) => Some(Capability::WriteMemory(m)),
        None => None,
    }
}

fn in_words(kind: &str, value: &str) -> (r: Option<Capability>)
    ensures
        opt_cap(r) == capability_in_words(kind@, value@),
{
    if text::same_text(kind, "read") || text::same_text(kind, "read_file") {
        Some(Capability::ReadFile(value.to_string()))
    } else if text::same_text(kind, "write") || text::same_text(kind, "write_file") {
        Some(Capability::WriteFile(value.to_string()))
    } else if text::same_text(kind, "list") || text::same_text(kind, "list_dir") {
        Some(Capability::ListDirectory(value.to_string()))
    } else if text::same_text(kind, "http_get") {
        Some(Capability::HttpGet(value.to_string()))
    } else if text::same_text(kind, "http_post") {
        Some(Capability::HttpPost(value.to_string()))
    } else if text::same_text(kind, "read_memory") {
        reading(value)
    } else if text::same_text(kind, "write_memory") {
        writing(value)
    } else if text::same_text(kind, "exec") || text::same_text(kind, "execute") {
        Some(Capability::ExecuteBinary(value.to_string()))
    } else if text::same_text(kind, "tmpfs") || text::same_text(kind, "mount_tmpfs") {
        Some(Capability::MountTmpfs(value.to_string()))
    } else if text::same_text(kind, "nexus") {
        if text::same_text(value, "memory_recall") {
            Some(Capability::MemoryRecall)
        } else if text::starts_with(value, "read_memory:") {
            let rest = text::text_from(value, text::chars_of("read_memory:").len());
            reading(rest.as_str())
        } else if text::starts_with(value, "write_memory:") {
            let rest = text::text_from(value, text::chars_of("write_memory:").len());
            writing(rest.as_str())
        } else {
            None
        }
    } else {
        None
    }
}

/// The capability that a description stands for.
pub fn parse_iq_capability(
    spec: &str,
    object: &Option<CapabilitySpec>,
    url_fault: &Option<String>,
) -> (r: Result<Capability, String>)
    ensures
        cap_outcome(r) == described(spec@, *object, text::opt_text(*url_fault)),
{
    if let Some(value) = object {
        return parse_capability(value);
    }
    if text::same_text(spec, "memory_preview") || text::same_text(
        spec,
        NEXUS_MEMORY_PREVIEW_CAPABILITY,
    ) {
        return Ok(Capability::MemoryPreview);
    }
    match text::split_once(spec, ':') {
        None => Err(text::cat3("invalid capability '", spec, "'; expected kind:value")),
        Some(p) => {
            if text::same_text(p.0.as_str(), "http_get") || text::same_text(
                p.0.as_str(),
                "http_post",
            ) {
                if let Some(e) = url_fault {
                    return Err(e.clone());
                }
            }
            match in_words(p.0.as_str(), p.1.as_str()) {
                Some(c) => Ok(c),
                None => Err(text::cat2("unknown capability type: ", p.0.as_str())),
            }
        },
    }
}

/// What is granted of a request for a token: never everything, and never for
/// longer than the limit.
pub open spec fn granted(c: Cap, secs: Option<u64>) -> Result<(Cap, u64), Seq<char>> {
    if c is All {
        Err("capability 'all' cannot be issued to MCP clients; request a specific capability"@)
    } else {
        Ok(
            (
                c,
                match secs {
                    Some(s) => if s < MAX_TOKEN_VALIDITY_SECS {
                        s
                    } else {
                        MAX_TOKEN_VALIDITY_SECS
                    },
                    None => MAX_TOKEN_VALIDITY_SECS,
                },
            ),
        )
    }
}

/// The outcome of a request for a token.
pub open spec fn grant_outcome(r: Result<(Capability, u64), String>) -> Result<
    (Cap, u64),
    Seq<char>,
> {
    match r {
        Ok(g) => Ok((g.0@, g.1)),
        Err(e) => Err(e@),
    }
}

/// What is granted of a request for a token.
pub fn sanitize_token_request(capability: Capability, requested_secs: Option<u64>) -> (r: Result<
    (Capability, u64),
    String,
>)
    ensures
        grant_outcome(r) == granted(capability@, requested_secs),
{
    if let Capability::All = capability {
        return Err(
            "capability 'all' cannot be issued to MCP clients; request a specific capability".to_string(),
        );
    }
    let secs: u64 = match requested_secs {
        Some(s) => if s < MAX_TOKEN_VALIDITY_SECS {
            s
        } else {
            MAX_TOKEN_VALIDITY_SECS
        },
        None => MAX_TOKEN_VALIDITY_SECS,
    };
    Ok((capability, secs))
}

/// The capability that recalling an agent's memory takes.
pub fn required_read_memory_scope(aeon_agent_id: &str, aeon_session_id: Option<&str>) -> (r:
    Capability)
    ensures
        r@ == recall_takes(aeon_agent_id@, crate::daemon::slice_text(aeon_session_id)),
{
    match aeon_session_id {
        Some(s) => Capability::ReadMemory(
            MemoryScope::Session {
                agent_id: aeon_agent_id.to_string(),
                session_id: s.to_string(),
            },
        ),
        None => Capability::ReadMemory(MemoryScope::Agent(aeon_agent_id.to_string())),
    }
}

/// A capability that a caller wrote is of the kind whose name the caller wrote,
/// and speaks of the path that they gave: so two types never come to one kind.
/// The only other name is the long one of the memory preview.
pub proof fn lemma_written_capability_is_of_its_type(kind: Seq<char>, path: Option<Seq<char>>)
    ensures
        match capability_from_spec(kind, path) {
            Ok(c) => {
                &&& kind == security::kind_name(c) || (c is MemoryPreview && kind
                    == NEXUS_MEMORY_PREVIEW_CAPABILITY@)
                &&& security::spoken_of(c) is Some ==> security::spoken_of(c) == path
                &&& security::scope_spoken_of(c) is Some ==> path is Some
                    && security::scope_spoken_of(c) == security::scope_of(path->0)
                &&& !(c is MemoryRecall) && !(c is Nothing)
            },
            Err(e) => text::has_text(e, kind),
        },
{
    if needs_path(kind) && path is None {
        text::lemma_part_is_held(
            "capability type '"@,
            kind,
            "' requires a 'path' field"@,
        );
    } else if needs_pattern(kind) && path is None {
        text::lemma_part_is_held(
            "capability type '"@,
            kind,
            "' requires a 'path' (URL pattern) field"@,
        );
    } else if capability_of(kind, path) is None {
        text::lemma_part_is_held("Unknown capability type: "@, kind, Seq::empty());
        assert("Unknown capability type: "@ + kind + Seq::<char>::empty()
            =~= "Unknown capability type: "@ + kind);
    }
}

/// What a capability is called and speaks of is enough to write it: written that
/// way, it is read back as it was.
pub proof fn lemma_written_capability_reads_back(c: Cap)
    requires
        !(c is MemoryRecall) && !(c is Nothing),
        security::scope_spoken_of(c) is None,
    ensures
        capability_from_spec(security::kind_name(c), security::spoken_of(c)) == Ok::<
            Cap,
            Seq<char>,
        >(c),
{
    let kind = security::kind_name(c);
    let path = security::spoken_of(c);
    lemma_written_capability_is_of_its_type(kind, path);
    reveal_strlit("nexus:memory_preview");
    assert(NEXUS_MEMORY_PREVIEW_CAPABILITY@.len() == 20);
    assert(kind != NEXUS_MEMORY_PREVIEW_CAPABILITY@) by {
        reveal_strlit("read_file");
        reveal_strlit("write_file");
        reveal_strlit("list_dir");
        reveal_strlit("http_get");
        reveal_strlit("http_post");
        reveal_strlit("execute");
        reveal_strlit("mount_tmpfs");
        reveal_strlit("memory_preview");
        reveal_strlit("all");
    }
    if path is None {
        let t = Seq::<char>::empty();
        let s = security::Scope::Agent(t);
        if kind == "read_file"@ {
            security::lemma_kind_names_differ(c, Cap::ReadFile(t));
        } else if kind == "write_file"@ {
            security::lemma_kind_names_differ(c, Cap::WriteFile(t));
        } else if kind == "list_dir"@ {
            security::lemma_kind_names_differ(c, Cap::ListDirectory(t));
        } else if kind == "execute"@ {
            security::lemma_kind_names_differ(c, Cap::ExecuteBinary(t));
        } else if kind == "mount_tmpfs"@ {
            security::lemma_kind_names_differ(c, Cap::MountTmpfs(t));
        } else if kind == "http_get"@ {
            security::lemma_kind_names_differ(c, Cap::HttpGet(t));
        } else if kind == "http_post"@ {
            security::lemma_kind_names_differ(c, Cap::HttpPost(t));
        } else if kind == "read_memory"@ {
            lemma_memory_names_differ(c, Cap::ReadMemory(s));
        } else if kind == "write_memory"@ {
            lemma_memory_names_differ(c, Cap::WriteMemory(s));
        }
    }
    match capability_from_spec(kind, path) {
        Ok(d) => {
            security::lemma_kind_names_differ(c, d);
        },
        Err(_) => {},
    }
}

/// No capability without a scope is called like one with a scope.
proof fn lemma_memory_names_differ(c: Cap, d: Cap)
    requires
        security::scope_spoken_of(c) is None,
        security::scope_spoken_of(d) is Some,
    ensures
        security::kind_name(c) != security::kind_name(d),
{
    reveal_strlit("read_file");
    reveal_strlit("write_file");
    reveal_strlit("list_dir");
    reveal_strlit("http_get");
    reveal_strlit("http_post");
    reveal_strlit("execute");
    reveal_strlit("mount_tmpfs");
    reveal_strlit("read_memory");
    reveal_strlit("write_memory");
    reveal_strlit("memory_recall");
    reveal_strlit("memory_preview");
    reveal_strlit("all");
    reveal_strlit("none");
    let s = security::kind_name(c);
    let t = security::kind_name(d);
    assert(s.len() != t.len() || s[0] != t[0]);
}

/// A described capability is of the kind that its word names, and speaks of the
/// value behind the word.
pub proof fn lemma_worded_capability_is_of_its_word(kind: Seq<char>, value: Seq<char>)
    ensures
        match capability_in_words(kind, value) {
            Some(c) => {
                ||| kind == security::kind_name(c)
                ||| (c is ReadFile && kind == "read"@)
                ||| (c is WriteFile && kind == "write"@)
                ||| (c is ListDirectory && kind == "list"@)
                ||| (c is ExecuteBinary && kind == "exec"@)
                ||| (c is MountTmpfs && kind == "tmpfs"@)
                ||| (kind == "nexus"@ && text::starts(value, security::kind_name(c)) && (
                c is ReadMemory || c is WriteMemory || c is MemoryRecall))
            },
            None => true,
        },
        capability_in_words(kind, value) matches Some(c) ==> (security::spoken_of(c) is Some
            ==> security::spoken_of(c) == Some(value)),
        capability_in_words(kind, value) matches Some(c) ==> !(c is All) && !(c is Nothing)
            && !(c is MemoryPreview),
{
    reveal_strlit("read_memory:");
    reveal_strlit("write_memory:");
    reveal_strlit("read_memory");
    reveal_strlit("write_memory");
    if text::starts(value, "read_memory:"@) {
        assert("read_memory:"@.take(11) =~= "read_memory"@);
        assert(value.subrange(0, 11) =~= value.subrange(0, 12).take(11));
    }
    if text::starts(value, "write_memory:"@) {
        assert("write_memory:"@.take(12) =~= "write_memory"@);
        assert(value.subrange(0, 12) =~= value.subrange(0, 13).take(12));
    }
    assert(value.subrange(0, value.len() as int) =~= value);
}

/// Recalling memory takes reading it, at exactly the scope of the request: the
/// session where there is one, and else the whole agent.
pub proof fn lemma_recall_takes_reading(r: Cap, agent: Seq<char>, session: Seq<char>)
    requires
        security::within(
            Cap::ReadMemory(security::Scope::Session { agent_id: agent, session_id: session }),
            r,
        ),
    ensures
        r is All || (security::kind_name(r) == "read_memory"@ && (security::scope_spoken_of(r)
            == Some(security::Scope::Agent(agent)) || security::scope_spoken_of(r) == Some(
            security::Scope::Session { agent_id: agent, session_id: session },
        ))),
{
}

/// A request is cut down, never extended: asked for no longer than the limit, a
/// token lasts as long as asked for; asked for longer, or for no given time, it
/// lasts as long as the limit.
pub proof fn lemma_tokens_last_as_asked(c: Cap, secs: Option<u64>)
    requires
        !(c is All),
    ensures
        (granted(c, secs)->Ok_0).0 == c,
        secs is Some && secs->0 <= 3600 ==> (granted(c, secs)->Ok_0).1 == secs->0,
        secs is None || secs->0 > 3600 ==> (granted(c, secs)->Ok_0).1 == 3600,
{
}

/// No token grants everything, and none lasts longer than the limit.
pub proof fn lemma_tokens_are_bounded(c: Cap, secs: Option<u64>)
    ensures
        granted(c, secs) is Ok <==> !(c is All),
        granted(c, secs) is Ok ==> (granted(c, secs)->Ok_0).0 == c && (granted(c, secs)->Ok_0).1
            <= MAX_TOKEN_VALIDITY_SECS && (secs is Some ==> (granted(c, secs)->Ok_0).1 <= secs->0),
{
}

/// A list of capabilities that a caller wrote is read one by one and in its
/// order, and is refused for the first that cannot be read.
pub proof fn lemma_written_lists_are_read_in_order(specs: Seq<CapabilitySpec>, i: int)
    requires
        0 <= i < specs.len(),
    ensures
        capabilities_from_specs(specs) matches Ok(v) ==> v.len() == specs.len() && Ok::<
            Cap,
            Seq<char>,
        >(v[i]) == capability_from_spec(specs[i].kind@, text::opt_text(specs[i].path)),
        (capability_from_spec(specs[i].kind@, text::opt_text(specs[i].path)) is Err && (forall|
            j: int,
        |
            0 <= j < i ==> capability_from_spec(
                (#[trigger] specs[j]).kind@,
                text::opt_text(specs[j].path),
            ) is Ok)) ==> capabilities_from_specs(specs) == Err::<Seq<Cap>, Seq<char>>(
            capability_from_spec(specs[i].kind@, text::opt_text(specs[i].path))->Err_0,
        ),
    decreases specs.len(),
{
    let before = specs.drop_last();
    if i < specs.len() - 1 {
        lemma_written_lists_are_read_in_order(before, i);
        assert(before[i] == specs[i]);
        if forall|j: int|
            0 <= j < i ==> capability_from_spec(
                (#[trigger] specs[j]).kind@,
                text::opt_text(specs[j].path),
            ) is Ok {
            assert forall|j: int| 0 <= j < i implies capability_from_spec(
                (#[trigger] before[j]).kind@,
                text::opt_text(before[j].path),
            ) is Ok by {
                assert(before[j] == specs[j]);
            }
        }
    } else {
        lemma_read_lists_len(before);
        if forall|j: int|
            0 <= j < i ==> capability_from_spec(
                (#[trigger] specs[j]).kind@,
                text::opt_text(specs[j].path),
            ) is Ok {
            assert forall|j: int| 0 <= j < before.len() implies capability_from_spec(
                (#[trigger] before[j]).kind@,
                text::opt_text(before[j].path),
            ) is Ok by {
                assert(before[j] == specs[j]);
            }
            lemma_good_lists_are_read(before);
        }
    }
}

proof fn lemma_read_lists_len(specs: Seq<CapabilitySpec>)
    ensures
        capabilities_from_specs(specs) matches Ok(v) ==> v.len() == specs.len(),
    decreases specs.len(),
{
    if specs.len() > 0 {
        lemma_read_lists_len(specs.drop_last());
    }
}

proof fn lemma_good_lists_are_read(specs: Seq<CapabilitySpec>)
    requires
        forall|j: int|
            0 <= j < specs.len() ==> capability_from_spec(
                (#[trigger] specs[j]).kind@,
                text::opt_text(specs[j].path),
            ) is Ok,
    ensures
        capabilities_from_specs(specs) is Ok,
    decreases specs.len(),
{
    if specs.len() > 0 {
        let before = specs.drop_last();
        assert forall|j: int| 0 <= j < before.len() implies capability_from_spec(
            (#[trigger] before[j]).kind@,
            text::opt_text(before[j].path),
        ) is Ok by {
            assert(before[j] == specs[j]);
        }
        lemma_good_lists_are_read(before);
        assert(specs[specs.len() - 1] == specs.last());
    }
}

/// The capability that recalling an agent's memory takes.
pub open spec fn recall_takes(agent: Seq<char>, session: Option<Seq<char>>) -> Cap {
    Cap::ReadMemory(
        match session {
            Some(s) => security::Scope::Session { agent_id: agent, session_id: s },
            None => security::Scope::Agent(agent),
        },
    )
}

/// Recalling takes leave to read, of that agent and that session and of no
/// other: so who may read one agent may not thereby recall another.
pub proof fn lemma_recalls_take_their_own_scope(
    agent: Seq<char>,
    other: Seq<char>,
    session: Option<Seq<char>>,
    away: Option<Seq<char>>,
)
    ensures
        recall_takes(agent, session) is ReadMemory,
        recall_takes(agent, session) == recall_takes(other, away) <==> agent == other && session
            == away,
        security::within(recall_takes(agent, session), recall_takes(agent, None)),
        agent != other ==> !security::within(
            recall_takes(agent, session),
            recall_takes(other, away),
        ),
{
    if agent == other && session == away {
    } else if recall_takes(agent, session) == recall_takes(other, away) {
        assert(recall_takes(agent, session)->ReadMemory_0 == recall_takes(
            other,
            away,
        )->ReadMemory_0);
    }
}

/// What a caller describes in a text of its own: either name of the preview is
/// the preview, and otherwise a word and a value stand for what they say. A bad
/// address is refused where one is fetched, and an object counts as it is.
pub proof fn lemma_descriptions_are_read_by_word(
    spec: Seq<char>,
    word: Seq<char>,
    value: Seq<char>,
    fault: Option<Seq<char>>,
    object: CapabilitySpec,
)
    requires
        spec == word + seq![':'] + value,
        !word.contains(':'),
        spec != "memory_preview"@ && spec != NEXUS_MEMORY_PREVIEW_CAPABILITY@,
    ensures
        described("memory_preview"@, None, fault) == Ok::<Cap, Seq<char>>(Cap::MemoryPreview),
        described(NEXUS_MEMORY_PREVIEW_CAPABILITY@, None, fault) == Ok::<Cap, Seq<char>>(
            Cap::MemoryPreview,
        ),
        fault is None && capability_in_words(word, value) is Some ==> described(spec, None, fault)
            == Ok::<Cap, Seq<char>>(capability_in_words(word, value)->0),
        fault is None && capability_in_words(word, value) is None ==> described(spec, None, fault)
            is Err,
        word != "http_get"@ && word != "http_post"@ ==> described(spec, None, fault) == described(
            spec,
            None,
            None,
        ),
        (word == "http_get"@ || word == "http_post"@) && fault is Some ==> described(
            spec,
            None,
            fault,
        ) == Err::<Cap, Seq<char>>(fault->0),
        described(spec, Some(object), fault) == capability_from_spec(
            object.kind@,
            text::opt_text(object.path),
        ),
{
    text::lemma_cut_undoes_join(word, ':', value);
}

} // verus!
