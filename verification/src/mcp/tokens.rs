//! Tokens: which are issued for a request, and whether those at hand still
//! count.

use crate::error::{Fault, NexusError};
use crate::ids;
use crate::mcp::capability;
use crate::mcp::capability::{opt_str, parse_capability_from_str, sanitize_token_request};
use crate::mcp::error;
use crate::mcp::error::{DenialReason, ToolError};
use crate::mcp::gate;
use crate::mcp::gate::ToolGate;
use crate::mcp::params::{AttenuateTokenParams, IssueTokenParams};
use crate::profile;
use crate::security;
use crate::security::{Cap, Capability};
use crate::text;
use vstd::prelude::*;
use vstd::string::*;

verus! {

/// What is known of a token: whether it was revoked, whether it has not
/// expired, whether the active profile permits what it grants, and how what it
/// grants is described.
#[derive(Debug, Clone, PartialEq, Eq)]
pub struct TokenState {
    pub revoked: bool,
    pub fresh: bool,
    pub permitted: bool,
    pub description: String,
}

impl TokenState {
    /// What is known of a token for a capability. Where a profile is active,
    /// `profile` holds what it permits.
    pub fn of(
        capability: &Capability,
        description: String,
        revoked: bool,
        fresh: bool,
        profile: &Option<Vec<Capability>>,
    ) -> (r: Self)
        ensures
            r == (TokenState {
                revoked,
                fresh,
                permitted: profile is None || security::granted_by(
                    capability@,
                    security::caps(profile->0@),
                ),
                description,
            }),
    {
        let permitted = match profile {
            None => true,
            Some(list) => security::capability_allowed_by(list, capability),
        };
        TokenState { revoked, fresh, permitted, description }
    }
}

/// Whether all tokens are fresh.
pub open spec fn all_fresh(tokens: Seq<TokenState>) -> bool {
    forall|i: int| 0 <= i < tokens.len() ==> (#[trigger] tokens[i]).fresh
}

/// Whether a token was revoked.
pub open spec fn any_revoked(tokens: Seq<TokenState>) -> bool {
    exists|i: int| 0 <= i < tokens.len() && (#[trigger] tokens[i]).revoked
}

/// How the first token that is not permitted describes what it grants.
pub open spec fn first_unpermitted(tokens: Seq<TokenState>) -> Option<Seq<char>>
    decreases tokens.len(),
{
    if tokens.len() == 0 {
        None
    } else if !tokens[0].permitted {
        Some(tokens[0].description@)
    } else {
        first_unpermitted(tokens.skip(1))
    }
}

/// The complaint of a stale token.
pub open spec fn stale() -> Fault {
    Fault::InvalidCapability(error::safe_text(DenialReason::TokenExpired))
}

/// The outcome of a check of tokens.
pub open spec fn fault(r: Result<(), NexusError>) -> Option<Fault> {
    match r {
        Ok(_) => None,
        Err(e) => Some(e@),
    }
}

/// Checks that all tokens are fresh. The complaint names no token and no time.
pub fn check_tokens_fresh(tokens: &Vec<TokenState>) -> (r: Result<(), NexusError>)
    ensures
        fault(r) == (if all_fresh(tokens@) {
            None::<Fault>
        } else {
            Some(stale())
        }),
{
    let mut i: usize = 0;
    while i < tokens.len()
        invariant
            i <= tokens.len(),
            forall|j: int| 0 <= j < i ==> (#[trigger] tokens@[j]).fresh,
        decreases tokens.len() - i,
    {
        if !tokens[i].fresh {
            assert(!tokens@[i as int].fresh);
            return Err(
                NexusError::InvalidCapability(DenialReason::TokenExpired.safe_message().to_string()),
            );
        }
        i = i + 1;
    }
    Ok(())
}

/// What is wrong with tokens under a profile.
pub open spec fn profile_fault(tokens: Seq<TokenState>) -> Option<Fault> {
    if !all_fresh(tokens) {
        Some(stale())
    } else {
        match first_unpermitted(tokens) {
            Some(d) => Some(
                Fault::CapabilityDenied("capability not permitted by active profile: "@ + d),
            ),
            None => None,
        }
    }
}

/// Checks tokens under a profile: all must be fresh, and what each grants must
/// be permitted.
pub fn check_tokens_against_profile(tokens: &Vec<TokenState>) -> (r: Result<(), NexusError>)
    ensures
        fault(r) == profile_fault(tokens@),
{
    match check_tokens_fresh(tokens) {
        Ok(_) => {},
        Err(e) => {
            return Err(e);
        },
    }
    let mut i: usize = 0;
    assert(tokens@.skip(0) =~= tokens@);
    while i < tokens.len()
        invariant
            i <= tokens.len(),
            all_fresh(tokens@),
            first_unpermitted(tokens@) == first_unpermitted(tokens@.skip(i as int)),
        decreases tokens.len() - i,
    {
        assert(tokens@.skip(i as int)[0] == tokens@[i as int]);
        assert(tokens@.skip(i as int).skip(1) =~= tokens@.skip(i + 1));
        if !tokens[i].permitted {
            return Err(
                NexusError::CapabilityDenied(
                    text::cat2(
                        "capability not permitted by active profile: ",
                        tokens[i].description.as_str(),
                    ),
                ),
            );
        }
        i = i + 1;
    }
    Ok(())
}

/// What is wrong with tokens, with or without an active profile.
pub open spec fn token_refusal(tokens: Seq<TokenState>, profiled: bool) -> Option<error::Why> {
    if any_revoked(tokens) {
        Some(error::Why::Other("capability token has been revoked"@))
    } else {
        match (if profiled {
            profile_fault(tokens)
        } else if all_fresh(tokens) {
            None
        } else {
            Some(stale())
        }) {
            Some(f) => Some(error::Why::Nexus(f)),
            None => None,
        }
    }
}

/// Checks tokens before they are used: none may be revoked or stale, and under
/// a profile each must be permitted.
pub fn check_tokens_against_active_profile(tokens: &Vec<TokenState>, profiled: bool) -> (r: Result<
    (),
    ToolError,
>)
    ensures
        gate::refusal(r) == token_refusal(tokens@, profiled),
{
    let mut i: usize = 0;
    while i < tokens.len()
        invariant
            i <= tokens.len(),
            forall|j: int| 0 <= j < i ==> !(#[trigger] tokens@[j]).revoked,
        decreases tokens.len() - i,
    {
        if tokens[i].revoked {
            assert(tokens@[i as int].revoked);
            return Err(ToolError::Other("capability token has been revoked".to_string()));
        }
        i = i + 1;
    }
    let checked = if profiled {
        check_tokens_against_profile(tokens)
    } else {
        check_tokens_fresh(tokens)
    };
    match checked {
        Ok(_) => Ok(()),
        Err(e) => Err(ToolError::Nexus(e)),
    }
}

/// Capabilities that tokens are issued for, each for as long as may be, and why
/// the request fails behind them, if it does.
#[derive(Debug, Clone, PartialEq, Eq)]
pub struct Grants {
    pub issue: Vec<Capability>,
    pub refusal: Option<ToolError>,
}

/// Grants, by their contents.
pub struct Issue {
    pub issue: Seq<Cap>,
    pub refusal: Option<error::Why>,
}

/// Why a request fails, by its contents.
pub open spec fn opt_why(o: Option<ToolError>) -> Option<error::Why> {
    match o {
        Some(e) => Some(e@),
        None => None,
    }
}

impl View for Grants {
    type V = Issue;

    open spec fn view(&self) -> Issue {
        Issue { issue: security::caps(self.issue@), refusal: opt_why(self.refusal) }
    }
}

/// How many capabilities stand before the first that is not allowed.
pub open spec fn allowed_prefix(allowed: Seq<bool>) -> nat
    decreases allowed.len(),
{
    if allowed.len() == 0 || !allowed[0] {
        0
    } else {
        1 + allowed_prefix(allowed.skip(1))
    }
}

/// The refusal of a request that asks for everything.
pub open spec fn all_refused() -> error::Why {
    error::Why::Other(
        "capability 'all' cannot be issued to MCP clients; request a specific capability"@,
    )
}

/// The refusal of a request that no operator allowed.
pub open spec fn unlisted() -> error::Why {
    error::denied_by_profile("no operator allowlist configured"@)
}

/// The refusal of a capability that the operator did not allow.
pub open spec fn not_listed() -> error::Why {
    error::denied_by_profile("requested capability not in allowlist"@)
}

/// The refusal of a capability that a parent token does not cover.
pub open spec fn outside_parent() -> error::Why {
    error::denied_by_profile("requested capability outside parent token scope"@)
}

/// The refusal of a capability that a parent token does not cover.
pub fn parent_scope_denial() -> (r: ToolError)
    ensures
        r@ == outside_parent(),
{
    error::profile_denial("requested capability outside parent token scope")
}

/// Where the tokens of a request come from.
#[derive(Debug, Clone, PartialEq, Eq)]
pub enum TokenPlan {
    /// No capability is asked for.
    Nothing,
    /// Each is cut from this parent token.
    Attenuate { parent: String, grants: Vec<Capability> },
    /// Each is issued by the operator's leave.
    Issue(Grants),
}

/// Where tokens come from, by its contents.
pub enum Source {
    Nothing,
    Attenuate { parent: Seq<char>, grants: Seq<Cap> },
    Issue(Issue),
}

impl View for TokenPlan {
    type V = Source;

    open spec fn view(&self) -> Source {
        match self {
            TokenPlan::Nothing => Source::Nothing,
            TokenPlan::Attenuate { parent, grants } => Source::Attenuate {
                parent: parent@,
                grants: security::caps(grants@),
            },
            TokenPlan::Issue(g) => Source::Issue(g@),
        }
    }
}

/// Where the tokens of a request come from, or why there are none. `reading` is
/// what a reading of the parent's identifier came to, where one is given, and
/// `allowed` says of each capability whether the operator allowed it: none
/// where the operator allowed nothing at all.
pub open spec fn token_source(
    capabilities: Seq<Cap>,
    parent: Option<Seq<char>>,
    reading: Result<Seq<char>, Seq<char>>,
    allowed: Option<Seq<bool>>,
) -> Result<Source, error::Why> {
    if capabilities.len() == 0 {
        Ok(Source::Nothing)
    } else if capabilities.contains(Cap::All) {
        Err(all_refused())
    } else {
        match parent {
            Some(p) => match reading {
                Ok(id) => Ok(Source::Attenuate { parent: id, grants: capabilities }),
                Err(e) => Err(
                    error::Why::Other("invalid parent_token_id '"@ + p + "': "@ + e),
                ),
            },
            None => match allowed {
                None => Err(unlisted()),
                Some(a) => Ok(
                    Source::Issue(
                        Issue {
                            issue: capabilities.take(allowed_prefix(a) as int),
                            refusal: if allowed_prefix(a) < capabilities.len() {
                                Some(not_listed())
                            } else {
                                None
                            },
                        },
                    ),
                ),
            },
        }
    }
}

/// The contents of an optional list of verdicts.
pub open spec fn verdicts(o: Option<Vec<bool>>) -> Option<Seq<bool>> {
    match o {
        Some(v) => Some(v@),
        None => None,
    }
}

/// The contents of the operator's list, where there is one.
pub open spec fn opt_caps(list: Option<Vec<Capability>>) -> Option<Seq<Cap>> {
    match list {
        Some(l) => Some(security::caps(l@)),
        None => None,
    }
}

/// What the operator's list says of each capability: none where there is no
/// list.
pub open spec fn list_verdicts(list: Option<Seq<Cap>>, capabilities: Seq<Cap>) -> Option<
    Seq<bool>,
> {
    match list {
        Some(l) => Some(
            Seq::new(capabilities.len(), |i: int| security::granted_by(capabilities[i], l)),
        ),
        None => None,
    }
}

/// What the operator's list says of each capability.
pub fn operator_verdicts(list: &Option<Vec<Capability>>, capabilities: &Vec<Capability>) -> (r:
    Option<Vec<bool>>)
    ensures
        verdicts(r) == list_verdicts(opt_caps(*list), security::caps(capabilities@)),
{
    let listed: &Vec<Capability> = match list {
        None => {
            return None;
        },
        Some(l) => l,
    };
    let mut out: Vec<bool> = Vec::new();
    let mut i: usize = 0;
    while i < capabilities.len()
        invariant
            i <= capabilities.len(),
            out@.len() == i,
            forall|j: int|
                0 <= j < i ==> #[trigger] out@[j] == security::granted_by(
                    security::caps(capabilities@)[j],
                    security::caps(listed@),
                ),
        decreases capabilities.len() - i,
    {
        out.push(security::capability_allowed_by(listed, &capabilities[i]));
        i = i + 1;
    }
    assert(out@ =~= list_verdicts(opt_caps(*list), security::caps(capabilities@))->0);
    Some(out)
}

/// The outcome of a plan.
pub open spec fn plan_outcome(r: Result<TokenPlan, ToolError>) -> Result<Source, error::Why> {
    match r {
        Ok(p) => Ok(p@),
        Err(e) => Err(e@),
    }
}

fn copy_capabilities(v: &Vec<Capability>, n: usize) -> (r: Vec<Capability>)
    requires
        n <= v@.len(),
    ensures
        security::caps(r@) == security::caps(v@).take(n as int),
{
    let mut out: Vec<Capability> = Vec::new();
    let mut i: usize = 0;
    while i < n
        invariant
            i <= n <= v.len(),
            out@.len() == i,
            forall|j: int| 0 <= j < i ==> (#[trigger] out@[j])@ == v@[j]@,
        decreases n - i,
    {
        out.push(security::clone_capability(&v[i]));
        i = i + 1;
    }
    assert(security::caps(out@) =~= security::caps(v@).take(n as int));
    out
}

fn asks_for_all(v: &Vec<Capability>) -> (r: bool)
    ensures
        r == security::caps(v@).contains(Cap::All),
{
    let mut i: usize = 0;
    while i < v.len()
        invariant
            i <= v.len(),
            forall|j: int| 0 <= j < i ==> (#[trigger] security::caps(v@)[j]) != Cap::All,
        decreases v.len() - i,
    {
        if let Capability::All = v[i] {
            assert(security::caps(v@)[i as int] == Cap::All);
            return true;
        }
        assert(security::caps(v@)[i as int] != Cap::All);
        i = i + 1;
    }
    false
}

fn count_allowed(allowed: &Vec<bool>) -> (r: usize)
    ensures
        r == allowed_prefix(allowed@),
        r <= allowed@.len(),
{
    let mut i: usize = 0;
    assert(allowed@.skip(0) =~= allowed@);
    while i < allowed.len()
        invariant
            i <= allowed.len(),
            allowed_prefix(allowed@) == i + allowed_prefix(allowed@.skip(i as int)),
        decreases allowed.len() - i,
    {
        assert(allowed@.skip(i as int)[0] == allowed@[i as int]);
        assert(allowed@.skip(i as int).skip(1) =~= allowed@.skip(i + 1));
        if !allowed[i] {
            return i;
        }
        i = i + 1;
    }
    i
}

/// Where the tokens of a request come from, when `reading` is what a reading of
/// the parent's identifier came to.
pub fn plan_tokens(
    capabilities: &Vec<Capability>,
    parent: Option<&str>,
    reading: &Result<String, String>,
    allowed: &Option<Vec<bool>>,
) -> (r: Result<TokenPlan, ToolError>)
    requires
        allowed is Some ==> allowed->0@.len() == capabilities@.len(),
    ensures
        plan_outcome(r) == token_source(
            security::caps(capabilities@),
            crate::daemon::slice_text(parent),
            ids::reading(*reading),
            verdicts(*allowed),
        ),
{
    let n = capabilities.len();
    if n == 0 {
        return Ok(TokenPlan::Nothing);
    }
    if asks_for_all(capabilities) {
        return Err(
            ToolError::Other(
                "capability 'all' cannot be issued to MCP clients; request a specific capability".to_string(),
            ),
        );
    }
    if let Some(p) = parent {
        return match reading {
            Ok(id) => {
                let grants = copy_capabilities(capabilities, n);
                assert(security::caps(grants@) =~= security::caps(capabilities@));
                Ok(TokenPlan::Attenuate { parent: id.clone(), grants })
            },
            Err(e) => Err(
                ToolError::Other(
                    text::cat4("invalid parent_token_id '", p, "': ", e.as_str()),
                ),
            ),
        };
    }
    match allowed {
        None => Err(error::profile_denial("no operator allowlist configured")),
        Some(a) => {
            let k = count_allowed(a);
            let issue = copy_capabilities(capabilities, k);
            let refusal = if k < n {
                Some(error::profile_denial("requested capability not in allowlist"))
            } else {
                None
            };
            Ok(TokenPlan::Issue(Grants { issue, refusal }))
        },
    }
}

/// Where the tokens of a request come from. `list` is the operator's.
pub fn execute_wasi_tokens(
    capabilities: &Vec<Capability>,
    parent_token_id: Option<&str>,
    list: &Option<Vec<Capability>>,
) -> (r: Result<TokenPlan, ToolError>)
    ensures
        plan_outcome(r) == token_source(
            security::caps(capabilities@),
            crate::daemon::slice_text(parent_token_id),
            ids::uuid_reading(
                match parent_token_id {
                    Some(p) => p@,
                    None => ""@,
                },
            ),
            list_verdicts(opt_caps(*list), security::caps(capabilities@)),
        ),
{
    let reading = match parent_token_id {
        Some(p) => ids::parse_uuid(p),
        None => ids::parse_uuid(""),
    };
    let allowed = operator_verdicts(list, capabilities);
    plan_tokens(capabilities, parent_token_id, &reading, &allowed)
}

/// What the operator lets a caller of the attested tool have: of the required
/// capabilities those that are allowed, up to one that asks for everything.
pub open spec fn iq_grants(capabilities: Seq<Cap>, allowed: Seq<bool>) -> Issue
    decreases capabilities.len(),
{
    if capabilities.len() == 0 || allowed.len() == 0 {
        Issue { issue: Seq::empty(), refusal: None }
    } else {
        let before = iq_grants(capabilities.drop_last(), allowed.drop_last());
        if before.refusal is Some {
            before
        } else if capabilities.last() == Cap::All {
            Issue { issue: before.issue, refusal: Some(all_refused()) }
        } else if allowed.last() {
            Issue { issue: before.issue.push(capabilities.last()), refusal: None }
        } else {
            before
        }
    }
}

proof fn lemma_iq_refusal_stays(capabilities: Seq<Cap>, allowed: Seq<bool>, k: int)
    requires
        capabilities.len() == allowed.len(),
        0 <= k <= capabilities.len(),
        iq_grants(capabilities.take(k), allowed.take(k)).refusal is Some,
    ensures
        iq_grants(capabilities, allowed) == iq_grants(capabilities.take(k), allowed.take(k)),
    decreases capabilities.len() - k,
{
    if k < capabilities.len() {
        assert(capabilities.take(k + 1).drop_last() =~= capabilities.take(k));
        assert(allowed.take(k + 1).drop_last() =~= allowed.take(k));
        lemma_iq_refusal_stays(capabilities, allowed, k + 1);
    } else {
        assert(capabilities.take(k) =~= capabilities);
        assert(allowed.take(k) =~= allowed);
    }
}

/// What a caller of the attested tool is given by the operator's list. Where
/// there is no list, nothing is given and nothing refused.
pub fn iq_caller_tokens_for_required(
    capabilities: &Vec<Capability>,
    list: &Option<Vec<Capability>>,
) -> (r: Grants)
    ensures
        r@ == (match list_verdicts(opt_caps(*list), security::caps(capabilities@)) {
            None => Issue { issue: Seq::empty(), refusal: None },
            Some(a) => iq_grants(security::caps(capabilities@), a),
        }),
{
    let mut issue: Vec<Capability> = Vec::new();
    assert(security::caps(issue@) =~= Seq::<Cap>::empty());
    let a: Vec<bool> = match operator_verdicts(list, capabilities) {
        None => {
            return Grants { issue, refusal: None };
        },
        Some(a) => a,
    };
    let ghost all = security::caps(capabilities@);
    let mut i: usize = 0;
    while i < capabilities.len()
        invariant
            i <= capabilities.len(),
            list_verdicts(opt_caps(*list), security::caps(capabilities@)) == Some(a@),
            a@.len() == capabilities@.len(),
            all == security::caps(capabilities@),
            iq_grants(all.take(i as int), a@.take(i as int)) == (Issue {
                issue: security::caps(issue@),
                refusal: None,
            }),
        decreases capabilities.len() - i,
    {
        let ghost had = security::caps(issue@);
        let c = security::clone_capability(&capabilities[i]);
        let ghost cv = c@;
        proof {
            assert(all.take(i + 1).drop_last() =~= all.take(i as int));
            assert(a@.take(i + 1).drop_last() =~= a@.take(i as int));
            assert(all.take(i + 1).last() == cv);
        }
        match sanitize_token_request(c, None) {
            Err(e) => {
                proof {
                    lemma_iq_refusal_stays(all, a@, i + 1);
                }
                return Grants { issue, refusal: Some(ToolError::Other(e)) };
            },
            Ok(g) => {
                if a[i] {
                    issue.push(g.0);
                    assert(security::caps(issue@) =~= had.push(cv));
                }
            },
        }
        i = i + 1;
    }
    proof {
        assert(all.take(i as int) =~= all);
        assert(a@.take(i as int) =~= a@);
    }
    Grants { issue, refusal: None }
}

/// What a request for a token comes to, once its capability is known.
pub open spec fn token_request(kind: Seq<char>, path: Option<Seq<char>>, secs: Option<u64>) -> Result<
    (Cap, u64),
    error::Why,
> {
    match capability::capability_of(kind, path) {
        None => Err(error::Why::Other("Unknown capability type: "@ + kind)),
        Some(c) => match capability::granted(c, secs) {
            Ok(g) => Ok(g),
            Err(e) => Err(error::Why::Other(e)),
        },
    }
}

/// The outcome of a request for a token.
pub open spec fn request_outcome(r: Result<(Capability, u64), ToolError>) -> Result<
    (Cap, u64),
    error::Why,
> {
    match r {
        Ok(g) => Ok((g.0@, g.1)),
        Err(e) => Err(e@),
    }
}

fn requested(kind: &str, path: Option<&str>, secs: Option<u64>) -> (r: Result<
    (Capability, u64),
    ToolError,
>)
    ensures
        request_outcome(r) == token_request(kind@, crate::daemon::slice_text(path), secs),
{
    match parse_capability_from_str(kind, path) {
        None => Err(ToolError::Other(text::cat2("Unknown capability type: ", kind))),
        Some(c) => match sanitize_token_request(c, secs) {
            Ok(g) => Ok(g),
            Err(e) => Err(ToolError::Other(e)),
        },
    }
}

/// The refusal of a capability that the operator's list does not grant.
pub open spec fn list_refusal(list: Option<Seq<Cap>>, c: Cap) -> Option<error::Why> {
    match list {
        None => Some(unlisted()),
        Some(l) => if security::granted_by(c, l) {
            None
        } else {
            Some(not_listed())
        },
    }
}

/// Whether the operator's list grants a capability.
pub fn ensure_operator_allowlisted(list: &Option<Vec<Capability>>, capability: &Capability) -> (r:
    Result<(), ToolError>)
    ensures
        gate::refusal(r) == list_refusal(opt_caps(*list), capability@),
{
    match list {
        None => Err(error::profile_denial("no operator allowlist configured")),
        Some(l) => if security::capability_allowed_by(l, capability) {
            Ok(())
        } else {
            Err(error::profile_denial("requested capability not in allowlist"))
        },
    }
}

/// What a request for a new token comes to.
pub open spec fn issue_outcome(
    refused: Option<error::Why>,
    params: IssueTokenParams,
    url_fault: Option<Seq<char>>,
    list: Option<Seq<Cap>>,
) -> Result<(Cap, u64), error::Why> {
    if refused is Some {
        Err(refused->0)
    } else if capability::needs_pattern(params.capability@) && params.path is Some
        && url_fault is Some {
        Err(error::Why::Other(url_fault->0))
    } else {
        match token_request(
            params.capability@,
            text::opt_text(params.path),
            params.validity_secs,
        ) {
            Err(e) => Err(e),
            Ok(g) => match list_refusal(list, g.0) {
                Some(w) => Err(w),
                None => Ok(g),
            },
        }
    }
}

/// The grant of a new token. `url_fault` says what is wrong with the pattern of
/// addresses, and `list` is the operator's.
pub fn do_issue_token(
    tools: &ToolGate,
    params: &IssueTokenParams,
    url_fault: &Option<String>,
    list: &Option<Vec<Capability>>,
) -> (r: Result<(Capability, u64), ToolError>)
    ensures
        request_outcome(r) == issue_outcome(
            gate::tool_refusal(
                profile::opt_texts(tools.forced_tool_allowlist),
                gate::profile_list(tools.policy),
                "nexus_issue_token"@,
            ),
            *params,
            text::opt_text(*url_fault),
            opt_caps(*list),
        ),
{
    match tools.ensure_tool_allowed("nexus_issue_token") {
        Ok(_) => {},
        Err(e) => {
            return Err(e);
        },
    }
    let kind = params.capability.as_str();
    if (text::same_text(kind, "http_get") || text::same_text(kind, "http_post"))
        && params.path.is_some() {
        if let Some(e) = url_fault {
            return Err(ToolError::Other(e.clone()));
        }
    }
    match requested(kind, opt_str(&params.path), params.validity_secs) {
        Err(e) => Err(e),
        Ok(g) => match ensure_operator_allowlisted(list, &g.0) {
            Ok(_) => Ok(g),
            Err(e) => Err(e),
        },
    }
}

/// What a request to cut a token comes to.
pub open spec fn attenuation(
    refused: Option<error::Why>,
    params: AttenuateTokenParams,
    reading: Result<Seq<char>, Seq<char>>,
) -> Result<(Seq<char>, Cap, u64), error::Why> {
    if refused is Some {
        Err(refused->0)
    } else {
        match reading {
            Err(e) => Err(error::Why::Other("invalid parent_token_id UUID: "@ + e)),
            Ok(id) => match token_request(
                params.capability@,
                text::opt_text(params.path),
                params.validity_secs,
            ) {
                Err(e) => Err(e),
                Ok(g) => Ok((id, g.0, g.1)),
            },
        }
    }
}

/// The outcome of a request to cut a token.
pub open spec fn attenuation_outcome(r: Result<(String, Capability, u64), ToolError>) -> Result<
    (Seq<char>, Cap, u64),
    error::Why,
> {
    match r {
        Ok(g) => Ok((g.0@, g.1@, g.2)),
        Err(e) => Err(e@),
    }
}

/// The parent, the capability and the validity of a token that is cut from
/// another, when `reading` is what a reading of the parent's identifier came
/// to.
pub fn plan_attenuation(
    tools: &ToolGate,
    params: &AttenuateTokenParams,
    reading: &Result<String, String>,
) -> (r: Result<(String, Capability, u64), ToolError>)
    ensures
        attenuation_outcome(r) == attenuation(
            gate::tool_refusal(
                profile::opt_texts(tools.forced_tool_allowlist),
                gate::profile_list(tools.policy),
                "nexus_attenuate_token"@,
            ),
            *params,
            ids::reading(*reading),
        ),
{
    match tools.ensure_tool_allowed("nexus_attenuate_token") {
        Ok(_) => {},
        Err(e) => {
            return Err(e);
        },
    }
    match reading {
        Err(e) => Err(ToolError::Other(text::cat2("invalid parent_token_id UUID: ", e.as_str()))),
        Ok(id) => match requested(
            params.capability.as_str(),
            opt_str(&params.path),
            params.validity_secs,
        ) {
            Err(e) => Err(e),
            Ok(g) => Ok((id.clone(), g.0, g.1)),
        },
    }
}

/// The parent, the capability and the validity of a token that is cut from
/// another.
pub fn do_attenuate_token(tools: &ToolGate, params: &AttenuateTokenParams) -> (r: Result<
    (String, Capability, u64),
    ToolError,
>)
    ensures
        attenuation_outcome(r) == attenuation(
            gate::tool_refusal(
                profile::opt_texts(tools.forced_tool_allowlist),
                gate::profile_list(tools.policy),
                "nexus_attenuate_token"@,
            ),
            *params,
            ids::uuid_reading(params.parent_token_id@),
        ),
{
    let reading = ids::parse_uuid(params.parent_token_id.as_str());
    plan_attenuation(tools, params, &reading)
}

/// Whether one of the tokens at hand shows restored memory: `shows` says so of
/// each.
pub fn caller_has_memory_preview(shows: &Vec<bool>) -> (r: bool)
    ensures
        r == shows@.contains(true),
{
    let mut i: usize = 0;
    while i < shows.len()
        invariant
            i <= shows.len(),
            forall|j: int| 0 <= j < i ==> !#[trigger] shows@[j],
        decreases shows.len() - i,
    {
        if shows[i] {
            assert(shows@[i as int]);
            return true;
        }
        i = i + 1;
    }
    false
}

proof fn lemma_allowed_prefix_is_allowed(allowed: Seq<bool>, i: int)
    requires
        0 <= i < allowed_prefix(allowed),
    ensures
        allowed_prefix(allowed) <= allowed.len(),
        allowed[i],
    decreases allowed.len(),
{
    lemma_allowed_prefix_len(allowed);
    if i > 0 {
        lemma_allowed_prefix_is_allowed(allowed.skip(1), i - 1);
        assert(allowed.skip(1)[i - 1] == allowed[i]);
    }
}

proof fn lemma_allowed_prefix_len(allowed: Seq<bool>)
    ensures
        allowed_prefix(allowed) <= allowed.len(),
    decreases allowed.len(),
{
    if allowed.len() > 0 && allowed[0] {
        lemma_allowed_prefix_len(allowed.skip(1));
    }
}

/// No token is issued for what the operator did not allow, nor for everything.
pub proof fn lemma_only_allowed_is_issued(
    capabilities: Seq<Cap>,
    parent: Option<Seq<char>>,
    reading: Result<Seq<char>, Seq<char>>,
    allowed: Option<Seq<bool>>,
    i: int,
)
    requires
        allowed is Some ==> allowed->0.len() == capabilities.len(),
        token_source(capabilities, parent, reading, allowed) matches Ok(Source::Issue(g))
            && 0 <= i < g.issue.len(),
    ensures
        allowed is Some,
        allowed->0[i],
        capabilities[i] != Cap::All,
        (token_source(capabilities, parent, reading, allowed)->Ok_0)->Issue_0.issue[i]
            == capabilities[i],
{
    lemma_allowed_prefix_len(allowed->0);
    lemma_allowed_prefix_is_allowed(allowed->0, i);
    assert(capabilities.contains(capabilities[i]));
}

/// What a request's tokens, the tokens of the attested tool and a single new token
/// are issued for is granted by the operator's list; without a list none of them
/// is issued.
pub proof fn lemma_issued_within_the_list(
    capabilities: Seq<Cap>,
    parent: Option<Seq<char>>,
    reading: Result<Seq<char>, Seq<char>>,
    list: Option<Seq<Cap>>,
    refused: Option<error::Why>,
    params: IssueTokenParams,
    url_fault: Option<Seq<char>>,
)
    ensures
        ({
            let allowed = list_verdicts(list, capabilities);
            &&& token_source(capabilities, parent, reading, allowed) matches Ok(Source::Issue(g))
                ==> list is Some && forall|i: int|
                0 <= i < g.issue.len() ==> security::granted_by(#[trigger] g.issue[i], list->0)
            &&& allowed matches Some(a) ==> forall|i: int|
                0 <= i < iq_grants(capabilities, a).issue.len() ==> security::granted_by(
                    #[trigger] iq_grants(capabilities, a).issue[i],
                    list->0,
                )
            &&& issue_outcome(refused, params, url_fault, list) matches Ok(g) ==> list is Some
                && security::granted_by(g.0, list->0)
        }),
{
    let allowed = list_verdicts(list, capabilities);
    if let Some(a) = allowed {
        lemma_iq_grants_are_allowed(capabilities, a, list->0);
    }
    if let Ok(Source::Issue(g)) = token_source(capabilities, parent, reading, allowed) {
        lemma_allowed_prefix_len(allowed->0);
        assert forall|i: int| 0 <= i < g.issue.len() implies security::granted_by(
            #[trigger] g.issue[i],
            list->0,
        ) by {
            lemma_allowed_prefix_is_allowed(allowed->0, i);
            assert(g.issue[i] == capabilities[i]);
        }
    }
}

proof fn lemma_iq_grants_are_allowed(capabilities: Seq<Cap>, allowed: Seq<bool>, list: Seq<Cap>)
    requires
        allowed.len() == capabilities.len(),
        forall|i: int|
            0 <= i < allowed.len() ==> #[trigger] allowed[i] == security::granted_by(
                capabilities[i],
                list,
            ),
    ensures
        forall|i: int|
            0 <= i < iq_grants(capabilities, allowed).issue.len() ==> security::granted_by(
                #[trigger] iq_grants(capabilities, allowed).issue[i],
                list,
            ),
    decreases capabilities.len(),
{
    if capabilities.len() > 0 {
        let c = capabilities.drop_last();
        let a = allowed.drop_last();
        assert forall|i: int| 0 <= i < a.len() implies #[trigger] a[i] == security::granted_by(
            c[i],
            list,
        ) by {
            assert(allowed[i] == a[i]);
        }
        lemma_iq_grants_are_allowed(c, a, list);
        let before = iq_grants(c, a).issue;
        assert(allowed[allowed.len() - 1] == security::granted_by(capabilities.last(), list));
        let now = iq_grants(capabilities, allowed).issue;
        assert forall|i: int| 0 <= i < now.len() implies security::granted_by(
            #[trigger] now[i],
            list,
        ) by {
            if i < before.len() {
                assert(now[i] == before[i]);
            }
        }
    }
}

/// A revoked token is refused whatever else holds of it, and a stale one under
/// every profile.
pub proof fn lemma_dead_tokens_are_refused(tokens: Seq<TokenState>, profiled: bool)
    requires
        any_revoked(tokens) || !all_fresh(tokens),
    ensures
        token_refusal(tokens, profiled) is Some,
{
}

/// Under a profile, the first token that it does not permit decides: the one
/// before which all are permitted; none does exactly if all are.
pub proof fn lemma_first_unpermitted_decides(tokens: Seq<TokenState>)
    ensures
        first_unpermitted(tokens) is None <==> forall|i: int|
            0 <= i < tokens.len() ==> (#[trigger] tokens[i]).permitted,
        first_unpermitted(tokens) matches Some(d) ==> exists|i: int|
            0 <= i < tokens.len() && !(#[trigger] tokens[i]).permitted && tokens[i].description@
                == d && (forall|j: int| 0 <= j < i ==> (#[trigger] tokens[j]).permitted),
    decreases tokens.len(),
{
    if tokens.len() > 0 && tokens[0].permitted {
        let rest = tokens.skip(1);
        lemma_first_unpermitted_decides(rest);
        assert forall|i: int| 0 <= i < rest.len() implies #[trigger] rest[i] == tokens[i + 1] by {
        }
        if first_unpermitted(rest) is None {
            assert forall|i: int| 0 <= i < tokens.len() implies (
            #[trigger] tokens[i]).permitted by {
                if i > 0 {
                    assert(rest[i - 1].permitted);
                }
            }
        } else {
            let i = choose|i: int|
                0 <= i < rest.len() && !(#[trigger] rest[i]).permitted && rest[i].description@
                    == first_unpermitted(rest)->0 && (forall|j: int|
                    0 <= j < i ==> (#[trigger] rest[j]).permitted);
            assert(!tokens[i + 1].permitted);
            assert forall|j: int| 0 <= j < i + 1 implies (#[trigger] tokens[j]).permitted by {
                if j > 0 {
                    assert(rest[j - 1].permitted);
                }
            }
        }
    } else if tokens.len() > 0 {
        assert(!tokens[0].permitted);
    }
}

/// Tokens pass exactly if none was revoked, each is still valid, and each is
/// permitted where a profile is active; what was revoked is told before what has
/// run out.
pub proof fn lemma_tokens_pass(tokens: Seq<TokenState>, profiled: bool)
    ensures
        token_refusal(tokens, profiled) is None <==> (forall|i: int|
            0 <= i < tokens.len() ==> !(#[trigger] tokens[i]).revoked && tokens[i].fresh && (
            profiled ==> tokens[i].permitted)),
        (exists|i: int| 0 <= i < tokens.len() && (#[trigger] tokens[i]).revoked) ==> token_refusal(
            tokens,
            profiled,
        ) is Some && token_refusal(tokens, profiled)->0 is Other,
{
    lemma_first_unpermitted_decides(tokens);
    if token_refusal(tokens, profiled) is None {
        assert forall|i: int| 0 <= i < tokens.len() implies !(#[trigger] tokens[i]).revoked
            && tokens[i].fresh && (profiled ==> tokens[i].permitted) by {
            if tokens[i].revoked {
                assert(any_revoked(tokens));
            }
        }
    }
}

/// Of a list of verdicts, as many are passed as stand before the first refusal.
pub proof fn lemma_prefix_stops_at_refusal(allowed: Seq<bool>)
    ensures
        allowed_prefix(allowed) <= allowed.len(),
        forall|i: int| 0 <= i < allowed_prefix(allowed) ==> #[trigger] allowed[i],
        allowed_prefix(allowed) < allowed.len() ==> !allowed[allowed_prefix(allowed) as int],
    decreases allowed.len(),
{
    if allowed.len() > 0 && allowed[0] {
        let rest = allowed.skip(1);
        lemma_prefix_stops_at_refusal(rest);
        assert forall|i: int| 0 <= i < allowed_prefix(allowed) implies #[trigger] allowed[i] by {
            if i > 0 {
                assert(rest[i - 1] == allowed[i]);
            }
        }
        if allowed_prefix(rest) < rest.len() {
            assert(rest[allowed_prefix(rest) as int] == allowed[allowed_prefix(allowed) as int]);
        }
    }
}

/// A token is for the capability that was asked for, by its name and with its
/// path, and for no longer than asked for; none is for everything.
pub proof fn lemma_requests_get_what_they_name(
    kind: Seq<char>,
    path: Option<Seq<char>>,
    secs: Option<u64>,
)
    ensures
        match token_request(kind, path, secs) {
            Ok(g) => {
                &&& kind == security::kind_name(g.0) || (g.0 is MemoryPreview && kind
                    == capability::NEXUS_MEMORY_PREVIEW_CAPABILITY@)
                &&& security::spoken_of(g.0) is Some ==> security::spoken_of(g.0) == path
                &&& security::scope_spoken_of(g.0) is Some ==> path is Some
                    && security::scope_spoken_of(g.0) == security::scope_of(path->0)
                &&& !(g.0 is All) && !(g.0 is Nothing) && !(g.0 is MemoryRecall)
                &&& g.1 <= 3600 && (secs is Some ==> g.1 <= secs->0)
                &&& secs is Some && secs->0 <= 3600 ==> g.1 == secs->0
            },
            Err(w) => w is Other,
        },
{
}

/// A token is issued only where nothing refused the call, and only for what the
/// operator's list grants; without a list none is.
pub proof fn lemma_issued_by_leave(
    refused: Option<error::Why>,
    params: IssueTokenParams,
    url_fault: Option<Seq<char>>,
    list: Option<Seq<Cap>>,
)
    ensures
        refused is Some ==> issue_outcome(refused, params, url_fault, list) == Err::<
            (Cap, u64),
            error::Why,
        >(refused->0),
        issue_outcome(refused, params, url_fault, list) matches Ok(g) ==> {
            &&& refused is None && list is Some
            &&& exists|i: int|
                0 <= i < list->0.len() && security::within(g.0, #[trigger] list->0[i])
            &&& params.capability@ == security::kind_name(g.0) || g.0 is MemoryPreview
            &&& security::spoken_of(g.0) is Some ==> security::spoken_of(g.0) == text::opt_text(
                params.path,
            )
            &&& (params.capability@ == "http_get"@ || params.capability@ == "http_post"@)
                ==> url_fault is None
            &&& g.1 <= 3600
        },
        refused is None && list is None ==> issue_outcome(refused, params, url_fault, list) is Err,
{
    let kind = params.capability@;
    lemma_requests_get_what_they_name(kind, text::opt_text(params.path), params.validity_secs);
    if issue_outcome(refused, params, url_fault, list) is Ok && (kind == "http_get"@ || kind
        == "http_post"@) {
        let g = issue_outcome(refused, params, url_fault, list)->Ok_0;
        reveal_strlit("http_get");
        reveal_strlit("http_post");
        reveal_strlit("nexus:memory_preview");
        assert(capability::NEXUS_MEMORY_PREVIEW_CAPABILITY@.len() == 20);
        if kind == "http_get"@ {
            security::lemma_kind_names_differ(Cap::HttpGet(Seq::empty()), g.0);
        } else {
            security::lemma_kind_names_differ(Cap::HttpPost(Seq::empty()), g.0);
        }
        assert(params.path is Some);
    }
}

/// A token is cut from the parent that was named, for the capability that was
/// named, and not at all where the call was refused or the parent has no
/// readable name.
pub proof fn lemma_cut_from_the_parent(
    refused: Option<error::Why>,
    params: AttenuateTokenParams,
    reading: Result<Seq<char>, Seq<char>>,
)
    ensures
        refused is Some ==> attenuation(refused, params, reading) == Err::<
            (Seq<char>, Cap, u64),
            error::Why,
        >(refused->0),
        attenuation(refused, params, reading) matches Ok(g) ==> {
            &&& refused is None && reading is Ok && g.0 == reading->Ok_0
            &&& params.capability@ == security::kind_name(g.1) || g.1 is MemoryPreview
            &&& security::spoken_of(g.1) is Some ==> security::spoken_of(g.1) == text::opt_text(
                params.path,
            )
            &&& g.2 <= 3600 && (params.validity_secs is Some ==> g.2 <= params.validity_secs->0)
        },
        reading is Err ==> attenuation(refused, params, reading) is Err,
{
    lemma_requests_get_what_they_name(
        params.capability@,
        text::opt_text(params.path),
        params.validity_secs,
    );
}

/// Where tokens come from: none are needed where nothing is asked for, everything
/// is never issued, and with a parent all that is asked for is cut from it.
/// Without one the operator's list decides: tokens are issued for all where all
/// is allowed, and otherwise up to the first that is not, which is refused.
pub proof fn lemma_sources_of_tokens(
    capabilities: Seq<Cap>,
    parent: Option<Seq<char>>,
    reading: Result<Seq<char>, Seq<char>>,
    allowed: Option<Seq<bool>>,
    k: int,
)
    requires
        allowed is Some ==> allowed->0.len() == capabilities.len(),
    ensures
        capabilities.len() == 0 <==> token_source(capabilities, parent, reading, allowed) == Ok::<
            Source,
            error::Why,
        >(Source::Nothing),
        capabilities.contains(Cap::All) ==> token_source(capabilities, parent, reading, allowed)
            is Err,
        capabilities.len() > 0 && !capabilities.contains(Cap::All) && parent is Some && reading
            is Ok ==> token_source(capabilities, parent, reading, allowed) == Ok::<
            Source,
            error::Why,
        >(Source::Attenuate { parent: reading->Ok_0, grants: capabilities }),
        capabilities.len() > 0 && parent is Some && reading is Err ==> token_source(
            capabilities,
            parent,
            reading,
            allowed,
        ) is Err,
        capabilities.len() > 0 && parent is None && allowed is None ==> token_source(
            capabilities,
            parent,
            reading,
            allowed,
        ) is Err,
        capabilities.len() > 0 && !capabilities.contains(Cap::All) && parent is None && allowed
            is Some ==> ({
            let s = token_source(capabilities, parent, reading, allowed);
            let a = allowed->0;
            &&& s is Ok && s->Ok_0 is Issue
            &&& !a.contains(false) ==> (s->Ok_0)->Issue_0.issue == capabilities
                && (s->Ok_0)->Issue_0.refusal is None
            &&& 0 <= k < a.len() && !a[k] && !a.take(k).contains(false)
                ==> (s->Ok_0)->Issue_0.issue == capabilities.take(k)
                && (s->Ok_0)->Issue_0.refusal is Some
        }),
{
    if let Some(a) = allowed {
        lemma_prefix_ends_at_first(a, a.len() as int);
        assert(a.take(a.len() as int) =~= a);
        assert(capabilities.take(capabilities.len() as int) =~= capabilities);
        if 0 <= k < a.len() {
            lemma_prefix_ends_at_first(a, k);
        }
    }
}

proof fn lemma_prefix_ends_at_first(a: Seq<bool>, k: int)
    requires
        0 <= k <= a.len(),
    ensures
        !a.take(k).contains(false) && (k < a.len() ==> !a[k]) ==> allowed_prefix(a) == k,
    decreases a.len(),
{
    if !a.take(k).contains(false) && (k < a.len() ==> !a[k]) && k > 0 {
        assert(a.take(k)[0] == a[0]);
        let rest = a.skip(1);
        assert forall|i: int| 0 <= i < k - 1 implies #[trigger] rest.take(k - 1)[i] by {
            assert(a.take(k)[i + 1] == rest.take(k - 1)[i]);
        }
        lemma_prefix_ends_at_first(rest, k - 1);
    }
}

/// A caller of the attested tool is given exactly what it needs and the list
/// allows, in order, unless it needs everything, which is refused.
pub proof fn lemma_attested_tool_gets_what_is_allowed(
    capabilities: Seq<Cap>,
    allowed: Seq<bool>,
    x: Cap,
)
    requires
        capabilities.len() == allowed.len(),
    ensures
        iq_grants(capabilities, allowed).refusal is Some <==> capabilities.contains(Cap::All),
        !capabilities.contains(Cap::All) ==> (iq_grants(capabilities, allowed).issue.contains(x)
            <==> exists|i: int|
            0 <= i < capabilities.len() && #[trigger] capabilities[i] == x && allowed[i]),
        !capabilities.contains(Cap::All) && !allowed.contains(false) ==> iq_grants(
            capabilities,
            allowed,
        ).issue == capabilities,
    decreases capabilities.len(),
{
    let all = iq_grants(capabilities, allowed);
    if capabilities.len() > 0 {
        let c = capabilities.drop_last();
        let a = allowed.drop_last();
        let n = capabilities.len() - 1;
        lemma_attested_tool_gets_what_is_allowed(c, a, x);
        let before = iq_grants(c, a);
        if c.contains(Cap::All) {
            let i = choose|i: int| 0 <= i < c.len() && c[i] == Cap::All;
            assert(capabilities[i] == Cap::All);
        } else if capabilities.last() == Cap::All {
            assert(capabilities[n] == Cap::All);
        } else {
            assert(!capabilities.contains(Cap::All)) by {
                if capabilities.contains(Cap::All) {
                    let i = choose|i: int| 0 <= i < capabilities.len() && capabilities[i]
                        == Cap::All;
                    assert(i < n);
                    assert(c[i] == Cap::All);
                }
            }
            if all.issue.contains(x) {
                let k = choose|k: int| 0 <= k < all.issue.len() && all.issue[k] == x;
                if k < before.issue.len() {
                    assert(before.issue[k] == x);
                    let i = choose|i: int|
                        0 <= i < c.len() && #[trigger] c[i] == x && a[i];
                    assert(capabilities[i] == x && allowed[i]);
                } else {
                    assert(capabilities[n] == x && allowed[n]);
                }
            }
            if exists|i: int|
                0 <= i < capabilities.len() && #[trigger] capabilities[i] == x && allowed[i] {
                let i = choose|i: int|
                    0 <= i < capabilities.len() && #[trigger] capabilities[i] == x && allowed[i];
                if i < n {
                    assert(c[i] == x && a[i]);
                    let k = choose|k: int| 0 <= k < before.issue.len() && before.issue[k] == x;
                    assert(all.issue[k] == x);
                } else {
                    assert(all.issue[all.issue.len() - 1] == x);
                }
            }
            if !allowed.contains(false) {
                assert(allowed[n]);
                assert(!a.contains(false)) by {
                    if a.contains(false) {
                        let i = choose|i: int| 0 <= i < a.len() && a[i] == false;
                        assert(allowed[i] == false);
                    }
                }
                assert(all.issue =~= capabilities);
            }
        }
    } else {
        assert(all.issue =~= capabilities);
    }
}

} // verus!
