//! What a caller is told when a tool fails. A caller learns why it was denied,
//! but neither tokens, nor times, nor paths, nor anything else from inside.

use crate::attestation::canonical;
use crate::error::{Fault, NexusError};
use crate::text;
use vstd::prelude::*;
use vstd::string::*;

verus! {

/// Why a tool failed.
#[derive(Debug, Clone, PartialEq, Eq)]
pub enum ToolError {
    /// For a reason of its own kind.
    Nexus(NexusError),
    /// For this reason.
    Other(String),
}

/// Why a tool failed, by its contents.
pub enum Why {
    Nexus(Fault),
    Other(Seq<char>),
}

impl View for ToolError {
    type V = Why;

    open spec fn view(&self) -> Why {
        match self {
            ToolError::Nexus(e) => Why::Nexus(e@),
            ToolError::Other(m) => Why::Other(m@),
        }
    }
}

/// Why a caller is denied, as far as the caller may know.
#[derive(Debug, Clone, Copy, PartialEq, Eq, Structural)]
pub enum DenialReason {
    TokenExpired,
    TokenRevoked,
    CapabilityNotPermitted,
    WasmPathInaccessible,
    ToolNotAllowed,
}

/// What a denied caller is told.
pub open spec fn safe_text(d: DenialReason) -> Seq<char> {
    match d {
        DenialReason::TokenExpired => "capability token expired"@,
        DenialReason::TokenRevoked => "capability token revoked"@,
        DenialReason::CapabilityNotPermitted => "capability not permitted"@,
        DenialReason::WasmPathInaccessible => "wasm path inaccessible"@,
        DenialReason::ToolNotAllowed => "tool not allowed"@,
    }
}

impl DenialReason {
    /// What a denied caller is told.
    pub fn safe_message(&self) -> (r: &'static str)
        ensures
            r@ == safe_text(*self),
    {
        match self {
            DenialReason::TokenExpired => "capability token expired",
            DenialReason::TokenRevoked => "capability token revoked",
            DenialReason::CapabilityNotPermitted => "capability not permitted",
            DenialReason::WasmPathInaccessible => "wasm path inaccessible",
            DenialReason::ToolNotAllowed => "tool not allowed",
        }
    }
}

/// What stands in front of a denial by the active profile.
pub const PROFILE_DENIAL: &'static str = "capability not permitted by active profile:";

/// A denial by the active profile.
pub open spec fn denied_by_profile(detail: Seq<char>) -> Why {
    Why::Nexus(Fault::CapabilityDenied("capability not permitted by active profile: "@ + detail))
}

/// A denial by the active profile.
pub fn profile_denial(detail: &str) -> (r: ToolError)
    ensures
        r@ == denied_by_profile(detail@),
{
    ToolError::Nexus(
        NexusError::CapabilityDenied(
            text::cat2("capability not permitted by active profile: ", detail),
        ),
    )
}

/// What a caller is told, and the code that goes with it. `shown` is how the
/// error presents itself, and `incident` names it in the log.
pub open spec fn told(e: Why, shown: Seq<char>, incident: Seq<char>) -> (Seq<char>, Option<int>) {
    let internal = "internal error ["@ + incident + "]"@;
    match e {
        Why::Other(_) => (internal, None),
        Why::Nexus(f) => match f {
            Fault::InvalidCapability(detail) => (
                safe_text(
                    if text::has_text(detail, "expired"@) {
                        DenialReason::TokenExpired
                    } else if text::has_text(detail, "revoked"@) {
                        DenialReason::TokenRevoked
                    } else {
                        DenialReason::CapabilityNotPermitted
                    },
                ),
                None,
            ),
            Fault::CapabilityDenied(detail) => (
                safe_text(DenialReason::CapabilityNotPermitted),
                if text::starts(detail, PROFILE_DENIAL@) {
                    Some(-32602int)
                } else {
                    None
                },
            ),
            Fault::FilesystemError(_) => (safe_text(DenialReason::WasmPathInaccessible), None),
            Fault::ResourceExhausted(_) => (shown, None),
            Fault::MemoryLimitExceeded(_) => (shown, None),
            Fault::FuelExhausted(_) => (shown, None),
            Fault::Timeout(_) => (shown, None),
            _ => (internal, None),
        },
    }
}

/// The answer of a tool that failed, as JSON.
pub open spec fn error_json(message: Seq<char>, code: Option<int>) -> Seq<char> {
    let field = canonical::field("error"@, canonical::json_quoted(message));
    canonical::object(
        match code {
            Some(c) => seq![canonical::field("code"@, "-32602"@), field],
            None => seq![field],
        },
    )
}

/// The answer of a tool that failed with this message.
pub fn tool_error_response(message: &str) -> (r: String)
    ensures
        r@ == error_json(message@, None),
{
    error_text(message, false)
}

fn error_text(message: &str, invalid_params: bool) -> (r: String)
    ensures
        r@ == error_json(
            message@,
            if invalid_params {
                Some(-32602int)
            } else {
                None
            },
        ),
{
    let mut fields: Vec<String> = Vec::new();
    if invalid_params {
        fields.push(canonical::field_text("code", "-32602".to_string()));
    }
    fields.push(canonical::field_text("error", canonical::quote(message)));
    proof {
        let f = canonical::field("error"@, canonical::json_quoted(message@));
        if invalid_params {
            assert(text::texts(fields@) =~= seq![canonical::field("code"@, "-32602"@), f]);
        } else {
            assert(text::texts(fields@) =~= seq![f]);
        }
    }
    canonical::object_text(&fields)
}

/// The answer of a tool that failed.
pub fn tool_anyhow_error_response(error: &ToolError, shown: &str, incident: &str) -> (r: String)
    ensures
        r@ == error_json(
            told(error@, shown@, incident@).0,
            told(error@, shown@, incident@).1,
        ),
{
    let internal = text::cat3("internal error [", incident, "]");
    match error {
        ToolError::Other(_) => error_text(internal.as_str(), false),
        ToolError::Nexus(e) => match e {
            NexusError::InvalidCapability(detail) => {
                let denial = if text::contains_text(detail.as_str(), "expired") {
                    DenialReason::TokenExpired
                } else if text::contains_text(detail.as_str(), "revoked") {
                    DenialReason::TokenRevoked
                } else {
                    DenialReason::CapabilityNotPermitted
                };
                error_text(denial.safe_message(), false)
            },
            NexusError::CapabilityDenied(detail) => error_text(
                DenialReason::CapabilityNotPermitted.safe_message(),
                text::starts_with(detail.as_str(), PROFILE_DENIAL),
            ),
            NexusError::FilesystemError(_) => error_text(
                DenialReason::WasmPathInaccessible.safe_message(),
                false,
            ),
            NexusError::ResourceExhausted(_) => error_text(shown, false),
            NexusError::MemoryLimitExceeded(_) => error_text(shown, false),
            NexusError::FuelExhausted(_) => error_text(shown, false),
            NexusError::Timeout(_) => error_text(shown, false),
            _ => error_text(internal.as_str(), false),
        },
    }
}

/// What a caller is told of a failure does not depend on what it says, but for
/// the four that report a resource limit: two failures of one kind that decide
/// the same questions alike are told alike.
pub proof fn lemma_details_do_not_leak(a: Seq<char>, b: Seq<char>, shown: Seq<char>, id: Seq<char>)
    ensures
        told(Why::Nexus(Fault::FilesystemError(a)), shown, id) == told(
            Why::Nexus(Fault::FilesystemError(b)),
            shown,
            id,
        ),
        told(Why::Other(a), shown, id) == told(Why::Other(b), shown, id),
        told(Why::Nexus(Fault::WasmError(a)), shown, id) == told(
            Why::Nexus(Fault::WasmError(b)),
            shown,
            id,
        ),
        told(Why::Nexus(Fault::ConfigError(a)), shown, id) == told(
            Why::Nexus(Fault::ConfigError(b)),
            shown,
            id,
        ),
        text::has_text(a, "expired"@) == text::has_text(b, "expired"@) && text::has_text(
            a,
            "revoked"@,
        ) == text::has_text(b, "revoked"@) ==> told(
            Why::Nexus(Fault::InvalidCapability(a)),
            shown,
            id,
        ) == told(Why::Nexus(Fault::InvalidCapability(b)), shown, id),
        text::starts(a, PROFILE_DENIAL@) == text::starts(b, PROFILE_DENIAL@) ==> told(
            Why::Nexus(Fault::CapabilityDenied(a)),
            shown,
            id,
        ) == told(Why::Nexus(Fault::CapabilityDenied(b)), shown, id),
{
}

/// A denial by the active profile is told as a wrong parameter.
pub proof fn lemma_profile_denials_have_a_code(
    detail: Seq<char>,
    shown: Seq<char>,
    incident: Seq<char>,
)
    ensures
        told(denied_by_profile(detail), shown, incident) == (
            safe_text(DenialReason::CapabilityNotPermitted),
            Some(-32602int),
        ),
{
    reveal_strlit("capability not permitted by active profile: ");
    reveal_strlit("capability not permitted by active profile:");
    let whole = "capability not permitted by active profile: "@ + detail;
    assert(whole.subrange(0, PROFILE_DENIAL@.len() as int) =~= PROFILE_DENIAL@);
}

/// Reasons are told in words of their own.
pub proof fn lemma_reasons_are_told_apart(a: DenialReason, b: DenialReason)
    ensures
        safe_text(a) == safe_text(b) ==> a == b,
{
    reveal_strlit("capability token expired");
    reveal_strlit("capability token revoked");
    reveal_strlit("capability not permitted");
    reveal_strlit("wasm path inaccessible");
    reveal_strlit("tool not allowed");
    if safe_text(a) == safe_text(b) {
        assert(safe_text(a).len() == safe_text(b).len());
        assert(safe_text(a)[0] == safe_text(b)[0]);
        assert(safe_text(a)[11] == safe_text(b)[11]);
        assert(safe_text(a)[13] == safe_text(b)[13]);
        if safe_text(a).len() > 18 {
            assert(safe_text(a)[17] == safe_text(b)[17]);
        }
    }
}

/// What a caller is told of a fault: of a budget that was used up all there is
/// to tell, of a refusal why, as far as that is safe, and of anything else
/// nothing but the number to ask about. A code is given exactly for what the
/// active profile refused.
pub proof fn lemma_callers_are_told_what_is_safe(
    f: Fault,
    detail: Seq<char>,
    shown: Seq<char>,
    incident: Seq<char>,
)
    ensures
        f is ResourceExhausted || f is MemoryLimitExceeded || f is FuelExhausted || f is Timeout
            ==> told(Why::Nexus(f), shown, incident).0 == shown,
        f is FilesystemError ==> told(Why::Nexus(f), shown, incident).0 == "wasm path inaccessible"@,
        f is CapabilityDenied ==> told(Why::Nexus(f), shown, incident).0
            == "capability not permitted"@,
        text::has_text(detail, "expired"@) ==> told(
            Why::Nexus(Fault::InvalidCapability(detail)),
            shown,
            incident,
        ).0 == "capability token expired"@,
        !text::has_text(detail, "expired"@) && text::has_text(detail, "revoked"@) ==> told(
            Why::Nexus(Fault::InvalidCapability(detail)),
            shown,
            incident,
        ).0 == "capability token revoked"@,
        text::has_text(told(Why::Other(detail), shown, incident).0, incident),
        f is WasmError || f is ConfigError || f is RollbackFailed ==> text::has_text(
            told(Why::Nexus(f), shown, incident).0,
            incident,
        ),
        told(Why::Nexus(f), shown, incident).1 is Some ==> f is CapabilityDenied,
        told(Why::Other(detail), shown, incident).1 is None,
{
    text::lemma_part_is_held("internal error ["@, incident, "]"@);
}

/// An answer of an error holds what is told, and the code where there is one.
pub proof fn lemma_error_answers_tell(message: Seq<char>, code: Option<int>)
    ensures
        text::has_text(
            error_json(message, code),
            canonical::field("error"@, canonical::json_quoted(message)),
        ),
        code is Some ==> text::has_text(
            error_json(message, code),
            canonical::field("code"@, "-32602"@),
        ),
{
    let field = canonical::field("error"@, canonical::json_quoted(message));
    let coded = seq![canonical::field("code"@, "-32602"@), field];
    let bare = seq![field];
    canonical::lemma_object_holds(coded);
    canonical::lemma_object_holds(bare);
    assert(coded[0] == canonical::field("code"@, "-32602"@));
    assert(coded[1] == field);
    assert(bare[0] == field);
}

} // verus!
