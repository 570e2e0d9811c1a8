//! Which tools may be called.

use crate::mcp::error;
use crate::mcp::error::{profile_denial, ToolError};
use crate::profile;
use crate::profile::McpPolicy;
use crate::text;
use vstd::prelude::*;
use vstd::string::*;

verus! {

/// What decides which tools may be called: the list of a read-only transport,
/// and the active profile.
#[derive(Debug, Clone, PartialEq, Eq)]
pub struct ToolGate {
    /// If there is a list, only the tools in it may be called, whatever the
    /// profile says.
    pub forced_tool_allowlist: Option<Vec<String>>,
    /// The policy of the active profile.
    pub policy: Option<McpPolicy>,
    /// Whether the active profile permits the instinct tools.
    pub instinct_enabled: bool,
    /// Whether the active profile permits the retry tool.
    pub retry_enabled: bool,
}

/// The tools that only read, and the one that executes under attestation: all
/// that a transport without a terminal may call.
pub open spec fn read_only_tools() -> Seq<Seq<char>> {
    seq![
        "nexus_get_history"@,
        "nexus_get_stats"@,
        "nexus_instinct_stats"@,
        "nexus_instinct_query"@,
        "nexus_instinct_export"@,
        "nexus_aeon_execute_timeline"@,
    ]
}

/// The list of a read-only transport.
pub fn read_only_http_tool_allowlist() -> (r: Vec<String>)
    ensures
        text::texts(r@) == read_only_tools(),
{
    let mut v: Vec<String> = Vec::new();
    v.push("nexus_get_history".to_string());
    v.push("nexus_get_stats".to_string());
    v.push("nexus_instinct_stats".to_string());
    v.push("nexus_instinct_query".to_string());
    v.push("nexus_instinct_export".to_string());
    v.push("nexus_aeon_execute_timeline".to_string());
    assert(text::texts(v@) =~= read_only_tools());
    v
}

/// Why a tool may not be called, if it may not.
pub open spec fn tool_refusal(
    forced: Option<Seq<Seq<char>>>,
    listed: Option<Seq<Seq<char>>>,
    tool: Seq<char>,
) -> Option<error::Why> {
    if !profile::list_permits(forced, tool) {
        Some(
            error::denied_by_profile(
                "tool "@ + tool + " is not allowed in HTTP read-only mode"@,
            ),
        )
    } else if !profile::list_permits(listed, tool) {
        Some(
            error::denied_by_profile(
                "tool "@ + tool + " is not in the MCP tool allowlist"@,
            ),
        )
    } else {
        None
    }
}

/// The list of the active profile.
pub open spec fn profile_list(policy: Option<McpPolicy>) -> Option<Seq<Seq<char>>> {
    match policy {
        Some(p) => profile::opt_texts(p.tool_allowlist),
        None => None,
    }
}

/// The outcome of a check.
pub open spec fn refusal(r: Result<(), ToolError>) -> Option<error::Why> {
    match r {
        Ok(_) => None,
        Err(e) => Some(e@),
    }
}

/// Why a group of tools may not be called, if it may not.
pub open spec fn group_refusal(enabled: bool, said: Seq<char>) -> Option<error::Why> {
    if enabled {
        None
    } else {
        Some(error::denied_by_profile(said))
    }
}

fn check_group(enabled: bool, said: &str) -> (r: Result<(), ToolError>)
    ensures
        refusal(r) == group_refusal(enabled, said@),
{
    if enabled {
        Ok(())
    } else {
        Err(profile_denial(said))
    }
}

impl ToolGate {
    /// Whether a tool may be called.
    pub fn ensure_tool_allowed(&self, tool: &str) -> (r: Result<(), ToolError>)
        ensures
            refusal(r) == tool_refusal(
                profile::opt_texts(self.forced_tool_allowlist),
                profile_list(self.policy),
                tool@,
            ),
    {
        if let Some(list) = &self.forced_tool_allowlist {
            if !text::list_has(list, tool) {
                let said = text::cat3("tool ", tool, " is not allowed in HTTP read-only mode");
                return Err(profile_denial(said.as_str()));
            }
        }
        match &self.policy {
            None => Ok(()),
            Some(p) => if p.allows_tool(tool) {
                Ok(())
            } else {
                let said = text::cat3("tool ", tool, " is not in the MCP tool allowlist");
                Err(profile_denial(said.as_str()))
            },
        }
    }

    /// Whether the snapshot tools may be called.
    pub fn ensure_snapshot_enabled(&self) -> (r: Result<(), ToolError>)
        ensures
            refusal(r) == group_refusal(
                self.policy is None || self.policy->0.snapshot_enabled,
                "snapshot tools are disabled by the active profile"@,
            ),
    {
        let enabled: bool = match &self.policy {
            Some(p) => p.snapshot_enabled,
            None => true,
        };
        check_group(enabled, "snapshot tools are disabled by the active profile")
    }

    /// Whether branches may be raced.
    pub fn ensure_fork_enabled(&self) -> (r: Result<(), ToolError>)
        ensures
            refusal(r) == group_refusal(
                self.policy is None || self.policy->0.fork_enabled,
                "fork_and_race is disabled by the active profile"@,
            ),
    {
        let enabled: bool = match &self.policy {
            Some(p) => p.fork_enabled,
            None => true,
        };
        check_group(enabled, "fork_and_race is disabled by the active profile")
    }

    /// Whether executions may be attested.
    pub fn ensure_proof_enabled(&self) -> (r: Result<(), ToolError>)
        ensures
            refusal(r) == group_refusal(
                self.policy is None || self.policy->0.proof_enabled,
                "nexus_execute_proof is disabled by the active profile"@,
            ),
    {
        let enabled: bool = match &self.policy {
            Some(p) => p.proof_enabled,
            None => true,
        };
        check_group(enabled, "nexus_execute_proof is disabled by the active profile")
    }

    /// Whether tools may be run with system access.
    pub fn ensure_wasi_enabled(&self) -> (r: Result<(), ToolError>)
        ensures
            refusal(r) == group_refusal(
                self.policy is None || self.policy->0.wasi_enabled,
                "nexus_execute_wasi is disabled by the active profile"@,
            ),
    {
        let enabled: bool = match &self.policy {
            Some(p) => p.wasi_enabled,
            None => true,
        };
        check_group(enabled, "nexus_execute_wasi is disabled by the active profile")
    }

    /// Whether the instinct tools may be called.
    pub fn ensure_instinct_enabled(&self) -> (r: Result<(), ToolError>)
        ensures
            refusal(r) == group_refusal(
                self.policy is None || self.instinct_enabled,
                "instinct tools are disabled by the active profile"@,
            ),
    {
        check_group(
            self.policy.is_none() || self.instinct_enabled,
            "instinct tools are disabled by the active profile",
        )
    }

    /// Whether executions may be retried.
    pub fn ensure_retry_enabled(&self) -> (r: Result<(), ToolError>)
        ensures
            refusal(r) == group_refusal(
                self.policy is None || self.retry_enabled,
                "nexus_execute_retry is disabled by the active profile"@,
            ),
    {
        check_group(
            self.policy.is_none() || self.retry_enabled,
            "nexus_execute_retry is disabled by the active profile",
        )
    }
}

/// A read-only transport offers its own tools only, whatever the profile
/// permits.
pub proof fn lemma_read_only_prevails(listed: Option<Seq<Seq<char>>>, tool: Seq<char>)
    ensures
        tool_refusal(Some(read_only_tools()), listed, tool) is None ==> read_only_tools().contains(
            tool,
        ),
{
}

/// Without a list of either sort every tool may be called.
pub proof fn lemma_no_lists_permit_all(tool: Seq<char>)
    ensures
        tool_refusal(None, None, tool) is None,
{
}

/// A tool may be called exactly if neither list is against it: each list that
/// there is must name it. A refusal names the tool, and one of the read-only
/// mode comes before one of the profile.
pub proof fn lemma_refused_by_a_list(
    forced: Option<Seq<Seq<char>>>,
    listed: Option<Seq<Seq<char>>>,
    tool: Seq<char>,
)
    ensures
        tool_refusal(forced, listed, tool) is None <==> (forced is None || exists|i: int|
            0 <= i < forced->0.len() && forced->0[i] == tool) && (listed is None || exists|i: int|
            0 <= i < listed->0.len() && listed->0[i] == tool),
        tool_refusal(forced, listed, tool) is Some ==> exists|t: Seq<char>|
            tool_refusal(forced, listed, tool) == Some(#[trigger] error::denied_by_profile(t))
                && text::has_text(t, tool),
{
    if tool_refusal(forced, listed, tool) is Some {
        let a = "tool "@ + tool + " is not allowed in HTTP read-only mode"@;
        let b = "tool "@ + tool + " is not in the MCP tool allowlist"@;
        text::lemma_part_is_held("tool "@, tool, " is not allowed in HTTP read-only mode"@);
        text::lemma_part_is_held("tool "@, tool, " is not in the MCP tool allowlist"@);
        assert(tool_refusal(forced, listed, tool) == Some(error::denied_by_profile(a))
            || tool_refusal(forced, listed, tool) == Some(error::denied_by_profile(b)));
    }
}

/// In read-only mode nothing can be run, restored, changed or issued: the tools
/// that can be called only look things up.
pub proof fn lemma_read_only_tools_look_up(tool: Seq<char>)
    requires
        read_only_tools().contains(tool),
    ensures
        text::starts(tool, "nexus_get_"@) || tool == "nexus_instinct_stats"@ || tool
            == "nexus_instinct_query"@ || tool == "nexus_instinct_export"@ || tool
            == "nexus_aeon_execute_timeline"@,
        tool != "nexus_execute"@,
        tool != "nexus_execute_wasi"@,
        tool != "nexus_rollback"@,
        tool != "nexus_snapshot"@,
        tool != "nexus_issue_token"@,
        tool != "nexus_instinct_import"@,
        tool != "nexus_instinct_record"@,
{
    reveal_strlit("nexus_get_");
    reveal_strlit("nexus_get_history");
    reveal_strlit("nexus_get_stats");
    reveal_strlit("nexus_instinct_stats");
    reveal_strlit("nexus_instinct_query");
    reveal_strlit("nexus_instinct_export");
    reveal_strlit("nexus_aeon_execute_timeline");
    reveal_strlit("nexus_execute");
    reveal_strlit("nexus_execute_wasi");
    reveal_strlit("nexus_rollback");
    reveal_strlit("nexus_snapshot");
    reveal_strlit("nexus_issue_token");
    reveal_strlit("nexus_instinct_import");
    reveal_strlit("nexus_instinct_record");
    let i = choose|i: int| 0 <= i < read_only_tools().len() && read_only_tools()[i] == tool;
    if i == 0 {
        assert(tool.subrange(0, 10) =~= "nexus_get_"@);
    } else if i == 1 {
        assert(tool.subrange(0, 10) =~= "nexus_get_"@);
    }
    assert(tool[6] == 'g' || tool[6] == 'i' || tool[6] == 'a');
    if i == 2 || i == 3 || i == 4 {
        assert(tool[15] == 's' || tool[15] == 'q' || tool[15] == 'e');
    }
}

/// A group of tools is refused exactly if it is switched off.
pub proof fn lemma_groups_are_switched(enabled: bool, said: Seq<char>)
    ensures
        group_refusal(enabled, said) is Some <==> !enabled,
        !enabled ==> group_refusal(enabled, said) == Some(error::denied_by_profile(said)),
{
}

} // verus!
