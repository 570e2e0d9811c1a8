//! The tools that read and teach instincts.

use crate::hypervisor::failure_mode;
use crate::hypervisor::failure_mode::{failure_mode_from_category, FailureMode};
use crate::hypervisor::recovery::Ratio;
use crate::ids;
use crate::instinct;
use crate::instinct::{Instinct, InstinctStore};
use crate::mcp::error;
use crate::mcp::error::ToolError;
use crate::mcp::execute;
use crate::mcp::gate;
use crate::mcp::gate::ToolGate;
use crate::mcp::params::{
    InstinctImportParams, InstinctQueryParams, InstinctRecordOutcomeParams, InstinctRegisterParams,
};
use crate::text;
use vstd::prelude::*;
use vstd::string::*;

verus! {

/// How long advice may be, in bytes.
pub const MAX_DESCRIPTION: usize = 1024;

/// How long the name of an operation may be.
pub const MAX_PATTERN: usize = 128;

/// How large an import may be, in bytes.
pub const MAX_IMPORT: usize = 10_485_760;

/// The complaint where there is no store.
pub open spec fn no_store() -> error::Why {
    error::Why::Other("instinct store not initialised"@)
}

/// Why an instinct tool is refused, if it is.
pub open spec fn instinct_refused(tools: ToolGate, tool: Seq<char>, has_store: bool) -> Option<
    error::Why,
> {
    execute::first_refusal(
        execute::refused(tools, tool),
        execute::first_refusal(
            gate::group_refusal(
                tools.policy is None || tools.instinct_enabled,
                "instinct tools are disabled by the active profile"@,
            ),
            if has_store {
                None
            } else {
                Some(no_store())
            },
        ),
    )
}

/// Whether an instinct tool may be called, and there is a store for it.
pub fn ensure_instincts(tools: &ToolGate, tool: &str, has_store: bool) -> (r: Result<
    (),
    ToolError,
>)
    ensures
        gate::refusal(r) == instinct_refused(*tools, tool@, has_store),
{
    match tools.ensure_tool_allowed(tool) {
        Ok(_) => {},
        Err(e) => {
            return Err(e);
        },
    }
    match tools.ensure_instinct_enabled() {
        Ok(_) => {},
        Err(e) => {
            return Err(e);
        },
    }
    if has_store {
        Ok(())
    } else {
        Err(ToolError::Other("instinct store not initialised".to_string()))
    }
}

/// What is told of an instinct.
#[derive(Debug, Clone, PartialEq, Eq)]
pub struct InstinctSuggestion {
    pub instinct_id: String,
    pub recovery_description: String,
    pub confidence: Ratio,
    pub operation_pattern: String,
    pub failure_category: String,
}

/// What is told of an instinct.
pub open spec fn suggests(s: InstinctSuggestion, i: instinct::Inst) -> bool {
    &&& s.instinct_id@ == i.id
    &&& s.recovery_description@ == i.description
    &&& s.confidence == i.confidence
    &&& s.operation_pattern@ == i.pattern
    &&& s.failure_category@ == i.category
}

/// What is told of some instincts.
pub open spec fn suggestions(v: Seq<InstinctSuggestion>, found: Seq<instinct::Inst>) -> bool {
    v.len() == found.len() && forall|i: int|
        0 <= i < v.len() ==> suggests(#[trigger] v[i], found[i])
}

fn suggest(found: &Vec<Instinct>) -> (r: Vec<InstinctSuggestion>)
    ensures
        suggestions(r@, instinct::insts(found@)),
{
    let mut out: Vec<InstinctSuggestion> = Vec::new();
    let mut i: usize = 0;
    while i < found.len()
        invariant
            i <= found.len(),
            out@.len() == i,
            forall|j: int|
                0 <= j < i ==> suggests(#[trigger] out@[j], instinct::insts(found@)[j]),
        decreases found.len() - i,
    {
        let it = &found[i];
        out.push(
            InstinctSuggestion {
                instinct_id: it.id.clone(),
                recovery_description: it.recovery_description.clone(),
                confidence: it.confidence,
                operation_pattern: it.operation_pattern.clone(),
                failure_category: it.failure_category.clone(),
            },
        );
        i = i + 1;
    }
    out
}

/// The advice against a category of failures for an operation.
pub fn do_instinct_query(tools: &ToolGate, store: &InstinctStore, params: &InstinctQueryParams) -> (r:
    Result<Vec<InstinctSuggestion>, ToolError>)
    requires
        store.valid(),
    ensures
        is_query_answer(*tools, store@, *params, r),
{
    match ensure_instincts(tools, "nexus_instinct_query", true) {
        Ok(_) => {},
        Err(e) => {
            return Err(e);
        },
    }
    match failure_mode_from_category(params.failure_category.as_str()) {
        Err(e) => Err(ToolError::Other(e)),
        Ok(mode) => {
            let found = store.query(&mode, params.operation.as_str());
            Ok(suggest(&found))
        },
    }
}

/// Whether a text can stand for operations: `*`, or a name of letters, digits,
/// underscores and hyphens.
pub open spec fn pattern_ok(s: Seq<char>) -> bool {
    s == "*"@ || (s.len() <= MAX_PATTERN && forall|i: int|
        0 <= i < s.len() ==> text::alnum(#[trigger] s[i]) || s[i] == '_' || s[i] == '-')
}

fn check_pattern(s: &str) -> (r: bool)
    ensures
        r == pattern_ok(s@),
{
    if text::same_text(s, "*") {
        return true;
    }
    let cs = text::chars_of(s);
    if cs.len() > MAX_PATTERN {
        return false;
    }
    let mut i: usize = 0;
    while i < cs.len()
        invariant
            i <= cs.len(),
            cs@ == s@,
            s@ != "*"@,
            forall|j: int|
                0 <= j < i ==> text::alnum(#[trigger] cs@[j]) || cs@[j] == '_' || cs@[j] == '-',
        decreases cs.len() - i,
    {
        let c: char = cs[i];
        if !(text::is_alnum(c) || c == '_' || c == '-') {
            assert(!(text::alnum(s@[i as int]) || s@[i as int] == '_' || s@[i as int] == '-'));
            return false;
        }
        i = i + 1;
    }
    true
}

/// What is wrong with advice that is to be learned.
pub open spec fn advice_fault(p: InstinctRegisterParams) -> Option<Seq<char>> {
    if vstd::utf8::encode_utf8(p.recovery_description@).len() > MAX_DESCRIPTION {
        Some("recovery_description exceeds 1024 characters"@)
    } else if !pattern_ok(p.operation_pattern@) {
        Some(
            "operation_pattern must be '*' or a name containing only alphanumerics, underscores, and hyphens (max 128 chars)"@,
        )
    } else if failure_mode::failure_of_category(p.failure_category@) is None {
        Some(
            "unknown failure_category: unrecognised failure category '"@ + p.failure_category@
                + "'"@,
        )
    } else {
        None
    }
}

fn check_advice(p: &InstinctRegisterParams) -> (r: Result<FailureMode, String>)
    ensures
        match r {
            Ok(m) => advice_fault(*p) is None && failure_mode::failure_of_category(
                p.failure_category@,
            ) == Some(m@),
            Err(e) => advice_fault(*p) == Some(e@),
        },
{
    if p.recovery_description.as_str().as_bytes().len() > MAX_DESCRIPTION {
        return Err("recovery_description exceeds 1024 characters".to_string());
    }
    if !check_pattern(p.operation_pattern.as_str()) {
        return Err(
            "operation_pattern must be '*' or a name containing only alphanumerics, underscores, and hyphens (max 128 chars)".to_string(),
        );
    }
    match failure_mode_from_category(p.failure_category.as_str()) {
        Ok(m) => Ok(m),
        Err(e) => {
            let said = text::cat2("unknown failure_category: ", e.as_str());
            proof {
                reveal_strlit("unknown failure_category: ");
                reveal_strlit("unrecognised failure category '");
                reveal_strlit("unknown failure_category: unrecognised failure category '");
                assert("unknown failure_category: "@ + "unrecognised failure category '"@
                    =~= "unknown failure_category: unrecognised failure category '"@);
                assert(said@ =~= "unknown failure_category: unrecognised failure category '"@
                    + p.failure_category@ + "'"@);
            }
            Err(said)
        },
    }
}

/// Learns advice, and returns the identifier under which it is known. Where the
/// advice is refused the store is not touched.
pub fn do_instinct_register(
    tools: &ToolGate,
    store: &mut InstinctStore,
    params: &InstinctRegisterParams,
    fresh_id: String,
    now: String,
) -> (r: Result<String, ToolError>)
    requires
        old(store).valid(),
    ensures
        final(store).valid(),
        is_registration(*tools, *old(store), *final(store), *params, fresh_id@, now@, r),
{
    match ensure_instincts(tools, "nexus_instinct_register", true) {
        Ok(_) => {},
        Err(e) => {
            return Err(e);
        },
    }
    match check_advice(params) {
        Err(e) => Err(ToolError::Other(e)),
        Ok(mode) => Ok(
            store.register(
                &mode,
                params.operation_pattern.as_str(),
                params.recovery_description.as_str(),
                fresh_id,
                now,
            ),
        ),
    }
}

/// Takes in whether an instinct helped, when `reading` is what a reading of its
/// identifier came to. What is returned is whether it is known.
pub fn record_outcome(
    tools: &ToolGate,
    store: &mut InstinctStore,
    params: &InstinctRecordOutcomeParams,
    reading: &Result<String, String>,
    now: String,
) -> (r: Result<bool, ToolError>)
    requires
        old(store).valid(),
    ensures
        final(store).valid(),
        recorded_as(
            *tools,
            *params,
            ids::reading(*reading),
            old(store)@,
            final(store)@,
            now@,
            r,
        ),
{
    match ensure_instincts(tools, "nexus_instinct_record_outcome", true) {
        Ok(_) => {},
        Err(e) => {
            return Err(e);
        },
    }
    match reading {
        Err(e) => Err(ToolError::Other(text::cat2("invalid instinct UUID: ", e.as_str()))),
        Ok(id) => {
            let ghost before = store@;
            let ghost time = now@;
            let known = if params.success {
                store.record_success(id.as_str(), now)
            } else {
                store.record_failure(id.as_str(), now)
            };
            assert(instinct::recorded(
                before,
                store@,
                id@,
                params.success,
                time,
                text::opt_text(known),
            ));
            assert(noted(before, store@, id@, params.success, time, known is Some));
            Ok(known.is_some())
        },
    }
}

/// What becomes of a store when it is told whether an instinct helped.
pub open spec fn recorded_as(
    tools: ToolGate,
    params: InstinctRecordOutcomeParams,
    reading: Result<Seq<char>, Seq<char>>,
    before: Map<Seq<char>, Seq<instinct::Inst>>,
    after: Map<Seq<char>, Seq<instinct::Inst>>,
    now: Seq<char>,
    r: Result<bool, ToolError>,
) -> bool {
    match instinct_refused(tools, "nexus_instinct_record_outcome"@, true) {
        Some(w) => r is Err && r->Err_0@ == w && after == before,
        None => match reading {
            Err(e) => r is Err && r->Err_0@ == error::Why::Other("invalid instinct UUID: "@ + e)
                && after == before,
            Ok(id) => r is Ok && noted(before, after, id, params.success, now, r->Ok_0),
        },
    }
}

/// Whether it was noted that an instinct helped or did not: it was where it is
/// known.
pub open spec fn noted(
    before: Map<Seq<char>, Seq<instinct::Inst>>,
    after: Map<Seq<char>, Seq<instinct::Inst>>,
    id: Seq<char>,
    success: bool,
    now: Seq<char>,
    known: bool,
) -> bool {
    exists|category: Option<Seq<char>>|
        known == category is Some && #[trigger] instinct::recorded(
            before,
            after,
            id,
            success,
            now,
            category,
        )
}

/// Takes in whether an instinct helped.
pub fn do_instinct_record_outcome(
    tools: &ToolGate,
    store: &mut InstinctStore,
    params: &InstinctRecordOutcomeParams,
    now: String,
) -> (r: Result<bool, ToolError>)
    requires
        old(store).valid(),
    ensures
        final(store).valid(),
        recorded_as(
            *tools,
            *params,
            ids::uuid_reading(params.instinct_id@),
            old(store)@,
            final(store)@,
            now@,
            r,
        ),
{
    let reading = ids::parse_uuid(params.instinct_id.as_str());
    record_outcome(tools, store, params, &reading, now)
}

/// All instincts, and how many there are.
pub fn do_instinct_export(tools: &ToolGate, store: &InstinctStore) -> (r: Result<
    (Vec<Instinct>, usize),
    ToolError,
>)
    ensures
        is_export(*tools, *store, r),
{
    match ensure_instincts(tools, "nexus_instinct_export", true) {
        Ok(_) => {},
        Err(e) => {
            return Err(e);
        },
    }
    let all = store.export_all();
    let n = all.len();
    assert(instinct::insts(all@).len() == n);
    Ok((all, n))
}

/// Why an import is refused before it is read, if it is.
pub open spec fn import_refused(tools: ToolGate, has_store: bool, json: Seq<char>) -> Option<
    error::Why,
> {
    execute::first_refusal(
        execute::refused(tools, "nexus_instinct_import"@),
        if !has_store {
            Some(no_store())
        } else if vstd::utf8::encode_utf8(json).len() > MAX_IMPORT {
            Some(error::Why::Other("json payload exceeds 10 MiB limit"@))
        } else {
            None
        },
    )
}

/// Whether an import may be read.
pub fn check_import(tools: &ToolGate, has_store: bool, params: &InstinctImportParams) -> (r: Result<
    (),
    ToolError,
>)
    ensures
        gate::refusal(r) == import_refused(*tools, has_store, params.json@),
{
    match tools.ensure_tool_allowed("nexus_instinct_import") {
        Ok(_) => {},
        Err(e) => {
            return Err(e);
        },
    }
    if !has_store {
        return Err(ToolError::Other("instinct store not initialised".to_string()));
    }
    if params.json.as_str().as_bytes().len() > MAX_IMPORT {
        return Err(ToolError::Other("json payload exceeds 10 MiB limit".to_string()));
    }
    Ok(())
}

/// Imports instincts, read from the payload as `parsed`. What is returned is how
/// many were added, how many were there, and the categories that have changed.
pub fn do_instinct_import(
    tools: &ToolGate,
    store: &mut InstinctStore,
    params: &InstinctImportParams,
    parsed: Vec<Instinct>,
) -> (r: Result<(usize, usize, Vec<String>), ToolError>)
    requires
        old(store).valid(),
    ensures
        final(store).valid(),
        is_import(*tools, *old(store), *final(store), params.json@, instinct::insts(parsed@), r),
{
    match check_import(tools, true, params) {
        Ok(_) => Ok(store.import_all(parsed)),
        Err(e) => Err(e),
    }
}

/// A name that stands for operations holds nothing that could end a file name or
/// a path.
pub proof fn lemma_patterns_are_plain(s: Seq<char>)
    requires
        pattern_ok(s),
    ensures
        !s.contains('/'),
        !s.contains('.'),
        s.len() <= MAX_PATTERN,
{
    reveal_strlit("*");
}

/// The tools of instincts are refused by the lists as any tool is, and besides
/// exactly if the active profile has switched them off or there is no store.
pub proof fn lemma_instinct_tools_follow_the_profile(
    tools: ToolGate,
    tool: Seq<char>,
    has_store: bool,
)
    ensures
        instinct_refused(tools, tool, has_store) is None <==> execute::refused(tools, tool) is None
            && (tools.policy is None || tools.instinct_enabled) && has_store,
{
}

/// What is suggested is what was found, each under its own identifier, category
/// and pattern, and in its place.
pub proof fn lemma_suggestions_are_what_was_found(
    v: Seq<InstinctSuggestion>,
    found: Seq<instinct::Inst>,
    i: int,
)
    requires
        suggestions(v, found),
        0 <= i < found.len(),
    ensures
        v.len() == found.len(),
        v[i].instinct_id@ == found[i].id,
        v[i].recovery_description@ == found[i].description,
        v[i].failure_category@ == found[i].category,
        v[i].operation_pattern@ == found[i].pattern,
        v[i].confidence == found[i].confidence,
{
}

/// Advice is taken exactly if it is short enough, for an operation with a plain
/// name or for all, and about a failure that there is.
pub proof fn lemma_good_advice_is_taken(p: InstinctRegisterParams, f: failure_mode::Failure)
    ensures
        advice_fault(p) is None <==> vstd::utf8::encode_utf8(p.recovery_description@).len() <= 1024
            && pattern_ok(p.operation_pattern@) && failure_mode::failure_of_category(
            p.failure_category@,
        ) is Some,
        p.failure_category@ == f.category() && pattern_ok(p.operation_pattern@)
            && vstd::utf8::encode_utf8(p.recovery_description@).len() <= 1024 ==> advice_fault(p)
            is None,
{
    failure_mode::lemma_categories_distinct(f, f);
}

/// Nothing is changed by a refused or unreadable record; otherwise the answer
/// says whether the instinct is known.
pub proof fn lemma_refused_records_change_nothing(
    tools: ToolGate,
    params: InstinctRecordOutcomeParams,
    reading: Result<Seq<char>, Seq<char>>,
    before: Map<Seq<char>, Seq<instinct::Inst>>,
    after: Map<Seq<char>, Seq<instinct::Inst>>,
    now: Seq<char>,
    r: Result<bool, ToolError>,
)
    requires
        recorded_as(tools, params, reading, before, after, now, r),
    ensures
        r is Err ==> after == before,
        r is Ok <==> instinct_refused(tools, "nexus_instinct_record_outcome"@, true) is None
            && reading is Ok,
        r == Ok::<bool, ToolError>(false) ==> after == before,
{
    if r == Ok::<bool, ToolError>(false) {
        let category = choose|category: Option<Seq<char>>|
            false == category is Some && #[trigger] instinct::recorded(
                before,
                after,
                reading->Ok_0,
                params.success,
                now,
                category,
            );
        assert(category is None);
    }
}

/// An import is refused by the lists, without a store, and above its size.
pub proof fn lemma_imports_are_limited(tools: ToolGate, has_store: bool, json: Seq<char>)
    ensures
        import_refused(tools, has_store, json) is None <==> execute::refused(
            tools,
            "nexus_instinct_import"@,
        ) is None && has_store && vstd::utf8::encode_utf8(json).len() <= 10_485_760,
{
}

/// Whether `r` answers a question for advice.
pub open spec fn is_query_answer(
    tools: ToolGate,
    store: Map<Seq<char>, Seq<instinct::Inst>>,
    params: InstinctQueryParams,
    r: Result<Vec<InstinctSuggestion>, ToolError>,
) -> bool {
    let refusal = instinct_refused(tools, "nexus_instinct_query"@, true);
    let mode = failure_mode::failure_of_category(params.failure_category@);
    match r {
        Ok(v) => refusal is None && mode is Some && suggestions(
            v@,
            instinct::ranked(
                instinct::hits(
                    instinct::bucket_of(store, mode->0.category()),
                    params.operation@,
                ),
            ),
        ),
        Err(e) => match refusal {
            Some(w) => e@ == w,
            None => mode is None && e@ == error::Why::Other(
                "unrecognised failure category '"@ + params.failure_category@ + "'"@,
            ),
        },
    }
}

/// Advice that is given is about the failure that was asked about: it stands in
/// the store under that category, and is for the operation or for all; the most
/// confident comes first.
pub proof fn lemma_advice_is_about_the_failure(
    tools: ToolGate,
    store: Map<Seq<char>, Seq<instinct::Inst>>,
    params: InstinctQueryParams,
    r: Result<Vec<InstinctSuggestion>, ToolError>,
    f: failure_mode::Failure,
    i: int,
    j: int,
)
    requires
        is_query_answer(tools, store, params, r),
        params.failure_category@ == f.category(),
        forall|k: int|
            0 <= k < instinct::bucket_of(store, f.category()).len() ==> (
            #[trigger] instinct::bucket_of(store, f.category())[k]).confidence.valid(),
        r is Ok,
        0 <= i < j < r->Ok_0@.len(),
    ensures
        !r->Ok_0@[i].confidence.less(r->Ok_0@[j].confidence),
        r->Ok_0@[i].operation_pattern@ == "*"@ || r->Ok_0@[i].operation_pattern@
            == params.operation@,
        exists|x: instinct::Inst|
            #[trigger] instinct::bucket_of(store, f.category()).contains(x) && x.id
                == r->Ok_0@[i].instinct_id@ && x.description == r->Ok_0@[i].recovery_description@,
{
    failure_mode::lemma_categories_distinct(f, f);
    let g = failure_mode::failure_of_category(params.failure_category@)->0;
    assert(g.category() == f.category());
    let bucket = instinct::bucket_of(store, f.category());
    let found = instinct::hits(bucket, params.operation@);
    let best = instinct::ranked(found);
    assert forall|k: int| 0 <= k < found.len() implies (#[trigger] found[k]).confidence.valid() by {
        assert(found.contains(found[k]));
        instinct::lemma_hits_are_for_the_operation(bucket, params.operation@, found[k]);
        let m = choose|m: int| 0 <= m < bucket.len() && bucket[m] == found[k];
        assert(bucket[m].confidence.valid());
    }
    instinct::lemma_ranked_is_sorted(found);
    let v = r->Ok_0@;
    lemma_suggestions_are_what_was_found(v, best, i);
    lemma_suggestions_are_what_was_found(v, best, j);
    assert(!best[i].confidence.less(best[j].confidence));
    let x = best[i];
    assert(best.contains(x));
    broadcast use vstd::seq_lib::group_to_multiset_ensures;
    assert(best.to_multiset().count(x) > 0);
    assert(found.to_multiset().count(x) > 0);
    assert(found.contains(x));
    instinct::lemma_hits_are_for_the_operation(bucket, params.operation@, x);
}

/// Whether `r` and `after` are what teaching advice comes to.
pub open spec fn is_registration(
    tools: ToolGate,
    before: InstinctStore,
    after: InstinctStore,
    params: InstinctRegisterParams,
    fresh_id: Seq<char>,
    now: Seq<char>,
    r: Result<String, ToolError>,
) -> bool {
    let refusal = instinct_refused(tools, "nexus_instinct_register"@, true);
    match r {
        Ok(id) => {
            &&& refusal is None
            &&& advice_fault(params) is None
            &&& instinct::registered(
                before@,
                after@,
                failure_mode::failure_of_category(params.failure_category@)->0.category(),
                params.operation_pattern@,
                params.recovery_description@,
                fresh_id,
                now,
                id@,
            )
        },
        Err(e) => after == before && (match refusal {
            Some(w) => e@ == w,
            None => advice_fault(params) is Some && e@ == error::Why::Other(
                advice_fault(params)->0,
            ),
        }),
    }
}

/// Advice that is taught is found again, under its identifier, by who asks about
/// that failure and an operation that it is for. Advice that is refused leaves
/// the store as it was.
pub proof fn lemma_taught_advice_is_found(
    tools: ToolGate,
    before: InstinctStore,
    after: InstinctStore,
    params: InstinctRegisterParams,
    fresh_id: Seq<char>,
    now: Seq<char>,
    r: Result<String, ToolError>,
    f: failure_mode::Failure,
    operation: Seq<char>,
)
    requires
        is_registration(tools, before, after, params, fresh_id, now, r),
        params.failure_category@ == f.category(),
        params.operation_pattern@ == "*"@ || params.operation_pattern@ == operation,
    ensures
        r matches Ok(id) ==> exists|x: instinct::Inst|
            #[trigger] instinct::ranked(
                instinct::hits(instinct::bucket_of(after@, f.category()), operation),
            ).contains(x) && x.description == params.recovery_description@ && x.pattern
                == params.operation_pattern@ && x.id == id@,
        r is Err ==> after == before,
        r is Ok <==> instinct_refused(tools, "nexus_instinct_register"@, true) is None
            && advice_fault(params) is None,
{
    failure_mode::lemma_categories_distinct(f, f);
    let g = failure_mode::failure_of_category(params.failure_category@)->0;
    if let Ok(id) = r {
        assert(g.category() == f.category());
        instinct::lemma_registered_is_found(
            before@,
            after@,
            g.category(),
            params.operation_pattern@,
            params.recovery_description@,
            fresh_id,
            now,
            id@,
            operation,
        );
        let x = choose|x: instinct::Inst|
            #[trigger] instinct::ranked(
                instinct::hits(instinct::bucket_of(after@, g.category()), operation),
            ).contains(x) && x.same_advice(
                params.operation_pattern@,
                params.recovery_description@,
            ) && x.id == id@;
        assert(instinct::ranked(
            instinct::hits(instinct::bucket_of(after@, f.category()), operation),
        ).contains(x));
    }
}

/// Whether `r` and `after` are what an import of `list` comes to.
pub open spec fn is_import(
    tools: ToolGate,
    before: InstinctStore,
    after: InstinctStore,
    json: Seq<char>,
    list: Seq<instinct::Inst>,
    r: Result<(usize, usize, Vec<String>), ToolError>,
) -> bool {
    match r {
        Ok(n) => {
            let import = instinct::import_list(before@, list);
            &&& import_refused(tools, true, json) is None
            &&& after@ == import.store
            &&& n.0 == import.added
            &&& n.1 == import.merged
            &&& text::texts(n.2@).no_duplicates()
            &&& forall|c: Seq<char>| text::texts(n.2@).contains(c) <==> import.touched.contains(c)
        },
        Err(e) => import_refused(tools, true, json) == Some(e@) && after == before,
    }
}

/// An import counts what it did: each instinct was added or was there, the store
/// holds more by what was added, and what it held stays in its place. A refused
/// import changes nothing.
pub proof fn lemma_imports_are_counted(
    tools: ToolGate,
    before: InstinctStore,
    after: InstinctStore,
    json: Seq<char>,
    list: Seq<instinct::Inst>,
    r: Result<(usize, usize, Vec<String>), ToolError>,
    category: Seq<char>,
    i: int,
)
    requires
        is_import(tools, before, after, json, list, r),
        before@.dom().finite(),
    ensures
        r matches Ok(n) ==> n.0 + n.1 == list.len() && instinct::total(after@) == instinct::total(
            before@,
        ) + n.0,
        0 <= i < instinct::bucket_of(before@, category).len() ==> i < instinct::bucket_of(
            after@,
            category,
        ).len() && instinct::bucket_of(after@, category)[i] == instinct::bucket_of(
            before@,
            category,
        )[i],
        r is Err ==> after == before,
        r is Ok <==> import_refused(tools, true, json) is None,
{
    instinct::lemma_import_counts(before@, list);
    assert(instinct::bucket_of(before@, category).len() <= instinct::bucket_of(
        instinct::import_list(before@, list).store,
        category,
    ).len());
}

/// Whether `r` is all that a store holds, with the number.
pub open spec fn is_export(
    tools: ToolGate,
    store: InstinctStore,
    r: Result<(Vec<Instinct>, usize), ToolError>,
) -> bool {
    match r {
        Ok(p) => {
            &&& instinct_refused(tools, "nexus_instinct_export"@, true) is None
            &&& instinct::insts((p.0)@) == instinct::all_items(store.buckets@)
            &&& p.1 == instinct::all_items(store.buckets@).len()
        },
        Err(e) => instinct_refused(tools, "nexus_instinct_export"@, true) == Some(e@),
    }
}

/// An export holds as many instincts as it says, and all that the store holds.
pub proof fn lemma_exports_are_complete(
    tools: ToolGate,
    store: InstinctStore,
    r: Result<(Vec<Instinct>, usize), ToolError>,
)
    requires
        is_export(tools, store, r),
    ensures
        r matches Ok(p) ==> p.1 == (p.0)@.len() && instinct::insts((p.0)@) == instinct::all_items(
            store.buckets@,
        ),
        r is Ok <==> instinct_refused(tools, "nexus_instinct_export"@, true) is None,
{
    if let Ok(p) = r {
        assert(instinct::insts((p.0)@).len() == (p.0)@.len());
    }
}

} // verus!
