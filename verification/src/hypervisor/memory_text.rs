//! What is told to the memory service about failures and recoveries.

use crate::hypervisor::recovery::RecoveryAction;
use crate::hypervisor::validator::error_log::ErrorLog;
use crate::text;
use vstd::prelude::*;
use vstd::string::*;

verus! {

/// A word that may hold a secret.
pub open spec fn sensitive(token: Seq<char>) -> bool {
    let t = text::ascii_lowered(token);
    ||| text::starts(t, "sk-"@)
    ||| text::has_text(t, "api_key"@)
    ||| text::has_text(t, "apikey"@)
    ||| text::has_text(t, "token="@)
    ||| text::has_text(t, "password"@)
    ||| text::has_text(t, "secret"@)
    ||| text::has_text(t, "authorization"@)
    ||| t == "bearer"@
}

/// A word, or what stands for it.
pub open spec fn redacted_token(token: Seq<char>) -> Seq<char> {
    if sensitive(token) {
        "[redacted]"@
    } else {
        token
    }
}

/// The words of a text, each redacted, with single spaces between them. The
/// text is first stripped of control characters and cut to length.
pub open spec fn safe_fragment(raw: Seq<char>, max_chars: nat) -> Seq<char> {
    text::joined(
        redacted_tokens(text::words(text::first_chars(text::printable(raw), max_chars))),
        " "@,
    )
}

pub open spec fn redacted_tokens(words: Seq<Seq<char>>) -> Seq<Seq<char>> {
    Seq::new(words.len(), |i: int| redacted_token(words[i]))
}

/// Replaces a word that may hold a secret.
pub fn aeon_redact_token(token: &str) -> (r: String)
    ensures
        r@ == redacted_token(token@),
{
    let lower = text::ascii_lowercase(token);
    let t = lower.as_str();
    let hit = text::starts_with(t, "sk-") || text::contains_text(t, "api_key")
        || text::contains_text(t, "apikey") || text::contains_text(t, "token=")
        || text::contains_text(t, "password") || text::contains_text(t, "secret")
        || text::contains_text(t, "authorization") || text::same_text(t, "bearer");
    if hit {
        "[redacted]".to_string()
    } else {
        token.to_string()
    }
}

/// A text that is safe to send: one line, bounded, without secrets.
pub fn aeon_safe_fragment(raw: &str, max_chars: usize) -> (r: String)
    ensures
        r@ == safe_fragment(raw@, max_chars as nat),
{
    let cleaned = text::strip_control(raw);
    let cut = text::take_chars(cleaned.as_str(), max_chars);
    let words = text::split_words(cut.as_str());
    let ghost all = text::texts(words@);
    let mut out: Vec<String> = Vec::new();
    let mut i: usize = 0;
    while i < words.len()
        invariant
            i <= words.len(),
            all == text::texts(words@),
            out@.len() == i,
            forall|j: int| 0 <= j < i ==> (#[trigger] out@[j])@ == redacted_token(all[j]),
        decreases words.len() - i,
    {
        out.push(aeon_redact_token(words[i].as_str()));
        i = i + 1;
    }
    proof {
        assert(text::texts(out@) =~= redacted_tokens(all));
    }
    text::join(&out, " ")
}

/// The fragments of the first three actions, without the empty ones.
pub open spec fn action_fragments(actions: Seq<RecoveryAction>, n: nat) -> Seq<Seq<char>>
    decreases n,
{
    if n == 0 || actions.len() == 0 {
        Seq::empty()
    } else if n > actions.len() {
        action_fragments(actions, actions.len())
    } else {
        let rest = action_fragments(actions, (n - 1) as nat);
        let f = safe_fragment(actions[n - 1].description@, 256);
        if f.len() == 0 {
            rest
        } else {
            rest.push(f)
        }
    }
}

pub open spec fn truth(b: bool) -> Seq<char> {
    if b {
        "true"@
    } else {
        "false"@
    }
}

/// What is told about a failure.
pub open spec fn failure_content(
    log: ErrorLog,
    rollback_performed: bool,
    duration_ms: nat,
    fuel_consumed: nat,
    snapshot_id: Option<Seq<char>>,
) -> Seq<char> {
    let head = "execution failure: operation="@ + safe_fragment(log.operation@, 128)
        + " category="@ + log.failure_mode@.category() + " description="@ + safe_fragment(
        log.description@,
        512,
    ) + " rollback_performed="@ + truth(rollback_performed) + " duration_ms="@ + text::decimal(
        duration_ms,
    ) + " fuel_consumed="@ + text::decimal(fuel_consumed) + " snapshot_id="@ + (match snapshot_id {
        Some(id) => id,
        None => "none"@,
    });
    let actions = action_fragments(log.recovery_actions@, 3);
    let whole = if actions.len() == 0 {
        head
    } else {
        head + " recovery_actions="@ + text::joined(actions, " | "@)
    };
    text::first_chars(whole, 2048)
}

fn truth_text(b: bool) -> (r: &'static str)
    ensures
        r@ == truth(b),
{
    if b {
        "true"
    } else {
        "false"
    }
}

fn fragments(actions: &Vec<RecoveryAction>) -> (r: Vec<String>)
    ensures
        text::texts(r@) == action_fragments(actions@, 3),
{
    let mut out: Vec<String> = Vec::new();
    let n: usize = if actions.len() < 3 {
        actions.len()
    } else {
        3
    };
    let mut i: usize = 0;
    proof {
        assert(text::texts(out@) =~= Seq::<Seq<char>>::empty());
    }
    while i < n
        invariant
            i <= n,
            n <= actions.len(),
            text::texts(out@) == action_fragments(actions@, i as nat),
        decreases n - i,
    {
        let f = aeon_safe_fragment(actions[i].description.as_str(), 256);
        let ghost before = text::texts(out@);
        let ghost fv = f@;
        if !f.as_str().is_empty() {
            out.push(f);
            proof {
                assert(text::texts(out@) =~= before.push(fv));
            }
        }
        i = i + 1;
    }
    proof {
        if actions@.len() < 3 {
            assert(action_fragments(actions@, 3) == action_fragments(actions@, actions@.len()));
        }
    }
    out
}

/// What is told about a failure: at most 2048 characters.
pub fn aeon_failure_memory_content(
    error_log: &ErrorLog,
    rollback_performed: bool,
    duration_ms: u64,
    fuel_consumed: u64,
    snapshot_id: &Option<String>,
) -> (r: String)
    ensures
        r@ == failure_content(
            *error_log,
            rollback_performed,
            duration_ms as nat,
            fuel_consumed as nat,
            text::opt_text(*snapshot_id),
        ),
        r@.len() <= 2048,
{
    let mut out = String::new();
    out.append("execution failure: operation=");
    out.append(aeon_safe_fragment(error_log.operation.as_str(), 128).as_str());
    out.append(" category=");
    out.append(error_log.failure_mode.category());
    out.append(" description=");
    out.append(aeon_safe_fragment(error_log.description.as_str(), 512).as_str());
    out.append(" rollback_performed=");
    out.append(truth_text(rollback_performed));
    out.append(" duration_ms=");
    out.append(text::to_decimal(duration_ms).as_str());
    out.append(" fuel_consumed=");
    out.append(text::to_decimal(fuel_consumed).as_str());
    out.append(" snapshot_id=");
    match snapshot_id {
        Some(id) => {
            out.append(id.as_str());
        },
        None => {
            out.append("none");
        },
    }
    let actions = fragments(&error_log.recovery_actions);
    proof {
        assert(text::texts(actions@).len() == actions@.len());
        let head = "execution failure: operation="@ + safe_fragment(error_log.operation@, 128)
            + " category="@ + error_log.failure_mode@.category() + " description="@
            + safe_fragment(error_log.description@, 512) + " rollback_performed="@ + truth(
            rollback_performed,
        ) + " duration_ms="@ + text::decimal(duration_ms as nat) + " fuel_consumed="@
            + text::decimal(fuel_consumed as nat) + " snapshot_id="@ + (match text::opt_text(
            *snapshot_id,
        ) {
            Some(id) => id,
            None => "none"@,
        });
        assert(out@ =~= head);
    }
    if actions.len() > 0 {
        out.append(" recovery_actions=");
        out.append(text::join(&actions, " | ").as_str());
    }
    text::take_chars(out.as_str(), 2048)
}

/// What is told about a recovery.
pub open spec fn recovery_content(
    operation: Seq<char>,
    attempt: nat,
    instinct_id: Seq<char>,
    description: Seq<char>,
    success: bool,
) -> Seq<char> {
    "recovery outcome: operation="@ + safe_fragment(operation, 128) + " attempt="@ + text::decimal(
        attempt,
    ) + " instinct_id="@ + instinct_id + " outcome="@ + (if success {
        "success"@
    } else {
        "failure"@
    }) + " action="@ + safe_fragment(description, 512)
}

/// What is told about a recovery.
pub fn aeon_recovery_outcome_memory_content(
    operation: &str,
    attempt: u32,
    instinct_id: &str,
    description: &str,
    success: bool,
) -> (r: String)
    ensures
        r@ == recovery_content(operation@, attempt as nat, instinct_id@, description@, success),
{
    let mut out = String::new();
    out.append("recovery outcome: operation=");
    out.append(aeon_safe_fragment(operation, 128).as_str());
    out.append(" attempt=");
    out.append(text::to_decimal(attempt as u64).as_str());
    out.append(" instinct_id=");
    out.append(instinct_id);
    out.append(" outcome=");
    if success {
        out.append("success");
    } else {
        out.append("failure");
    }
    out.append(" action=");
    out.append(aeon_safe_fragment(description, 512).as_str());
    proof {
        assert(out@ =~= recovery_content(
            operation@,
            attempt as nat,
            instinct_id@,
            description@,
            success,
        ));
    }
    out
}

/// A word that may hold a secret never shows.
pub proof fn lemma_sensitive_tokens_never_show(words: Seq<Seq<char>>, i: int)
    requires
        0 <= i < words.len(),
        sensitive(words[i]),
    ensures
        redacted_tokens(words)[i] == "[redacted]"@,
{
}

/// What a word must not hold to be told, in small letters.
pub open spec fn guarded_parts() -> Seq<Seq<char>> {
    seq!["api_key"@, "apikey"@, "token="@, "password"@, "secret"@, "authorization"@]
}

/// A word that names a secret is never told, in whatever case it is written and
/// wherever in the word the name stands.
pub proof fn lemma_guarded_words_are_hidden(word: Seq<char>, i: int)
    requires
        ({
            let lower = text::ascii_lowered(word);
            ||| 0 <= i < guarded_parts().len() && text::has_text(lower, guarded_parts()[i])
            ||| text::starts(lower, "sk-"@)
            ||| lower == "bearer"@
        }),
    ensures
        redacted_token(word) == "[redacted]"@,
{
}

/// A word of letters and digits alone that names no secret is told as it is.
pub proof fn lemma_plain_words_are_told(word: Seq<char>)
    requires
        forall|i: int| 0 <= i < word.len() ==> text::alnum(#[trigger] word[i]),
        text::ascii_lowered(word) != "bearer"@,
        forall|i: int|
            0 <= i < guarded_parts().len() ==> !text::has_text(
                text::ascii_lowered(word),
                #[trigger] guarded_parts()[i],
            ),
    ensures
        redacted_token(word) == word,
{
    let t = text::ascii_lowered(word);
    assert(guarded_parts()[0] == "api_key"@);
    assert(guarded_parts()[1] == "apikey"@);
    assert(guarded_parts()[2] == "token="@);
    assert(guarded_parts()[3] == "password"@);
    assert(guarded_parts()[4] == "secret"@);
    assert(guarded_parts()[5] == "authorization"@);
    reveal_strlit("sk-");
    if text::starts(t, "sk-"@) {
        assert(t.subrange(0, 3)[2] == t[2]);
        assert(text::alnum(word[2]));
    }
}

/// What is remembered of a recovery: what was tried and how it went, under the
/// instinct that proposed it. A success is not remembered like a failure.
pub proof fn lemma_recovery_is_remembered(
    operation: Seq<char>,
    attempt: nat,
    instinct_id: Seq<char>,
    description: Seq<char>,
    success: bool,
)
    ensures
        text::ends(
            recovery_content(operation, attempt, instinct_id, description, success),
            " action="@ + safe_fragment(description, 512),
        ),
        text::has_text(
            recovery_content(operation, attempt, instinct_id, description, success),
            " instinct_id="@ + instinct_id,
        ),
        text::has_text(
            recovery_content(operation, attempt, instinct_id, description, true),
            " outcome=success"@,
        ),
        text::has_text(
            recovery_content(operation, attempt, instinct_id, description, false),
            " outcome=failure"@,
        ),
{
    let head = "recovery outcome: operation="@ + safe_fragment(operation, 128) + " attempt="@
        + text::decimal(attempt);
    let named = " instinct_id="@ + instinct_id;
    let tail = " action="@ + safe_fragment(description, 512);
    let told = if success {
        "success"@
    } else {
        "failure"@
    };
    let whole = recovery_content(operation, attempt, instinct_id, description, success);
    assert(whole =~= head + named + " outcome="@ + told + tail);
    assert(whole.subrange(whole.len() - tail.len(), whole.len() as int) =~= tail);
    text::lemma_part_is_held(head, named, " outcome="@ + told + tail);
    assert(whole =~= head + named + (" outcome="@ + told + tail));
    lemma_outcome_told(head + named, tail);
    assert(recovery_content(operation, attempt, instinct_id, description, true) =~= head + named
        + " outcome="@ + "success"@ + tail);
    assert(recovery_content(operation, attempt, instinct_id, description, false) =~= head + named
        + " outcome="@ + "failure"@ + tail);
}

proof fn lemma_outcome_told(head: Seq<char>, tail: Seq<char>)
    ensures
        text::has_text(head + " outcome="@ + "success"@ + tail, " outcome=success"@),
        text::has_text(head + " outcome="@ + "failure"@ + tail, " outcome=failure"@),
{
    assert(" outcome="@ + "success"@ =~= " outcome=success"@) by {
        reveal_strlit(" outcome=");
        reveal_strlit("success");
        reveal_strlit(" outcome=success");
    }
    assert(" outcome="@ + "failure"@ =~= " outcome=failure"@) by {
        reveal_strlit(" outcome=");
        reveal_strlit("failure");
        reveal_strlit(" outcome=failure");
    }
    text::lemma_part_is_held(head, " outcome="@ + "success"@, tail);
    assert(head + (" outcome="@ + "success"@) + tail =~= head + " outcome="@ + "success"@ + tail);
    text::lemma_part_is_held(head, " outcome="@ + "failure"@, tail);
    assert(head + (" outcome="@ + "failure"@) + tail =~= head + " outcome="@ + "failure"@ + tail);
}

/// What is remembered of a failure: the operation in front, and, where nothing
/// had to be cut, the category, whether state was restored, what the run cost
/// and which snapshot there was.
pub proof fn lemma_failure_is_remembered(
    log: ErrorLog,
    rollback_performed: bool,
    duration_ms: nat,
    fuel_consumed: nat,
    snapshot_id: Option<Seq<char>>,
)
    ensures
        ({
            let c = failure_content(
                log,
                rollback_performed,
                duration_ms,
                fuel_consumed,
                snapshot_id,
            );
            &&& c.len() <= 2048
            &&& c.len() < 2048 ==> text::starts(
                c,
                "execution failure: operation="@ + safe_fragment(log.operation@, 128),
            )
            &&& c.len() < 2048 ==> text::has_text(
                c,
                " category="@ + log.failure_mode@.category(),
            )
            &&& c.len() < 2048 ==> text::has_text(
                c,
                " rollback_performed="@ + truth(rollback_performed),
            )
            &&& c.len() < 2048 ==> text::has_text(c, " duration_ms="@ + text::decimal(duration_ms))
            &&& c.len() < 2048 ==> text::has_text(
                c,
                " fuel_consumed="@ + text::decimal(fuel_consumed),
            )
            &&& c.len() < 2048 && snapshot_id is Some ==> text::has_text(
                c,
                " snapshot_id="@ + snapshot_id->0,
            )
            &&& c.len() < 2048 && snapshot_id is None ==> text::has_text(c, " snapshot_id=none"@)
        }),
{
    let op = "execution failure: operation="@ + safe_fragment(log.operation@, 128);
    let a = " category="@ + log.failure_mode@.category();
    let b = " description="@ + safe_fragment(log.description@, 512);
    let c = " rollback_performed="@ + truth(rollback_performed);
    let d = " duration_ms="@ + text::decimal(duration_ms);
    let e = " fuel_consumed="@ + text::decimal(fuel_consumed);
    let id = match snapshot_id {
        Some(id) => id,
        None => "none"@,
    };
    let f = " snapshot_id="@ + id;
    let actions = action_fragments(log.recovery_actions@, 3);
    let rest = if actions.len() == 0 {
        Seq::empty()
    } else {
        " recovery_actions="@ + text::joined(actions, " | "@)
    };
    let whole = op + a + b + c + d + e + f + rest;
    lemma_head_regrouped(
        safe_fragment(log.operation@, 128),
        log.failure_mode@.category(),
        safe_fragment(log.description@, 512),
        truth(rollback_performed),
        text::decimal(duration_ms),
        text::decimal(fuel_consumed),
        id,
    );
    let head = "execution failure: operation="@ + safe_fragment(log.operation@, 128)
        + " category="@ + log.failure_mode@.category() + " description="@ + safe_fragment(
        log.description@,
        512,
    ) + " rollback_performed="@ + truth(rollback_performed) + " duration_ms="@ + text::decimal(
        duration_ms,
    ) + " fuel_consumed="@ + text::decimal(fuel_consumed) + " snapshot_id="@ + id;
    assert(head == op + a + b + c + d + e + f);
    if actions.len() == 0 {
        assert(head + rest =~= head);
    } else {
        assert(head + rest =~= head + " recovery_actions="@ + text::joined(actions, " | "@));
    }
    let told = failure_content(log, rollback_performed, duration_ms, fuel_consumed, snapshot_id);
    assert(told == text::first_chars(whole, 2048));
    if told.len() < 2048 {
        assert(told == whole);
        assert(whole.subrange(0, op.len() as int) =~= op);
        lemma_seven_parts(op, a, b, c, d, e, f, rest);
        assert(" snapshot_id="@ + "none"@ =~= " snapshot_id=none"@) by {
            reveal_strlit(" snapshot_id=");
            reveal_strlit("none");
            reveal_strlit(" snapshot_id=none");
        }
    }
}

proof fn lemma_head_regrouped(
    op: Seq<char>,
    category: Seq<char>,
    description: Seq<char>,
    rolled: Seq<char>,
    ms: Seq<char>,
    fuel: Seq<char>,
    id: Seq<char>,
)
    ensures
        "execution failure: operation="@ + op + " category="@ + category + " description="@
            + description + " rollback_performed="@ + rolled + " duration_ms="@ + ms
            + " fuel_consumed="@ + fuel + " snapshot_id="@ + id == ("execution failure: operation="@
            + op) + (" category="@ + category) + (" description="@ + description) + (
        " rollback_performed="@ + rolled) + (" duration_ms="@ + ms) + (" fuel_consumed="@ + fuel)
            + (" snapshot_id="@ + id),
{
    let a = "execution failure: operation="@ + op;
    assert(a + " category="@ + category =~= a + (" category="@ + category));
    let b = a + (" category="@ + category);
    assert(b + " description="@ + description =~= b + (" description="@ + description));
    let c = b + (" description="@ + description);
    assert(c + " rollback_performed="@ + rolled =~= c + (" rollback_performed="@ + rolled));
    let d = c + (" rollback_performed="@ + rolled);
    assert(d + " duration_ms="@ + ms =~= d + (" duration_ms="@ + ms));
    let e = d + (" duration_ms="@ + ms);
    assert(e + " fuel_consumed="@ + fuel =~= e + (" fuel_consumed="@ + fuel));
    let f = e + (" fuel_consumed="@ + fuel);
    assert(f + " snapshot_id="@ + id =~= f + (" snapshot_id="@ + id));
}

proof fn lemma_seven_parts(
    op: Seq<char>,
    a: Seq<char>,
    b: Seq<char>,
    c: Seq<char>,
    d: Seq<char>,
    e: Seq<char>,
    f: Seq<char>,
    rest: Seq<char>,
)
    ensures
        text::has_text(op + a + b + c + d + e + f + rest, a),
        text::has_text(op + a + b + c + d + e + f + rest, c),
        text::has_text(op + a + b + c + d + e + f + rest, d),
        text::has_text(op + a + b + c + d + e + f + rest, e),
        text::has_text(op + a + b + c + d + e + f + rest, f),
{
    let none = Seq::<char>::empty();
    let s2 = op + a + b;
    let s3 = s2 + c;
    let s4 = s3 + d;
    let s5 = s4 + e;
    let s6 = s5 + f;
    text::lemma_part_is_held(op, a, b);
    text::lemma_held_in_longer(none, s2, c, a);
    text::lemma_held_in_longer(none, s3, d, a);
    text::lemma_held_in_longer(none, s4, e, a);
    text::lemma_held_in_longer(none, s5, f, a);
    text::lemma_held_in_longer(none, s6, rest, a);
    text::lemma_part_is_held(s2, c, d);
    text::lemma_held_in_longer(none, s4, e, c);
    text::lemma_held_in_longer(none, s5, f, c);
    text::lemma_held_in_longer(none, s6, rest, c);
    text::lemma_part_is_held(s3, d, e);
    text::lemma_held_in_longer(none, s5, f, d);
    text::lemma_held_in_longer(none, s6, rest, d);
    text::lemma_part_is_held(s4, e, f);
    text::lemma_held_in_longer(none, s6, rest, e);
    text::lemma_part_is_held(s5, f, rest);
}

/// Of the first actions each is told, cut to size, unless nothing is left of it;
/// and there are no more than asked for.
pub proof fn lemma_first_actions_are_told(actions: Seq<RecoveryAction>, n: nat, i: int)
    requires
        n <= actions.len(),
        0 <= i < n,
    ensures
        safe_fragment(actions[i].description@, 256).len() > 0 ==> action_fragments(
            actions,
            n,
        ).contains(safe_fragment(actions[i].description@, 256)),
        action_fragments(actions, n).len() <= n,
    decreases n,
{
    let rest = action_fragments(actions, (n - 1) as nat);
    let all = action_fragments(actions, n);
    let f = safe_fragment(actions[i].description@, 256);
    if n > 1 {
        lemma_first_actions_are_told(
            actions,
            (n - 1) as nat,
            if i < n - 1 {
                i
            } else {
                0
            },
        );
    }
    if f.len() > 0 {
        if i < n - 1 {
            let k = choose|k: int| 0 <= k < rest.len() && rest[k] == f;
            assert(all[k] == f);
        } else {
            assert(all[all.len() - 1] == f);
        }
    }
}

} // verus!
