//! What is kept out of a capsule: paths, tokens, environment values and error
//! texts that hold them.

use crate::attestation::digest;
use crate::attestation::receipt::ProofHmacKey;
use crate::attestation::schema::RedactionReport;
use crate::text;
use vstd::prelude::*;
use vstd::string::*;

verus! {

/// The most characters that an error summary keeps.
pub const ERROR_SUMMARY_MAX_CHARS: usize = 256;

/// How a field was redacted.
#[derive(Debug, Clone, Copy, PartialEq, Eq, Structural)]
pub enum RedactionField {
    HmacOrPlaceholder,
    Truncated,
    Removed,
}

/// How fields are redacted. If the key comes from an environment variable,
/// `secret` is its value.
#[derive(Debug, Clone, PartialEq, Eq)]
pub struct RedactionPolicy {
    pub hmac_key: ProofHmacKey,
    pub secret: Option<String>,
}

/// The contents of a list of redactions.
pub open spec fn marks(v: Seq<(String, RedactionField)>) -> Seq<(Seq<char>, RedactionField)> {
    Seq::new(v.len(), |i: int| (v[i].0@, v[i].1))
}

/// Whether `n` occurs in `s` up to ASCII case.
pub open spec fn has_ignoring_case(s: Seq<char>, n: Seq<char>) -> bool {
    text::has_text(text::ascii_lowered(s), text::ascii_lowered(n))
}

/// The text with every occurrence of `n`, up to ASCII case and from the left,
/// replaced by `r`.
pub open spec fn replaced(s: Seq<char>, n: Seq<char>, r: Seq<char>) -> Seq<char>
    decreases s.len(),
{
    if n.len() == 0 || s.len() < n.len() {
        s
    } else if text::text_at(text::ascii_lowered(s), text::ascii_lowered(n), 0) {
        r + replaced(s.skip(n.len() as int), n, r)
    } else {
        seq![s[0]] + replaced(s.skip(1), n, r)
    }
}

proof fn lemma_lowered_skip(s: Seq<char>, n: Seq<char>, i: int)
    requires
        0 <= i <= s.len(),
    ensures
        text::ascii_lowered(s.skip(i)) == text::ascii_lowered(s).skip(i),
        text::text_at(text::ascii_lowered(s.skip(i)), text::ascii_lowered(n), 0) == text::text_at(
            text::ascii_lowered(s),
            text::ascii_lowered(n),
            i,
        ),
{
    let a = text::ascii_lowered(s.skip(i));
    let b = text::ascii_lowered(s);
    let m = text::ascii_lowered(n);
    assert(a =~= b.skip(i));
    if i + m.len() <= b.len() {
        assert(a.subrange(0, m.len() as int) =~= b.subrange(i, i + m.len()));
    }
}

/// Replaces `needle`, up to ASCII case, and says whether it occurred.
pub fn replace_ascii_case_insensitive(input: &str, needle: &str, replacement: &str) -> (r: (
    String,
    bool,
))
    requires
        needle@.len() > 0,
    ensures
        r.0@ == replaced(input@, needle@, replacement@),
        r.1 == has_ignoring_case(input@, needle@),
{
    let cs = text::chars_of(input);
    let lowered = text::ascii_lowercase(input);
    let lower = text::chars_of(lowered.as_str());
    let lowered_needle = text::ascii_lowercase(needle);
    let n = text::chars_of(lowered_needle.as_str());
    let ghost s = input@;
    let mut out = String::new();
    let mut changed = false;
    let mut i: usize = 0;
    proof {
        assert(s.skip(0) =~= s);
        assert(replaced(s, needle@, replacement@) =~= out@ + replaced(
            s.skip(0),
            needle@,
            replacement@,
        ));
    }
    while i < cs.len() && n.len() <= cs.len() - i
        invariant
            i <= cs.len(),
            cs@ == s,
            s == input@,
            lower@ == text::ascii_lowered(s),
            n@ == text::ascii_lowered(needle@),
            n.len() > 0,
            replaced(s, needle@, replacement@) == out@ + replaced(
                s.skip(i as int),
                needle@,
                replacement@,
            ),
            changed ==> has_ignoring_case(s, needle@),
            !changed ==> forall|j: int| 0 <= j < i ==> !text::text_at(lower@, n@, j),
        decreases cs.len() - i,
    {
        proof {
            lemma_lowered_skip(s, needle@, i as int);
        }
        let ghost rest = s.skip(i as int);
        let ghost before = out@;
        if text::at(&lower, &n, i) {
            out.append(replacement);
            changed = true;
            proof {
                assert(rest.skip(n@.len() as int) =~= s.skip(i + n@.len()));
                assert(out@ + replaced(s.skip(i + n@.len()), needle@, replacement@) =~= before
                    + replaced(rest, needle@, replacement@));
            }
            i = i + n.len();
        } else {
            out.push(cs[i]);
            proof {
                assert(rest[0] == s[i as int]);
                assert(rest.skip(1) =~= s.skip(i + 1));
                assert(out@ + replaced(s.skip(i + 1), needle@, replacement@) =~= before + replaced(
                    rest,
                    needle@,
                    replacement@,
                ));
            }
            i = i + 1;
        }
    }
    proof {
        assert(s.skip(i as int) =~= s.subrange(i as int, s.len() as int));
        assert(replaced(s.skip(i as int), needle@, replacement@) == s.skip(i as int));
        if !changed {
            assert forall|j: int| !text::text_at(lower@, n@, j) by {}
        }
    }
    let rest = text::sub_text(&cs, i, cs.len());
    out.append(rest.as_str());
    (out, changed)
}

/// What stands for a removed marker.
pub open spec fn removal() -> Seq<char> {
    "[REMOVED]"@
}

/// The text without the markers that must not appear.
pub open spec fn without_markers(s: Seq<char>) -> Seq<char> {
    let a = replaced(s, ".env"@, removal());
    let b = replaced(a, "preview_base64"@, removal());
    replaced(b, "BEGIN PRIVATE KEY"@, removal())
}

/// Whether a marker had to be removed.
pub open spec fn had_markers(s: Seq<char>) -> bool {
    let a = replaced(s, ".env"@, removal());
    let b = replaced(a, "preview_base64"@, removal());
    has_ignoring_case(s, ".env"@) || has_ignoring_case(a, "preview_base64"@) || has_ignoring_case(
        b,
        "BEGIN PRIVATE KEY"@,
    )
}

/// Removes the markers that must not appear, and says whether there were any.
pub fn remove_forbidden_markers(input: &str) -> (r: (String, bool))
    ensures
        r.0@ == without_markers(input@),
        r.1 == had_markers(input@),
{
    proof {
        reveal_strlit(".env");
        reveal_strlit("preview_base64");
        reveal_strlit("BEGIN PRIVATE KEY");
    }
    let (a, first) = replace_ascii_case_insensitive(input, ".env", "[REMOVED]");
    let (b, second) = replace_ascii_case_insensitive(a.as_str(), "preview_base64", "[REMOVED]");
    let (c, third) = replace_ascii_case_insensitive(b.as_str(), "BEGIN PRIVATE KEY", "[REMOVED]");
    (c, first || second || third)
}

/// Whether a bracket stands in `m`.
pub open spec fn has_bracket(m: Seq<char>) -> bool {
    m.contains('[') || m.contains(']')
}

/// Before the first bracket, a text in which something was replaced is as it
/// was.
proof fn lemma_front_unchanged(s: Seq<char>, n: Seq<char>, k: int)
    requires
        0 <= k <= replaced(s, n, removal()).len(),
        forall|i: int| 0 <= i < k ==> replaced(s, n, removal())[i] != '[',
    ensures
        k <= s.len(),
        replaced(s, n, removal()).take(k) == s.take(k),
    decreases s.len(),
{
    reveal_strlit("[REMOVED]");
    let out = replaced(s, n, removal());
    if n.len() == 0 || s.len() < n.len() {
    } else if text::text_at(text::ascii_lowered(s), text::ascii_lowered(n), 0) {
        if k > 0 {
            assert(out[0] == '[');
        }
    } else if k > 0 {
        let rest = replaced(s.skip(1), n, removal());
        assert forall|i: int| 0 <= i < k - 1 implies rest[i] != '[' by {
            assert(out[i + 1] == rest[i]);
        }
        lemma_front_unchanged(s.skip(1), n, k - 1);
        assert forall|i: int| 0 <= i < k implies out[i] == s[i] by {
            if i > 0 {
                assert(out[i] == rest.take(k - 1)[i - 1]);
                assert(s[i] == s.skip(1).take(k - 1)[i - 1]);
            }
        }
    }
    assert(out.take(k) =~= s.take(k));
}

/// Where a text without brackets matches up to case, there is no bracket.
proof fn lemma_no_bracket(out: Seq<char>, m: Seq<char>, j: int, i: int)
    requires
        !has_bracket(m),
        text::text_at(text::ascii_lowered(out), text::ascii_lowered(m), j),
        j <= i < j + m.len(),
    ensures
        out[i] != '[',
        out[i] != ']',
{
    let a = text::ascii_lowered(out);
    let b = text::ascii_lowered(m);
    assert(a.subrange(j, j + b.len())[i - j] == b[i - j]);
    assert(m.contains(m[i - j]));
}

/// Replacing `n` by the removal mark leaves no `n`, and brings in no `m` that
/// was not there.
proof fn lemma_marker_gone(s: Seq<char>, n: Seq<char>, m: Seq<char>)
    requires
        n.len() > 0,
        m.len() > 0,
        !has_bracket(m),
        !has_ignoring_case(removal(), m),
        m == n || !has_ignoring_case(s, m),
    ensures
        !has_ignoring_case(replaced(s, n, removal()), m),
    decreases s.len(),
{
    let out = replaced(s, n, removal());
    let lo = text::ascii_lowered(out);
    let lm = text::ascii_lowered(m);
    let ls = text::ascii_lowered(s);
    if s.len() < n.len() {
        if m == n {
            assert forall|j: int| !text::text_at(ls, lm, j) by {}
        }
    } else if text::text_at(ls, text::ascii_lowered(n), 0) {
        let rest = replaced(s.skip(n.len() as int), n, removal());
        let k = removal().len() as int;
        if m != n {
            lemma_suffix_lacks(s, m, n.len() as int);
        }
        lemma_marker_gone(s.skip(n.len() as int), n, m);
        assert forall|j: int| !text::text_at(lo, lm, j) by {
            if text::text_at(lo, lm, j) {
                if j >= k {
                    assert(text::ascii_lowered(rest).subrange(j - k, j - k + lm.len())
                        =~= lo.subrange(j, j + lm.len()));
                    assert(text::text_at(text::ascii_lowered(rest), lm, j - k));
                } else if j + m.len() <= k {
                    assert(text::ascii_lowered(removal()).subrange(j, j + lm.len())
                        =~= lo.subrange(j, j + lm.len()));
                    assert(text::text_at(text::ascii_lowered(removal()), lm, j));
                } else {
                    reveal_strlit("[REMOVED]");
                    lemma_no_bracket(out, m, j, k - 1);
                    assert(out[k - 1] == ']');
                }
            }
        }
    } else {
        let rest = replaced(s.skip(1), n, removal());
        if m != n {
            lemma_suffix_lacks(s, m, 1);
        }
        lemma_marker_gone(s.skip(1), n, m);
        assert forall|j: int| !text::text_at(lo, lm, j) by {
            if text::text_at(lo, lm, j) {
                if j >= 1 {
                    assert(text::ascii_lowered(rest).subrange(j - 1, j - 1 + lm.len())
                        =~= lo.subrange(j, j + lm.len()));
                    assert(text::text_at(text::ascii_lowered(rest), lm, j - 1));
                } else {
                    assert forall|i: int| 0 <= i < m.len() implies out[i] != '[' by {
                        lemma_no_bracket(out, m, 0, i);
                    }
                    lemma_front_unchanged(s, n, m.len() as int);
                    assert forall|i: int| 0 <= i < m.len() implies out[i] == s[i] by {
                        assert(out.take(m.len() as int)[i] == s.take(m.len() as int)[i]);
                    }
                    assert(ls.subrange(0, lm.len() as int) =~= lo.subrange(0, lm.len() as int));
                    assert(text::text_at(ls, lm, 0));
                }
            }
        }
    }
}

/// What does not occur in a text does not occur in its end.
proof fn lemma_suffix_lacks(s: Seq<char>, m: Seq<char>, k: int)
    requires
        0 <= k <= s.len(),
        !has_ignoring_case(s, m),
    ensures
        !has_ignoring_case(s.skip(k), m),
{
    let a = text::ascii_lowered(s.skip(k));
    let b = text::ascii_lowered(s);
    let lm = text::ascii_lowered(m);
    assert forall|j: int| !text::text_at(a, lm, j) by {
        if text::text_at(a, lm, j) {
            assert(a.subrange(j, j + lm.len()) =~= b.subrange(j + k, j + k + lm.len()));
            assert(text::text_at(b, lm, j + k));
        }
    }
}

proof fn lemma_removal_lacks(m: Seq<char>, c: char)
    requires
        m.len() > 0,
        m[0] == c,
        c == '.' || c == 'p' || c == 'B',
    ensures
        !has_ignoring_case(removal(), m),
{
    reveal_strlit("[REMOVED]");
    let a = text::ascii_lowered(removal());
    let lm = text::ascii_lowered(m);
    assert forall|j: int| !text::text_at(a, lm, j) by {
        if text::text_at(a, lm, j) {
            assert(a.subrange(j, j + lm.len())[0] == lm[0]);
            assert(a[j] == lm[0]);
        }
    }
}

/// No forbidden marker is left, in capitals or small letters.
pub proof fn lemma_no_markers_left(s: Seq<char>)
    ensures
        !has_ignoring_case(without_markers(s), ".env"@),
        !has_ignoring_case(without_markers(s), "preview_base64"@),
        !has_ignoring_case(without_markers(s), "BEGIN PRIVATE KEY"@),
{
    reveal_strlit(".env");
    reveal_strlit("preview_base64");
    reveal_strlit("BEGIN PRIVATE KEY");
    let m1 = ".env"@;
    let m2 = "preview_base64"@;
    let m3 = "BEGIN PRIVATE KEY"@;
    lemma_removal_lacks(m1, '.');
    lemma_removal_lacks(m2, 'p');
    lemma_removal_lacks(m3, 'B');
    let a = replaced(s, m1, removal());
    let b = replaced(a, m2, removal());
    lemma_marker_gone(s, m1, m1);
    lemma_marker_gone(a, m2, m1);
    lemma_marker_gone(a, m2, m2);
    lemma_marker_gone(b, m3, m1);
    lemma_marker_gone(b, m3, m2);
    lemma_marker_gone(b, m3, m3);
}

/// The characters that are kept at the ends of a word: letters and digits, and
/// some signs if `signs` is set.
pub open spec fn kept(c: char, signs: bool) -> bool {
    text::alnum(c) || (signs && (c == '-' || c == '_' || c == '=' || c == ':'))
}

/// The word without what is not kept at its front.
pub open spec fn strip_front(s: Seq<char>, signs: bool) -> Seq<char>
    decreases s.len(),
{
    if s.len() > 0 && !kept(s[0], signs) {
        strip_front(s.drop_first(), signs)
    } else {
        s
    }
}

/// The word without what is not kept at its back.
pub open spec fn strip_back(s: Seq<char>, signs: bool) -> Seq<char>
    decreases s.len(),
{
    if s.len() > 0 && !kept(s.last(), signs) {
        strip_back(s.drop_last(), signs)
    } else {
        s
    }
}

/// The word without what is not kept at its ends.
pub open spec fn core_of(s: Seq<char>, signs: bool) -> Seq<char> {
    strip_back(strip_front(s, signs), signs)
}

fn is_kept(c: char, signs: bool) -> (r: bool)
    ensures
        r == kept(c, signs),
{
    text::is_alnum(c) || (signs && (c == '-' || c == '_' || c == '=' || c == ':'))
}

fn strip_ends(word: &str, signs: bool) -> (r: String)
    ensures
        r@ == core_of(word@, signs),
{
    let cs = text::chars_of(word);
    let ghost s = word@;
    let mut from: usize = 0;
    proof {
        assert(s.skip(0) =~= s);
    }
    while from < cs.len() && !is_kept(cs[from], signs)
        invariant
            from <= cs.len(),
            cs@ == s,
            strip_front(s, signs) == strip_front(s.skip(from as int), signs),
        decreases cs.len() - from,
    {
        proof {
            assert(s.skip(from as int).drop_first() =~= s.skip(from + 1));
        }
        from = from + 1;
    }
    proof {
        assert(strip_front(s, signs) == s.skip(from as int));
    }
    let mut to: usize = cs.len();
    proof {
        assert(s.subrange(from as int, to as int) =~= s.skip(from as int));
    }
    while from < to && !is_kept(cs[to - 1], signs)
        invariant
            from <= to <= cs.len(),
            cs@ == s,
            strip_back(s.skip(from as int), signs) == strip_back(
                s.subrange(from as int, to as int),
                signs,
            ),
        decreases to,
    {
        proof {
            let t = s.subrange(from as int, to as int);
            assert(t.drop_last() =~= s.subrange(from as int, to - 1));
            assert(t.last() == s[to - 1]);
        }
        to = to - 1;
    }
    proof {
        let t = s.subrange(from as int, to as int);
        if from < to {
            assert(t.last() == s[to - 1]);
        }
        assert(strip_back(t, signs) == t);
    }
    text::sub_text(&cs, from, to)
}

/// A word, in small letters, that announces a token.
pub open spec fn bearer_marker(lower: Seq<char>) -> bool {
    ||| core_of(lower, false) == "bearer"@
    ||| text::starts(lower, "bearer="@)
    ||| text::starts(lower, "bearer:"@)
    ||| text::starts(lower, "authorization:"@)
    ||| text::starts(lower, "authorization="@)
}

/// Whether a word, in small letters, announces a token.
pub fn looks_like_bearer_marker(lower_word: &str) -> (r: bool)
    ensures
        r == bearer_marker(lower_word@),
{
    let core = strip_ends(lower_word, false);
    text::same_text(core.as_str(), "bearer") || text::starts_with(lower_word, "bearer=")
        || text::starts_with(lower_word, "bearer:") || text::starts_with(
        lower_word,
        "authorization:",
    ) || text::starts_with(lower_word, "authorization=")
}

/// A word that looks like a secret.
pub open spec fn secret_like(word: Seq<char>) -> bool {
    let t = core_of(text::ascii_lowered(word), true);
    ||| text::starts(t, "sk-"@)
    ||| text::starts(t, "ghp_"@)
    ||| text::starts(t, "xoxb-"@)
    ||| text::has_text(t, "token="@)
    ||| text::has_text(t, "token:"@)
    ||| text::has_text(t, "api_key"@)
    ||| text::has_text(t, "apikey"@)
    ||| text::has_text(t, "api-key"@)
    ||| text::has_text(t, "secret="@)
    ||| text::has_text(t, "secret:"@)
    ||| text::has_text(t, "password="@)
    ||| text::has_text(t, "password:"@)
    ||| text::has_text(t, "private_key"@)
}

/// Whether a word looks like a secret.
pub fn looks_like_secret_token(word: &str) -> (r: bool)
    ensures
        r == secret_like(word@),
{
    let lower = text::ascii_lowercase(word);
    let core = strip_ends(lower.as_str(), true);
    let t = core.as_str();
    text::starts_with(t, "sk-") || text::starts_with(t, "ghp_") || text::starts_with(t, "xoxb-")
        || text::contains_text(t, "token=") || text::contains_text(t, "token:")
        || text::contains_text(t, "api_key") || text::contains_text(t, "apikey")
        || text::contains_text(t, "api-key") || text::contains_text(t, "secret=")
        || text::contains_text(t, "secret:") || text::contains_text(t, "password=")
        || text::contains_text(t, "password:") || text::contains_text(t, "private_key")
}

/// A drive letter, a colon and a slash of either kind.
pub open spec fn drive_path(lower: Seq<char>) -> bool {
    lower.len() >= 3 && text::letter(lower[0]) && lower[1] == ':' && (lower[2] == '\\' || lower[2]
        == '/')
}

/// Whether a word starts like a path on a drive.
pub fn is_windows_drive_path(lower: &str) -> (r: bool)
    ensures
        r == drive_path(lower@),
{
    let cs = text::chars_of(lower);
    cs.len() >= 3 && text::is_letter(cs[0]) && cs[1] == ':' && (cs[2] == '\\' || cs[2] == '/')
}

/// A word that looks like a path.
pub open spec fn path_like(word: Seq<char>) -> bool {
    let t = text::ascii_lowered(word);
    ||| text::starts(t, "/"@)
    ||| text::has_text(t, "/home/"@)
    ||| text::has_text(t, "/users/"@)
    ||| text::has_text(t, "/.ssh"@)
    ||| text::has_text(t, "\\users\\"@)
    ||| text::has_text(t, "\\.ssh"@)
    ||| drive_path(t)
}

/// Whether a word looks like a path.
pub fn looks_like_path(word: &str) -> (r: bool)
    ensures
        r == path_like(word@),
{
    let lower = text::ascii_lowercase(word);
    let t = lower.as_str();
    text::starts_with(t, "/") || text::contains_text(t, "/home/") || text::contains_text(
        t,
        "/users/",
    ) || text::contains_text(t, "/.ssh") || text::contains_text(t, "\\users\\")
        || text::contains_text(t, "\\.ssh") || is_windows_drive_path(t)
}

impl RedactionPolicy {
    /// The value of the key is known, if one is needed.
    pub open spec fn ready(self) -> bool {
        self.hmac_key is FromEnv ==> self.secret is Some
    }

    /// What stands for a text: a keyed digest, or a placeholder without a key.
    pub open spec fn stand_in(self, s: Seq<char>, placeholder: Seq<char>) -> Seq<char> {
        if self.hmac_key is Disabled {
            placeholder
        } else {
            text::hex_of(
                digest::hmac_sha256_of(
                    digest::key_bytes(self.hmac_key, self.secret),
                    vstd::utf8::encode_utf8(s),
                ),
            )
        }
    }

    /// What stands for a path.
    pub open spec fn path_text(self, s: Seq<char>) -> Seq<char> {
        self.stand_in(s, "[PATH_REDACTED]"@)
    }

    /// What stands for a token.
    pub open spec fn token_text(self, s: Seq<char>) -> Seq<char> {
        self.stand_in(s, "[TOKEN_REDACTED]"@)
    }
}

/// What one word of an error text becomes.
pub struct WordStep {
    pub shown: Seq<char>,
    pub redacted: bool,
    pub next_is_token: bool,
}

/// What a word becomes: a token that was announced, an announcement, a path, a
/// secret, or the word as it is.
pub open spec fn word_step(p: RedactionPolicy, announced: bool, word: Seq<char>) -> WordStep {
    let lower = text::ascii_lowered(word);
    if announced {
        WordStep { shown: p.token_text(word), redacted: true, next_is_token: false }
    } else if bearer_marker(lower) {
        WordStep {
            shown: "[TOKEN_REDACTED]"@,
            redacted: true,
            next_is_token: !lower.contains('=') && !lower.contains(':') && core_of(lower, false)
                == "bearer"@,
        }
    } else if path_like(word) {
        WordStep { shown: p.path_text(word), redacted: true, next_is_token: false }
    } else if secret_like(word) {
        WordStep { shown: p.token_text(word), redacted: true, next_is_token: false }
    } else {
        WordStep { shown: word, redacted: false, next_is_token: false }
    }
}

/// What the words of an error text become.
pub struct Redacting {
    pub shown: Seq<Seq<char>>,
    pub redacted: bool,
    pub next_is_token: bool,
}

pub open spec fn redact_words(p: RedactionPolicy, words: Seq<Seq<char>>) -> Redacting
    decreases words.len(),
{
    if words.len() == 0 {
        Redacting { shown: Seq::empty(), redacted: false, next_is_token: false }
    } else {
        let r = redact_words(p, words.drop_last());
        let w = word_step(p, r.next_is_token, words.last());
        Redacting {
            shown: r.shown.push(w.shown),
            redacted: r.redacted || w.redacted,
            next_is_token: w.next_is_token,
        }
    }
}

/// The error text before it is cut to length.
pub open spec fn sanitized(p: RedactionPolicy, err: Seq<char>) -> Seq<char> {
    text::joined(redact_words(p, text::words(without_markers(err))).shown, " "@)
}

/// How the error text was redacted, each way at most once.
pub open spec fn redaction_kinds(p: RedactionPolicy, err: Seq<char>) -> Seq<RedactionField> {
    let words = redact_words(p, text::words(without_markers(err)));
    let removed = if had_markers(err) {
        seq![RedactionField::Removed]
    } else {
        Seq::empty()
    };
    let hidden = if words.redacted {
        removed.push(RedactionField::HmacOrPlaceholder)
    } else {
        removed
    };
    if sanitized(p, err).len() > ERROR_SUMMARY_MAX_CHARS {
        hidden.push(RedactionField::Truncated)
    } else {
        hidden
    }
}

/// Each way as a mark on one field.
pub open spec fn marked(field: Seq<char>, kinds: Seq<RedactionField>) -> Seq<
    (Seq<char>, RedactionField),
> {
    Seq::new(kinds.len(), |i: int| (field, kinds[i]))
}

/// Adds a redaction to the list, unless it is there.
pub fn push_redaction(
    applied: &mut Vec<(String, RedactionField)>,
    field: &str,
    kind: RedactionField,
)
    ensures
        marks(final(applied)@) == (if marks(old(applied)@).contains((field@, kind)) {
            marks(old(applied)@)
        } else {
            marks(old(applied)@).push((field@, kind))
        }),
{
    let mut i: usize = 0;
    while i < applied.len()
        invariant
            i <= applied.len(),
            applied@ == old(applied)@,
            forall|j: int| 0 <= j < i ==> marks(applied@)[j] != (field@, kind),
        decreases applied.len() - i,
    {
        if applied[i].1 == kind && text::same_text(applied[i].0.as_str(), field) {
            proof {
                assert(marks(applied@)[i as int] == (field@, kind));
            }
            return;
        }
        i = i + 1;
    }
    proof {
        assert(!marks(applied@).contains((field@, kind)));
    }
    applied.push((field.to_string(), kind));
    proof {
        assert(marks(applied@) =~= marks(old(applied)@).push((field@, kind)));
    }
}

/// The names of the fields that were redacted in one way, in their order.
pub open spec fn fields_of(v: Seq<(Seq<char>, RedactionField)>, kind: RedactionField) -> Seq<
    Seq<char>,
>
    decreases v.len(),
{
    if v.len() == 0 {
        Seq::empty()
    } else {
        let rest = fields_of(v.drop_last(), kind);
        if v.last().1 == kind {
            rest.push(v.last().0)
        } else {
            rest
        }
    }
}

/// Whether `r` reports the redactions `v`.
pub open spec fn is_report(r: RedactionReport, v: Seq<(Seq<char>, RedactionField)>) -> bool {
    &&& r.hashed_fields@.len() == 0
    &&& text::texts(r.hmac_fields@) == fields_of(v, RedactionField::HmacOrPlaceholder)
    &&& text::texts(r.truncated_fields@) == fields_of(v, RedactionField::Truncated)
    &&& text::texts(r.removed_fields@) == fields_of(v, RedactionField::Removed)
}

/// How an error as a whole counts as redacted: cut, or else hidden, or else
/// removed; cut also if nothing was done.
pub open spec fn main_kind(kinds: Seq<RedactionField>) -> RedactionField {
    if kinds.contains(RedactionField::Truncated) {
        RedactionField::Truncated
    } else if kinds.contains(RedactionField::HmacOrPlaceholder) {
        RedactionField::HmacOrPlaceholder
    } else if kinds.contains(RedactionField::Removed) {
        RedactionField::Removed
    } else {
        RedactionField::Truncated
    }
}

fn has_kind(applied: &Vec<(String, RedactionField)>, kind: RedactionField) -> (r: bool)
    ensures
        r == exists|i: int| 0 <= i < applied@.len() && (#[trigger] applied@[i]).1 == kind,
{
    let mut i: usize = 0;
    while i < applied.len()
        invariant
            i <= applied.len(),
            forall|j: int| 0 <= j < i ==> (#[trigger] applied@[j]).1 != kind,
        decreases applied.len() - i,
    {
        if applied[i].1 == kind {
            return true;
        }
        i = i + 1;
    }
    false
}

impl RedactionPolicy {
    /// A policy with this key.
    pub fn new(key: ProofHmacKey) -> (r: Self)
        ensures
            r.hmac_key == key,
            r.secret is None,
    {
        RedactionPolicy { hmac_key: key, secret: None }
    }

    /// The policy with the value of the environment variable that its key names.
    pub fn with_secret(self, secret: String) -> (r: Self)
        ensures
            r.hmac_key == self.hmac_key,
            r.secret == Some(secret),
            r.ready(),
    {
        RedactionPolicy { hmac_key: self.hmac_key, secret: Some(secret) }
    }

    fn conceal(&self, s: &str, placeholder: &str) -> (r: String)
        requires
            self.ready(),
        ensures
            r@ == self.stand_in(s@, placeholder@),
    {
        match &self.hmac_key {
            ProofHmacKey::Disabled => placeholder.to_string(),
            _ => digest::digest_with_key(&self.hmac_key, &self.secret, s.as_bytes()).value,
        }
    }

    /// Hides a path.
    pub fn redact_path(&self, path: &str) -> (r: (String, RedactionField))
        requires
            self.ready(),
        ensures
            r.0@ == self.path_text(path@),
            r.1 == RedactionField::HmacOrPlaceholder,
    {
        (self.conceal(path, "[PATH_REDACTED]"), RedactionField::HmacOrPlaceholder)
    }

    /// Hides a token.
    pub fn redact_token(&self, token: &str) -> (r: (String, RedactionField))
        requires
            self.ready(),
        ensures
            r.0@ == self.token_text(token@),
            r.1 == RedactionField::HmacOrPlaceholder,
    {
        (self.conceal(token, "[TOKEN_REDACTED]"), RedactionField::HmacOrPlaceholder)
    }

    /// Removes the value of an environment variable.
    pub fn redact_env_value(&self, _val: &str) -> (r: (String, RedactionField))
        ensures
            r.0@ == "[ENV_REDACTED]"@,
            r.1 == RedactionField::Removed,
    {
        ("[ENV_REDACTED]".to_string(), RedactionField::Removed)
    }

    /// What one word becomes.
    fn redact_word(&self, announced: bool, word: &str) -> (r: (String, bool, bool))
        requires
            self.ready(),
        ensures
            word_step(*self, announced, word@) == (WordStep {
                shown: r.0@,
                redacted: r.1,
                next_is_token: r.2,
            }),
    {
        if announced {
            let (shown, _) = self.redact_token(word);
            return (shown, true, false);
        }
        let lower = text::ascii_lowercase(word);
        if looks_like_bearer_marker(lower.as_str()) {
            let cs = text::chars_of(lower.as_str());
            proof {
                text::lemma_first_index(lower@, '=');
                text::lemma_first_index(lower@, ':');
            }
            let equals = text::find_char(&cs, '=').is_some();
            let colon = text::find_char(&cs, ':').is_some();
            let core = strip_ends(lower.as_str(), false);
            let alone = text::same_text(core.as_str(), "bearer");
            ("[TOKEN_REDACTED]".to_string(), true, !equals && !colon && alone)
        } else if looks_like_path(word) {
            let (shown, _) = self.redact_path(word);
            (shown, true, false)
        } else if looks_like_secret_token(word) {
            let (shown, _) = self.redact_token(word);
            (shown, true, false)
        } else {
            (word.to_string(), false, false)
        }
    }

    /// Redacts an error text for the field of that name: markers are removed,
    /// tokens and paths are hidden, white space becomes single spaces, and at
    /// most `ERROR_SUMMARY_MAX_CHARS` characters stay.
    pub fn redact_error_for_field(&self, field_name: &str, err: &str) -> (r: (
        String,
        Vec<(String, RedactionField)>,
    ))
        requires
            self.ready(),
        ensures
            r.0@ == text::first_chars(sanitized(*self, err@), ERROR_SUMMARY_MAX_CHARS as nat),
            r.0@.len() <= ERROR_SUMMARY_MAX_CHARS,
            marks(r.1@) == marked(field_name@, redaction_kinds(*self, err@)),
    {
        let mut applied: Vec<(String, RedactionField)> = Vec::new();
        let (clean, removed) = remove_forbidden_markers(err);
        let ghost kinds0: Seq<RedactionField> = if had_markers(err@) {
            seq![RedactionField::Removed]
        } else {
            Seq::empty()
        };
        proof {
            assert(marks(applied@) =~= marked(field_name@, Seq::<RedactionField>::empty()));
        }
        if removed {
            push_redaction(&mut applied, field_name, RedactionField::Removed);
        }
        proof {
            assert(marks(applied@) =~= marked(field_name@, kinds0));
        }
        let words = text::split_words(clean.as_str());
        let ghost all = text::texts(words@);
        let mut shown: Vec<String> = Vec::new();
        let mut announced = false;
        let mut hidden = false;
        let mut i: usize = 0;
        proof {
            assert(text::texts(shown@) =~= redact_words(*self, all.take(0)).shown);
        }
        while i < words.len()
            invariant
                i <= words.len(),
                self.ready(),
                all == text::texts(words@),
                redact_words(*self, all.take(i as int)) == (Redacting {
                    shown: text::texts(shown@),
                    redacted: hidden,
                    next_is_token: announced,
                }),
            decreases words.len() - i,
        {
            proof {
                assert(all.take(i + 1).drop_last() =~= all.take(i as int));
                assert(all.take(i + 1).last() == words@[i as int]@);
            }
            let ghost before = text::texts(shown@);
            let (word, redacted, next) = self.redact_word(announced, words[i].as_str());
            let ghost wv = word@;
            shown.push(word);
            proof {
                assert(text::texts(shown@) =~= before.push(wv));
            }
            hidden = hidden || redacted;
            announced = next;
            i = i + 1;
        }
        proof {
            assert(all.take(i as int) =~= all);
        }
        let ghost kinds1 = if hidden {
            kinds0.push(RedactionField::HmacOrPlaceholder)
        } else {
            kinds0
        };
        if hidden {
            push_redaction(&mut applied, field_name, RedactionField::HmacOrPlaceholder);
        }
        proof {
            assert(marks(applied@) =~= marked(field_name@, kinds1));
        }
        let sanitized_text = text::join(&shown, " ");
        let cs = text::chars_of(sanitized_text.as_str());
        if cs.len() > ERROR_SUMMARY_MAX_CHARS {
            push_redaction(&mut applied, field_name, RedactionField::Truncated);
            proof {
                assert(marks(applied@) =~= marked(
                    field_name@,
                    kinds1.push(RedactionField::Truncated),
                ));
                assert(cs@.take(ERROR_SUMMARY_MAX_CHARS as int) =~= cs@.subrange(
                    0,
                    ERROR_SUMMARY_MAX_CHARS as int,
                ));
            }
            (text::sub_text(&cs, 0, ERROR_SUMMARY_MAX_CHARS), applied)
        } else {
            (sanitized_text, applied)
        }
    }

    /// Redacts an error text and says in which way, mainly.
    pub fn redact_error(&self, err: &str) -> (r: (String, RedactionField))
        requires
            self.ready(),
        ensures
            r.0@ == text::first_chars(sanitized(*self, err@), ERROR_SUMMARY_MAX_CHARS as nat),
            r.1 == main_kind(redaction_kinds(*self, err@)),
    {
        let (shown, applied) = self.redact_error_for_field("failure.error_summary", err);
        let ghost kinds = redaction_kinds(*self, err@);
        proof {
            assert(marks(applied@).len() == kinds.len());
            assert forall|i: int| 0 <= i < applied@.len() implies (#[trigger] applied@[i]).1
                == kinds[i] by {
                assert(marks(applied@)[i] == marked("failure.error_summary"@, kinds)[i]);
            }
            assert forall|k: RedactionField|
                (exists|i: int| 0 <= i < applied@.len() && (#[trigger] applied@[i]).1 == k)
                    == kinds.contains(k) by {
                if kinds.contains(k) {
                    let i = choose|i: int| 0 <= i < kinds.len() && kinds[i] == k;
                    assert(applied@[i].1 == k);
                }
            }
        }
        let kind = if has_kind(&applied, RedactionField::Truncated) {
            RedactionField::Truncated
        } else if has_kind(&applied, RedactionField::HmacOrPlaceholder) {
            RedactionField::HmacOrPlaceholder
        } else if has_kind(&applied, RedactionField::Removed) {
            RedactionField::Removed
        } else {
            RedactionField::Truncated
        };
        (shown, kind)
    }

    /// Sorts the redactions by their way.
    pub fn build_report(&self, applied: Vec<(String, RedactionField)>) -> (r: RedactionReport)
        ensures
            is_report(r, marks(applied@)),
    {
        let mut hmac: Vec<String> = Vec::new();
        let mut truncated: Vec<String> = Vec::new();
        let mut removed: Vec<String> = Vec::new();
        let ghost all = marks(applied@);
        let mut i: usize = 0;
        proof {
            assert(text::texts(hmac@) =~= Seq::<Seq<char>>::empty());
        }
        while i < applied.len()
            invariant
                i <= applied.len(),
                all == marks(applied@),
                text::texts(hmac@) == fields_of(
                    all.take(i as int),
                    RedactionField::HmacOrPlaceholder,
                ),
                text::texts(truncated@) == fields_of(
                    all.take(i as int),
                    RedactionField::Truncated,
                ),
                text::texts(removed@) == fields_of(all.take(i as int), RedactionField::Removed),
            decreases applied.len() - i,
        {
            proof {
                assert(all.take(i + 1).drop_last() =~= all.take(i as int));
                assert(all.take(i + 1).last() == (applied@[i as int].0@, applied@[i as int].1));
            }
            let field = applied[i].0.clone();
            let ghost fv = field@;
            let ghost h = text::texts(hmac@);
            let ghost t = text::texts(truncated@);
            let ghost m = text::texts(removed@);
            match applied[i].1 {
                RedactionField::HmacOrPlaceholder => {
                    hmac.push(field);
                    proof {
                        assert(text::texts(hmac@) =~= h.push(fv));
                    }
                },
                RedactionField::Truncated => {
                    truncated.push(field);
                    proof {
                        assert(text::texts(truncated@) =~= t.push(fv));
                    }
                },
                RedactionField::Removed => {
                    removed.push(field);
                    proof {
                        assert(text::texts(removed@) =~= m.push(fv));
                    }
                },
            }
            i = i + 1;
        }
        proof {
            assert(all.take(i as int) =~= all);
        }
        RedactionReport {
            hashed_fields: Vec::new(),
            truncated_fields: truncated,
            removed_fields: removed,
            hmac_fields: hmac,
        }
    }

    /// Sorts the redactions by their way.
    pub fn apply(&self, applied: Vec<(String, RedactionField)>) -> (r: RedactionReport)
        ensures
            is_report(r, marks(applied@)),
    {
        self.build_report(applied)
    }
}

/// Every redaction is reported exactly once.
pub proof fn lemma_report_is_complete(v: Seq<(Seq<char>, RedactionField)>)
    ensures
        fields_of(v, RedactionField::HmacOrPlaceholder).len() + fields_of(
            v,
            RedactionField::Truncated,
        ).len() + fields_of(v, RedactionField::Removed).len() == v.len(),
    decreases v.len(),
{
    if v.len() > 0 {
        lemma_report_is_complete(v.drop_last());
    }
}

/// Without a key, a word that is redacted shows nothing of itself.
pub proof fn lemma_placeholders_hide(p: RedactionPolicy, announced: bool, word: Seq<char>)
    requires
        p.hmac_key is Disabled,
        word_step(p, announced, word).redacted,
    ensures
        word_step(p, announced, word).shown == "[TOKEN_REDACTED]"@ || word_step(
            p,
            announced,
            word,
        ).shown == "[PATH_REDACTED]"@,
{
}

proof fn lemma_nothing_to_replace(s: Seq<char>, n: Seq<char>, r: Seq<char>)
    requires
        !has_ignoring_case(s, n),
    ensures
        replaced(s, n, r) == s,
    decreases s.len(),
{
    if n.len() > 0 && s.len() >= n.len() {
        assert(!text::text_at(text::ascii_lowered(s), text::ascii_lowered(n), 0));
        lemma_suffix_lacks(s, n, 1);
        lemma_nothing_to_replace(s.skip(1), n, r);
        assert(seq![s[0]] + s.skip(1) =~= s);
    }
}

/// A text that is nothing but an announced token.
pub open spec fn bearer_text(token: Seq<char>) -> Seq<char> {
    "Bearer "@ + token
}

proof fn lemma_bearer_letters()
    ensures
        "Bearer "@ == seq!['B', 'e', 'a', 'r', 'e', 'r', ' '],
        "Bearer "@ == "Bearer"@ + seq![' '],
        text::ascii_lowered("Bearer"@) == "bearer"@,
        "bearer"@ == seq!['b', 'e', 'a', 'r', 'e', 'r'],
{
    reveal_strlit("Bearer ");
    reveal_strlit("Bearer");
    reveal_strlit("bearer");
    assert("Bearer "@ =~= seq!['B', 'e', 'a', 'r', 'e', 'r', ' ']);
    assert("Bearer "@ =~= "Bearer"@ + seq![' ']);
    assert(text::ascii_lowered("Bearer"@) =~= "bearer"@);
    assert("bearer"@ =~= seq!['b', 'e', 'a', 'r', 'e', 'r']);
}

/// A marker whose first character does not occur in the announcement stands in
/// the announced text only where it stands in the token.
proof fn lemma_marker_in_token(token: Seq<char>, m: Seq<char>)
    requires
        m.len() > 0,
        m[0] == '.' || m[0] == 'p',
        !has_ignoring_case(token, m),
    ensures
        !has_ignoring_case(bearer_text(token), m),
{
    lemma_bearer_letters();
    let s = bearer_text(token);
    let a = text::ascii_lowered(s);
    let b = text::ascii_lowered(token);
    let lm = text::ascii_lowered(m);
    assert forall|j: int| !text::text_at(a, lm, j) by {
        if text::text_at(a, lm, j) {
            assert(a.subrange(j, j + lm.len())[0] == a[j]);
            assert(lm[0] == m[0]);
            if j < 7 {
                assert(s[j] == "Bearer "@[j]);
                assert(a[j] == text::ascii_lower("Bearer "@[j]));
                assert(false);
            }
            assert(a.subrange(j, j + lm.len()) =~= b.subrange(j - 7, j - 7 + lm.len()));
            assert(text::text_at(b, lm, j - 7));
        }
    }
}

/// A marker with two spaces does not stand in a text with one.
proof fn lemma_no_private_key(token: Seq<char>)
    requires
        forall|i: int| 0 <= i < token.len() ==> !text::space(#[trigger] token[i]),
    ensures
        !has_ignoring_case(bearer_text(token), "BEGIN PRIVATE KEY"@),
{
    lemma_bearer_letters();
    reveal_strlit("BEGIN PRIVATE KEY");
    let s = bearer_text(token);
    let a = text::ascii_lowered(s);
    let lm = text::ascii_lowered("BEGIN PRIVATE KEY"@);
    assert forall|i: int| 0 <= i < s.len() && #[trigger] a[i] == ' ' implies i == 6 by {
        if i >= 7 {
            assert(s[i] == token[i - 7]);
            assert(!text::space(token[i - 7]));
        } else {
            assert(s[i] == "Bearer "@[i]);
        }
    }
    assert forall|j: int| !text::text_at(a, lm, j) by {
        if text::text_at(a, lm, j) {
            let w = a.subrange(j, j + lm.len());
            assert(w[5] == a[j + 5] && w[13] == a[j + 13]);
            assert(lm[5] == ' ' && lm[13] == ' ');
            assert(a[j + 5] == ' ' && a[j + 13] == ' ');
        }
    }
}

/// Without a key, the redaction of a text that is nothing but an announced token
/// does not depend on the token: it shows two placeholders, and reports that
/// something was hidden.
pub proof fn lemma_announced_token_is_hidden(
    p: RedactionPolicy,
    field: Seq<char>,
    token: Seq<char>,
)
    requires
        p.hmac_key is Disabled,
        token.len() > 0,
        forall|i: int| 0 <= i < token.len() ==> !text::space(#[trigger] token[i]),
        !has_ignoring_case(token, ".env"@),
        !has_ignoring_case(token, "preview_base64"@),
    ensures
        text::first_chars(sanitized(p, bearer_text(token)), ERROR_SUMMARY_MAX_CHARS as nat)
            == "[TOKEN_REDACTED] [TOKEN_REDACTED]"@,
        marked(field, redaction_kinds(p, bearer_text(token))) == seq![
            (field, RedactionField::HmacOrPlaceholder),
        ],
{
    let s = bearer_text(token);
    reveal_strlit(".env");
    reveal_strlit("preview_base64");
    lemma_marker_in_token(token, ".env"@);
    lemma_marker_in_token(token, "preview_base64"@);
    lemma_no_private_key(token);
    lemma_nothing_to_replace(s, ".env"@, removal());
    lemma_nothing_to_replace(s, "preview_base64"@, removal());
    lemma_nothing_to_replace(s, "BEGIN PRIVATE KEY"@, removal());
    assert(without_markers(s) == s);
    assert(!had_markers(s));
    lemma_bearer_letters();
    let first = "Bearer"@;
    reveal_strlit("Bearer");
    assert(s =~= first + seq![' '] + token);
    text::lemma_two_words(first, token);
    let ws = seq![first, token];
    assert(text::words(s) == ws);
    let lower = text::ascii_lowered(first);
    assert(core_of(lower, false) == lower);
    assert(bearer_marker(lower));
    assert(!lower.contains('=') && !lower.contains(':'));
    let mark = "[TOKEN_REDACTED]"@;
    assert(word_step(p, false, first) == (WordStep {
        shown: mark,
        redacted: true,
        next_is_token: true,
    }));
    assert(ws.drop_last() =~= seq![first]);
    assert(seq![first].drop_last() =~= Seq::<Seq<char>>::empty());
    let none = redact_words(p, Seq::empty());
    let one = redact_words(p, seq![first]);
    assert(one.shown =~= seq![mark]);
    let two = redact_words(p, ws);
    assert(two.shown =~= seq![mark, mark]);
    assert(two.redacted);
    assert(two.shown.drop_last() =~= seq![mark]);
    assert(text::joined(seq![mark], " "@) == mark);
    assert(text::joined(two.shown, " "@) == mark + " "@ + mark);
    reveal_strlit("[TOKEN_REDACTED]");
    reveal_strlit("[TOKEN_REDACTED] [TOKEN_REDACTED]");
    reveal_strlit(" ");
    assert(mark + " "@ + mark =~= "[TOKEN_REDACTED] [TOKEN_REDACTED]"@);
    assert(redaction_kinds(p, s) =~= seq![RedactionField::HmacOrPlaceholder]);
    assert(marked(field, redaction_kinds(p, s)) =~= seq![
        (field, RedactionField::HmacOrPlaceholder),
    ]);
}

/// What a token starts with, in small letters.
pub open spec fn token_starts() -> Seq<Seq<char>> {
    seq!["sk-"@, "ghp_"@, "xoxb-"@]
}

/// What announces or names a secret anywhere in a word, in small letters.
pub open spec fn secret_parts() -> Seq<Seq<char>> {
    seq![
        "token="@,
        "token:"@,
        "api_key"@,
        "apikey"@,
        "api-key"@,
        "secret="@,
        "secret:"@,
        "password="@,
        "password:"@,
        "private_key"@,
    ]
}

/// What tells a path anywhere in a word, in small letters.
pub open spec fn path_parts() -> Seq<Seq<char>> {
    seq!["/home/"@, "/users/"@, "/.ssh"@, "\\users\\"@, "\\.ssh"@]
}

/// How far a word is stripped in front: to the first character that is kept.
proof fn lemma_strip_front_ends(s: Seq<char>, signs: bool) -> (k: int)
    ensures
        0 <= k <= s.len(),
        strip_front(s, signs) == s.skip(k),
        forall|i: int| 0 <= i < k ==> !kept(#[trigger] s[i], signs),
        k < s.len() ==> kept(s[k], signs),
    decreases s.len(),
{
    if s.len() > 0 && !kept(s[0], signs) {
        let t = s.drop_first();
        let k = lemma_strip_front_ends(t, signs);
        assert(t.skip(k) =~= s.skip(k + 1));
        assert forall|i: int| 0 <= i < k + 1 implies !kept(#[trigger] s[i], signs) by {
            if i > 0 {
                assert(t[i - 1] == s[i]);
            }
        }
        k + 1
    } else {
        assert(s.skip(0) =~= s);
        0
    }
}

/// How far a word is stripped at its back: to the last character that is kept.
proof fn lemma_strip_back_ends(s: Seq<char>, signs: bool) -> (k: int)
    ensures
        0 <= k <= s.len(),
        strip_back(s, signs) == s.take(k),
        forall|i: int| k <= i < s.len() ==> !kept(#[trigger] s[i], signs),
    decreases s.len(),
{
    if s.len() > 0 && !kept(s.last(), signs) {
        let t = s.drop_last();
        let k = lemma_strip_back_ends(t, signs);
        assert(t.take(k) =~= s.take(k));
        assert forall|i: int| k <= i < s.len() implies !kept(#[trigger] s[i], signs) by {
            if i < t.len() {
                assert(t[i] == s[i]);
            }
        }
        k
    } else {
        assert(s.take(s.len() as int) =~= s);
        s.len() as int
    }
}

/// Stripping the ends of a word does not cut into a text that starts and ends
/// with what is kept; and where nothing that is kept stands before that text,
/// what is left starts with it.
proof fn lemma_core_keeps(s: Seq<char>, m: Seq<char>, i: int, signs: bool)
    requires
        m.len() > 0,
        kept(m[0], signs),
        kept(m.last(), signs),
        text::text_at(s, m, i),
    ensures
        text::has_text(core_of(s, signs), m),
        (forall|j: int| 0 <= j < i ==> !kept(#[trigger] s[j], signs)) ==> text::starts(
            core_of(s, signs),
            m,
        ),
{
    let k = lemma_strip_front_ends(s, signs);
    let t = s.skip(k);
    assert(s.subrange(i, i + m.len())[0] == s[i]);
    assert(s.subrange(i, i + m.len())[m.len() - 1] == s[i + m.len() - 1]);
    assert(k <= i);
    let n = lemma_strip_back_ends(t, signs);
    assert(t[i - k + m.len() - 1] == s[i + m.len() - 1]);
    assert(n >= i - k + m.len());
    let core = t.take(n);
    assert(core.subrange(i - k, i - k + m.len()) =~= s.subrange(i, i + m.len()));
    assert(text::text_at(core, m, i - k));
    if forall|j: int| 0 <= j < i ==> !kept(#[trigger] s[j], signs) {
        assert(k >= i);
    }
}

proof fn lemma_marker_ends_are_kept(i: int)
    ensures
        0 <= i < secret_parts().len() ==> secret_parts()[i].len() > 0 && kept(
            secret_parts()[i][0],
            true,
        ) && kept(secret_parts()[i].last(), true),
        0 <= i < token_starts().len() ==> token_starts()[i].len() > 0 && kept(
            token_starts()[i][0],
            true,
        ) && kept(token_starts()[i].last(), true),
{
    reveal_strlit("sk-");
    reveal_strlit("ghp_");
    reveal_strlit("xoxb-");
    reveal_strlit("token=");
    reveal_strlit("token:");
    reveal_strlit("api_key");
    reveal_strlit("apikey");
    reveal_strlit("api-key");
    reveal_strlit("secret=");
    reveal_strlit("secret:");
    reveal_strlit("password=");
    reveal_strlit("password:");
    reveal_strlit("private_key");
}

/// A word that names a secret is hidden, in whatever case it is written and
/// wherever in the word the name stands: without a key a placeholder stands for
/// it.
pub proof fn lemma_named_secrets_are_hidden(
    p: RedactionPolicy,
    announced: bool,
    word: Seq<char>,
    part: int,
)
    requires
        0 <= part < secret_parts().len(),
        text::has_text(text::ascii_lowered(word), secret_parts()[part]),
    ensures
        word_step(p, announced, word).redacted,
        p.hmac_key is Disabled ==> word_step(p, announced, word).shown == "[TOKEN_REDACTED]"@
            || word_step(p, announced, word).shown == "[PATH_REDACTED]"@,
{
    let lower = text::ascii_lowered(word);
    let m = secret_parts()[part];
    let i = choose|i: int| #[trigger] text::text_at(lower, m, i);
    lemma_marker_ends_are_kept(part);
    lemma_core_keeps(lower, m, i, true);
    assert(word_step(p, announced, word).redacted);
    if p.hmac_key is Disabled {
        lemma_placeholders_hide(p, announced, word);
    }
}

/// A word that starts like a token is hidden, in whatever case it is written and
/// behind whatever quotes or brackets: without a key a placeholder stands for
/// it.
pub proof fn lemma_tokens_are_hidden(
    p: RedactionPolicy,
    announced: bool,
    word: Seq<char>,
    start: int,
    at: int,
)
    requires
        0 <= start < token_starts().len(),
        text::text_at(text::ascii_lowered(word), token_starts()[start], at),
        forall|j: int|
            0 <= j < at ==> {
                let c = #[trigger] text::ascii_lowered(word)[j];
                !text::alnum(c) && c != '-' && c != '_' && c != '=' && c != ':'
            },
    ensures
        word_step(p, announced, word).redacted,
        p.hmac_key is Disabled ==> word_step(p, announced, word).shown == "[TOKEN_REDACTED]"@
            || word_step(p, announced, word).shown == "[PATH_REDACTED]"@,
{
    let lower = text::ascii_lowered(word);
    lemma_marker_ends_are_kept(start);
    lemma_core_keeps(lower, token_starts()[start], at, true);
    assert(word_step(p, announced, word).redacted);
    if p.hmac_key is Disabled {
        lemma_placeholders_hide(p, announced, word);
    }
}

/// A word that tells a path is hidden: one from the root or from a drive, and
/// one through somebody's home or keys, in whatever case it is written.
pub proof fn lemma_paths_are_hidden(
    p: RedactionPolicy,
    announced: bool,
    word: Seq<char>,
    part: int,
)
    requires
        ({
            let lower = text::ascii_lowered(word);
            ||| word.len() > 0 && word[0] == '/'
            ||| word.len() > 2 && text::letter(word[0]) && word[1] == ':' && (word[2] == '\\'
                || word[2] == '/')
            ||| 0 <= part < path_parts().len() && text::has_text(lower, path_parts()[part])
        }),
    ensures
        word_step(p, announced, word).redacted,
        p.hmac_key is Disabled ==> word_step(p, announced, word).shown == "[TOKEN_REDACTED]"@
            || word_step(p, announced, word).shown == "[PATH_REDACTED]"@,
{
    let lower = text::ascii_lowered(word);
    reveal_strlit("/");
    if word.len() > 0 && word[0] == '/' {
        assert(lower.subrange(0, 1) =~= "/"@);
        assert(text::starts(lower, "/"@));
    } else if word.len() > 2 && text::letter(word[0]) && word[1] == ':' && (word[2] == '\\'
        || word[2] == '/') {
        assert(text::letter(lower[0]));
        assert(drive_path(lower));
    }
    assert(word_step(p, announced, word).redacted);
    if p.hmac_key is Disabled {
        lemma_placeholders_hide(p, announced, word);
    }
}

/// A text of letters and digits alone holds nothing with another sign in it.
proof fn lemma_plain_lacks(t: Seq<char>, m: Seq<char>, j: int)
    requires
        forall|i: int| 0 <= i < t.len() ==> text::alnum(#[trigger] t[i]),
        0 <= j < m.len(),
        !text::alnum(m[j]),
    ensures
        !text::has_text(t, m),
        !text::starts(t, m),
{
    if text::has_text(t, m) {
        let i = choose|i: int| #[trigger] text::text_at(t, m, i);
        assert(t.subrange(i, i + m.len())[j] == t[i + j]);
    }
    if text::starts(t, m) {
        assert(text::has_text(t, m));
    }
}

/// What is no secret is not hidden: a word of letters and digits alone, that was
/// not announced, announces nothing and names no key, is shown as it is.
pub proof fn lemma_plain_words_are_shown(p: RedactionPolicy, word: Seq<char>)
    requires
        forall|i: int| 0 <= i < word.len() ==> text::alnum(#[trigger] word[i]),
        text::ascii_lowered(word) != "bearer"@,
        !text::has_text(text::ascii_lowered(word), "apikey"@),
    ensures
        word_step(p, false, word).shown == word,
        !word_step(p, false, word).redacted,
        !word_step(p, false, word).next_is_token,
{
    let t = text::ascii_lowered(word);
    assert forall|i: int| 0 <= i < t.len() implies text::alnum(#[trigger] t[i]) by {
        assert(text::alnum(word[i]));
    }
    let k = lemma_strip_front_ends(t, false);
    assert(k == 0 || k == t.len());
    assert(t.len() == 0 || k == 0);
    assert(t.skip(0) =~= t);
    let n = lemma_strip_back_ends(t, false);
    assert(n == t.len());
    assert(t.take(n) =~= t);
    let k2 = lemma_strip_front_ends(t, true);
    assert(t.len() == 0 || k2 == 0);
    let n2 = lemma_strip_back_ends(t, true);
    assert(n2 == t.len());
    if t.len() == 0 {
        assert(t.skip(k) =~= t && t.skip(k2) =~= t);
    }
    assert(core_of(t, false) == t);
    assert(core_of(t, true) == t);
    reveal_strlit("bearer=");
    reveal_strlit("bearer:");
    reveal_strlit("authorization:");
    reveal_strlit("authorization=");
    lemma_plain_lacks(t, "bearer="@, 6);
    lemma_plain_lacks(t, "bearer:"@, 6);
    lemma_plain_lacks(t, "authorization:"@, 13);
    lemma_plain_lacks(t, "authorization="@, 13);
    reveal_strlit("/");
    reveal_strlit("/home/");
    reveal_strlit("/users/");
    reveal_strlit("/.ssh");
    reveal_strlit("\\users\\");
    reveal_strlit("\\.ssh");
    lemma_plain_lacks(t, "/"@, 0);
    lemma_plain_lacks(t, "/home/"@, 0);
    lemma_plain_lacks(t, "/users/"@, 0);
    lemma_plain_lacks(t, "/.ssh"@, 0);
    lemma_plain_lacks(t, "\\users\\"@, 0);
    lemma_plain_lacks(t, "\\.ssh"@, 0);
    if t.len() >= 3 {
        assert(text::alnum(t[1]));
    }
    reveal_strlit("sk-");
    reveal_strlit("ghp_");
    reveal_strlit("xoxb-");
    reveal_strlit("token=");
    reveal_strlit("token:");
    reveal_strlit("api_key");
    reveal_strlit("api-key");
    reveal_strlit("secret=");
    reveal_strlit("secret:");
    reveal_strlit("password=");
    reveal_strlit("password:");
    reveal_strlit("private_key");
    lemma_plain_lacks(t, "sk-"@, 2);
    lemma_plain_lacks(t, "ghp_"@, 3);
    lemma_plain_lacks(t, "xoxb-"@, 4);
    lemma_plain_lacks(t, "token="@, 5);
    lemma_plain_lacks(t, "token:"@, 5);
    lemma_plain_lacks(t, "api_key"@, 3);
    lemma_plain_lacks(t, "api-key"@, 3);
    lemma_plain_lacks(t, "secret="@, 6);
    lemma_plain_lacks(t, "secret:"@, 6);
    lemma_plain_lacks(t, "password="@, 8);
    lemma_plain_lacks(t, "password:"@, 8);
    lemma_plain_lacks(t, "private_key"@, 7);
}

/// Every word of a text is redacted in its own place: each becomes what it
/// becomes alone, but for the one behind an announcement, which is hidden as a
/// token whatever it looks like.
pub proof fn lemma_words_are_redacted_in_place(p: RedactionPolicy, words: Seq<Seq<char>>, i: int)
    requires
        0 <= i < words.len(),
    ensures
        redact_words(p, words).shown.len() == words.len(),
        redact_words(p, words).shown[i] == word_step(
            p,
            redact_words(p, words.take(i)).next_is_token,
            words[i],
        ).shown,
        word_step(p, redact_words(p, words.take(i)).next_is_token, words[i]).redacted
            ==> redact_words(p, words).redacted,
        i > 0 && text::ascii_lowered(words[i - 1]) == "bearer"@ && !redact_words(
            p,
            words.take(i - 1),
        ).next_is_token ==> redact_words(p, words).redacted && redact_words(p, words).shown[i]
            == p.token_text(words[i]),
    decreases words.len(),
{
    let before = words.drop_last();
    if i < words.len() - 1 {
        lemma_words_are_redacted_in_place(p, before, i);
        assert(before.take(i) =~= words.take(i));
        if i > 0 {
            assert(before.take(i - 1) =~= words.take(i - 1));
        }
    } else {
        assert(before =~= words.take(i));
        lemma_shown_len(p, before);
        if i > 0 {
            assert(words.take(i).drop_last() =~= words.take(i - 1));
            assert(words.take(i).last() == words[i - 1]);
            lemma_bearer_announces(words[i - 1]);
        }
    }
}

proof fn lemma_shown_len(p: RedactionPolicy, words: Seq<Seq<char>>)
    ensures
        redact_words(p, words).shown.len() == words.len(),
    decreases words.len(),
{
    if words.len() > 0 {
        lemma_shown_len(p, words.drop_last());
    }
}

/// The bare word announces a token.
proof fn lemma_bearer_announces(word: Seq<char>)
    ensures
        text::ascii_lowered(word) == "bearer"@ ==> bearer_marker(text::ascii_lowered(word))
            && core_of(text::ascii_lowered(word), false) == "bearer"@ && !text::ascii_lowered(
            word,
        ).contains('=') && !text::ascii_lowered(word).contains(':'),
{
    let t = text::ascii_lowered(word);
    if t == "bearer"@ {
        lemma_bearer_letters();
        let k = lemma_strip_front_ends(t, false);
        assert(text::alnum(t[0]));
        assert(k == 0);
        assert(t.skip(0) =~= t);
        let n = lemma_strip_back_ends(t, false);
        assert(text::alnum(t[5]));
        assert(n == 6);
        assert(t.take(6) =~= t);
    }
}

/// What is reported of an error text is what was done to it: a marker that must
/// not appear was removed where the text held one, and the text was cut where
/// what was left of it is over the limit.
pub proof fn lemma_report_tells_what_was_done(p: RedactionPolicy, err: Seq<char>)
    ensures
        redaction_kinds(p, err).contains(RedactionField::Removed) <==> has_ignoring_case(
            err,
            ".env"@,
        ) || has_ignoring_case(err, "preview_base64"@) || has_ignoring_case(
            err,
            "BEGIN PRIVATE KEY"@,
        ),
        redaction_kinds(p, err).contains(RedactionField::Truncated) <==> sanitized(p, err).len()
            > 256,
        redaction_kinds(p, err).contains(RedactionField::HmacOrPlaceholder) <==> redact_words(
            p,
            text::words(without_markers(err)),
        ).redacted,
        redaction_kinds(p, err).no_duplicates(),
        !has_ignoring_case(err, ".env"@) && !has_ignoring_case(err, "preview_base64"@)
            && !has_ignoring_case(err, "BEGIN PRIVATE KEY"@) ==> without_markers(err) == err,
{
    if !has_ignoring_case(err, ".env"@) {
        lemma_nothing_to_replace(err, ".env"@, removal());
        if !has_ignoring_case(err, "preview_base64"@) {
            lemma_nothing_to_replace(err, "preview_base64"@, removal());
            if !has_ignoring_case(err, "BEGIN PRIVATE KEY"@) {
                lemma_nothing_to_replace(err, "BEGIN PRIVATE KEY"@, removal());
            }
        }
    }
    let removed = if had_markers(err) {
        seq![RedactionField::Removed]
    } else {
        Seq::empty()
    };
    let hidden = if redact_words(p, text::words(without_markers(err))).redacted {
        removed.push(RedactionField::HmacOrPlaceholder)
    } else {
        removed
    };
    let kinds = redaction_kinds(p, err);
    if had_markers(err) {
        assert(removed[0] == RedactionField::Removed);
        assert(hidden[0] == RedactionField::Removed);
        assert(kinds[0] == RedactionField::Removed);
    }
    if redact_words(p, text::words(without_markers(err))).redacted {
        assert(hidden.last() == RedactionField::HmacOrPlaceholder);
        assert(kinds[hidden.len() - 1] == RedactionField::HmacOrPlaceholder);
    }
    if sanitized(p, err).len() > 256 {
        assert(kinds.last() == RedactionField::Truncated);
    }
}

/// A report names a field under a way of redaction exactly if it was redacted in
/// that way.
pub proof fn lemma_report_names_the_fields(
    v: Seq<(Seq<char>, RedactionField)>,
    kind: RedactionField,
    field: Seq<char>,
)
    ensures
        fields_of(v, kind).contains(field) <==> v.contains((field, kind)),
    decreases v.len(),
{
    if v.len() > 0 {
        let rest = v.drop_last();
        lemma_report_names_the_fields(rest, kind, field);
        let names = fields_of(rest, kind);
        if v.contains((field, kind)) {
            let i = choose|i: int| 0 <= i < v.len() && v[i] == (field, kind);
            if i < v.len() - 1 {
                assert(rest[i] == (field, kind));
                let j = choose|j: int| 0 <= j < names.len() && names[j] == field;
                assert(fields_of(v, kind)[j] == field);
            } else {
                assert(fields_of(v, kind).last() == field);
            }
        }
        if fields_of(v, kind).contains(field) {
            let j = choose|j: int| 0 <= j < fields_of(v, kind).len() && fields_of(v, kind)[j]
                == field;
            if j < names.len() {
                assert(names[j] == field);
                let i = choose|i: int| 0 <= i < rest.len() && rest[i] == (field, kind);
                assert(v[i] == (field, kind));
            } else {
                assert(v.last() == (field, kind));
            }
        }
    }
}

/// With a key, what stands for a word is its digest under that key, and nothing
/// else of the word: so the same word gives the same, and without a key every
/// word does.
pub proof fn lemma_stand_ins_depend_on_key_and_word(
    p: RedactionPolicy,
    a: Seq<char>,
    b: Seq<char>,
    placeholder: Seq<char>,
)
    ensures
        p.hmac_key is Disabled ==> p.stand_in(a, placeholder) == p.stand_in(b, placeholder),
        !(p.hmac_key is Disabled) ==> p.stand_in(a, placeholder) == p.path_text(a)
            && p.path_text(a) == p.token_text(a),
        !(p.hmac_key is Disabled) ==> p.token_text(a) == text::hex_of(
            digest::hmac_sha256_of(
                digest::key_bytes(p.hmac_key, p.secret),
                vstd::utf8::encode_utf8(a),
            ),
        ),
{
}

} // verus!
