//! Capability profile manifests: a small subset of TOML, read line by line.

use crate::security;
use crate::security::Capability;
use crate::text;
use vstd::prelude::*;
use vstd::string::*;

verus! {

/// Where a position stands with respect to quoted strings.
pub enum Quote {
    /// Outside any string.
    Outside,
    /// Inside a string in double quotes.
    Basic,
    /// Inside a string in double quotes, just behind a backslash.
    Escaped,
    /// Inside a string in single quotes.
    Literal,
}

/// Where the position behind `c` stands, when the one before it stands at `q`.
pub open spec fn next_quote(q: Quote, c: char) -> Quote {
    match q {
        Quote::Escaped => Quote::Basic,
        Quote::Basic => if c == '\\' {
            Quote::Escaped
        } else if c == '"' {
            Quote::Outside
        } else {
            Quote::Basic
        },
        Quote::Literal => if c == '\'' {
            Quote::Outside
        } else {
            Quote::Literal
        },
        Quote::Outside => if c == '"' {
            Quote::Basic
        } else if c == '\'' {
            Quote::Literal
        } else {
            Quote::Outside
        },
    }
}

/// Where the end of `s` stands.
pub open spec fn quote_after(s: Seq<char>) -> Quote
    decreases s.len(),
{
    if s.len() == 0 {
        Quote::Outside
    } else {
        next_quote(quote_after(s.drop_last()), s.last())
    }
}

/// Whether a `c` stands at `i`, outside any string.
pub open spec fn unquoted_at(s: Seq<char>, c: char, i: int) -> bool {
    0 <= i < s.len() && s[i] == c && quote_after(s.take(i)) is Outside
}

/// Whether `i` is the first position at which a `c` stands outside strings.
pub open spec fn first_unquoted(s: Seq<char>, c: char, i: int) -> bool {
    unquoted_at(s, c, i) && forall|j: int| 0 <= j < i ==> !unquoted_at(s, c, j)
}

fn step_quote(q: Quote, c: char) -> (r: Quote)
    ensures
        r == next_quote(q, c),
{
    match q {
        Quote::Escaped => Quote::Basic,
        Quote::Basic => if c == '\\' {
            Quote::Escaped
        } else if c == '"' {
            Quote::Outside
        } else {
            Quote::Basic
        },
        Quote::Literal => if c == '\'' {
            Quote::Outside
        } else {
            Quote::Literal
        },
        Quote::Outside => if c == '"' {
            Quote::Basic
        } else if c == '\'' {
            Quote::Literal
        } else {
            Quote::Outside
        },
    }
}

/// The first position at which `c` stands outside strings.
fn find_unquoted(cs: &Vec<char>, c: char) -> (r: Option<usize>)
    ensures
        match r {
            Some(i) => first_unquoted(cs@, c, i as int),
            None => forall|j: int| !unquoted_at(cs@, c, j),
        },
{
    let mut q = Quote::Outside;
    let mut i: usize = 0;
    while i < cs.len()
        invariant
            i <= cs.len(),
            q == quote_after(cs@.take(i as int)),
            forall|j: int| 0 <= j < i ==> !unquoted_at(cs@, c, j),
        decreases cs.len() - i,
    {
        if cs[i] == c && matches!(q, Quote::Outside) {
            return Some(i);
        }
        proof {
            assert(cs@.take(i + 1).drop_last() =~= cs@.take(i as int));
            assert(cs@.take(i + 1).last() == cs@[i as int]);
        }
        q = step_quote(q, cs[i]);
        i = i + 1;
    }
    None
}

/// The line up to the first `#` outside strings.
pub open spec fn before_comment(line: Seq<char>) -> Seq<char> {
    if exists|i: int| first_unquoted(line, '#', i) {
        line.take(choose|i: int| first_unquoted(line, '#', i))
    } else {
        line
    }
}

proof fn lemma_first_unquoted_unique(s: Seq<char>, c: char, i: int, j: int)
    requires
        first_unquoted(s, c, i),
        first_unquoted(s, c, j),
    ensures
        i == j,
{
    if i < j {
        assert(!unquoted_at(s, c, i));
    }
    if j < i {
        assert(!unquoted_at(s, c, j));
    }
}

/// Removes the comment of a line.
pub fn strip_comment(line: &str) -> (r: String)
    ensures
        r@ == before_comment(line@),
{
    let cs = text::chars_of(line);
    match find_unquoted(&cs, '#') {
        Some(i) => {
            proof {
                lemma_first_unquoted_unique(
                    line@,
                    '#',
                    i as int,
                    choose|k: int| first_unquoted(line@, '#', k),
                );
                assert(line@.take(i as int) =~= line@.subrange(0, i as int));
            }
            text::sub_text(&cs, 0, i)
        },
        None => {
            proof {
                assert(forall|k: int| !first_unquoted(line@, '#', k));
            }
            text::text_of(&cs)
        },
    }
}

/// The position, counted in characters, of the first `=` outside strings.
pub fn find_unquoted_equals(line: &str) -> (r: Option<usize>)
    ensures
        match r {
            Some(i) => first_unquoted(line@, '=', i as int),
            None => forall|j: int| !unquoted_at(line@, '=', j),
        },
{
    find_unquoted(&text::chars_of(line), '=')
}

/// A line without its comment has no comment.
pub proof fn lemma_strip_comment_idempotent(line: Seq<char>)
    ensures
        before_comment(before_comment(line)) == before_comment(line),
        before_comment(line).is_prefix_of(line),
{
    let t = before_comment(line);
    if exists|i: int| first_unquoted(line, '#', i) {
        let k = choose|i: int| first_unquoted(line, '#', i);
        assert forall|j: int| !first_unquoted(t, '#', j) by {
            if unquoted_at(t, '#', j) {
                assert(t.take(j) =~= line.take(j));
                assert(unquoted_at(line, '#', j));
            }
        }
    }
    assert(t =~= line.subrange(0, t.len() as int));
}

/// What an escape sequence stands for.
pub open spec fn unescape(c: char) -> Option<char> {
    if c == '"' {
        Some('"')
    } else if c == '\\' {
        Some('\\')
    } else if c == 'n' {
        Some('\n')
    } else if c == 'r' {
        Some('\r')
    } else if c == 't' {
        Some('\t')
    } else {
        None
    }
}

/// The value of a string in double quotes, where `rest` is what follows the
/// opening quote and `parsed` is what has been read.
pub open spec fn basic_value(rest: Seq<char>, parsed: Seq<char>) -> Result<Seq<char>, Seq<char>>
    decreases rest.len(),
{
    if rest.len() == 0 {
        Err("unterminated string value"@)
    } else if rest[0] == '"' {
        if text::trimmed(rest.skip(1)).len() == 0 {
            Ok(parsed)
        } else {
            Err("unexpected content after string value"@)
        }
    } else if rest[0] == '\\' {
        if rest.len() == 1 {
            Err("unterminated string value"@)
        } else {
            match unescape(rest[1]) {
                Some(c) => basic_value(rest.skip(2), parsed.push(c)),
                None => Err("unsupported escape sequence \\"@.push(rest[1])),
            }
        }
    } else {
        basic_value(rest.skip(1), parsed.push(rest[0]))
    }
}

/// A text as it is written between double quotes.
pub open spec fn written_out(v: Seq<char>) -> Seq<char>
    decreases v.len(),
{
    if v.len() == 0 {
        Seq::empty()
    } else if v[0] == '"' {
        seq!['\\', '"'] + written_out(v.skip(1))
    } else if v[0] == '\\' {
        seq!['\\', '\\'] + written_out(v.skip(1))
    } else if v[0] == '\n' {
        seq!['\\', 'n'] + written_out(v.skip(1))
    } else if v[0] == '\r' {
        seq!['\\', 'r'] + written_out(v.skip(1))
    } else if v[0] == '\t' {
        seq!['\\', 't'] + written_out(v.skip(1))
    } else {
        seq![v[0]] + written_out(v.skip(1))
    }
}

/// Reading a string in double quotes undoes writing it, whatever it holds.
pub proof fn lemma_strings_read_back(v: Seq<char>, parsed: Seq<char>)
    ensures
        basic_value(written_out(v) + seq!['"'], parsed) == Ok::<Seq<char>, Seq<char>>(parsed + v),
    decreases v.len(),
{
    let whole = written_out(v) + seq!['"'];
    if v.len() == 0 {
        assert(whole.skip(1) =~= Seq::<char>::empty());
        assert(text::trimmed(Seq::<char>::empty()).len() == 0) by {
            reveal_with_fuel(text::trim_start, 1);
        }
        assert(parsed + v =~= parsed);
    } else {
        lemma_strings_read_back(v.skip(1), parsed.push(v[0]));
        let after = written_out(v.skip(1)) + seq!['"'];
        assert(parsed.push(v[0]) + v.skip(1) =~= parsed + v);
        if v[0] == '"' || v[0] == '\\' || v[0] == '\n' || v[0] == '\r' || v[0] == '\t' {
            assert(whole.skip(2) =~= after);
            assert(whole[0] == '\\' && unescape(whole[1]) == Some(v[0]));
        } else {
            assert(whole.skip(1) =~= after);
            assert(whole[0] == v[0]);
        }
    }
}

/// The value of a string in single quotes, where `rest` is what follows the
/// opening quote.
pub open spec fn literal_value(rest: Seq<char>) -> Result<Seq<char>, Seq<char>> {
    match text::cut(rest, '\'') {
        None => Err("unterminated string value"@),
        Some((inside, behind)) => if text::trimmed(behind).len() == 0 {
            Ok(inside)
        } else {
            Err("unexpected content after string value"@)
        },
    }
}

/// The value of a quoted string.
pub open spec fn string_value(value: Seq<char>) -> Result<Seq<char>, Seq<char>> {
    if value.len() > 0 && value[0] == '"' {
        basic_value(value.skip(1), Seq::empty())
    } else if value.len() > 0 && value[0] == '\'' {
        literal_value(value.skip(1))
    } else {
        Err("expected quoted string value"@)
    }
}

/// A quoted string holds what stands between its quotes: between double quotes
/// as it is written out there, between single quotes to the letter. Without a
/// quote in front there is no string.
pub proof fn lemma_quoted_strings_read_back(v: Seq<char>)
    ensures
        string_value(seq!['"'] + (written_out(v) + seq!['"'])) == Ok::<Seq<char>, Seq<char>>(v),
        !v.contains('\'') ==> string_value(seq!['\''] + (v + seq!['\''])) == Ok::<
            Seq<char>,
            Seq<char>,
        >(v),
        v.len() == 0 || (v[0] != '"' && v[0] != '\'') ==> string_value(v) is Err,
{
    let basic = seq!['"'] + (written_out(v) + seq!['"']);
    lemma_strings_read_back(v, Seq::empty());
    assert(basic.skip(1) =~= written_out(v) + seq!['"']);
    assert(Seq::<char>::empty() + v =~= v);
    let literal = seq!['\''] + (v + seq!['\'']);
    assert(literal.skip(1) =~= v + seq!['\''] + Seq::<char>::empty());
    if !v.contains('\'') {
        text::lemma_cut_undoes_join(v, '\'', Seq::empty());
    }
}

/// The contents of a result of texts.
pub open spec fn outcome(r: Result<String, String>) -> Result<Seq<char>, Seq<char>> {
    match r {
        Ok(t) => Ok(t@),
        Err(e) => Err(e@),
    }
}

/// Reads a string in double quotes.
pub fn parse_basic_string(value: &str) -> (r: Result<String, String>)
    requires
        value@.len() > 0,
    ensures
        outcome(r) == basic_value(value@.skip(1), Seq::empty()),
{
    let cs = text::chars_of(value);
    let mut parsed = String::new();
    let mut i: usize = 1;
    while i < cs.len()
        invariant
            1 <= i <= cs.len(),
            cs@ == value@,
            basic_value(value@.skip(1), Seq::empty()) == basic_value(value@.skip(i as int), parsed@),
        decreases cs.len() - i,
    {
        let ghost rest = value@.skip(i as int);
        let c = cs[i];
        proof {
            assert(rest[0] == c);
            assert(rest.skip(1) =~= value@.skip(i + 1));
        }
        if c == '"' {
            proof {
                assert(value@.skip(i + 1) =~= value@.subrange(i + 1, value@.len() as int));
            }
            let behind = text::sub_text(&cs, i + 1, cs.len());
            let blank = text::trim(behind.as_str());
            if blank.as_str().is_empty() {
                return Ok(parsed);
            }
            return Err("unexpected content after string value".to_string());
        } else if c == '\\' {
            if i + 1 == cs.len() {
                return Err("unterminated string value".to_string());
            }
            let e = cs[i + 1];
            proof {
                assert(rest[1] == e);
                assert(rest.skip(2) =~= value@.skip(i + 2));
            }
            if e == '"' {
                parsed.push('"');
            } else if e == '\\' {
                parsed.push('\\');
            } else if e == 'n' {
                parsed.push('\n');
            } else if e == 'r' {
                parsed.push('\r');
            } else if e == 't' {
                parsed.push('\t');
            } else {
                let mut message = "unsupported escape sequence \\".to_string();
                message.push(e);
                return Err(message);
            }
            i = i + 2;
        } else {
            parsed.push(c);
            i = i + 1;
        }
    }
    Err("unterminated string value".to_string())
}

/// Reads a string in single quotes.
pub fn parse_literal_string(value: &str) -> (r: Result<String, String>)
    requires
        value@.len() > 0,
    ensures
        outcome(r) == literal_value(value@.skip(1)),
{
    let rest = text::text_from(value, 1);
    match text::split_once(rest.as_str(), '\'') {
        None => Err("unterminated string value".to_string()),
        Some((inside, behind)) => {
            let blank = text::trim(behind.as_str());
            if blank.as_str().is_empty() {
                Ok(inside)
            } else {
                Err("unexpected content after string value".to_string())
            }
        },
    }
}

/// Reads a quoted string.
pub fn parse_string_value(value: &str) -> (r: Result<String, String>)
    ensures
        outcome(r) == string_value(value@),
{
    let cs = text::chars_of(value);
    if cs.len() > 0 && cs[0] == '"' {
        parse_basic_string(value)
    } else if cs.len() > 0 && cs[0] == '\'' {
        parse_literal_string(value)
    } else {
        Err("expected quoted string value".to_string())
    }
}

/// The value of a boolean.
pub open spec fn bool_value(value: Seq<char>) -> Result<bool, Seq<char>> {
    if text::trimmed(value) == "true"@ {
        Ok(true)
    } else if text::trimmed(value) == "false"@ {
        Ok(false)
    } else {
        Err("expected boolean true or false"@)
    }
}

/// Reads a boolean.
pub fn parse_bool_value(value: &str) -> (r: Result<bool, String>)
    ensures
        match r {
            Ok(b) => bool_value(value@) == Ok::<bool, Seq<char>>(b),
            Err(e) => bool_value(value@) == Err::<bool, Seq<char>>(e@),
        },
{
    let v = text::trim(value);
    proof {
        reveal_strlit("true");
        reveal_strlit("false");
    }
    if text::same_text(v.as_str(), "true") {
        Ok(true)
    } else if text::same_text(v.as_str(), "false") {
        Ok(false)
    } else {
        Err("expected boolean true or false".to_string())
    }
}

/// The value of one element of an array.
pub open spec fn element_value(part: Seq<char>) -> Result<Seq<char>, Seq<char>> {
    if text::trimmed(part).len() == 0 {
        Err("empty array element"@)
    } else {
        string_value(text::trimmed(part))
    }
}

/// The values of the elements, or the error of the first bad one.
pub open spec fn element_values(parts: Seq<Seq<char>>) -> Result<Seq<Seq<char>>, Seq<char>>
    decreases parts.len(),
{
    if parts.len() == 0 {
        Ok(Seq::empty())
    } else {
        match element_values(parts.drop_last()) {
            Err(e) => Err(e),
            Ok(v) => match element_value(parts.last()) {
                Err(e) => Err(e),
                Ok(t) => Ok(v.push(t)),
            },
        }
    }
}

/// The value of an array of strings in one line.
pub open spec fn array_value(value: Seq<char>) -> Result<Seq<Seq<char>>, Seq<char>> {
    let v = text::trimmed(value);
    if v.len() >= 2 && v[0] == '[' && v.last() == ']' {
        let inner = text::trimmed(v.subrange(1, v.len() - 1));
        if inner.len() == 0 {
            Ok(Seq::empty())
        } else {
            element_values(text::fields(inner, ','))
        }
    } else {
        Err("expected an array of quoted strings in [ ... ]"@)
    }
}

proof fn lemma_first_bad_element(parts: Seq<Seq<char>>, k: int)
    requires
        0 <= k <= parts.len(),
        element_values(parts.take(k)) is Err,
    ensures
        element_values(parts) == element_values(parts.take(k)),
    decreases parts.len() - k,
{
    if k == parts.len() {
        assert(parts.take(k) =~= parts);
    } else {
        assert(parts.take(k + 1).drop_last() =~= parts.take(k));
        lemma_first_bad_element(parts, k + 1);
    }
}

/// Reads an array of strings in one line, such as `["a", "b"]`.
pub fn parse_string_array(value: &str) -> (r: Result<Vec<String>, String>)
    ensures
        match r {
            Ok(v) => array_value(value@) == Ok::<Seq<Seq<char>>, Seq<char>>(text::texts(v@)),
            Err(e) => array_value(value@) == Err::<Seq<Seq<char>>, Seq<char>>(e@),
        },
{
    let v = text::trim(value);
    let cs = text::chars_of(v.as_str());
    if !(cs.len() >= 2 && cs[0] == '[' && cs[cs.len() - 1] == ']') {
        return Err("expected an array of quoted strings in [ ... ]".to_string());
    }
    let inside = text::sub_text(&cs, 1, cs.len() - 1);
    let inner = text::trim(inside.as_str());
    let mut items: Vec<String> = Vec::new();
    proof {
        assert(text::texts(items@) =~= Seq::<Seq<char>>::empty());
    }
    if inner.as_str().is_empty() {
        return Ok(items);
    }
    let parts = text::split_on(inner.as_str(), ',');
    let ghost all = text::texts(parts@);
    let mut i: usize = 0;
    while i < parts.len()
        invariant
            i <= parts.len(),
            all == text::texts(parts@),
            array_value(value@) == element_values(all),
            element_values(all.take(i as int)) == Ok::<Seq<Seq<char>>, Seq<char>>(
                text::texts(items@),
            ),
        decreases parts.len() - i,
    {
        proof {
            assert(all.take(i + 1).drop_last() =~= all.take(i as int));
            assert(all.take(i + 1).last() == parts@[i as int]@);
        }
        let element = text::trim(parts[i].as_str());
        if element.as_str().is_empty() {
            proof {
                lemma_first_bad_element(all, i + 1);
            }
            return Err("empty array element".to_string());
        }
        match parse_string_value(element.as_str()) {
            Ok(t) => {
                let ghost before = text::texts(items@);
                let ghost tv = t@;
                items.push(t);
                proof {
                    assert(text::texts(items@) =~= before.push(tv));
                }
            },
            Err(e) => {
                proof {
                    lemma_first_bad_element(all, i + 1);
                }
                return Err(e);
            },
        }
        i = i + 1;
    }
    proof {
        assert(all.take(i as int) =~= all);
    }
    Ok(items)
}

/// Validated capability profile manifest.
#[derive(Debug, Clone, PartialEq, Eq)]
pub struct CapabilityProfileManifest {
    /// Name of the profile, from the manifest or from the file.
    pub name: String,
    /// Capabilities that the profile allows.
    pub capabilities: Vec<Capability>,
    /// Policy for the MCP tools, from the optional `[mcp]` table.
    pub mcp: McpPolicy,
    /// Policy for executions, from the optional `[execution]` table.
    pub execution: ExecutionPolicy,
}

/// Execution policy, from the optional `[execution]` table.
#[derive(Debug, Clone, PartialEq, Eq)]
pub struct ExecutionPolicy {
    /// Allowed module directories. If there are none, the environment decides.
    pub module_dirs: Vec<String>,
    /// Whether callers of the daemon must present a token.
    pub daemon_auth_required: bool,
}

/// Policy for the MCP tools, from the optional `[mcp]` table. Whatever the
/// table leaves out is permitted.
#[derive(Debug, Clone, PartialEq, Eq)]
pub struct McpPolicy {
    /// If there is a list, only the tools in it may be called.
    pub tool_allowlist: Option<Vec<String>>,
    /// Whether the snapshot tools are permitted.
    pub snapshot_enabled: bool,
    /// Whether the fork-and-race tool is permitted.
    pub fork_enabled: bool,
    /// Whether the proof tool is permitted.
    pub proof_enabled: bool,
    /// Whether the WASI tool is permitted.
    pub wasi_enabled: bool,
}

/// The optional list of texts as its contents.
pub open spec fn opt_texts(o: Option<Vec<String>>) -> Option<Seq<Seq<char>>> {
    match o {
        Some(v) => Some(text::texts(v@)),
        None => None,
    }
}

impl CapabilityProfileManifest {
    /// The capabilities that this manifest allows.
    pub fn allowed_capabilities(&self) -> (r: &[Capability])
        ensures
            r@ == self.capabilities@,
    {
        self.capabilities.as_slice()
    }

    /// The policy for the MCP tools.
    pub fn mcp_policy(&self) -> (r: &McpPolicy)
        ensures
            *r == self.mcp,
    {
        &self.mcp
    }

    /// The policy for executions.
    pub fn execution_policy(&self) -> (r: &ExecutionPolicy)
        ensures
            *r == self.execution,
    {
        &self.execution
    }
}

impl Default for ExecutionPolicy {
    fn default() -> (r: Self)
        ensures
            r.module_dirs@.len() == 0,
            !r.daemon_auth_required,
    {
        ExecutionPolicy { module_dirs: Vec::new(), daemon_auth_required: false }
    }
}

impl Default for McpPolicy {
    fn default() -> (r: Self)
        ensures
            r.tool_allowlist is None,
            r.snapshot_enabled,
            r.fork_enabled,
            r.proof_enabled,
            r.wasi_enabled,
    {
        McpPolicy {
            tool_allowlist: None,
            snapshot_enabled: true,
            fork_enabled: true,
            proof_enabled: true,
            wasi_enabled: true,
        }
    }
}

/// Whether an optional list of tools permits `tool`.
pub open spec fn list_permits(list: Option<Seq<Seq<char>>>, tool: Seq<char>) -> bool {
    list matches Some(names) ==> names.contains(tool)
}

impl McpPolicy {
    /// Whether `tool` may be called: always without a list, and else if the
    /// list names it.
    pub fn allows_tool(&self, tool: &str) -> (r: bool)
        ensures
            r == list_permits(opt_texts(self.tool_allowlist), tool@),
    {
        match &self.tool_allowlist {
            Some(list) => text::list_has(list, tool),
            None => true,
        }
    }
}

/// Without a list every tool is permitted; an empty list permits none.
pub proof fn lemma_tool_list_extremes(tool: Seq<char>)
    ensures
        list_permits(None, tool),
        !list_permits(Some(Seq::empty()), tool),
{
}

/// What is wrong with a profile.
#[derive(Debug, Clone, PartialEq, Eq)]
pub enum ValidationError {
    /// The file could not be read.
    Io { path: String, message: String },
    /// A line is not of the supported syntax. Lines are counted from 1.
    Parse { line: usize, message: String },
    /// There is no capability entry.
    EmptyCapabilities,
    /// The entry that starts at this line has no type.
    MissingCapabilityType { line: usize },
    /// The type at this line is not known.
    UnknownCapabilityType { line: usize, capability_type: String },
    /// A required value is missing or empty.
    MissingRequiredField { line: usize, capability_type: String, field: &'static str },
}

/// What is wrong with a profile, by its contents.
pub enum Problem {
    Io { path: Seq<char>, message: Seq<char> },
    Parse { line: nat, message: Seq<char> },
    EmptyCapabilities,
    MissingCapabilityType { line: nat },
    UnknownCapabilityType { line: nat, capability_type: Seq<char> },
    MissingRequiredField { line: nat, capability_type: Seq<char>, field: Seq<char> },
}

impl View for ValidationError {
    type V = Problem;

    open spec fn view(&self) -> Problem {
        match self {
            ValidationError::Io { path, message } => Problem::Io { path: path@, message: message@ },
            ValidationError::Parse { line, message } => Problem::Parse {
                line: *line as nat,
                message: message@,
            },
            ValidationError::EmptyCapabilities => Problem::EmptyCapabilities,
            ValidationError::MissingCapabilityType { line } => Problem::MissingCapabilityType {
                line: *line as nat,
            },
            ValidationError::UnknownCapabilityType {
                line,
                capability_type,
            } => Problem::UnknownCapabilityType {
                line: *line as nat,
                capability_type: capability_type@,
            },
            ValidationError::MissingRequiredField {
                line,
                capability_type,
                field,
            } => Problem::MissingRequiredField {
                line: *line as nat,
                capability_type: capability_type@,
                field: field@,
            },
        }
    }
}

/// The contents of a list of errors.
pub open spec fn problems(v: Seq<ValidationError>) -> Seq<Problem> {
    Seq::new(v.len(), |i: int| v[i]@)
}

impl Problem {
    /// The message for the user.
    pub open spec fn message(self) -> Seq<char> {
        match self {
            Problem::Io { path, message } => "failed to read profile "@ + path + ": "@ + message,
            Problem::Parse { line, message } => "line "@ + text::decimal(line) + ": "@ + message,
            Problem::EmptyCapabilities =>
                "profile must declare at least one [[capabilities]] entry"@,
            Problem::MissingCapabilityType { line } => "capability entry starting at line "@
                + text::decimal(line) + " is missing required field type"@,
            Problem::UnknownCapabilityType { line, capability_type } => "line "@ + text::decimal(
                line,
            ) + ": unknown capability type \""@ + capability_type + "\""@,
            Problem::MissingRequiredField { line, capability_type, field } => "capability \""@
                + capability_type + "\" at line "@ + text::decimal(line)
                + " is missing required field "@ + field,
        }
    }
}

impl ValidationError {
    /// The message for the user.
    pub fn to_text(&self) -> (r: String)
        ensures
            r@ == self@.message(),
    {
        match self {
            ValidationError::Io { path, message } => text::cat4(
                "failed to read profile ",
                path.as_str(),
                ": ",
                message.as_str(),
            ),
            ValidationError::Parse { line, message } => text::cat4(
                "line ",
                text::to_decimal(*line as u64).as_str(),
                ": ",
                message.as_str(),
            ),
            ValidationError::EmptyCapabilities =>
                "profile must declare at least one [[capabilities]] entry".to_string(),
            ValidationError::MissingCapabilityType { line } => text::cat3(
                "capability entry starting at line ",
                text::to_decimal(*line as u64).as_str(),
                " is missing required field type",
            ),
            ValidationError::UnknownCapabilityType { line, capability_type } => text::cat5(
                "line ",
                text::to_decimal(*line as u64).as_str(),
                ": unknown capability type \"",
                capability_type.as_str(),
                "\"",
            ),
            ValidationError::MissingRequiredField { line, capability_type, field } => {
                let head = text::cat5(
                    "capability \"",
                    capability_type.as_str(),
                    "\" at line ",
                    text::to_decimal(*line as u64).as_str(),
                    " is missing required field ",
                );
                text::cat2(head.as_str(), field)
            },
        }
    }
}

/// A value together with the line it stands at.
#[derive(Debug, Clone)]
pub struct ParsedValue {
    pub line: usize,
    pub value: String,
}

/// A `[[capabilities]]` entry as it was read.
#[derive(Debug)]
pub struct RawCapability {
    pub line: usize,
    pub capability_type: Option<ParsedValue>,
    pub path: Option<ParsedValue>,
    pub pattern: Option<ParsedValue>,
}

/// The `[execution]` table as it was read.
#[derive(Debug)]
pub struct RawExecution {
    pub module_dirs: Option<Vec<String>>,
    pub daemon_auth_required: Option<bool>,
}

/// The `[mcp]` table as it was read.
#[derive(Debug)]
pub struct RawMcp {
    pub tool_allowlist: Option<Vec<String>>,
    pub snapshot_enabled: Option<bool>,
    pub fork_enabled: Option<bool>,
    pub proof_enabled: Option<bool>,
    pub wasi_enabled: Option<bool>,
}

/// A profile as it was read, before its capabilities are validated.
#[derive(Debug)]
pub struct RawProfile {
    pub name: Option<String>,
    pub capabilities: Vec<RawCapability>,
    pub mcp: Option<RawMcp>,
    pub execution: Option<RawExecution>,
}

/// The table that the reader is in. A capability entry is always the last one.
#[derive(Debug, Clone, Copy, PartialEq, Eq, Structural)]
pub enum Section {
    Top,
    Capability,
    Mcp,
    Execution,
}

/// A value with its line, by its contents.
pub struct Value {
    pub line: nat,
    pub value: Seq<char>,
}

/// A capability entry, by its contents.
pub struct Entry {
    pub line: nat,
    pub capability_type: Option<Value>,
    pub path: Option<Value>,
    pub pattern: Option<Value>,
}

/// The `[execution]` table, by its contents.
pub struct ExecutionTable {
    pub module_dirs: Option<Seq<Seq<char>>>,
    pub daemon_auth_required: Option<bool>,
}

/// The `[mcp]` table, by its contents.
pub struct McpTable {
    pub tool_allowlist: Option<Seq<Seq<char>>>,
    pub snapshot_enabled: Option<bool>,
    pub fork_enabled: Option<bool>,
    pub proof_enabled: Option<bool>,
    pub wasi_enabled: Option<bool>,
}

/// A profile as it was read, by its contents.
pub struct Profile {
    pub name: Option<Seq<char>>,
    pub entries: Seq<Entry>,
    pub mcp: Option<McpTable>,
    pub execution: Option<ExecutionTable>,
}

impl View for ParsedValue {
    type V = Value;

    open spec fn view(&self) -> Value {
        Value { line: self.line as nat, value: self.value@ }
    }
}

pub open spec fn opt_value(o: Option<ParsedValue>) -> Option<Value> {
    match o {
        Some(v) => Some(v@),
        None => None,
    }
}

impl View for RawCapability {
    type V = Entry;

    open spec fn view(&self) -> Entry {
        Entry {
            line: self.line as nat,
            capability_type: opt_value(self.capability_type),
            path: opt_value(self.path),
            pattern: opt_value(self.pattern),
        }
    }
}

impl View for RawExecution {
    type V = ExecutionTable;

    open spec fn view(&self) -> ExecutionTable {
        ExecutionTable {
            module_dirs: opt_texts(self.module_dirs),
            daemon_auth_required: self.daemon_auth_required,
        }
    }
}

impl View for RawMcp {
    type V = McpTable;

    open spec fn view(&self) -> McpTable {
        McpTable {
            tool_allowlist: opt_texts(self.tool_allowlist),
            snapshot_enabled: self.snapshot_enabled,
            fork_enabled: self.fork_enabled,
            proof_enabled: self.proof_enabled,
            wasi_enabled: self.wasi_enabled,
        }
    }
}

/// The contents of the capability entries.
pub open spec fn entries(v: Seq<RawCapability>) -> Seq<Entry> {
    Seq::new(v.len(), |i: int| v[i]@)
}

pub open spec fn opt_mcp(o: Option<RawMcp>) -> Option<McpTable> {
    match o {
        Some(t) => Some(t@),
        None => None,
    }
}

pub open spec fn opt_execution(o: Option<RawExecution>) -> Option<ExecutionTable> {
    match o {
        Some(t) => Some(t@),
        None => None,
    }
}

impl View for RawProfile {
    type V = Profile;

    open spec fn view(&self) -> Profile {
        Profile {
            name: text::opt_text(self.name),
            entries: entries(self.capabilities@),
            mcp: opt_mcp(self.mcp),
            execution: opt_execution(self.execution),
        }
    }
}

/// A `[mcp]` table that sets nothing.
pub open spec fn empty_mcp() -> McpTable {
    McpTable {
        tool_allowlist: None,
        snapshot_enabled: None,
        fork_enabled: None,
        proof_enabled: None,
        wasi_enabled: None,
    }
}

/// An `[execution]` table that sets nothing.
pub open spec fn empty_execution() -> ExecutionTable {
    ExecutionTable { module_dirs: None, daemon_auth_required: None }
}

/// An entry that sets nothing.
pub open spec fn empty_entry(line: nat) -> Entry {
    Entry { line, capability_type: None, path: None, pattern: None }
}

impl RawMcp {
    pub fn new() -> (r: Self)
        ensures
            r@ == empty_mcp(),
    {
        RawMcp {
            tool_allowlist: None,
            snapshot_enabled: None,
            fork_enabled: None,
            proof_enabled: None,
            wasi_enabled: None,
        }
    }
}

impl RawExecution {
    pub fn new() -> (r: Self)
        ensures
            r@ == empty_execution(),
    {
        RawExecution { module_dirs: None, daemon_auth_required: None }
    }
}

impl RawCapability {
    pub fn new(line: usize) -> (r: Self)
        ensures
            r@ == empty_entry(line as nat),
    {
        RawCapability { line, capability_type: None, path: None, pattern: None }
    }
}

/// The problem of a value that does not parse at this line.
pub open spec fn bad_line(line: nat, message: Seq<char>) -> Seq<Problem> {
    seq![Problem::Parse { line, message }]
}

/// The `[mcp]` table after the assignment of `rhs` to `key`, and what is wrong
/// with the assignment.
pub open spec fn mcp_assigned(
    table: McpTable,
    key: Seq<char>,
    rhs: Seq<char>,
    line: nat,
) -> (McpTable, Seq<Problem>) {
    if key == "tool_allowlist"@ {
        match array_value(rhs) {
            Ok(v) => (McpTable { tool_allowlist: Some(v), ..table }, Seq::empty()),
            Err(e) => (table, bad_line(line, e)),
        }
    } else if key == "snapshot_enabled"@ {
        match bool_value(rhs) {
            Ok(b) => (McpTable { snapshot_enabled: Some(b), ..table }, Seq::empty()),
            Err(e) => (table, bad_line(line, e)),
        }
    } else if key == "fork_enabled"@ {
        match bool_value(rhs) {
            Ok(b) => (McpTable { fork_enabled: Some(b), ..table }, Seq::empty()),
            Err(e) => (table, bad_line(line, e)),
        }
    } else if key == "proof_enabled"@ {
        match bool_value(rhs) {
            Ok(b) => (McpTable { proof_enabled: Some(b), ..table }, Seq::empty()),
            Err(e) => (table, bad_line(line, e)),
        }
    } else if key == "wasi_enabled"@ {
        match bool_value(rhs) {
            Ok(b) => (McpTable { wasi_enabled: Some(b), ..table }, Seq::empty()),
            Err(e) => (table, bad_line(line, e)),
        }
    } else {
        (table, bad_line(line, "unsupported [mcp] key \""@ + key + "\""@))
    }
}

/// The `[execution]` table after the assignment of `rhs` to `key`, and what is
/// wrong with the assignment.
pub open spec fn execution_assigned(
    table: ExecutionTable,
    key: Seq<char>,
    rhs: Seq<char>,
    line: nat,
) -> (ExecutionTable, Seq<Problem>) {
    if key == "module_dirs"@ {
        match array_value(rhs) {
            Ok(v) => (ExecutionTable { module_dirs: Some(v), ..table }, Seq::empty()),
            Err(e) => (table, bad_line(line, e)),
        }
    } else if key == "daemon_auth_required"@ {
        match bool_value(rhs) {
            Ok(b) => (ExecutionTable { daemon_auth_required: Some(b), ..table }, Seq::empty()),
            Err(e) => (table, bad_line(line, e)),
        }
    } else {
        (table, bad_line(line, "unsupported [execution] key \""@ + key + "\""@))
    }
}

/// Appends a syntax error.
fn report(errors: &mut Vec<ValidationError>, line: usize, message: String)
    ensures
        problems(final(errors)@) == problems(old(errors)@) + bad_line(line as nat, message@),
{
    errors.push(ValidationError::Parse { line, message });
    proof {
        assert(problems(errors@) =~= problems(old(errors)@) + bad_line(line as nat, message@));
    }
}

/// Reads one assignment of the `[mcp]` table.
pub fn parse_mcp_assignment(
    mcp: &mut RawMcp,
    key: &str,
    rhs: &str,
    line_number: usize,
    errors: &mut Vec<ValidationError>,
)
    ensures
        final(mcp)@ == mcp_assigned(old(mcp)@, key@, rhs@, line_number as nat).0,
        problems(final(errors)@) == problems(old(errors)@) + mcp_assigned(
            old(mcp)@,
            key@,
            rhs@,
            line_number as nat,
        ).1,
{
    proof {
        assert(problems(errors@) + Seq::<Problem>::empty() =~= problems(errors@));
    }
    if text::same_text(key, "tool_allowlist") {
        match parse_string_array(rhs) {
            Ok(values) => {
                mcp.tool_allowlist = Some(values);
            },
            Err(message) => {
                report(errors, line_number, message);
            },
        }
    } else if text::same_text(key, "snapshot_enabled") {
        match parse_bool_value(rhs) {
            Ok(value) => {
                mcp.snapshot_enabled = Some(value);
            },
            Err(message) => {
                report(errors, line_number, message);
            },
        }
    } else if text::same_text(key, "fork_enabled") {
        match parse_bool_value(rhs) {
            Ok(value) => {
                mcp.fork_enabled = Some(value);
            },
            Err(message) => {
                report(errors, line_number, message);
            },
        }
    } else if text::same_text(key, "proof_enabled") {
        match parse_bool_value(rhs) {
            Ok(value) => {
                mcp.proof_enabled = Some(value);
            },
            Err(message) => {
                report(errors, line_number, message);
            },
        }
    } else if text::same_text(key, "wasi_enabled") {
        match parse_bool_value(rhs) {
            Ok(value) => {
                mcp.wasi_enabled = Some(value);
            },
            Err(message) => {
                report(errors, line_number, message);
            },
        }
    } else {
        let message = text::cat3("unsupported [mcp] key \"", key, "\"");
        report(errors, line_number, message);
    }
}

/// Reads one assignment of the `[execution]` table.
pub fn parse_execution_assignment(
    exec: &mut RawExecution,
    key: &str,
    rhs: &str,
    line_number: usize,
    errors: &mut Vec<ValidationError>,
)
    ensures
        final(exec)@ == execution_assigned(old(exec)@, key@, rhs@, line_number as nat).0,
        problems(final(errors)@) == problems(old(errors)@) + execution_assigned(
            old(exec)@,
            key@,
            rhs@,
            line_number as nat,
        ).1,
{
    proof {
        assert(problems(errors@) + Seq::<Problem>::empty() =~= problems(errors@));
    }
    if text::same_text(key, "module_dirs") {
        match parse_string_array(rhs) {
            Ok(values) => {
                exec.module_dirs = Some(values);
            },
            Err(message) => {
                report(errors, line_number, message);
            },
        }
    } else if text::same_text(key, "daemon_auth_required") {
        match parse_bool_value(rhs) {
            Ok(value) => {
                exec.daemon_auth_required = Some(value);
            },
            Err(message) => {
                report(errors, line_number, message);
            },
        }
    } else {
        let message = text::cat3("unsupported [execution] key \"", key, "\"");
        report(errors, line_number, message);
    }
}

/// What a line of a manifest says.
pub enum Line {
    /// Nothing, or only a comment.
    Blank,
    /// `[[capabilities]]`.
    CapabilityHeader,
    /// `[mcp]`.
    McpHeader,
    /// `[execution]`.
    ExecutionHeader,
    /// Something wrong.
    Bad(Seq<char>),
    /// `key = rhs`.
    Assign(Seq<char>, Seq<char>),
}

/// What the line says, when comment and outer white space are gone.
pub open spec fn line_kind(line: Seq<char>) -> Line {
    if line.len() == 0 {
        Line::Blank
    } else if line == "[[capabilities]]"@ {
        Line::CapabilityHeader
    } else if line == "[mcp]"@ {
        Line::McpHeader
    } else if line == "[execution]"@ {
        Line::ExecutionHeader
    } else if line[0] == '[' {
        Line::Bad("only [[capabilities]], [mcp], and [execution] tables are supported"@)
    } else if exists|i: int| first_unquoted(line, '=', i) {
        let i = choose|i: int| first_unquoted(line, '=', i);
        let key = text::trimmed(line.take(i));
        if key.len() == 0 {
            Line::Bad("expected key before ="@)
        } else {
            Line::Assign(key, text::trimmed(line.skip(i + 1)))
        }
    } else {
        Line::Bad("expected key = value assignment"@)
    }
}

/// What the reader has found so far.
pub struct Reading {
    pub profile: Profile,
    pub section: Section,
    pub problems: Seq<Problem>,
}

/// The profile after the string `value` at `line` was assigned to `key`, in a
/// capability entry or above all tables. Other keys are passed over.
pub open spec fn string_assigned(
    p: Profile,
    section: Section,
    key: Seq<char>,
    value: Value,
) -> Profile {
    if section is Capability && p.entries.len() > 0 {
        let e = p.entries.last();
        let f = if key == "type"@ {
            Entry { capability_type: Some(value), ..e }
        } else if key == "path"@ {
            Entry { path: Some(value), ..e }
        } else if key == "pattern"@ {
            Entry { pattern: Some(value), ..e }
        } else {
            e
        };
        Profile { entries: p.entries.drop_last().push(f), ..p }
    } else if key == "name"@ {
        Profile { name: Some(value.value), ..p }
    } else {
        p
    }
}

/// What the reader knows after one more line.
pub open spec fn read_line(r: Reading, line: Seq<char>, number: nat) -> Reading {
    match line_kind(text::trimmed(before_comment(line))) {
        Line::Blank => r,
        Line::CapabilityHeader => Reading {
            profile: Profile { entries: r.profile.entries.push(empty_entry(number)), ..r.profile },
            section: Section::Capability,
            ..r
        },
        Line::McpHeader => Reading {
            profile: Profile { mcp: Some(mcp_table(r.profile)), ..r.profile },
            section: Section::Mcp,
            ..r
        },
        Line::ExecutionHeader => Reading {
            profile: Profile { execution: Some(execution_table(r.profile)), ..r.profile },
            section: Section::Execution,
            ..r
        },
        Line::Bad(message) => Reading { problems: r.problems + bad_line(number, message), ..r },
        Line::Assign(key, rhs) => if r.section is Mcp {
            let (table, bad) = mcp_assigned(mcp_table(r.profile), key, rhs, number);
            Reading {
                profile: Profile { mcp: Some(table), ..r.profile },
                problems: r.problems + bad,
                ..r
            }
        } else if r.section is Execution {
            let (table, bad) = execution_assigned(execution_table(r.profile), key, rhs, number);
            Reading {
                profile: Profile { execution: Some(table), ..r.profile },
                problems: r.problems + bad,
                ..r
            }
        } else {
            match string_value(rhs) {
                Ok(v) => Reading {
                    profile: string_assigned(
                        r.profile,
                        r.section,
                        key,
                        Value { line: number, value: v },
                    ),
                    ..r
                },
                Err(e) => Reading { problems: r.problems + bad_line(number, e), ..r },
            }
        },
    }
}

/// The `[mcp]` table that has been read, or an empty one.
pub open spec fn mcp_table(p: Profile) -> McpTable {
    match p.mcp {
        Some(t) => t,
        None => empty_mcp(),
    }
}

/// The `[execution]` table that has been read, or an empty one.
pub open spec fn execution_table(p: Profile) -> ExecutionTable {
    match p.execution {
        Some(t) => t,
        None => empty_execution(),
    }
}

/// What the reader knows before the first line.
pub open spec fn nothing_read(problems: Seq<Problem>) -> Reading {
    Reading {
        profile: Profile { name: None, entries: Seq::empty(), mcp: None, execution: None },
        section: Section::Top,
        problems,
    }
}

/// What the reader knows after all the lines.
pub open spec fn read_lines(lines: Seq<Seq<char>>, problems: Seq<Problem>) -> Reading
    decreases lines.len(),
{
    if lines.len() == 0 {
        nothing_read(problems)
    } else {
        read_line(read_lines(lines.drop_last(), problems), lines.last(), lines.len())
    }
}

/// The profile that a text declares, as it is read.
pub open spec fn reading(contents: Seq<char>, problems: Seq<Problem>) -> Reading {
    read_lines(text::lines(contents), problems)
}

/// Assigns a string in the last capability entry.
fn assign_entry(profile: &mut RawProfile, key: &str, parsed: ParsedValue)
    requires
        old(profile)@.entries.len() > 0,
    ensures
        final(profile)@ == string_assigned(old(profile)@, Section::Capability, key@, parsed@),
{
    let ghost before = profile@;
    match profile.capabilities.pop() {
        Some(entry) => {
            let mut e = entry;
            let ghost e0 = e@;
            proof {
                assert(entries(profile.capabilities@) =~= before.entries.drop_last());
                assert(e0 == before.entries.last());
            }
            if text::same_text(key, "type") {
                e.capability_type = Some(parsed);
            } else if text::same_text(key, "path") {
                e.path = Some(parsed);
            } else if text::same_text(key, "pattern") {
                e.pattern = Some(parsed);
            }
            let ghost ev = e@;
            profile.capabilities.push(e);
            proof {
                assert(entries(profile.capabilities@) =~= before.entries.drop_last().push(ev));
            }
        },
        None => {
            proof {
                assert(before.entries.len() == 0);
            }
        },
    }
}

/// Reads one assignment that stands in no `[mcp]` or `[execution]` table.
fn assign_string(
    profile: &mut RawProfile,
    section: Section,
    key: &str,
    rhs: &str,
    line_number: usize,
    errors: &mut Vec<ValidationError>,
)
    requires
        section is Capability ==> old(profile)@.entries.len() > 0,
    ensures
        match string_value(rhs@) {
            Ok(v) => final(profile)@ == string_assigned(
                old(profile)@,
                section,
                key@,
                (Value { line: line_number as nat, value: v }),
            ) && problems(final(errors)@) == problems(old(errors)@),
            Err(e) => final(profile)@ == old(profile)@ && problems(final(errors)@) == problems(
                old(errors)@,
            ) + bad_line(line_number as nat, e),
        },
{
    match parse_string_value(rhs) {
        Ok(value) => {
            let parsed = ParsedValue { line: line_number, value };
            if matches!(section, Section::Capability) {
                assign_entry(profile, key, parsed);
            } else if text::same_text(key, "name") {
                profile.name = Some(parsed.value);
            }
        },
        Err(message) => {
            report(errors, line_number, message);
        },
    }
}

/// Reads one line.
fn parse_line(
    profile: &mut RawProfile,
    section: Section,
    original_line: &str,
    line_number: usize,
    errors: &mut Vec<ValidationError>,
) -> (r: Section)
    requires
        section is Capability ==> old(profile)@.entries.len() > 0,
    ensures
        (Reading { profile: final(profile)@, section: r, problems: problems(final(errors)@) })
            == read_line(
            (Reading { profile: old(profile)@, section, problems: problems(old(errors)@) }),
            original_line@,
            line_number as nat,
        ),
        r is Capability ==> final(profile)@.entries.len() > 0,
{
    let without_comment = strip_comment(original_line);
    let line = text::trim(without_comment.as_str());
    let ghost before = profile@;
    let ghost l = line@;
    proof {
        assert(problems(errors@) + Seq::<Problem>::empty() =~= problems(errors@));
    }
    if line.as_str().is_empty() {
        return section;
    }
    if text::same_text(line.as_str(), "[[capabilities]]") {
        profile.capabilities.push(RawCapability::new(line_number));
        proof {
            assert(profile@.entries =~= before.entries.push(empty_entry(line_number as nat)));
        }
        return Section::Capability;
    }
    if text::same_text(line.as_str(), "[mcp]") {
        if profile.mcp.is_none() {
            profile.mcp = Some(RawMcp::new());
        }
        return Section::Mcp;
    }
    if text::same_text(line.as_str(), "[execution]") {
        if profile.execution.is_none() {
            profile.execution = Some(RawExecution::new());
        }
        return Section::Execution;
    }
    let cs = text::chars_of(line.as_str());
    if cs[0] == '[' {
        report(
            errors,
            line_number,
            "only [[capabilities]], [mcp], and [execution] tables are supported".to_string(),
        );
        return section;
    }
    let separator = match find_unquoted_equals(line.as_str()) {
        Some(i) => i,
        None => {
            proof {
                assert(forall|k: int| !first_unquoted(l, '=', k));
            }
            report(errors, line_number, "expected key = value assignment".to_string());
            return section;
        },
    };
    assert(unquoted_at(l, '=', separator as int));
    assert(separator < cs.len());
    proof {
        lemma_first_unquoted_unique(
            l,
            '=',
            separator as int,
            choose|k: int| first_unquoted(l, '=', k),
        );
        assert(l.take(separator as int) =~= l.subrange(0, separator as int));
        assert(l.skip(separator + 1) =~= l.subrange(separator + 1, l.len() as int));
    }
    let left = text::sub_text(&cs, 0, separator);
    let key = text::trim(left.as_str());
    if key.as_str().is_empty() {
        report(errors, line_number, "expected key before =".to_string());
        return section;
    }
    let right = text::sub_text(&cs, separator + 1, cs.len());
    let rhs = text::trim(right.as_str());
    if matches!(section, Section::Mcp) {
        let mut table = match profile.mcp.take() {
            Some(t) => t,
            None => RawMcp::new(),
        };
        parse_mcp_assignment(&mut table, key.as_str(), rhs.as_str(), line_number, errors);
        profile.mcp = Some(table);
        return section;
    }
    if matches!(section, Section::Execution) {
        let mut table = match profile.execution.take() {
            Some(t) => t,
            None => RawExecution::new(),
        };
        parse_execution_assignment(&mut table, key.as_str(), rhs.as_str(), line_number, errors);
        profile.execution = Some(table);
        return section;
    }
    assign_string(profile, section, key.as_str(), rhs.as_str(), line_number, errors);
    section
}

/// Reads a manifest line by line. What is wrong is appended to `errors`, in the
/// order of the lines; the reader goes on behind a bad line.
pub fn parse_profile(contents: &str, errors: &mut Vec<ValidationError>) -> (r: RawProfile)
    ensures
        r@ == reading(contents@, problems(old(errors)@)).profile,
        problems(final(errors)@) == reading(contents@, problems(old(errors)@)).problems,
{
    let ghost start = problems(errors@);
    let mut profile = RawProfile {
        name: None,
        capabilities: Vec::new(),
        mcp: None,
        execution: None,
    };
    let mut section = Section::Top;
    let lines = text::lines_of(contents);
    let ghost all = text::texts(lines@);
    let mut index: usize = 0;
    proof {
        assert(entries(profile.capabilities@) =~= Seq::<Entry>::empty());
        assert(all.take(0) =~= Seq::<Seq<char>>::empty());
    }
    while index < lines.len()
        invariant
            index <= lines.len(),
            all == text::texts(lines@),
            section is Capability ==> profile@.entries.len() > 0,
            (Reading { profile: profile@, section, problems: problems(errors@) }) == read_lines(
                all.take(index as int),
                start,
            ),
        decreases lines.len() - index,
    {
        proof {
            assert(all.take(index + 1).drop_last() =~= all.take(index as int));
            assert(all.take(index + 1).last() == lines@[index as int]@);
        }
        section = parse_line(&mut profile, section, lines[index].as_str(), index + 1, errors);
        index = index + 1;
    }
    proof {
        assert(all.take(index as int) =~= all);
    }
    profile
}

/// The value that a capability requires, without outer white space; or the
/// problem that it is missing, at the entry's line, or empty, at its own line.
pub open spec fn required(
    entry: Entry,
    capability_type: Seq<char>,
    field: Seq<char>,
    value: Option<Value>,
) -> Result<Seq<char>, Problem> {
    match value {
        None => Err(Problem::MissingRequiredField { line: entry.line, capability_type, field }),
        Some(v) => if text::trimmed(v.value).len() == 0 {
            Err(Problem::MissingRequiredField { line: v.line, capability_type, field })
        } else {
            Ok(text::trimmed(v.value))
        },
    }
}

/// The HTTP pattern may stand under `pattern` or under `path`.
pub open spec fn pattern_of(entry: Entry) -> Option<Value> {
    match entry.pattern {
        Some(v) => Some(v),
        None => entry.path,
    }
}

/// A type's name without outer white space, in small letters, with `_` for `-`.
pub open spec fn normalized(capability_type: Seq<char>) -> Seq<char> {
    let t = text::ascii_lowered(text::trimmed(capability_type));
    Seq::new(
        t.len(),
        |i: int|
            if t[i] == '-' {
                '_'
            } else {
                t[i]
            },
    )
}

/// The capability that an entry declares, or what is wrong with it.
pub open spec fn entry_capability(entry: Entry) -> Result<security::Cap, Problem> {
    match entry.capability_type {
        None => Err(Problem::MissingCapabilityType { line: entry.line }),
        Some(t) => {
            let name = text::trimmed(t.value);
            let kind = normalized(t.value);
            let path = required(entry, name, "path"@, entry.path);
            let pattern = required(entry, name, "pattern"@, pattern_of(entry));
            if kind == "read_file"@ {
                with_text(path, |s: Seq<char>| security::Cap::ReadFile(s))
            } else if kind == "write_file"@ {
                with_text(path, |s: Seq<char>| security::Cap::WriteFile(s))
            } else if kind == "list_dir"@ || kind == "list_directory"@ {
                with_text(path, |s: Seq<char>| security::Cap::ListDirectory(s))
            } else if kind == "http_get"@ {
                with_text(pattern, |s: Seq<char>| security::Cap::HttpGet(s))
            } else if kind == "http_post"@ {
                with_text(pattern, |s: Seq<char>| security::Cap::HttpPost(s))
            } else if kind == "execute"@ || kind == "execute_binary"@ {
                with_text(path, |s: Seq<char>| security::Cap::ExecuteBinary(s))
            } else if kind == "mount_tmpfs"@ {
                with_text(path, |s: Seq<char>| security::Cap::MountTmpfs(s))
            } else if kind == "all"@ {
                Ok(security::Cap::All)
            } else if kind == "none"@ {
                Ok(security::Cap::Nothing)
            } else {
                Err(Problem::UnknownCapabilityType { line: t.line, capability_type: name })
            }
        },
    }
}

/// The capability made of a required text.
pub open spec fn with_text(
    r: Result<Seq<char>, Problem>,
    make: spec_fn(Seq<char>) -> security::Cap,
) -> Result<security::Cap, Problem> {
    match r {
        Ok(t) => Ok(make(t)),
        Err(e) => Err(e),
    }
}

/// The capabilities of the good entries and the problems of the bad ones, each
/// in the order of the entries.
pub open spec fn entry_capabilities(all: Seq<Entry>) -> (Seq<security::Cap>, Seq<Problem>)
    decreases all.len(),
{
    if all.len() == 0 {
        (Seq::empty(), Seq::empty())
    } else {
        let (good, bad) = entry_capabilities(all.drop_last());
        match entry_capability(all.last()) {
            Ok(c) => (good.push(c), bad),
            Err(e) => (good, bad.push(e)),
        }
    }
}

/// The same for a whole profile, which must have an entry.
pub open spec fn profile_capabilities(all: Seq<Entry>) -> (Seq<security::Cap>, Seq<Problem>) {
    if all.len() == 0 {
        (Seq::empty(), seq![Problem::EmptyCapabilities])
    } else {
        entry_capabilities(all)
    }
}

/// Appends an error.
fn add_error(errors: &mut Vec<ValidationError>, e: ValidationError)
    ensures
        problems(final(errors)@) == problems(old(errors)@).push(e@),
{
    errors.push(e);
    proof {
        assert(problems(errors@) =~= problems(old(errors)@).push(e@));
    }
}

/// Looks up a required value.
pub fn required_value(
    raw: &RawCapability,
    capability_type: &str,
    field: &'static str,
    value: &Option<ParsedValue>,
    errors: &mut Vec<ValidationError>,
) -> (r: Option<String>)
    ensures
        match required(raw@, capability_type@, field@, opt_value(*value)) {
            Ok(t) => r is Some && r->0@ == t && problems(final(errors)@) == problems(old(errors)@),
            Err(e) => r is None && problems(final(errors)@) == problems(old(errors)@).push(e),
        },
{
    match value {
        None => {
            add_error(
                errors,
                ValidationError::MissingRequiredField {
                    line: raw.line,
                    capability_type: capability_type.to_string(),
                    field,
                },
            );
            None
        },
        Some(parsed) => {
            let v = text::trim(parsed.value.as_str());
            if v.as_str().is_empty() {
                add_error(
                    errors,
                    ValidationError::MissingRequiredField {
                        line: parsed.line,
                        capability_type: capability_type.to_string(),
                        field,
                    },
                );
                None
            } else {
                Some(v)
            }
        },
    }
}

/// Looks up the path of an entry.
pub fn required_path(
    raw: &RawCapability,
    capability_type: &str,
    field: &'static str,
    errors: &mut Vec<ValidationError>,
) -> (r: Option<String>)
    ensures
        match required(raw@, capability_type@, field@, raw@.path) {
            Ok(t) => r is Some && r->0@ == t && problems(final(errors)@) == problems(old(errors)@),
            Err(e) => r is None && problems(final(errors)@) == problems(old(errors)@).push(e),
        },
{
    required_value(raw, capability_type, field, &raw.path, errors)
}

/// Looks up the HTTP pattern of an entry.
pub fn required_pattern(
    raw: &RawCapability,
    capability_type: &str,
    errors: &mut Vec<ValidationError>,
) -> (r: Option<String>)
    ensures
        match required(raw@, capability_type@, "pattern"@, pattern_of(raw@)) {
            Ok(t) => r is Some && r->0@ == t && problems(final(errors)@) == problems(old(errors)@),
            Err(e) => r is None && problems(final(errors)@) == problems(old(errors)@).push(e),
        },
{
    if raw.pattern.is_some() {
        required_value(raw, capability_type, "pattern", &raw.pattern, errors)
    } else {
        required_value(raw, capability_type, "pattern", &raw.path, errors)
    }
}

/// The normalized name of a capability type.
fn normalize_type(capability_type: &str) -> (r: String)
    ensures
        r@ == normalized(capability_type@),
{
    let t = text::trim(capability_type);
    let lower = text::ascii_lowercase(t.as_str());
    let cs = text::chars_of(lower.as_str());
    let mut out = String::new();
    let mut i: usize = 0;
    while i < cs.len()
        invariant
            i <= cs.len(),
            cs@ == text::ascii_lowered(text::trimmed(capability_type@)),
            out@ == normalized(capability_type@).take(i as int),
        decreases cs.len() - i,
    {
        if cs[i] == '-' {
            out.push('_');
        } else {
            out.push(cs[i]);
        }
        i = i + 1;
        proof {
            let n = normalized(capability_type@);
            assert(n.take(i as int) =~= n.take(i - 1).push(n[i - 1]));
        }
    }
    proof {
        let n = normalized(capability_type@);
        assert(n.take(i as int) =~= n);
    }
    out
}

/// The capability of one entry; what is wrong with it is appended to `errors`.
fn validate_entry(raw: &RawCapability, errors: &mut Vec<ValidationError>) -> (r: Option<Capability>)
    ensures
        match entry_capability(raw@) {
            Ok(c) => r is Some && r->0@ == c && problems(final(errors)@) == problems(old(errors)@),
            Err(e) => r is None && problems(final(errors)@) == problems(old(errors)@).push(e),
        },
{
    let parsed = match &raw.capability_type {
        Some(t) => t,
        None => {
            add_error(errors, ValidationError::MissingCapabilityType { line: raw.line });
            return None;
        },
    };
    let name = text::trim(parsed.value.as_str());
    let kind = normalize_type(parsed.value.as_str());
    let k = kind.as_str();
    if text::same_text(k, "read_file") {
        match required_path(raw, name.as_str(), "path", errors) {
            Some(t) => Some(Capability::ReadFile(t)),
            None => None,
        }
    } else if text::same_text(k, "write_file") {
        match required_path(raw, name.as_str(), "path", errors) {
            Some(t) => Some(Capability::WriteFile(t)),
            None => None,
        }
    } else if text::same_text(k, "list_dir") || text::same_text(k, "list_directory") {
        match required_path(raw, name.as_str(), "path", errors) {
            Some(t) => Some(Capability::ListDirectory(t)),
            None => None,
        }
    } else if text::same_text(k, "http_get") {
        match required_pattern(raw, name.as_str(), errors) {
            Some(t) => Some(Capability::HttpGet(t)),
            None => None,
        }
    } else if text::same_text(k, "http_post") {
        match required_pattern(raw, name.as_str(), errors) {
            Some(t) => Some(Capability::HttpPost(t)),
            None => None,
        }
    } else if text::same_text(k, "execute") || text::same_text(k, "execute_binary") {
        match required_path(raw, name.as_str(), "path", errors) {
            Some(t) => Some(Capability::ExecuteBinary(t)),
            None => None,
        }
    } else if text::same_text(k, "mount_tmpfs") {
        match required_path(raw, name.as_str(), "path", errors) {
            Some(t) => Some(Capability::MountTmpfs(t)),
            None => None,
        }
    } else if text::same_text(k, "all") {
        Some(Capability::All)
    } else if text::same_text(k, "none") {
        Some(Capability::Nothing)
    } else {
        add_error(
            errors,
            ValidationError::UnknownCapabilityType {
                line: parsed.line,
                capability_type: name,
            },
        );
        None
    }
}

/// The capabilities of the entries; what is wrong is appended to `errors`.
pub fn validate_capabilities(
    raw_capabilities: &Vec<RawCapability>,
    errors: &mut Vec<ValidationError>,
) -> (r: Vec<Capability>)
    ensures
        security::caps(r@) == profile_capabilities(entries(raw_capabilities@)).0,
        problems(final(errors)@) == problems(old(errors)@) + profile_capabilities(
            entries(raw_capabilities@),
        ).1,
{
    let ghost start = problems(errors@);
    let mut out: Vec<Capability> = Vec::new();
    proof {
        assert(security::caps(out@) =~= Seq::<security::Cap>::empty());
    }
    if raw_capabilities.len() == 0 {
        add_error(errors, ValidationError::EmptyCapabilities);
        proof {
            assert(problems(errors@) =~= start + seq![Problem::EmptyCapabilities]);
        }
        return out;
    }
    let ghost all = entries(raw_capabilities@);
    let mut i: usize = 0;
    proof {
        assert(all.take(0) =~= Seq::<Entry>::empty());
        assert(problems(errors@) =~= start + Seq::<Problem>::empty());
    }
    while i < raw_capabilities.len()
        invariant
            i <= raw_capabilities.len(),
            all == entries(raw_capabilities@),
            security::caps(out@) == entry_capabilities(all.take(i as int)).0,
            problems(errors@) == start + entry_capabilities(all.take(i as int)).1,
        decreases raw_capabilities.len() - i,
    {
        let ghost good = security::caps(out@);
        let ghost bad = entry_capabilities(all.take(i as int)).1;
        proof {
            assert(all.take(i + 1).drop_last() =~= all.take(i as int));
            assert(all.take(i + 1).last() == raw_capabilities@[i as int]@);
        }
        match validate_entry(&raw_capabilities[i], errors) {
            Some(c) => {
                let ghost cv = c@;
                out.push(c);
                proof {
                    assert(security::caps(out@) =~= good.push(cv));
                }
            },
            None => {
                proof {
                    let e = entry_capability(all[i as int])->Err_0;
                    assert(problems(errors@) =~= start + bad.push(e));
                }
            },
        }
        i = i + 1;
    }
    proof {
        assert(all.take(i as int) =~= all);
    }
    out
}

/// A list without problems yields one capability for each entry.
proof fn lemma_one_capability_each(all: Seq<Entry>)
    ensures
        entry_capabilities(all).0.len() + entry_capabilities(all).1.len() == all.len(),
    decreases all.len(),
{
    if all.len() > 0 {
        lemma_one_capability_each(all.drop_last());
    }
}

/// The type's name that an entry gives, as kinds are named.
pub open spec fn declared_type(e: Entry) -> Seq<char> {
    match e.capability_type {
        Some(t) => normalized(t.value),
        None => Seq::empty(),
    }
}

/// The value that an entry of that kind speaks of: an HTTP pattern may stand
/// under `pattern` or `path`, anything else stands under `path`.
pub open spec fn declared_value(e: Entry, http: bool) -> Option<Value> {
    if http && e.pattern is Some {
        e.pattern
    } else {
        e.path
    }
}

/// An accepted entry declares the capability that its type names, up to the two
/// long names of listing and executing, and speaks of the path or pattern that
/// it gives, without outer white space. Memory is never declared in a manifest.
pub proof fn lemma_declared_capability_is_of_its_type(e: Entry)
    requires
        entry_capability(e) is Ok,
    ensures
        ({
            let c = entry_capability(e)->Ok_0;
            let http = c is HttpGet || c is HttpPost;
            &&& e.capability_type is Some
            &&& declared_type(e) == security::kind_name(c) || (c is ListDirectory && declared_type(
                e,
            ) == "list_directory"@) || (c is ExecuteBinary && declared_type(e)
                == "execute_binary"@)
            &&& security::scope_spoken_of(c) is None && !(c is MemoryRecall)
                && !(c is MemoryPreview)
            &&& match security::spoken_of(c) {
                Some(t) => declared_value(e, http) is Some && t == text::trimmed(
                    declared_value(e, http)->0.value,
                ) && t.len() > 0,
                None => c is All || c is Nothing,
            }
        }),
{
}

/// Two entries of different types never declare capabilities of one kind, but
/// for the two kinds that have a long name besides their short one.
pub proof fn lemma_types_declare_kinds_of_their_own(a: Entry, b: Entry)
    requires
        entry_capability(a) is Ok,
        entry_capability(b) is Ok,
        security::kind_name(entry_capability(a)->Ok_0) == security::kind_name(
            entry_capability(b)->Ok_0,
        ),
    ensures
        declared_type(a) == declared_type(b) || entry_capability(a)->Ok_0 is ListDirectory
            || entry_capability(a)->Ok_0 is ExecuteBinary,
        ({
            let c = entry_capability(a)->Ok_0;
            let d = entry_capability(b)->Ok_0;
            security::spoken_of(c) == security::spoken_of(d) ==> c == d
        }),
{
    let c = entry_capability(a)->Ok_0;
    let d = entry_capability(b)->Ok_0;
    lemma_declared_capability_is_of_its_type(a);
    lemma_declared_capability_is_of_its_type(b);
    security::lemma_kind_names_differ(c, d);
    if !(c is ListDirectory) && !(c is ExecuteBinary) {
        if d is ListDirectory {
            let other = security::Cap::ListDirectory(
                match security::spoken_of(c) {
                    Some(t) => t,
                    None => Seq::empty(),
                },
            );
            security::lemma_kind_names_differ(c, other);
        } else if d is ExecuteBinary {
            let other = security::Cap::ExecuteBinary(
                match security::spoken_of(c) {
                    Some(t) => t,
                    None => Seq::empty(),
                },
            );
            security::lemma_kind_names_differ(c, other);
        }
    }
}

/// An entry that gives the name of a kind and what the kind speaks of is
/// accepted, and declares exactly that capability.
pub proof fn lemma_named_kinds_are_accepted(e: Entry, c: security::Cap)
    requires
        e.capability_type is Some,
        security::scope_spoken_of(c) is None,
        !(c is MemoryRecall) && !(c is MemoryPreview),
        declared_type(e) == security::kind_name(c),
        security::spoken_of(c) matches Some(t) ==> {
            let v = declared_value(e, c is HttpGet || c is HttpPost);
            v is Some && text::trimmed(v->0.value) == t && t.len() > 0
        },
    ensures
        entry_capability(e) == Ok::<security::Cap, Problem>(c),
{
    reveal_strlit("read_file");
    reveal_strlit("write_file");
    reveal_strlit("list_dir");
    reveal_strlit("list_directory");
    reveal_strlit("http_get");
    reveal_strlit("http_post");
    reveal_strlit("execute");
    reveal_strlit("execute_binary");
    reveal_strlit("mount_tmpfs");
    reveal_strlit("all");
    reveal_strlit("none");
    let kind = declared_type(e);
    match c {
        security::Cap::ReadFile(_) => {},
        security::Cap::WriteFile(_) => {
            assert(kind.len() != "read_file"@.len());
        },
        security::Cap::ListDirectory(_) => {
            assert(kind[0] == 'l');
        },
        security::Cap::HttpGet(_) => {
            assert(kind[0] == 'h' && kind[5] == 'g');
            assert("list_dir"@[0] == 'l');
        },
        security::Cap::HttpPost(_) => {
            assert(kind[0] == 'h' && kind[5] == 'p');
            assert("read_file"@[0] == 'r');
        },
        security::Cap::ExecuteBinary(_) => {
            assert(kind.len() == 7);
        },
        security::Cap::MountTmpfs(_) => {
            assert(kind.len() == 11);
        },
        security::Cap::All => {
            assert(kind.len() == 3);
        },
        _ => {
            assert(kind.len() == 4);
        },
    }
}

/// A refused entry has no type, or a type of no kind's name, or lacks what its
/// kind speaks of. What is wrong is told at the line where it stands: a missing
/// type or value at the entry's own line, an unknown type or an empty value at
/// the line of that type or value.
pub proof fn lemma_refused_entries(e: Entry, c: security::Cap)
    requires
        entry_capability(e) is Err,
    ensures
        e.capability_type is None <==> entry_capability(e)->Err_0 == (
        Problem::MissingCapabilityType { line: e.line }),
        match entry_capability(e)->Err_0 {
            Problem::MissingCapabilityType { .. } => e.capability_type is None,
            Problem::UnknownCapabilityType { line, capability_type } => e.capability_type is Some
                && line == e.capability_type->0.line && capability_type == text::trimmed(
                e.capability_type->0.value,
            ) && (security::scope_spoken_of(c) is None && !(c is MemoryRecall) && !(
            c is MemoryPreview) ==> declared_type(e) != security::kind_name(c)),
            Problem::MissingRequiredField { line, capability_type, field } => {
                let v = declared_value(e, field == "pattern"@);
                &&& e.capability_type is Some
                &&& capability_type == text::trimmed(e.capability_type->0.value)
                &&& field == "path"@ || field == "pattern"@
                &&& field == "pattern"@ <==> declared_type(e) == "http_get"@ || declared_type(e)
                    == "http_post"@
                &&& match v {
                    None => line == e.line,
                    Some(v) => line == v.line && text::trimmed(v.value).len() == 0,
                }
            },
            _ => false,
        },
{
    reveal_strlit("path");
    reveal_strlit("pattern");
    assert("path"@.len() != "pattern"@.len());
    reveal_strlit("read_file");
    reveal_strlit("write_file");
    reveal_strlit("list_dir");
    reveal_strlit("list_directory");
    reveal_strlit("http_get");
    reveal_strlit("http_post");
    reveal_strlit("execute");
    reveal_strlit("execute_binary");
    reveal_strlit("mount_tmpfs");
    let kind = declared_type(e);
    if kind == "http_get"@ || kind == "http_post"@ {
        assert(kind[0] == 'h');
        assert("read_file"@[0] == 'r' && "write_file"@[0] == 'w' && "list_dir"@[0] == 'l'
            && "list_directory"@[0] == 'l');
    }
}

/// Where no entry is refused, the capabilities are those of the entries, one for
/// each and in their order.
pub proof fn lemma_capabilities_are_those_of_the_entries(all: Seq<Entry>, i: int)
    requires
        profile_capabilities(all).1.len() == 0,
        0 <= i < all.len(),
    ensures
        profile_capabilities(all).0.len() == all.len(),
        entry_capability(all[i]) == Ok::<security::Cap, Problem>(profile_capabilities(all).0[i]),
    decreases all.len(),
{
    lemma_one_capability_each(all);
    lemma_one_capability_each(all.drop_last());
    if i < all.len() - 1 {
        lemma_capabilities_are_those_of_the_entries(all.drop_last(), i);
    }
}

/// What an accepted manifest grants is what its entries declare, one capability
/// for each entry and in their order.
pub proof fn lemma_manifest_grants_what_entries_declare(
    m: CapabilityProfileManifest,
    contents: Seq<char>,
    stem: Option<Seq<char>>,
    i: int,
)
    requires
        manifest_is(m, contents, stem),
        manifest_problems(contents).len() == 0,
        0 <= i < m.capabilities@.len(),
    ensures
        m.capabilities@.len() == reading(contents, Seq::empty()).profile.entries.len(),
        entry_capability(reading(contents, Seq::empty()).profile.entries[i]) == Ok::<
            security::Cap,
            Problem,
        >(m.capabilities@[i]@),
{
    let all = reading(contents, Seq::empty()).profile.entries;
    assert(security::caps(m.capabilities@).len() == m.capabilities@.len());
    assert(security::caps(m.capabilities@)[i] == m.capabilities@[i]@);
    lemma_one_capability_each(all);
    lemma_capabilities_are_those_of_the_entries(all, i);
}

/// The flag of a `[mcp]` table that a key names.
pub open spec fn flag_named(t: McpTable, key: Seq<char>) -> Option<bool> {
    if key == "snapshot_enabled"@ {
        t.snapshot_enabled
    } else if key == "fork_enabled"@ {
        t.fork_enabled
    } else if key == "proof_enabled"@ {
        t.proof_enabled
    } else if key == "wasi_enabled"@ {
        t.wasi_enabled
    } else {
        None
    }
}

/// The keys of the flags of a `[mcp]` table.
pub open spec fn is_flag(key: Seq<char>) -> bool {
    key == "snapshot_enabled"@ || key == "fork_enabled"@ || key == "proof_enabled"@ || key
        == "wasi_enabled"@
}

proof fn lemma_keys_differ()
    ensures
        "snapshot_enabled"@ != "fork_enabled"@,
        "snapshot_enabled"@ != "proof_enabled"@,
        "snapshot_enabled"@ != "wasi_enabled"@,
        "fork_enabled"@ != "proof_enabled"@,
        "fork_enabled"@ != "wasi_enabled"@,
        "proof_enabled"@ != "wasi_enabled"@,
        !is_flag("tool_allowlist"@),
        "module_dirs"@ != "daemon_auth_required"@,
        "true"@ != "false"@,
{
    reveal_strlit("snapshot_enabled");
    reveal_strlit("fork_enabled");
    reveal_strlit("proof_enabled");
    reveal_strlit("wasi_enabled");
    reveal_strlit("tool_allowlist");
    reveal_strlit("module_dirs");
    reveal_strlit("daemon_auth_required");
    reveal_strlit("true");
    reveal_strlit("false");
    assert("fork_enabled"@[0] == 'f' && "wasi_enabled"@[0] == 'w');
    assert("snapshot_enabled"@.len() == 16 && "proof_enabled"@.len() == 13);
    assert("fork_enabled"@.len() == 12 && "wasi_enabled"@.len() == 12);
    assert("tool_allowlist"@.len() == 14 && "module_dirs"@.len() == 11);
    assert("true"@.len() != "false"@.len());
}

/// Switching a flag switches the flag that the key names, and no other: `true`
/// on and `false` off. Anything else, under any key, is a problem of that line
/// and changes nothing.
pub proof fn lemma_flags_are_switched_by_name(
    t: McpTable,
    key: Seq<char>,
    other: Seq<char>,
    rhs: Seq<char>,
    line: nat,
)
    requires
        is_flag(key),
    ensures
        text::trimmed(rhs) == "true"@ ==> flag_named(mcp_assigned(t, key, rhs, line).0, key)
            == Some(true) && mcp_assigned(t, key, rhs, line).1.len() == 0,
        text::trimmed(rhs) == "false"@ ==> flag_named(mcp_assigned(t, key, rhs, line).0, key)
            == Some(false) && mcp_assigned(t, key, rhs, line).1.len() == 0,
        other != key ==> flag_named(mcp_assigned(t, key, rhs, line).0, other) == flag_named(
            t,
            other,
        ),
        mcp_assigned(t, key, rhs, line).0.tool_allowlist == t.tool_allowlist,
        text::trimmed(rhs) != "true"@ && text::trimmed(rhs) != "false"@ ==> mcp_assigned(
            t,
            key,
            rhs,
            line,
        ).0 == t && (mcp_assigned(t, key, rhs, line).1.len() == 1 && (mcp_assigned(
            t,
            key,
            rhs,
            line,
        ).1[0] matches Problem::Parse { line: at, .. } && at == line)),
{
    lemma_keys_differ();
}

/// The other keys: the lists go where their names say, the switch of the daemon
/// is its own, and a key of no name is a problem of its line that names the key.
pub proof fn lemma_lists_are_set_by_name(
    t: McpTable,
    x: ExecutionTable,
    key: Seq<char>,
    rhs: Seq<char>,
    line: nat,
)
    ensures
        array_value(rhs) is Ok ==> mcp_assigned(t, "tool_allowlist"@, rhs, line).0 == (McpTable {
            tool_allowlist: Some(array_value(rhs)->Ok_0),
            ..t
        }),
        array_value(rhs) is Ok ==> execution_assigned(x, "module_dirs"@, rhs, line).0 == (
        ExecutionTable { module_dirs: Some(array_value(rhs)->Ok_0), ..x }),
        text::trimmed(rhs) == "true"@ ==> execution_assigned(
            x,
            "daemon_auth_required"@,
            rhs,
            line,
        ).0 == (ExecutionTable { daemon_auth_required: Some(true), ..x }),
        text::trimmed(rhs) == "false"@ ==> execution_assigned(
            x,
            "daemon_auth_required"@,
            rhs,
            line,
        ).0 == (ExecutionTable { daemon_auth_required: Some(false), ..x }),
        !is_flag(key) && key != "tool_allowlist"@ ==> mcp_assigned(t, key, rhs, line).0 == t
            && mcp_assigned(t, key, rhs, line).1.len() == 1,
        key != "module_dirs"@ && key != "daemon_auth_required"@ ==> execution_assigned(
            x,
            key,
            rhs,
            line,
        ).0 == x && execution_assigned(x, key, rhs, line).1.len() == 1,
{
    lemma_keys_differ();
}

/// A policy permits what its table does not switch off, flag by flag; tokens
/// for the daemon are asked for only where the table says so.
pub proof fn lemma_policy_follows_its_table(
    m: McpPolicy,
    t: Option<McpTable>,
    x: ExecutionPolicy,
    e: Option<ExecutionTable>,
)
    requires
        mcp_policy_is(m, t),
        execution_policy_is(x, e),
    ensures
        !m.snapshot_enabled <==> t is Some && flag_named(t->0, "snapshot_enabled"@) == Some(false),
        !m.fork_enabled <==> t is Some && flag_named(t->0, "fork_enabled"@) == Some(false),
        !m.proof_enabled <==> t is Some && flag_named(t->0, "proof_enabled"@) == Some(false),
        !m.wasi_enabled <==> t is Some && flag_named(t->0, "wasi_enabled"@) == Some(false),
        m.tool_allowlist is Some <==> t is Some && t->0.tool_allowlist is Some,
        m.tool_allowlist is Some ==> text::texts(m.tool_allowlist->0@) == t->0.tool_allowlist->0,
        x.daemon_auth_required <==> e is Some && e->0.daemon_auth_required == Some(true),
        e is Some && e->0.module_dirs is Some ==> text::texts(x.module_dirs@)
            == e->0.module_dirs->0,
        e is None || e->0.module_dirs is None ==> x.module_dirs@.len() == 0,
{
    lemma_keys_differ();
    assert(text::texts(x.module_dirs@).len() == x.module_dirs@.len());
}

/// The policy that a `[mcp]` table stands for.
pub open spec fn mcp_policy_is(p: McpPolicy, table: Option<McpTable>) -> bool {
    let t = match table {
        Some(t) => t,
        None => empty_mcp(),
    };
    &&& opt_texts(p.tool_allowlist) == t.tool_allowlist
    &&& p.snapshot_enabled == or_true(t.snapshot_enabled)
    &&& p.fork_enabled == or_true(t.fork_enabled)
    &&& p.proof_enabled == or_true(t.proof_enabled)
    &&& p.wasi_enabled == or_true(t.wasi_enabled)
}

/// A flag that is on unless it is switched off.
pub open spec fn or_true(flag: Option<bool>) -> bool {
    flag != Some(false)
}

/// The policy that an `[execution]` table stands for.
pub open spec fn execution_policy_is(p: ExecutionPolicy, table: Option<ExecutionTable>) -> bool {
    let t = match table {
        Some(t) => t,
        None => empty_execution(),
    };
    &&& text::texts(p.module_dirs@) == (match t.module_dirs {
        Some(dirs) => dirs,
        None => Seq::empty(),
    })
    &&& p.daemon_auth_required == (t.daemon_auth_required == Some(true))
}

/// The policy of a `[mcp]` table.
pub fn mcp_policy_from_raw(raw: Option<RawMcp>) -> (r: McpPolicy)
    ensures
        mcp_policy_is(r, opt_mcp(raw)),
{
    match raw {
        None => McpPolicy::default(),
        Some(raw) => McpPolicy {
            tool_allowlist: raw.tool_allowlist,
            snapshot_enabled: raw.snapshot_enabled.unwrap_or(true),
            fork_enabled: raw.fork_enabled.unwrap_or(true),
            proof_enabled: raw.proof_enabled.unwrap_or(true),
            wasi_enabled: raw.wasi_enabled.unwrap_or(true),
        },
    }
}

/// The policy of an `[execution]` table.
pub fn execution_policy_from_raw(raw: Option<RawExecution>) -> (r: ExecutionPolicy)
    ensures
        execution_policy_is(r, opt_execution(raw)),
{
    let p = match raw {
        None => ExecutionPolicy::default(),
        Some(raw) => ExecutionPolicy {
            module_dirs: match raw.module_dirs {
                Some(dirs) => dirs,
                None => Vec::new(),
            },
            daemon_auth_required: raw.daemon_auth_required.unwrap_or(false),
        },
    };
    proof {
        if p.module_dirs@.len() == 0 {
            assert(text::texts(p.module_dirs@) =~= Seq::<Seq<char>>::empty());
        }
    }
    p
}

/// The name that a profile takes from its file, given the file's stem.
pub open spec fn name_from_stem(stem: Option<Seq<char>>) -> Seq<char> {
    match stem {
        Some(s) => if s.len() > 0 {
            s
        } else {
            "profile"@
        },
        None => "profile"@,
    }
}

/// The name that a profile takes from its file.
pub fn profile_name_from_path(stem: Option<&str>) -> (r: String)
    ensures
        r@ == name_from_stem(
            match stem {
                Some(s) => Some(s@),
                None => None,
            },
        ),
{
    match stem {
        Some(s) => if s.is_empty() {
            "profile".to_string()
        } else {
            s.to_string()
        },
        None => "profile".to_string(),
    }
}

/// Everything that is wrong with a manifest: first its lines, then its entries.
pub open spec fn manifest_problems(contents: Seq<char>) -> Seq<Problem> {
    let r = reading(contents, Seq::empty());
    r.problems + profile_capabilities(r.profile.entries).1
}

/// Whether `m` is what a manifest declares, in a file of that stem.
pub open spec fn manifest_is(
    m: CapabilityProfileManifest,
    contents: Seq<char>,
    stem: Option<Seq<char>>,
) -> bool {
    let p = reading(contents, Seq::empty()).profile;
    &&& m.name@ == (match p.name {
        Some(n) => if text::trimmed(n).len() > 0 {
            n
        } else {
            name_from_stem(stem)
        },
        None => name_from_stem(stem),
    })
    &&& security::caps(m.capabilities@) == profile_capabilities(p.entries).0
    &&& mcp_policy_is(m.mcp, p.mcp)
    &&& execution_policy_is(m.execution, p.execution)
}

/// Reads and validates the contents of a manifest whose file has this stem.
/// Either nothing is wrong and the manifest is returned, or everything that is
/// wrong is.
pub fn load_and_validate(contents: &str, stem: Option<&str>) -> (r: Result<
    CapabilityProfileManifest,
    Vec<ValidationError>,
>)
    ensures
        is_loaded(contents@, crate::daemon::slice_text(stem), r),
{
    let mut errors: Vec<ValidationError> = Vec::new();
    proof {
        assert(problems(errors@) =~= Seq::<Problem>::empty());
    }
    let raw = parse_profile(contents, &mut errors);
    let capabilities = validate_capabilities(&raw.capabilities, &mut errors);
    proof {
        assert(problems(errors@).len() == errors@.len());
    }
    if errors.len() > 0 {
        return Err(errors);
    }
    let name = match raw.name {
        Some(n) => {
            let t = text::trim(n.as_str());
            if t.as_str().is_empty() {
                profile_name_from_path(stem)
            } else {
                n
            }
        },
        None => profile_name_from_path(stem),
    };
    Ok(
        CapabilityProfileManifest {
            name,
            capabilities,
            mcp: mcp_policy_from_raw(raw.mcp),
            execution: execution_policy_from_raw(raw.execution),
        },
    )
}

/// An accepted manifest declares at least one capability: one for each of its
/// entries.
pub proof fn lemma_accepted_manifest_has_capabilities(
    m: CapabilityProfileManifest,
    contents: Seq<char>,
    stem: Option<Seq<char>>,
)
    requires
        manifest_problems(contents).len() == 0,
        manifest_is(m, contents, stem),
    ensures
        m.capabilities@.len() > 0,
        m.capabilities@.len() == reading(contents, Seq::empty()).profile.entries.len(),
{
    let p = reading(contents, Seq::empty()).profile;
    assert(profile_capabilities(p.entries).1.len() == 0);
    lemma_one_capability_each(p.entries);
    assert(security::caps(m.capabilities@).len() == m.capabilities@.len());
}

/// Without a `[mcp]` table everything is permitted, and without an
/// `[execution]` table no token is required and no directory is fixed.
pub proof fn lemma_absent_tables_permit(m: McpPolicy, e: ExecutionPolicy, tool: Seq<char>)
    requires
        mcp_policy_is(m, None),
        execution_policy_is(e, None),
    ensures
        list_permits(opt_texts(m.tool_allowlist), tool),
        m.snapshot_enabled && m.fork_enabled && m.proof_enabled && m.wasi_enabled,
        !e.daemon_auth_required,
        e.module_dirs@.len() == 0,
{
    assert(text::texts(e.module_dirs@).len() == e.module_dirs@.len());
}

/// Reading more lines never takes back a problem: what was wrong stays in
/// front, in its order.
pub proof fn lemma_problems_only_grow(lines: Seq<Seq<char>>, start: Seq<Problem>, k: int)
    requires
        0 <= k <= lines.len(),
    ensures
        read_lines(lines.take(k), start).problems.is_prefix_of(read_lines(lines, start).problems),
    decreases lines.len() - k,
{
    if k == lines.len() {
        assert(lines.take(k) =~= lines);
    } else {
        lemma_problems_only_grow(lines, start, k + 1);
        assert(lines.take(k + 1).drop_last() =~= lines.take(k));
        let a = read_lines(lines.take(k), start);
        let b = read_lines(lines.take(k + 1), start);
        let c = read_lines(lines, start);
        assert(a.problems.is_prefix_of(b.problems));
        assert(a.problems =~= c.problems.subrange(0, a.problems.len() as int));
    }
}

/// Whether a text is a comment that can stand behind a line: a space, a `#`, and
/// anything but a newline.
pub open spec fn is_trailing_comment(comment: Seq<char>) -> bool {
    &&& comment.len() >= 2
    &&& comment[0] == ' '
    &&& comment[1] == '#'
    &&& !comment.contains('\n')
    &&& comment.last() != '\r'
}

/// Whether every string of a line is closed. What stands in its comment does not
/// count.
pub open spec fn closes_its_strings(line: Seq<char>) -> bool {
    quote_after(before_comment(line)) is Outside
}

/// A comment behind a line changes nothing of what the line says.
pub proof fn lemma_line_ignores_comment(line: Seq<char>, comment: Seq<char>)
    requires
        closes_its_strings(line),
        is_trailing_comment(comment),
    ensures
        text::trimmed(before_comment(line + comment)) == text::trimmed(before_comment(line)),
{
    let long = line + comment;
    let n = line.len() as int;
    assert forall|j: int| 0 <= j < n implies unquoted_at(long, '#', j) == unquoted_at(
        line,
        '#',
        j,
    ) by {
        assert(long.take(j) =~= line.take(j));
        assert(long[j] == line[j]);
    }
    if exists|i: int| first_unquoted(line, '#', i) {
        let k = choose|i: int| first_unquoted(line, '#', i);
        assert(first_unquoted(long, '#', k));
        lemma_first_unquoted_unique(
            long,
            '#',
            k,
            choose|i: int| first_unquoted(long, '#', i),
        );
        assert(long.take(k) =~= line.take(k));
    } else {
        assert forall|j: int| 0 <= j < n implies !unquoted_at(line, '#', j) by {
            if unquoted_at(line, '#', j) {
                lemma_some_first_unquoted(line, '#', j);
            }
        }
        let spaced = line.push(' ');
        assert(spaced.drop_last() =~= line);
        assert(long.take(n) =~= line);
        assert(long.take(n + 1) =~= spaced);
        assert(long[n] == comment[0]);
        assert(long[n + 1] == comment[1]);
        assert(quote_after(spaced) is Outside);
        assert(unquoted_at(long, '#', n + 1));
        assert(first_unquoted(long, '#', n + 1));
        lemma_first_unquoted_unique(
            long,
            '#',
            n + 1,
            choose|i: int| first_unquoted(long, '#', i),
        );
        text::lemma_trimmed_with_space(line);
    }
}

proof fn lemma_some_first_unquoted(s: Seq<char>, c: char, j: int)
    requires
        unquoted_at(s, c, j),
    ensures
        exists|i: int| first_unquoted(s, c, i),
    decreases j,
{
    if exists|k: int| 0 <= k < j && unquoted_at(s, c, k) {
        let k = choose|k: int| 0 <= k < j && unquoted_at(s, c, k);
        lemma_some_first_unquoted(s, c, k);
    } else {
        assert(first_unquoted(s, c, j));
    }
}

/// The lines with a comment behind each.
pub open spec fn commented(lines: Seq<Seq<char>>, comment: Seq<char>) -> Seq<Seq<char>> {
    Seq::new(lines.len(), |i: int| lines[i] + comment)
}

proof fn lemma_lines_ignore_comments(
    lines: Seq<Seq<char>>,
    comment: Seq<char>,
    problems: Seq<Problem>,
)
    requires
        forall|i: int| 0 <= i < lines.len() ==> closes_its_strings(#[trigger] lines[i]),
        is_trailing_comment(comment),
    ensures
        read_lines(commented(lines, comment), problems) == read_lines(lines, problems),
    decreases lines.len(),
{
    if lines.len() > 0 {
        let t = lines.drop_last();
        assert forall|i: int| 0 <= i < t.len() implies closes_its_strings(#[trigger] t[i]) by {
            assert(t[i] == lines[i]);
        }
        lemma_lines_ignore_comments(t, comment, problems);
        assert(commented(lines, comment).drop_last() =~= commented(t, comment));
        assert(closes_its_strings(lines[lines.len() - 1]));
        lemma_line_ignores_comment(lines.last(), comment);
    }
}

/// A comment behind every line of a manifest changes nothing: the same profile
/// is read, with the same line numbers, and the same problems are found.
pub proof fn lemma_trailing_comments_change_nothing(
    contents: Seq<char>,
    noted: Seq<char>,
    comment: Seq<char>,
    problems: Seq<Problem>,
)
    requires
        forall|i: int|
            0 <= i < text::lines(contents).len() ==> closes_its_strings(
                #[trigger] text::lines(contents)[i],
            ),
        is_trailing_comment(comment),
        text::lines(noted) == commented(text::lines(contents), comment),
    ensures
        reading(noted, problems) == reading(contents, problems),
{
    lemma_lines_ignore_comments(text::lines(contents), comment, problems);
}

/// The commented lines of a manifest, put together, are a manifest of those
/// lines.
pub proof fn lemma_commented_manifest(contents: Seq<char>, comment: Seq<char>)
    requires
        is_trailing_comment(comment),
    ensures
        text::lines(text::line_text(commented(text::lines(contents), comment))) == commented(
            text::lines(contents),
            comment,
        ),
{
    let all = text::lines(contents);
    let rows = commented(all, comment);
    assert forall|i: int| 0 <= i < rows.len() implies !(#[trigger] rows[i]).contains('\n')
        && text::without_cr(rows[i]) == rows[i] by {
        text::lemma_lines_are_solid(contents, i);
        let row = rows[i];
        assert(row == all[i] + comment);
        assert forall|j: int| 0 <= j < row.len() implies row[j] != '\n' by {
            if j < all[i].len() {
                assert(all[i][j] == row[j]);
            } else {
                assert(comment[j - all[i].len()] == row[j]);
            }
        }
        assert(row.last() == comment.last());
    }
    text::lemma_lines_of_rows(rows);
}

/// The field of an entry that a key names; none where the key names none.
pub open spec fn field_named(e: Entry, key: Seq<char>) -> Option<Option<Value>> {
    if key == "type"@ {
        Some(e.capability_type)
    } else if key == "path"@ {
        Some(e.path)
    } else if key == "pattern"@ {
        Some(e.pattern)
    } else {
        None
    }
}

/// A string in a capability's table fills the field of the last entry that its
/// key names and leaves the other fields and entries alone; above all tables it
/// is the profile's name where the key says so.
pub proof fn lemma_strings_fill_named_fields(
    p: Profile,
    section: Section,
    key: Seq<char>,
    other: Seq<char>,
    value: Value,
    i: int,
)
    ensures
        ({
            let q = string_assigned(p, section, key, value);
            &&& q.mcp == p.mcp && q.execution == p.execution
            &&& section is Capability && p.entries.len() > 0 ==> {
                &&& q.name == p.name
                &&& q.entries.len() == p.entries.len()
                &&& 0 <= i < p.entries.len() - 1 ==> q.entries[i] == p.entries[i]
                &&& field_named(p.entries.last(), key) is Some ==> field_named(
                    q.entries.last(),
                    key,
                ) == Some(Some(value))
                &&& other != key ==> field_named(q.entries.last(), other) == field_named(
                    p.entries.last(),
                    other,
                )
                &&& q.entries.last().line == p.entries.last().line
            }
            &&& !(section is Capability) ==> q.entries == p.entries && q.name == (if key
                == "name"@ {
                Some(value.value)
            } else {
                p.name
            })
        }),
{
    reveal_strlit("type");
    reveal_strlit("path");
    reveal_strlit("pattern");
    assert("type"@[0] == 't' && "path"@[0] == 'p' && "pattern"@[0] == 'p');
    assert("path"@.len() != "pattern"@.len());
}

/// A header opens its table, and nothing else changes: `[[capabilities]]` begins
/// a new entry at its line that sets nothing yet, `[mcp]` and `[execution]` go on
/// with what their tables hold. A header of any other name is a problem, and an
/// empty line says nothing.
pub proof fn lemma_headers_open_their_tables(r: Reading, line: Seq<char>, n: nat, key: Seq<char>)
    ensures
        ({
            let l = text::trimmed(before_comment(line));
            let s = read_line(r, line, n);
            &&& l.len() == 0 ==> s == r
            &&& l == "[[capabilities]]"@ ==> s.section is Capability && s.problems == r.problems
                && s.profile.entries.len() == r.profile.entries.len() + 1
                && s.profile.entries.drop_last() == r.profile.entries
                && s.profile.entries.last().line == n && (field_named(s.profile.entries.last(), key)
                is None || field_named(s.profile.entries.last(), key) == Some(None::<Value>))
                && s.profile.name == r.profile.name && s.profile.mcp == r.profile.mcp
                && s.profile.execution == r.profile.execution
            &&& l == "[mcp]"@ ==> s.section is Mcp && s.problems == r.problems && s.profile.entries
                == r.profile.entries && s.profile.name == r.profile.name && s.profile.mcp is Some
                && (r.profile.mcp is Some ==> s.profile.mcp == r.profile.mcp) && (r.profile.mcp
                is None ==> flag_named(s.profile.mcp->0, key) is None
                && s.profile.mcp->0.tool_allowlist is None) && s.profile.execution
                == r.profile.execution
            &&& l == "[execution]"@ ==> s.section is Execution && s.problems == r.problems
                && s.profile.entries == r.profile.entries && s.profile.name == r.profile.name
                && s.profile.execution is Some && (r.profile.execution is Some
                ==> s.profile.execution == r.profile.execution) && (r.profile.execution is None
                ==> s.profile.execution->0.module_dirs is None
                && s.profile.execution->0.daemon_auth_required is None) && s.profile.mcp
                == r.profile.mcp
            &&& l.len() > 0 && l[0] == '[' && l != "[[capabilities]]"@ && l != "[mcp]"@ && l
                != "[execution]"@ ==> s.profile == r.profile && s.section == r.section
                && s.problems.len() == r.problems.len() + 1
        }),
{
    reveal_strlit("[[capabilities]]");
    reveal_strlit("[mcp]");
    reveal_strlit("[execution]");
    assert("[mcp]"@.len() == 5 && "[execution]"@.len() == 11 && "[[capabilities]]"@.len() == 16);
    let l = text::trimmed(before_comment(line));
    let s = read_line(r, line, n);
    if l == "[[capabilities]]"@ {
        assert(s.profile.entries.drop_last() =~= r.profile.entries);
    }
}

/// What stands outside all strings: text without quotes is outside to its end.
proof fn lemma_plain_text_is_outside(s: Seq<char>, i: int)
    requires
        0 <= i <= s.len(),
        forall|j: int| 0 <= j < i ==> (#[trigger] s[j]) != '"' && s[j] != '\'',
    ensures
        quote_after(s.take(i)) is Outside,
    decreases i,
{
    if i > 0 {
        lemma_plain_text_is_outside(s, i - 1);
        assert(s.take(i).drop_last() =~= s.take(i - 1));
        assert(s.take(i).last() == s[i - 1]);
    }
}

/// An assignment is split at its first sign: what stands before it is the key,
/// and what stands behind it the value, further signs and all.
pub proof fn lemma_assignments_are_split_at_the_sign(key: Seq<char>, rhs: Seq<char>)
    requires
        key.len() > 0,
        key[0] != '[',
        text::trimmed(key) == key,
        forall|j: int|
            0 <= j < key.len() ==> (#[trigger] key[j]) != '"' && key[j] != '\'' && key[j] != '=',
    ensures
        line_kind(key + seq!['='] + rhs) == Line::Assign(key, text::trimmed(rhs)),
{
    reveal_strlit("[[capabilities]]");
    reveal_strlit("[mcp]");
    reveal_strlit("[execution]");
    assert("[mcp]"@[0] == '[' && "[execution]"@[0] == '[' && "[[capabilities]]"@[0] == '[');
    let line = key + seq!['='] + rhs;
    let at = key.len() as int;
    assert(line[0] == key[0]);
    assert forall|j: int| 0 <= j < at implies (#[trigger] line[j]) != '"' && line[j] != '\''
        && line[j] != '=' by {
        assert(line[j] == key[j]);
    }
    lemma_plain_text_is_outside(line, at);
    assert(line[at] == '=');
    assert(first_unquoted(line, '=', at));
    let i = choose|i: int| first_unquoted(line, '=', i);
    assert(i == at) by {
        if i < at {
            assert(unquoted_at(line, '=', i));
        } else if i > at {
            assert(unquoted_at(line, '=', at));
        }
    }
    assert(line.take(at) =~= key);
    assert(line.skip(at + 1) =~= rhs);
}

/// An assignment changes the table that it stands in and no other, as its key
/// says; a value that cannot be read changes nothing and is a problem.
pub proof fn lemma_assignments_stay_in_their_table(
    r: Reading,
    line: Seq<char>,
    n: nat,
    key: Seq<char>,
    rhs: Seq<char>,
)
    requires
        line_kind(text::trimmed(before_comment(line))) == Line::Assign(key, rhs),
    ensures
        ({
            let s = read_line(r, line, n);
            &&& s.section == r.section
            &&& r.section is Mcp ==> s.profile == (Profile { mcp: s.profile.mcp, ..r.profile })
                && s.profile.mcp is Some && (is_flag(key) && rhs == "true"@ && text::trimmed(rhs)
                == rhs ==> flag_named(s.profile.mcp->0, key) == Some(true) && s.problems.len()
                == r.problems.len())
            &&& r.section is Execution ==> s.profile == (Profile {
                execution: s.profile.execution,
                ..r.profile
            }) && s.profile.execution is Some
            &&& (r.section is Top || r.section is Capability) ==> s.profile.mcp == r.profile.mcp
                && s.profile.execution == r.profile.execution && (string_value(rhs) is Ok
                ==> s.problems == r.problems) && (string_value(rhs) is Err ==> s.profile
                == r.profile && s.problems.len() == r.problems.len() + 1)
            &&& r.section is Capability && r.profile.entries.len() > 0 && string_value(rhs) is Ok
                && field_named(r.profile.entries.last(), key) is Some ==> field_named(
                s.profile.entries.last(),
                key,
            ) == Some(Some(Value { line: n, value: string_value(rhs)->Ok_0 }))
        }),
{
    lemma_keys_differ();
    if string_value(rhs) is Ok {
        lemma_strings_fill_named_fields(
            r.profile,
            r.section,
            key,
            key,
            Value { line: n, value: string_value(rhs)->Ok_0 },
            0,
        );
    }
    if is_flag(key) {
        lemma_flags_are_switched_by_name(mcp_table(r.profile), key, key, rhs, n);
    }
}

/// Whether `r` is what loading a manifest comes to.
pub open spec fn is_loaded(
    contents: Seq<char>,
    stem: Option<Seq<char>>,
    r: Result<CapabilityProfileManifest, Vec<ValidationError>>,
) -> bool {
    match r {
        Ok(m) => manifest_problems(contents).len() == 0 && manifest_is(m, contents, stem),
        Err(e) => manifest_problems(contents).len() > 0 && problems(e@) == manifest_problems(
            contents,
        ),
    }
}

/// A manifest is loaded exactly if nothing is wrong with it, and otherwise
/// something is told. Its name is the one that it declares, and else that of its
/// file; a blank one does not count, and there is always a name.
pub proof fn lemma_loaded_manifests_are_sound_and_named(
    contents: Seq<char>,
    stem: Option<Seq<char>>,
    r: Result<CapabilityProfileManifest, Vec<ValidationError>>,
)
    requires
        is_loaded(contents, stem, r),
    ensures
        r is Ok <==> manifest_problems(contents).len() == 0,
        r matches Err(e) ==> e@.len() == manifest_problems(contents).len() && e@.len() > 0,
        r matches Ok(m) ==> m.capabilities@.len() > 0 && m.name@.len() > 0,
        r matches Ok(m) ==> (reading(contents, Seq::empty()).profile.name matches Some(n)
            ==> (text::trimmed(n).len() > 0 ==> m.name@ == n)),
        r matches Ok(m) ==> (reading(contents, Seq::empty()).profile.name is None && stem is Some
            && stem->0.len() > 0 ==> m.name@ == stem->0),
{
    if let Err(e) = r {
        assert(problems(e@).len() == e@.len());
    }
    if let Ok(m) = r {
        lemma_accepted_manifest_has_capabilities(m, contents, stem);
        reveal_strlit("profile");
        assert("profile"@.len() == 7);
        assert(text::trimmed(Seq::<char>::empty()).len() == 0) by {
            let k = text::lemma_trimmed_is_the_middle(Seq::<char>::empty());
        }
    }
}

/// A problem is told with the line that it is on, and with what is at fault.
pub proof fn lemma_problems_tell_where_they_are(
    line: nat,
    message: Seq<char>,
    kind: Seq<char>,
    field: Seq<char>,
    path: Seq<char>,
)
    ensures
        text::ends((Problem::Parse { line, message }).message(), message),
        text::has_text(
            (Problem::Parse { line, message }).message(),
            "line "@ + text::decimal(line),
        ),
        text::has_text(
            (Problem::MissingCapabilityType { line }).message(),
            "line "@ + text::decimal(line),
        ),
        text::has_text(
            (Problem::UnknownCapabilityType { line, capability_type: kind }).message(),
            kind,
        ),
        text::has_text(
            (Problem::UnknownCapabilityType { line, capability_type: kind }).message(),
            "line "@ + text::decimal(line),
        ),
        text::has_text(
            (Problem::MissingRequiredField { line, capability_type: kind, field }).message(),
            "line "@ + text::decimal(line),
        ),
        text::has_text(
            (Problem::MissingRequiredField { line, capability_type: kind, field }).message(),
            kind,
        ),
        text::ends(
            (Problem::MissingRequiredField { line, capability_type: kind, field }).message(),
            field,
        ),
        text::has_text((Problem::Io { path, message }).message(), path),
        text::ends((Problem::Io { path, message }).message(), message),
{
    let d = text::decimal(line);
    let none = Seq::<char>::empty();
    let at = "line "@ + d;
    let p = (Problem::Parse { line, message }).message();
    assert(p.subrange(p.len() - message.len(), p.len() as int) =~= message);
    text::lemma_part_is_held(none, at, ": "@ + message);
    assert(none + at + (": "@ + message) =~= p);
    let m = (Problem::MissingCapabilityType { line }).message();
    assert("capability entry starting at line "@ =~= "capability entry starting at "@ + "line "@)
        by {
        reveal_strlit("capability entry starting at line ");
        reveal_strlit("capability entry starting at ");
        reveal_strlit("line ");
    }
    text::lemma_part_is_held(
        "capability entry starting at "@,
        at,
        " is missing required field type"@,
    );
    assert("capability entry starting at "@ + at + " is missing required field type"@ =~= m);
    let u = (Problem::UnknownCapabilityType { line, capability_type: kind }).message();
    let ask = ": unknown capability type \""@;
    text::lemma_part_is_held("line "@ + d + ask, kind, "\""@);
    text::lemma_part_is_held(none, at, ask + kind + "\""@);
    assert(none + at + (ask + kind + "\""@) =~= u);
    let f = (Problem::MissingRequiredField { line, capability_type: kind, field }).message();
    let lack = " is missing required field "@;
    assert("\" at line "@ =~= "\" at "@ + "line "@) by {
        reveal_strlit("\" at line ");
        reveal_strlit("\" at ");
        reveal_strlit("line ");
    }
    text::lemma_part_is_held("capability \""@ + kind + "\" at "@, at, lack + field);
    assert("capability \""@ + kind + "\" at "@ + at + (lack + field) =~= f);
    text::lemma_part_is_held("capability \""@, kind, "\" at line "@ + d + lack + field);
    assert("capability \""@ + kind + ("\" at line "@ + d + lack + field) =~= f);
    assert(f.subrange(f.len() - field.len(), f.len() as int) =~= field);
    let o = (Problem::Io { path, message }).message();
    text::lemma_part_is_held("failed to read profile "@, path, ": "@ + message);
    assert("failed to read profile "@ + path + (": "@ + message) =~= o);
    assert(o.subrange(o.len() - message.len(), o.len() as int) =~= message);
}

} // verus!
