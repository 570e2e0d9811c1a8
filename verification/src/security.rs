//! What a guest may be allowed to do, as plain data.

use crate::paths;
use crate::text;
use vstd::prelude::*;
use vstd::string::*;

verus! {

/// Whose memory a capability speaks of.
#[derive(Debug, Clone, PartialEq, Eq)]
pub enum MemoryScope {
    /// Everything that belongs to one agent.
    Agent(String),
    /// One session of an agent.
    Session { agent_id: String, session_id: String },
    /// A named part.
    Namespace(String),
}

/// A capability that a profile, a token or an allowlist can name. Paths are
/// held as text.
#[derive(Debug, Clone, PartialEq, Eq)]
pub enum Capability {
    ReadFile(String),
    WriteFile(String),
    ListDirectory(String),
    HttpGet(String),
    HttpPost(String),
    ExecuteBinary(String),
    MountTmpfs(String),
    ReadMemory(MemoryScope),
    WriteMemory(MemoryScope),
    MemoryRecall,
    MemoryPreview,
    All,
    Nothing,
}

/// A memory scope, by its contents.
pub enum Scope {
    Agent(Seq<char>),
    Session { agent_id: Seq<char>, session_id: Seq<char> },
    Namespace(Seq<char>),
}

/// A capability, by its contents.
pub enum Cap {
    ReadFile(Seq<char>),
    WriteFile(Seq<char>),
    ListDirectory(Seq<char>),
    HttpGet(Seq<char>),
    HttpPost(Seq<char>),
    ExecuteBinary(Seq<char>),
    MountTmpfs(Seq<char>),
    ReadMemory(Scope),
    WriteMemory(Scope),
    MemoryRecall,
    MemoryPreview,
    All,
    Nothing,
}

impl View for MemoryScope {
    type V = Scope;

    open spec fn view(&self) -> Scope {
        match self {
            MemoryScope::Agent(a) => Scope::Agent(a@),
            MemoryScope::Session { agent_id, session_id } => Scope::Session {
                agent_id: agent_id@,
                session_id: session_id@,
            },
            MemoryScope::Namespace(n) => Scope::Namespace(n@),
        }
    }
}

impl View for Capability {
    type V = Cap;

    open spec fn view(&self) -> Cap {
        match self {
            Capability::ReadFile(s) => Cap::ReadFile(s@),
            Capability::WriteFile(s) => Cap::WriteFile(s@),
            Capability::ListDirectory(s) => Cap::ListDirectory(s@),
            Capability::HttpGet(s) => Cap::HttpGet(s@),
            Capability::HttpPost(s) => Cap::HttpPost(s@),
            Capability::ExecuteBinary(s) => Cap::ExecuteBinary(s@),
            Capability::MountTmpfs(s) => Cap::MountTmpfs(s@),
            Capability::ReadMemory(m) => Cap::ReadMemory(m@),
            Capability::WriteMemory(m) => Cap::WriteMemory(m@),
            Capability::MemoryRecall => Cap::MemoryRecall,
            Capability::MemoryPreview => Cap::MemoryPreview,
            Capability::All => Cap::All,
            Capability::Nothing => Cap::Nothing,
        }
    }
}

/// The contents of a list of capabilities.
pub open spec fn caps(v: Seq<Capability>) -> Seq<Cap> {
    Seq::new(v.len(), |i: int| v[i]@)
}

/// A copy of a memory scope.
pub fn clone_scope(s: &MemoryScope) -> (r: MemoryScope)
    ensures
        r@ == s@,
{
    match s {
        MemoryScope::Agent(a) => MemoryScope::Agent(a.clone()),
        MemoryScope::Session { agent_id, session_id } => MemoryScope::Session {
            agent_id: agent_id.clone(),
            session_id: session_id.clone(),
        },
        MemoryScope::Namespace(n) => MemoryScope::Namespace(n.clone()),
    }
}

/// A copy of a capability.
pub fn clone_capability(c: &Capability) -> (r: Capability)
    ensures
        r@ == c@,
{
    match c {
        Capability::ReadFile(s) => Capability::ReadFile(s.clone()),
        Capability::WriteFile(s) => Capability::WriteFile(s.clone()),
        Capability::ListDirectory(s) => Capability::ListDirectory(s.clone()),
        Capability::HttpGet(s) => Capability::HttpGet(s.clone()),
        Capability::HttpPost(s) => Capability::HttpPost(s.clone()),
        Capability::ExecuteBinary(s) => Capability::ExecuteBinary(s.clone()),
        Capability::MountTmpfs(s) => Capability::MountTmpfs(s.clone()),
        Capability::ReadMemory(m) => Capability::ReadMemory(clone_scope(m)),
        Capability::WriteMemory(m) => Capability::WriteMemory(clone_scope(m)),
        Capability::MemoryRecall => Capability::MemoryRecall,
        Capability::MemoryPreview => Capability::MemoryPreview,
        Capability::All => Capability::All,
        Capability::Nothing => Capability::Nothing,
    }
}

/// Puts a copy of some capabilities behind others.
pub fn push_capabilities(list: &mut Vec<Capability>, more: &Vec<Capability>)
    ensures
        caps(final(list)@) == caps(old(list)@) + caps(more@),
{
    let mut i: usize = 0;
    let ghost had = caps(list@);
    assert(had + caps(more@.take(0)) =~= had);
    while i < more.len()
        invariant
            i <= more.len(),
            caps(list@) == had + caps(more@.take(i as int)),
        decreases more.len() - i,
    {
        let c = clone_capability(&more[i]);
        let ghost before = list@;
        list.push(c);
        proof {
            assert(caps(list@) =~= caps(before).push(c@));
            assert(caps(more@.take(i + 1)) =~= caps(more@.take(i as int)).push(
                more@[i as int]@,
            ));
            assert(caps(list@) =~= had + caps(more@.take(i + 1)));
        }
        i = i + 1;
    }
    assert(more@.take(i as int) =~= more@);
}

/// Whether the memory that `a` speaks of belongs to what `b` speaks of: a session
/// belongs to its agent.
pub open spec fn scope_within(a: Scope, b: Scope) -> bool {
    a == b || match (a, b) {
        (Scope::Session { agent_id, session_id }, Scope::Agent(of)) => agent_id == of,
        _ => false,
    }
}

/// Whether a path, its `.` and `..` resolved as text, is the other or lies below
/// it.
pub open spec fn path_within(a: Seq<char>, b: Seq<char>) -> bool {
    paths::under(paths::normal(a), paths::normal(b))
}

/// Whether who holds `d` also holds `c`. `All` grants everything and `Nothing`
/// asks for nothing; a path grants what lies below it, and an agent's memory its
/// sessions; an address grants itself alone. The order is this library's own.
pub open spec fn within(c: Cap, d: Cap) -> bool {
    d is All || c is Nothing || match (c, d) {
        (Cap::ReadFile(a), Cap::ReadFile(b)) => path_within(a, b),
        (Cap::WriteFile(a), Cap::WriteFile(b)) => path_within(a, b),
        (Cap::ListDirectory(a), Cap::ListDirectory(b)) => path_within(a, b),
        (Cap::ExecuteBinary(a), Cap::ExecuteBinary(b)) => path_within(a, b),
        (Cap::MountTmpfs(a), Cap::MountTmpfs(b)) => path_within(a, b),
        (Cap::HttpGet(a), Cap::HttpGet(b)) => a == b,
        (Cap::HttpPost(a), Cap::HttpPost(b)) => a == b,
        (Cap::ReadMemory(a), Cap::ReadMemory(b)) => scope_within(a, b),
        (Cap::WriteMemory(a), Cap::WriteMemory(b)) => scope_within(a, b),
        (Cap::MemoryRecall, Cap::MemoryRecall) => true,
        (Cap::MemoryPreview, Cap::MemoryPreview) => true,
        _ => false,
    }
}

fn path_is_within(a: &str, b: &str) -> (r: bool)
    ensures
        r == path_within(a@, b@),
{
    let path = paths::lexical_normalize_path(a);
    let dir = paths::lexical_normalize_path(b);
    paths::lies_under(&path, &dir)
}

fn scope_is_within(a: &MemoryScope, b: &MemoryScope) -> (r: bool)
    ensures
        r == scope_within(a@, b@),
{
    match (a, b) {
        (MemoryScope::Agent(x), MemoryScope::Agent(y)) => text::same_text(
            x.as_str(),
            y.as_str(),
        ),
        (MemoryScope::Namespace(x), MemoryScope::Namespace(y)) => text::same_text(
            x.as_str(),
            y.as_str(),
        ),
        (
            MemoryScope::Session { agent_id, session_id },
            MemoryScope::Session { agent_id: of, session_id: session },
        ) => text::same_text(agent_id.as_str(), of.as_str()) && text::same_text(
            session_id.as_str(),
            session.as_str(),
        ),
        (MemoryScope::Session { agent_id, .. }, MemoryScope::Agent(of)) => text::same_text(
            agent_id.as_str(),
            of.as_str(),
        ),
        _ => false,
    }
}

impl Capability {
    /// Whether who holds `other` also holds this.
    pub fn is_subset_of(&self, other: &Capability) -> (r: bool)
        ensures
            r == within(self@, other@),
    {
        match (self, other) {
            (_, Capability::All) => true,
            (Capability::Nothing, _) => true,
            (Capability::ReadFile(a), Capability::ReadFile(b)) => path_is_within(
                a.as_str(),
                b.as_str(),
            ),
            (Capability::WriteFile(a), Capability::WriteFile(b)) => path_is_within(
                a.as_str(),
                b.as_str(),
            ),
            (Capability::ListDirectory(a), Capability::ListDirectory(b)) => path_is_within(
                a.as_str(),
                b.as_str(),
            ),
            (Capability::ExecuteBinary(a), Capability::ExecuteBinary(b)) => path_is_within(
                a.as_str(),
                b.as_str(),
            ),
            (Capability::MountTmpfs(a), Capability::MountTmpfs(b)) => path_is_within(
                a.as_str(),
                b.as_str(),
            ),
            (Capability::HttpGet(a), Capability::HttpGet(b)) => text::same_text(
                a.as_str(),
                b.as_str(),
            ),
            (Capability::HttpPost(a), Capability::HttpPost(b)) => text::same_text(
                a.as_str(),
                b.as_str(),
            ),
            (Capability::ReadMemory(a), Capability::ReadMemory(b)) => scope_is_within(a, b),
            (Capability::WriteMemory(a), Capability::WriteMemory(b)) => scope_is_within(a, b),
            (Capability::MemoryRecall, Capability::MemoryRecall) => true,
            (Capability::MemoryPreview, Capability::MemoryPreview) => true,
            _ => false,
        }
    }
}

/// Whether one of these capabilities grants `c`.
pub open spec fn granted_by(c: Cap, held: Seq<Cap>) -> bool {
    exists|i: int| 0 <= i < held.len() && within(c, #[trigger] held[i])
}

/// Whether one of the listed capabilities grants this one.
pub fn capability_allowed_by(allowlist: &Vec<Capability>, capability: &Capability) -> (r: bool)
    ensures
        r == granted_by(capability@, caps(allowlist@)),
{
    let mut i: usize = 0;
    while i < allowlist.len()
        invariant
            i <= allowlist.len(),
            forall|j: int| 0 <= j < i ==> !within(capability@, #[trigger] caps(allowlist@)[j]),
        decreases allowlist.len() - i,
    {
        if capability.is_subset_of(&allowlist[i]) {
            assert(within(capability@, caps(allowlist@)[i as int]));
            return true;
        }
        i = i + 1;
    }
    false
}

/// Finds the first required capability that nothing that is held grants.
pub fn first_uncovered(required: &Vec<Capability>, held: &Vec<Capability>) -> (r: Option<usize>)
    ensures
        match r {
            Some(k) => {
                &&& k < required@.len()
                &&& !granted_by(required@[k as int]@, caps(held@))
                &&& forall|i: int|
                    0 <= i < k ==> granted_by((#[trigger] required@[i])@, caps(held@))
            },
            None => forall|i: int|
                0 <= i < required@.len() ==> granted_by((#[trigger] required@[i])@, caps(held@)),
        },
{
    let mut i: usize = 0;
    while i < required.len()
        invariant
            i <= required.len(),
            forall|j: int| 0 <= j < i ==> granted_by((#[trigger] required@[j])@, caps(held@)),
        decreases required.len() - i,
    {
        if !capability_allowed_by(held, &required[i]) {
            return Some(i);
        }
        i = i + 1;
    }
    None
}

/// The one name of each kind of capability.
pub open spec fn kind_name(c: Cap) -> Seq<char> {
    match c {
        Cap::ReadFile(_) => "read_file"@,
        Cap::WriteFile(_) => "write_file"@,
        Cap::ListDirectory(_) => "list_dir"@,
        Cap::HttpGet(_) => "http_get"@,
        Cap::HttpPost(_) => "http_post"@,
        Cap::ExecuteBinary(_) => "execute"@,
        Cap::MountTmpfs(_) => "mount_tmpfs"@,
        Cap::ReadMemory(_) => "read_memory"@,
        Cap::WriteMemory(_) => "write_memory"@,
        Cap::MemoryRecall => "memory_recall"@,
        Cap::MemoryPreview => "memory_preview"@,
        Cap::All => "all"@,
        Cap::Nothing => "none"@,
    }
}

/// The text that a capability speaks of: a path or an address.
pub open spec fn spoken_of(c: Cap) -> Option<Seq<char>> {
    match c {
        Cap::ReadFile(t) => Some(t),
        Cap::WriteFile(t) => Some(t),
        Cap::ListDirectory(t) => Some(t),
        Cap::HttpGet(t) => Some(t),
        Cap::HttpPost(t) => Some(t),
        Cap::ExecuteBinary(t) => Some(t),
        Cap::MountTmpfs(t) => Some(t),
        _ => None,
    }
}

/// The scope that a capability speaks of.
pub open spec fn scope_spoken_of(c: Cap) -> Option<Scope> {
    match c {
        Cap::ReadMemory(s) => Some(s),
        Cap::WriteMemory(s) => Some(s),
        _ => None,
    }
}

/// Kinds have names of their own: two capabilities of one name are of one kind,
/// and are the same if they speak of the same.
pub proof fn lemma_kind_names_differ(a: Cap, b: Cap)
    requires
        kind_name(a) == kind_name(b),
    ensures
        spoken_of(a) is Some <==> spoken_of(b) is Some,
        spoken_of(a) == spoken_of(b) && scope_spoken_of(a) == scope_spoken_of(b) ==> a == b,
{
    reveal_strlit("read_file");
    reveal_strlit("write_file");
    reveal_strlit("list_dir");
    reveal_strlit("http_get");
    reveal_strlit("http_post");
    reveal_strlit("execute");
    reveal_strlit("mount_tmpfs");
    reveal_strlit("read_memory");
    reveal_strlit("write_memory");
    reveal_strlit("memory_recall");
    reveal_strlit("memory_preview");
    reveal_strlit("all");
    reveal_strlit("none");
    let s = kind_name(a);
    let t = kind_name(b);
    assert(s[0] == t[0] && s[1] == t[1] && s[2] == t[2]);
    if s.len() > 5 {
        assert(s[5] == t[5]);
    }
    if s.len() > 9 {
        assert(s[7] == t[7]);
    }
}

/// A capability grants only its own kind, but for `All`, which grants every
/// kind, and `Nothing`, which every kind grants. Everything is granted by `All`
/// alone, and `Nothing` grants nothing else.
pub proof fn lemma_grants_keep_their_kind(c: Cap, d: Cap)
    ensures
        within(c, d) ==> d is All || c is Nothing || kind_name(c) == kind_name(d),
        within(Cap::All, d) <==> d is All,
        within(c, Cap::Nothing) <==> c is Nothing,
        within(Cap::Nothing, d),
{
}

/// Between two capabilities of one kind, what they speak of decides, and in the
/// same way whatever the kind: an address grants itself alone, a path what lies
/// below it, an agent's memory its sessions and no other agent's.
pub proof fn lemma_grants_follow_what_is_spoken_of(
    a: Seq<char>,
    b: Seq<char>,
    agent: Seq<char>,
    other: Seq<char>,
    session: Seq<char>,
)
    ensures
        within(Cap::HttpGet(a), Cap::HttpGet(b)) <==> a == b,
        within(Cap::HttpPost(a), Cap::HttpPost(b)) <==> a == b,
        within(Cap::ReadFile(a), Cap::ReadFile(b)) == within(Cap::WriteFile(a), Cap::WriteFile(b)),
        within(Cap::ReadFile(a), Cap::ReadFile(b)) == within(
            Cap::ListDirectory(a),
            Cap::ListDirectory(b),
        ),
        within(Cap::ReadFile(a), Cap::ReadFile(b)) == within(
            Cap::ExecuteBinary(a),
            Cap::ExecuteBinary(b),
        ),
        within(Cap::ReadFile(a), Cap::ReadFile(b)) == within(
            Cap::MountTmpfs(a),
            Cap::MountTmpfs(b),
        ),
        within(Cap::ReadFile(a), Cap::ReadFile(b)) ==> {
            &&& paths::normal(a).parts.len() >= paths::normal(b).parts.len()
            &&& forall|i: int|
                0 <= i < paths::normal(b).parts.len() ==> #[trigger] paths::normal(a).parts[i]
                    == paths::normal(b).parts[i]
        },
        within(
            Cap::ReadMemory(Scope::Session { agent_id: agent, session_id: session }),
            Cap::ReadMemory(Scope::Agent(other)),
        ) <==> agent == other,
        within(
            Cap::WriteMemory(Scope::Session { agent_id: agent, session_id: session }),
            Cap::WriteMemory(Scope::Agent(other)),
        ) <==> agent == other,
        !within(
            Cap::ReadMemory(Scope::Agent(agent)),
            Cap::ReadMemory(Scope::Session { agent_id: other, session_id: session }),
        ),
        within(Cap::ReadMemory(Scope::Agent(agent)), Cap::ReadMemory(Scope::Agent(other)))
            <==> agent == other,
        !within(Cap::ReadMemory(Scope::Agent(agent)), Cap::WriteMemory(Scope::Agent(agent))),
        !within(Cap::ReadFile(a), Cap::WriteFile(a)) && !within(Cap::WriteFile(a), Cap::ReadFile(a)),
{
    if within(Cap::ReadFile(a), Cap::ReadFile(b)) {
        let x = paths::normal(a).parts;
        let y = paths::normal(b).parts;
        assert forall|i: int| 0 <= i < y.len() implies #[trigger] x[i] == y[i] by {
            assert(x.take(y.len() as int)[i] == x[i]);
        }
    }
}

/// What one holds is kept when it is passed on: every capability grants itself,
/// what a granted capability grants is granted, and `All` grants everything.
pub proof fn lemma_grants_are_ordered(a: Cap, b: Cap, c: Cap)
    ensures
        within(a, a),
        within(a, b) && within(b, c) ==> within(a, c),
        within(a, Cap::All),
{
    if within(a, b) && within(b, c) {
        match (a, b, c) {
            (Cap::ReadFile(x), Cap::ReadFile(y), Cap::ReadFile(z)) => {
                lemma_paths_are_ordered(x, y, z);
            },
            (Cap::WriteFile(x), Cap::WriteFile(y), Cap::WriteFile(z)) => {
                lemma_paths_are_ordered(x, y, z);
            },
            (Cap::ListDirectory(x), Cap::ListDirectory(y), Cap::ListDirectory(z)) => {
                lemma_paths_are_ordered(x, y, z);
            },
            (Cap::ExecuteBinary(x), Cap::ExecuteBinary(y), Cap::ExecuteBinary(z)) => {
                lemma_paths_are_ordered(x, y, z);
            },
            (Cap::MountTmpfs(x), Cap::MountTmpfs(y), Cap::MountTmpfs(z)) => {
                lemma_paths_are_ordered(x, y, z);
            },
            _ => {},
        }
    }
    match a {
        Cap::ReadFile(x) => {
            lemma_paths_are_ordered(x, x, x);
        },
        Cap::WriteFile(x) => {
            lemma_paths_are_ordered(x, x, x);
        },
        Cap::ListDirectory(x) => {
            lemma_paths_are_ordered(x, x, x);
        },
        Cap::ExecuteBinary(x) => {
            lemma_paths_are_ordered(x, x, x);
        },
        Cap::MountTmpfs(x) => {
            lemma_paths_are_ordered(x, x, x);
        },
        _ => {},
    }
}

proof fn lemma_paths_are_ordered(x: Seq<char>, y: Seq<char>, z: Seq<char>)
    ensures
        path_within(x, x),
        path_within(x, y) && path_within(y, z) ==> path_within(x, z),
{
    let a = paths::normal(x).parts;
    let b = paths::normal(y).parts;
    let c = paths::normal(z).parts;
    assert(a.take(a.len() as int) =~= a);
    if path_within(x, y) && path_within(y, z) {
        assert(a.take(c.len() as int) =~= a.take(b.len() as int).take(c.len() as int));
    }
}

/// The scope that a text stands for: `agent:<agent>`,
/// `session:<agent>:<session>` or `namespace:<name>`, each name with something
/// in it. The grammar is this library's own.
pub open spec fn scope_of(s: Seq<char>) -> Option<Scope> {
    match text::cut(s, ':') {
        None => None,
        Some(p) => if p.0 == "agent"@ && p.1.len() > 0 {
            Some(Scope::Agent(p.1))
        } else if p.0 == "namespace"@ && p.1.len() > 0 {
            Some(Scope::Namespace(p.1))
        } else if p.0 == "session"@ {
            match text::cut(p.1, ':') {
                None => None,
                Some(q) => if q.0.len() > 0 && q.1.len() > 0 {
                    Some(Scope::Session { agent_id: q.0, session_id: q.1 })
                } else {
                    None
                },
            }
        } else {
            None
        },
    }
}

/// How a scope is written.
pub open spec fn scope_text(s: Scope) -> Seq<char> {
    match s {
        Scope::Agent(a) => "agent"@ + seq![':'] + a,
        Scope::Namespace(n) => "namespace"@ + seq![':'] + n,
        Scope::Session { agent_id, session_id } => "session"@ + seq![':'] + (agent_id + seq![':']
            + session_id),
    }
}

/// Reading a scope undoes writing it, and writing it undoes reading it: a text
/// stands for a scope only as that scope is written, so no two scopes share a
/// text.
pub proof fn lemma_scopes_read_back(s: Scope, t: Seq<char>)
    ensures
        (match s {
            Scope::Agent(a) => a.len() > 0,
            Scope::Namespace(n) => n.len() > 0,
            Scope::Session { agent_id, session_id } => agent_id.len() > 0 && session_id.len() > 0
                && !agent_id.contains(':'),
        }) ==> scope_of(scope_text(s)) == Some(s),
        scope_of(t) is Some ==> t == scope_text(scope_of(t)->0),
{
    reveal_strlit("agent");
    reveal_strlit("namespace");
    reveal_strlit("session");
    match s {
        Scope::Agent(a) => {
            text::lemma_cut_undoes_join("agent"@, ':', a);
        },
        Scope::Namespace(n) => {
            text::lemma_cut_undoes_join("namespace"@, ':', n);
            assert("agent"@.len() != "namespace"@.len());
        },
        Scope::Session { agent_id, session_id } => {
            text::lemma_cut_undoes_join("session"@, ':', agent_id + seq![':'] + session_id);
            assert("agent"@.len() != "session"@.len());
            assert("namespace"@.len() != "session"@.len());
            if !agent_id.contains(':') {
                text::lemma_cut_undoes_join(agent_id, ':', session_id);
            }
        },
    }
    text::lemma_join_undoes_cut(t, ':');
    if text::cut(t, ':') is Some {
        text::lemma_join_undoes_cut((text::cut(t, ':')->0).1, ':');
    }
}

impl MemoryScope {
    /// The scope that a text stands for.
    pub fn parse(s: &str) -> (r: Option<MemoryScope>)
        ensures
            match r {
                Some(m) => scope_of(s@) == Some(m@),
                None => scope_of(s@) is None,
            },
    {
        match text::split_once(s, ':') {
            None => None,
            Some(p) => if text::same_text(p.0.as_str(), "agent") && !p.1.as_str().is_empty() {
                Some(MemoryScope::Agent(p.1))
            } else if text::same_text(p.0.as_str(), "namespace") && !p.1.as_str().is_empty() {
                Some(MemoryScope::Namespace(p.1))
            } else if text::same_text(p.0.as_str(), "session") {
                match text::split_once(p.1.as_str(), ':') {
                    None => None,
                    Some(q) => if !q.0.as_str().is_empty() && !q.1.as_str().is_empty() {
                        Some(MemoryScope::Session { agent_id: q.0, session_id: q.1 })
                    } else {
                        None
                    },
                }
            } else {
                None
            },
        }
    }
}

} // verus!
