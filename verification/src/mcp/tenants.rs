//! Tenants: who may call, known by the digest of their key, and how often.

use crate::aeon::memory;
use crate::attestation::digest;
use crate::env;
use crate::env::EnvValue;
use crate::text;
use vstd::prelude::*;
use vstd::string::*;

verus! {

pub const NEXUS_MCP_HTTP_TOKEN_ENV: &'static str = "NEXUS_MCP_HTTP_TOKEN";

pub const NEXUS_MCP_HTTP_TENANTS_ENV: &'static str = "NEXUS_MCP_HTTP_TENANTS";

/// How often a tenant may call per minute, where nothing else is said.
pub const DEFAULT_RATE_LIMIT_RPM: u64 = 60;

/// The tenant of a single shared token.
pub const FALLBACK_TENANT: &'static str = "default";

/// A tenant.
#[derive(Debug, Clone, PartialEq, Eq)]
pub struct TenantInfo {
    pub tenant_id: String,
    pub rate_limit_rpm: u64,
}

/// A tenant, by its contents.
pub struct Tenant {
    pub tenant_id: Seq<char>,
    pub rate_limit_rpm: u64,
}

impl View for TenantInfo {
    type V = Tenant;

    open spec fn view(&self) -> Tenant {
        Tenant { tenant_id: self.tenant_id@, rate_limit_rpm: self.rate_limit_rpm }
    }
}

/// The tenants, each under the digest of its key. No digest stands twice.
#[derive(Debug)]
pub struct TenantSnapshot {
    entries: Vec<(String, TenantInfo)>,
}

/// No key stands twice.
pub open spec fn distinct_keys(entries: Seq<(String, TenantInfo)>) -> bool {
    forall|i: int, j: int|
        0 <= i < j < entries.len() ==> (#[trigger] entries[i]).0@ != (#[trigger] entries[j]).0@
}

/// What a list of entries comes to.
pub open spec fn book(entries: Seq<(String, TenantInfo)>) -> Map<Seq<char>, Tenant>
    decreases entries.len(),
{
    if entries.len() == 0 {
        Map::empty()
    } else {
        book(entries.drop_last()).insert(entries.last().0@, entries.last().1@)
    }
}

proof fn lemma_book_holds(entries: Seq<(String, TenantInfo)>, key: Seq<char>)
    ensures
        book(entries).contains_key(key) <==> exists|i: int|
            0 <= i < entries.len() && (#[trigger] entries[i]).0@ == key,
    decreases entries.len(),
{
    if entries.len() > 0 {
        let t = entries.drop_last();
        lemma_book_holds(t, key);
        if book(t).contains_key(key) {
            let i = choose|i: int| 0 <= i < t.len() && (#[trigger] t[i]).0@ == key;
            assert(entries[i].0@ == key);
        }
        if entries.last().0@ == key {
            assert(entries[entries.len() - 1].0@ == key);
        }
        if exists|i: int| 0 <= i < entries.len() && (#[trigger] entries[i]).0@ == key {
            let i = choose|i: int| 0 <= i < entries.len() && (#[trigger] entries[i]).0@ == key;
            if i < t.len() {
                assert(t[i].0@ == key);
            }
        }
    }
}

proof fn lemma_book_counts(entries: Seq<(String, TenantInfo)>)
    requires
        distinct_keys(entries),
    ensures
        book(entries).dom().finite(),
        book(entries).dom().len() == entries.len(),
    decreases entries.len(),
{
    if entries.len() > 0 {
        let t = entries.drop_last();
        let key = entries.last().0@;
        assert forall|i: int, j: int| 0 <= i < j < t.len() implies (#[trigger] t[i]).0@ != (
        #[trigger] t[j]).0@ by {
            assert(entries[i].0@ != entries[j].0@);
        }
        lemma_book_counts(t);
        lemma_book_holds(t, key);
        if book(t).contains_key(key) {
            let i = choose|i: int| 0 <= i < t.len() && (#[trigger] t[i]).0@ == key;
            assert(entries[i].0@ != entries[entries.len() - 1].0@);
        }
        assert(book(entries).dom() =~= book(t).dom().insert(key));
    } else {
        assert(book(entries).dom() =~= Set::empty());
    }
}

proof fn lemma_book_replaces(
    entries: Seq<(String, TenantInfo)>,
    k: int,
    entry: (String, TenantInfo),
)
    requires
        distinct_keys(entries),
        0 <= k < entries.len(),
        entries[k].0@ == entry.0@,
    ensures
        distinct_keys(entries.update(k, entry)),
        book(entries.update(k, entry)) == book(entries).insert(entry.0@, entry.1@),
    decreases entries.len(),
{
    let u = entries.update(k, entry);
    let t = entries.drop_last();
    assert forall|i: int, j: int| 0 <= i < j < u.len() implies (#[trigger] u[i]).0@ != (
    #[trigger] u[j]).0@ by {
        assert(entries[i].0@ != entries[j].0@);
    }
    if k == entries.len() - 1 {
        assert(u.drop_last() =~= t);
        assert(book(u) =~= book(entries).insert(entry.0@, entry.1@));
    } else {
        assert forall|i: int, j: int| 0 <= i < j < t.len() implies (#[trigger] t[i]).0@ != (
        #[trigger] t[j]).0@ by {
            assert(entries[i].0@ != entries[j].0@);
        }
        lemma_book_replaces(t, k, entry);
        assert(u.drop_last() =~= t.update(k, entry));
        assert(entries[k].0@ != entries[entries.len() - 1].0@);
        assert(book(u) =~= book(entries).insert(entry.0@, entry.1@));
    }
}

impl View for TenantSnapshot {
    type V = Map<Seq<char>, Tenant>;

    closed spec fn view(&self) -> Map<Seq<char>, Tenant> {
        book(self.entries@)
    }
}

impl Clone for TenantSnapshot {
    fn clone(&self) -> (r: Self)
        ensures
            r@ == self@,
    {
        let mut copy = TenantSnapshot::new();
        let mut i: usize = 0;
        proof {
            assert(self.entries@.take(0) =~= Seq::empty());
        }
        while i < self.entries.len()
            invariant
                i <= self.entries.len(),
                copy@ == book(self.entries@.take(i as int)),
            decreases self.entries.len() - i,
        {
            proof {
                assert(self.entries@.take(i + 1).drop_last() =~= self.entries@.take(i as int));
            }
            let entry = &self.entries[i];
            let info = TenantInfo {
                tenant_id: entry.1.tenant_id.clone(),
                rate_limit_rpm: entry.1.rate_limit_rpm,
            };
            let _had = copy.insert(entry.0.clone(), info);
            i = i + 1;
        }
        assert(self.entries@.take(i as int) =~= self.entries@);
        copy
    }
}

impl TenantSnapshot {
    #[verifier::type_invariant]
    spec fn valid(self) -> bool {
        distinct_keys(self.entries@)
    }

    /// No tenants.
    pub fn new() -> (r: Self)
        ensures
            r@ == Map::<Seq<char>, Tenant>::empty(),
    {
        TenantSnapshot { entries: Vec::new() }
    }

    fn position(&self, hash: &str) -> (r: Option<usize>)
        ensures
            match r {
                Some(i) => i < self.entries@.len() && self.entries@[i as int].0@ == hash@,
                None => forall|i: int|
                    0 <= i < self.entries@.len() ==> (#[trigger] self.entries@[i]).0@ != hash@,
            },
    {
        let mut i: usize = 0;
        while i < self.entries.len()
            invariant
                i <= self.entries.len(),
                forall|j: int| 0 <= j < i ==> (#[trigger] self.entries@[j]).0@ != hash@,
            decreases self.entries.len() - i,
        {
            if text::same_text(self.entries[i].0.as_str(), hash) {
                return Some(i);
            }
            i = i + 1;
        }
        None
    }

    /// Puts a tenant under the digest of its key, and says whether one was
    /// there. The earlier one is replaced.
    pub fn insert(&mut self, hash: String, info: TenantInfo) -> (r: bool)
        ensures
            final(self)@ == old(self)@.insert(hash@, info@),
            r == old(self)@.contains_key(hash@),
    {
        proof {
            use_type_invariant(&*self);
            lemma_book_holds(self.entries@, hash@);
        }
        let place = self.position(hash.as_str());
        let mut entries: Vec<(String, TenantInfo)> = Vec::new();
        std::mem::swap(&mut entries, &mut self.entries);
        let ghost before = entries@;
        match place {
            Some(i) => {
                proof {
                    lemma_book_replaces(before, i as int, (hash, info));
                }
                entries.set(i, (hash, info));
            },
            None => {
                entries.push((hash, info));
                assert(entries@.drop_last() =~= before);
            },
        }
        self.entries = entries;
        place.is_some()
    }

    /// The tenant under a digest.
    pub fn get(&self, hash: &str) -> (r: Option<&TenantInfo>)
        ensures
            match r {
                Some(t) => self@.contains_key(hash@) && self@[hash@] == t@,
                None => !self@.contains_key(hash@),
            },
    {
        proof {
            use_type_invariant(self);
            lemma_book_holds(self.entries@, hash@);
        }
        match self.position(hash) {
            Some(i) => {
                proof {
                    lemma_book_replaces(self.entries@, i as int, self.entries@[i as int]);
                    assert(self.entries@.update(i as int, self.entries@[i as int])
                        =~= self.entries@);
                }
                Some(&self.entries[i].1)
            },
            None => None,
        }
    }

    /// How many tenants there are.
    pub fn len(&self) -> (r: usize)
        ensures
            self@.dom().finite(),
            r == self@.dom().len(),
    {
        proof {
            use_type_invariant(self);
            lemma_book_counts(self.entries@);
        }
        self.entries.len()
    }

    /// Whether there are no tenants.
    pub fn is_empty(&self) -> (r: bool)
        ensures
            r == (self@ == Map::<Seq<char>, Tenant>::empty()),
    {
        proof {
            if self.entries@.len() > 0 {
                assert(self@.contains_key(self.entries@.last().0@));
            }
        }
        self.entries.len() == 0
    }
}

/// The tenant of a token, known by its digest.
pub fn tenant_for_token<'a>(snapshot: &'a TenantSnapshot, token_hash: &str) -> (r: Option<
    &'a TenantInfo,
>)
    ensures
        match r {
            Some(t) => snapshot@.contains_key(token_hash@) && snapshot@[token_hash@] == t@,
            None => !snapshot@.contains_key(token_hash@),
        },
{
    snapshot.get(token_hash)
}

/// A token without white space around it; none where nothing is left.
pub open spec fn normalized(s: Seq<char>) -> Option<Seq<char>> {
    if text::trimmed(s).len() == 0 {
        None
    } else {
        Some(text::trimmed(s))
    }
}

/// A token without white space around it.
pub fn normalize_http_token(raw: &str) -> (r: Option<String>)
    ensures
        text::opt_text(r) == normalized(raw@),
{
    let token = text::trim(raw);
    if token.as_str().is_empty() {
        None
    } else {
        Some(token)
    }
}

/// The token of an `Authorization` header.
pub open spec fn bearer(s: Seq<char>) -> Option<Seq<char>> {
    match text::cut(s, ' ') {
        None => None,
        Some(p) => if text::ascii_lowered(p.0) == text::ascii_lowered("bearer"@) {
            normalized(p.1)
        } else {
            None
        },
    }
}

/// The token of an `Authorization` header.
pub fn parse_bearer_token(raw: &str) -> (r: Option<String>)
    ensures
        text::opt_text(r) == bearer(raw@),
{
    match text::split_once(raw, ' ') {
        None => None,
        Some(p) => if text::same_ignoring_case(p.0.as_str(), "bearer") {
            normalize_http_token(p.1.as_str())
        } else {
            None
        },
    }
}

/// The value of a pair of characters: two hexadecimal digits, or a plus sign and
/// one.
pub open spec fn pair_value(a: u8, b: u8) -> Option<u8> {
    match (env::nibble(a), env::nibble(b)) {
        (Some(hi), Some(lo)) => Some((hi * 16 + lo) as u8),
        (None, Some(lo)) => if a == 43 {
            Some(lo)
        } else {
            None
        },
        _ => None,
    }
}

/// The bytes of a digest as 64 characters, or what is wrong with them.
pub open spec fn digest_bytes(b: Seq<u8>) -> Result<Seq<u8>, Seq<char>> {
    if b.len() != 64 {
        Err("invalid SHA-256 hex length"@)
    } else if forall|i: int| 0 <= i < 32 ==> pair_value(#[trigger] b[2 * i], b[2 * i + 1]) is Some {
        Ok(Seq::new(32, |i: int| pair_value(b[2 * i], b[2 * i + 1])->0))
    } else {
        Err("tenant api key hash must be hex"@)
    }
}

/// The bytes of a digest as it is written.
pub open spec fn digest_of_text(s: Seq<char>) -> Result<Seq<u8>, Seq<char>> {
    digest_bytes(vstd::utf8::encode_utf8(s))
}

/// Reads a digest: 64 bytes of text, two for each byte.
pub fn parse_hex_sha256(raw: &str) -> (r: Result<Vec<u8>, String>)
    ensures
        match r {
            Ok(b) => digest_of_text(raw@) == Ok::<Seq<u8>, Seq<char>>(b@) && b@.len() == 32,
            Err(e) => digest_of_text(raw@) == Err::<Seq<u8>, Seq<char>>(e@),
        },
{
    let b: &[u8] = raw.as_bytes();
    if b.len() != 64 {
        return Err("invalid SHA-256 hex length".to_string());
    }
    let mut out: Vec<u8> = Vec::new();
    let mut i: usize = 0;
    while i < 32
        invariant
            i <= 32,
            b@.len() == 64,
            b@ == vstd::utf8::encode_utf8(raw@),
            out@.len() == i,
            forall|j: int|
                0 <= j < i ==> pair_value(#[trigger] b@[2 * j], b@[2 * j + 1]) == Some(out@[j]),
        decreases 32 - i,
    {
        let value: Option<u8> = match (env::hex_nibble(b[2 * i]), env::hex_nibble(b[2 * i + 1])) {
            (Some(hi), Some(lo)) => Some(hi * 16 + lo),
            (None, Some(lo)) => if b[2 * i] == 43 {
                Some(lo)
            } else {
                None
            },
            _ => None,
        };
        assert(value == pair_value(b@[2 * i], b@[2 * i + 1]));
        match value {
            None => {
                return Err("tenant api key hash must be hex".to_string());
            },
            Some(v) => out.push(v),
        }
        i = i + 1;
    }
    assert(out@ =~= Seq::new(32, |i: int| pair_value(b@[2 * i], b@[2 * i + 1])->0));
    Ok(out)
}

/// A digest in lower-case hexadecimal.
pub fn sha256_hex(raw: &[u8]) -> (r: String)
    ensures
        r@ == text::hex_of(raw@),
{
    text::hex_lower(raw)
}

/// The digest of a token in lower-case hexadecimal.
pub fn sha256_hex_bytes(raw: &str) -> (r: String)
    ensures
        r@ == memory::text_digest(raw@),
{
    let d = digest::sha256(raw.as_bytes());
    sha256_hex(d.as_slice())
}

/// One tenant of a configuration file.
#[derive(Debug, Clone, PartialEq, Eq)]
pub struct TenantConfigFileEntry {
    pub tenant_id: String,
    pub api_key_sha256: String,
    pub rate_limit_rpm: Option<u64>,
}

/// The tenants that were read so far, and their names.
pub struct Register {
    pub ids: Set<Seq<char>>,
    pub tenants: Map<Seq<char>, Tenant>,
}

/// The limit of a tenant.
pub open spec fn limit_of(rpm: Option<u64>) -> u64 {
    match rpm {
        Some(n) => n,
        None => DEFAULT_RATE_LIMIT_RPM,
    }
}

/// The complaint of a tenant that may never call.
pub open spec fn zero_limit(id: Seq<char>) -> Seq<char> {
    "rate_limit_rpm for tenant '"@ + id + "' must be greater than 0"@
}

/// Reads one more tenant.
pub open spec fn enrolled(reg: Register, e: TenantConfigFileEntry) -> Result<Register, Seq<char>> {
    let id = text::trimmed(e.tenant_id@);
    let key = text::trimmed(e.api_key_sha256@);
    if id.len() == 0 {
        Err("tenant_id must not be empty"@)
    } else if reg.ids.contains(id) {
        Err("duplicate tenant_id '"@ + id + "'"@)
    } else {
        match digest_of_text(key) {
            Err(why) => Err(why),
            Ok(b) => if reg.tenants.contains_key(text::hex_of(b)) {
                Err("duplicate tenant api_key_sha256 '"@ + key + "'"@)
            } else if limit_of(e.rate_limit_rpm) == 0 {
                Err(zero_limit(id))
            } else {
                Ok(
                    Register {
                        ids: reg.ids.insert(id),
                        tenants: reg.tenants.insert(
                            text::hex_of(b),
                            Tenant { tenant_id: id, rate_limit_rpm: limit_of(e.rate_limit_rpm) },
                        ),
                    },
                )
            },
        }
    }
}

/// Reads tenants in order: the first that is wrong decides.
pub open spec fn register_of(entries: Seq<TenantConfigFileEntry>) -> Result<Register, Seq<char>>
    decreases entries.len(),
{
    if entries.len() == 0 {
        Ok(Register { ids: Set::empty(), tenants: Map::empty() })
    } else {
        match register_of(entries.drop_last()) {
            Err(e) => Err(e),
            Ok(reg) => enrolled(reg, entries.last()),
        }
    }
}

/// The tenants of a configuration, or what is wrong with it.
pub open spec fn tenants_of(entries: Seq<TenantConfigFileEntry>) -> Result<
    Map<Seq<char>, Tenant>,
    Seq<char>,
> {
    if entries.len() == 0 {
        Err("tenant configuration must contain at least one tenant"@)
    } else {
        match register_of(entries) {
            Ok(reg) => Ok(reg.tenants),
            Err(e) => Err(e),
        }
    }
}

/// The outcome of reading tenants.
pub open spec fn tenants_outcome(r: Result<TenantSnapshot, String>) -> Result<
    Map<Seq<char>, Tenant>,
    Seq<char>,
> {
    match r {
        Ok(s) => Ok(s@),
        Err(e) => Err(e@),
    }
}

proof fn lemma_register_error_stays(entries: Seq<TenantConfigFileEntry>, k: int)
    requires
        0 <= k <= entries.len(),
        register_of(entries.take(k)) is Err,
    ensures
        register_of(entries) == register_of(entries.take(k)),
    decreases entries.len() - k,
{
    if k < entries.len() {
        assert(entries.take(k + 1).drop_last() =~= entries.take(k));
        lemma_register_error_stays(entries, k + 1);
    } else {
        assert(entries.take(k) =~= entries);
    }
}

/// The tenants of a configuration.
pub fn parse_tenant_entries(entries: &Vec<TenantConfigFileEntry>) -> (r: Result<
    TenantSnapshot,
    String,
>)
    ensures
        tenants_outcome(r) == tenants_of(entries@),
{
    if entries.len() == 0 {
        return Err("tenant configuration must contain at least one tenant".to_string());
    }
    let mut ids: Vec<String> = Vec::new();
    let mut snapshot = TenantSnapshot::new();
    let ghost mut reg = Register { ids: Set::empty(), tenants: Map::empty() };
    let mut i: usize = 0;
    while i < entries.len()
        invariant
            i <= entries.len(),
            entries@.len() > 0,
            register_of(entries@.take(i as int)) == Ok::<Register, Seq<char>>(reg),
            snapshot@ == reg.tenants,
            forall|t: Seq<char>| #[trigger] text::texts(ids@).contains(t) <==> reg.ids.contains(t),
        decreases entries.len() - i,
    {
        let e = &entries[i];
        proof {
            assert(entries@.take(i + 1).drop_last() =~= entries@.take(i as int));
            assert(entries@.take(i + 1).last() == *e);
            if enrolled(reg, *e) is Err {
                lemma_register_error_stays(entries@, i + 1);
            }
        }
        let id = text::trim(e.tenant_id.as_str());
        if id.as_str().is_empty() {
            return Err("tenant_id must not be empty".to_string());
        }
        if text::list_has(&ids, id.as_str()) {
            return Err(text::cat3("duplicate tenant_id '", id.as_str(), "'"));
        }
        let key = text::trim(e.api_key_sha256.as_str());
        let bytes = match parse_hex_sha256(key.as_str()) {
            Ok(b) => b,
            Err(why) => {
                return Err(why);
            },
        };
        let hash = sha256_hex(bytes.as_slice());
        if snapshot.get(hash.as_str()).is_some() {
            return Err(text::cat3("duplicate tenant api_key_sha256 '", key.as_str(), "'"));
        }
        let limit: u64 = match e.rate_limit_rpm {
            Some(n) => n,
            None => DEFAULT_RATE_LIMIT_RPM,
        };
        if limit == 0 {
            return Err(
                text::cat3(
                    "rate_limit_rpm for tenant '",
                    id.as_str(),
                    "' must be greater than 0",
                ),
            );
        }
        let ghost idv = id@;
        let ghost had = text::texts(ids@);
        let _fresh = snapshot.insert(
            hash,
            TenantInfo { tenant_id: id.clone(), rate_limit_rpm: limit },
        );
        ids.push(id);
        proof {
            assert(text::texts(ids@) =~= had.push(idv));
            let before = reg;
            reg = enrolled(reg, *e)->Ok_0;
            assert forall|t: Seq<char>| #[trigger]
                text::texts(ids@).contains(t) <==> reg.ids.contains(t) by {
                assert(had.push(idv).last() == idv);
                if had.contains(t) {
                    let k = choose|k: int| 0 <= k < had.len() && had[k] == t;
                    assert(had.push(idv)[k] == t);
                }
                if had.push(idv).contains(t) && t != idv {
                    let k = choose|k: int|
                        0 <= k < had.push(idv).len() && had.push(idv)[k] == t;
                    assert(had[k] == t);
                }
                if t == idv {
                    assert(had.push(idv)[had.len() as int] == t);
                }
                assert(text::texts(ids@).contains(t) <==> had.contains(t) || t == idv);
                assert(before.ids.contains(t) <==> had.contains(t));
            }
        }
        i = i + 1;
    }
    assert(entries@.take(entries.len() as int) =~= entries@);
    Ok(snapshot)
}

/// What was found where the tenants should be.
#[derive(Debug, Clone, PartialEq, Eq)]
pub enum TenantFile {
    /// The file could not be read, for this reason.
    Unreadable(String),
    /// It is not a list of tenants in JSON, for this reason.
    Malformed(String),
    Entries(Vec<TenantConfigFileEntry>),
}

/// The tenants of a file, or what is wrong with it.
pub open spec fn tenants_in_file(path: Seq<char>, file: TenantFile) -> Result<
    Map<Seq<char>, Tenant>,
    Seq<char>,
> {
    match file {
        TenantFile::Unreadable(e) => Err("failed to read tenants file '"@ + path + "': "@ + e@),
        TenantFile::Malformed(e) => Err("invalid tenants JSON: "@ + e@),
        TenantFile::Entries(v) => tenants_of(v@),
    }
}

/// The tenants of a file.
pub fn parse_tenant_config_file(path: &str, file: &TenantFile) -> (r: Result<
    TenantSnapshot,
    String,
>)
    ensures
        tenants_outcome(r) == tenants_in_file(path@, *file),
{
    match file {
        TenantFile::Unreadable(e) => Err(
            text::cat4("failed to read tenants file '", path, "': ", e.as_str()),
        ),
        TenantFile::Malformed(e) => Err(text::cat2("invalid tenants JSON: ", e.as_str())),
        TenantFile::Entries(v) => parse_tenant_entries(v),
    }
}

/// A setting without white space around it; `said` is the complaint about one
/// that is not Unicode.
pub open spec fn trimmed_setting(v: env::Setting, said: Seq<char>) -> Result<
    Option<Seq<char>>,
    Seq<char>,
> {
    match v {
        env::Setting::Value(t) => Ok(normalized(t)),
        env::Setting::Absent => Ok(None),
        env::Setting::NotUnicode => Err(said),
    }
}

/// The outcome of reading a setting.
pub open spec fn setting_outcome(r: Result<Option<String>, String>) -> Result<
    Option<Seq<char>>,
    Seq<char>,
> {
    match r {
        Ok(t) => Ok(text::opt_text(t)),
        Err(e) => Err(e@),
    }
}

/// A setting without white space around it.
pub(crate) fn read_trimmed(v: &EnvValue, name: &str, said: &str) -> (r: Result<
    Option<String>,
    String,
>)
    ensures
        setting_outcome(r) == trimmed_setting(v@, name@ + said@),
{
    match v {
        EnvValue::Value(t) => Ok(normalize_http_token(t.as_str())),
        EnvValue::Absent => Ok(None),
        EnvValue::NotUnicode => Err(text::cat2(name, said)),
    }
}

/// The shared token, if one is set.
pub fn parse_mcp_http_token(v: &EnvValue) -> (r: Result<Option<String>, String>)
    ensures
        setting_outcome(r) == trimmed_setting(
            v@,
            NEXUS_MCP_HTTP_TOKEN_ENV@ + " must be valid UTF-8"@,
        ),
{
    read_trimmed(v, NEXUS_MCP_HTTP_TOKEN_ENV, " must be valid UTF-8")
}

/// The file that holds the tenants, if one is set.
pub fn parse_mcp_http_tenants_path(v: &EnvValue) -> (r: Result<Option<String>, String>)
    ensures
        setting_outcome(r) == trimmed_setting(
            v@,
            NEXUS_MCP_HTTP_TENANTS_ENV@ + " must be valid UTF-8 path"@,
        ),
{
    read_trimmed(v, NEXUS_MCP_HTTP_TENANTS_ENV, " must be valid UTF-8 path")
}

/// The tenants of a machine: those of the file where one is set, else the one
/// of the shared token where that is set, else none.
pub open spec fn file_tenants(path: env::Setting, token: env::Setting, file: TenantFile) -> Result<
    Option<Map<Seq<char>, Tenant>>,
    Seq<char>,
> {
    match trimmed_setting(path, NEXUS_MCP_HTTP_TENANTS_ENV@ + " must be valid UTF-8 path"@) {
        Err(e) => Err(e),
        Ok(Some(p)) => match tenants_in_file(p, file) {
            Ok(m) => Ok(Some(m)),
            Err(e) => Err(
                "failed to load "@ + NEXUS_MCP_HTTP_TENANTS_ENV@ + "='"@ + p + "': "@ + e,
            ),
        },
        Ok(None) => match trimmed_setting(
            token,
            NEXUS_MCP_HTTP_TOKEN_ENV@ + " must be valid UTF-8"@,
        ) {
            Err(e) => Err(e),
            Ok(None) => Ok(None),
            Ok(Some(t)) => Ok(
                Some(
                    Map::empty().insert(
                        memory::text_digest(t),
                        Tenant {
                            tenant_id: FALLBACK_TENANT@,
                            rate_limit_rpm: DEFAULT_RATE_LIMIT_RPM,
                        },
                    ),
                ),
            ),
        },
    }
}

/// The outcome of looking for tenants.
pub open spec fn auth_outcome(r: Result<Option<TenantSnapshot>, String>) -> Result<
    Option<Map<Seq<char>, Tenant>>,
    Seq<char>,
> {
    match r {
        Ok(Some(s)) => Ok(Some(s@)),
        Ok(None) => Ok(None),
        Err(e) => Err(e@),
    }
}

/// The tenants of a machine. `file` is what was found at the path that
/// `path` names; where it names none it is not looked at.
pub fn parse_tenant_auth_state_from_file(path: &EnvValue, token: &EnvValue, file: &TenantFile) -> (r:
    Result<Option<TenantSnapshot>, String>)
    ensures
        auth_outcome(r) == file_tenants(path@, token@, *file),
{
    match parse_mcp_http_tenants_path(path) {
        Err(e) => {
            return Err(e);
        },
        Ok(Some(p)) => {
            return match parse_tenant_config_file(p.as_str(), file) {
                Ok(s) => Ok(Some(s)),
                Err(e) => {
                    let head = text::cat4(
                        "failed to load ",
                        NEXUS_MCP_HTTP_TENANTS_ENV,
                        "='",
                        p.as_str(),
                    );
                    Err(text::cat3(head.as_str(), "': ", e.as_str()))
                },
            };
        },
        Ok(None) => {},
    }
    match parse_mcp_http_token(token) {
        Err(e) => Err(e),
        Ok(None) => Ok(None),
        Ok(Some(t)) => {
            let mut s = TenantSnapshot::new();
            let _fresh = s.insert(
                sha256_hex_bytes(t.as_str()),
                TenantInfo {
                    tenant_id: FALLBACK_TENANT.to_string(),
                    rate_limit_rpm: DEFAULT_RATE_LIMIT_RPM,
                },
            );
            Ok(Some(s))
        },
    }
}

/// In an accepted configuration every tenant can call, and has a name.
pub proof fn lemma_accepted_tenants_can_call(entries: Seq<TenantConfigFileEntry>, key: Seq<char>)
    requires
        register_of(entries) is Ok,
        register_of(entries)->Ok_0.tenants.contains_key(key),
    ensures
        register_of(entries)->Ok_0.tenants[key].rate_limit_rpm > 0,
        register_of(entries)->Ok_0.tenants[key].tenant_id.len() > 0,
    decreases entries.len(),
{
    if entries.len() > 0 {
        let before = register_of(entries.drop_last())->Ok_0;
        if before.tenants.contains_key(key) {
            lemma_accepted_tenants_can_call(entries.drop_last(), key);
        }
    }
}

/// The token of a caller is what follows `Bearer`, in whatever case that is
/// written, without outer white space; without that word, or with nothing behind
/// it, there is none.
pub proof fn lemma_bearer_tokens(scheme: Seq<char>, key: Seq<char>)
    requires
        !scheme.contains(' '),
    ensures
        text::ascii_lowered(scheme) == "bearer"@ && text::trimmed(key).len() > 0 ==> bearer(
            scheme + seq![' '] + key,
        ) == Some(text::trimmed(key)),
        text::ascii_lowered(scheme) != "bearer"@ ==> bearer(scheme + seq![' '] + key) is None,
        text::trimmed(key).len() == 0 ==> bearer(scheme + seq![' '] + key) is None,
        bearer(scheme) is None,
{
    text::lemma_cut_undoes_join(scheme, ' ', key);
    text::lemma_join_undoes_cut(scheme, ' ');
    reveal_strlit("bearer");
    assert(text::ascii_lowered("bearer"@) =~= "bearer"@);
    if text::cut(scheme, ' ') is Some {
        let p = text::cut(scheme, ' ')->0;
        assert(scheme[p.0.len() as int] == ' ');
    }
}

/// Enrolling a tenant adds that tenant, under the digest of its key and with its
/// own limit, and changes nothing of the others. Nobody is enrolled twice,
/// without a name or without a limit.
pub proof fn lemma_enrolment_adds_one(reg: Register, e: TenantConfigFileEntry, other: Seq<char>)
    ensures
        enrolled(reg, e) matches Ok(next) ==> {
            let id = text::trimmed(e.tenant_id@);
            let key = text::hex_of(digest_of_text(text::trimmed(e.api_key_sha256@))->Ok_0);
            &&& id.len() > 0 && !reg.ids.contains(id) && next.ids.contains(id)
            &&& !reg.tenants.contains_key(key) && next.tenants.contains_key(key)
            &&& next.tenants[key].tenant_id == id
            &&& e.rate_limit_rpm is Some ==> next.tenants[key].rate_limit_rpm == e.rate_limit_rpm->0
            &&& e.rate_limit_rpm is None ==> next.tenants[key].rate_limit_rpm == 60
            &&& next.tenants[key].rate_limit_rpm > 0
            &&& other != key ==> next.tenants.contains_key(other) == reg.tenants.contains_key(other)
            &&& other != key && reg.tenants.contains_key(other) ==> next.tenants[other]
                == reg.tenants[other]
        },
        text::trimmed(e.tenant_id@).len() == 0 ==> enrolled(reg, e) is Err,
        reg.ids.contains(text::trimmed(e.tenant_id@)) ==> enrolled(reg, e) is Err,
        e.rate_limit_rpm == Some(0u64) ==> enrolled(reg, e) is Err,
{
}

/// A digest is read as it is written: a pair of digits stands for the byte that
/// is written with them, in either case of the letters.
pub proof fn lemma_digest_pairs_read_back(b: u8)
    ensures
        pair_value(text::hex_digit(b / 16) as u8, text::hex_digit(b % 16) as u8) == Some(b),
        b / 16 >= 10 ==> pair_value((65 + b / 16 - 10) as u8, text::hex_digit(b % 16) as u8)
            == Some(b),
{
    env::lemma_nibbles_read_back(b / 16);
    env::lemma_nibbles_read_back(b % 16);
    assert((b / 16) * 16 + b % 16 == b);
}

/// A digest of the right length is read byte for byte, and anything else is
/// refused.
pub proof fn lemma_digests_are_read(b: Seq<u8>)
    ensures
        digest_bytes(b) matches Ok(d) ==> b.len() == 64 && d.len() == 32 && forall|i: int|
            0 <= i < 32 ==> pair_value(b[2 * i], b[2 * i + 1]) == Some(#[trigger] d[i]),
        b.len() != 64 ==> digest_bytes(b) is Err,
{
    if digest_bytes(b) is Ok {
        let d = digest_bytes(b)->Ok_0;
        assert forall|i: int| 0 <= i < 32 implies pair_value(b[2 * i], b[2 * i + 1]) == Some(
            #[trigger] d[i],
        ) by {
            assert(pair_value(b[2 * i], b[2 * i + 1]) is Some);
        }
    }
}

/// Who may call: the tenants of the file where one is named, else the one holder
/// of the token where one is set, and else everybody. A file that cannot be
/// loaded does not open the door, nor does a token beside it.
pub proof fn lemma_who_may_call(path: env::Setting, token: env::Setting, file: TenantFile)
    ensures
        file_tenants(path, token, file) == Ok::<Option<Map<Seq<char>, Tenant>>, Seq<char>>(None)
            ==> !(path is NotUnicode) && !(token is NotUnicode) && (path matches env::Setting::Value(
            p,
        ) ==> text::trimmed(p).len() == 0) && (token matches env::Setting::Value(t)
            ==> text::trimmed(t).len() == 0),
        path matches env::Setting::Value(p) ==> (text::trimmed(p).len() > 0 ==> (match file {
            TenantFile::Entries(v) => match tenants_of(v@) {
                Ok(m) => file_tenants(path, token, file) == Ok::<
                    Option<Map<Seq<char>, Tenant>>,
                    Seq<char>,
                >(Some(m)),
                Err(_) => file_tenants(path, token, file) is Err,
            },
            _ => file_tenants(path, token, file) is Err,
        })),
        path is Absent && (token matches env::Setting::Value(t) && text::trimmed(t).len() > 0)
            ==> ({
            let r = file_tenants(path, token, file);
            let key = memory::text_digest(text::trimmed(token->Value_0));
            &&& r is Ok && r->Ok_0 is Some
            &&& r->Ok_0->0.contains_key(key)
            &&& forall|k: Seq<char>| #[trigger] r->Ok_0->0.contains_key(k) ==> k == key
            &&& r->Ok_0->0[key].tenant_id == "default"@ && r->Ok_0->0[key].rate_limit_rpm == 60
        }),
        path is NotUnicode ==> file_tenants(path, token, file) is Err,
{
}

/// The entries of a book are all in it, each under its own key.
pub proof fn lemma_books_hold_their_entries(entries: Seq<(String, TenantInfo)>, i: int)
    requires
        distinct_keys(entries),
        0 <= i < entries.len(),
    ensures
        book(entries).contains_key(entries[i].0@),
        book(entries)[entries[i].0@] == entries[i].1@,
    decreases entries.len(),
{
    if i < entries.len() - 1 {
        lemma_books_hold_their_entries(entries.drop_last(), i);
    }
}

} // verus!
