//! Tenants in a database: how the connection is secured, what is asked, and
//! what is made of the rows.

use crate::mcp::tenants;
use crate::mcp::tenants::{parse_hex_sha256, TenantInfo, TenantSnapshot};
use crate::text;
use vstd::prelude::*;
use vstd::string::*;

verus! {

/// The table that holds the keys, where no other is named.
pub const RELATION_DEFAULT: &'static str = "api_keys";

/// The view of the keys in use.
pub const ACTIVE_KEYS_VIEW: &'static str = "active_api_keys";

/// How a connection is secured.
#[derive(Debug, Clone, Copy, PartialEq, Eq, Structural)]
pub enum SslMode {
    Disable,
    Allow,
    Prefer,
    Require,
    VerifyCa,
    VerifyFull,
}

/// The mode that a word stands for.
pub open spec fn ssl_mode_of(s: Seq<char>) -> Option<SslMode> {
    let w = text::ascii_lowered(s);
    if w == "disable"@ {
        Some(SslMode::Disable)
    } else if w == "allow"@ {
        Some(SslMode::Allow)
    } else if w == "prefer"@ {
        Some(SslMode::Prefer)
    } else if w == "require"@ {
        Some(SslMode::Require)
    } else if w == "verify-ca"@ {
        Some(SslMode::VerifyCa)
    } else if w == "verify-full"@ {
        Some(SslMode::VerifyFull)
    } else {
        None
    }
}

/// `str::parse` into `sqlx::postgres::PgSslMode`: six words are known, in either
/// case, and nothing else.
#[verifier::external_body]
fn read_ssl_mode(s: &str) -> (r: Option<SslMode>)
    ensures
        r == ssl_mode_of(s@),
{
    match s.parse::<sqlx::postgres::PgSslMode>().ok()? {
        sqlx::postgres::PgSslMode::Disable => Some(SslMode::Disable),
        sqlx::postgres::PgSslMode::Allow => Some(SslMode::Allow),
        sqlx::postgres::PgSslMode::Prefer => Some(SslMode::Prefer),
        sqlx::postgres::PgSslMode::Require => Some(SslMode::Require),
        sqlx::postgres::PgSslMode::VerifyCa => Some(SslMode::VerifyCa),
        sqlx::postgres::PgSslMode::VerifyFull => Some(SslMode::VerifyFull),
    }
}

/// The first mode that one of these settings names.
pub open spec fn first_ssl_mode(pairs: Seq<Seq<char>>) -> Option<SslMode>
    decreases pairs.len(),
{
    if pairs.len() == 0 {
        None
    } else {
        match pair_ssl_mode(pairs[0]) {
            Some(m) => Some(m),
            None => first_ssl_mode(pairs.skip(1)),
        }
    }
}

/// The mode that a setting names.
pub open spec fn pair_ssl_mode(pair: Seq<char>) -> Option<SslMode> {
    match text::cut(pair, '=') {
        None => None,
        Some(p) => if text::ascii_lowered(p.0) == text::ascii_lowered("sslmode"@) {
            ssl_mode_of(p.1)
        } else {
            None
        },
    }
}

/// The mode that a database URL names.
pub open spec fn url_ssl_mode(url: Seq<char>) -> Option<SslMode> {
    match text::cut(url, '?') {
        None => None,
        Some(p) => first_ssl_mode(text::fields(p.1, '&')),
    }
}

/// The mode that a database URL names.
pub fn parse_tenant_db_ssl_mode(db_url: &str) -> (r: Option<SslMode>)
    ensures
        r == url_ssl_mode(db_url@),
{
    let query: String = match text::split_once(db_url, '?') {
        None => {
            return None;
        },
        Some(p) => p.1,
    };
    let pairs = text::split_on(query.as_str(), '&');
    let ghost all = text::texts(pairs@);
    let mut i: usize = 0;
    assert(all.skip(0) =~= all);
    while i < pairs.len()
        invariant
            i <= pairs.len(),
            all == text::texts(pairs@),
            first_ssl_mode(all) == first_ssl_mode(all.skip(i as int)),
            url_ssl_mode(db_url@) == first_ssl_mode(all),
        decreases pairs.len() - i,
    {
        assert(all.skip(i as int)[0] == pairs@[i as int]@);
        assert(all.skip(i as int).skip(1) =~= all.skip(i + 1));
        if let Some(p) = text::split_once(pairs[i].as_str(), '=') {
            if text::same_ignoring_case(p.0.as_str(), "sslmode") {
                if let Some(m) = read_ssl_mode(p.1.as_str()) {
                    return Some(m);
                }
            }
        }
        i = i + 1;
    }
    None
}

/// How the connection is secured: as the URL says where that checks the server,
/// and otherwise always encrypted.
pub open spec fn secured(mode: Option<SslMode>) -> SslMode {
    match mode {
        Some(SslMode::VerifyCa) => SslMode::VerifyCa,
        Some(SslMode::VerifyFull) => SslMode::VerifyFull,
        _ => SslMode::Require,
    }
}

/// How the connection to a database is secured.
pub fn tenant_db_ssl_mode(db_url: &str) -> (r: SslMode)
    ensures
        r == secured(url_ssl_mode(db_url@)),
{
    match parse_tenant_db_ssl_mode(db_url) {
        Some(SslMode::VerifyCa) => SslMode::VerifyCa,
        Some(SslMode::VerifyFull) => SslMode::VerifyFull,
        _ => SslMode::Require,
    }
}

/// A text with every quote doubled.
pub open spec fn quotes_doubled(s: Seq<char>) -> Seq<char>
    decreases s.len(),
{
    if s.len() == 0 {
        Seq::empty()
    } else if s.last() == '"' {
        quotes_doubled(s.drop_last()) + seq!['"', '"']
    } else {
        quotes_doubled(s.drop_last()).push(s.last())
    }
}

/// A name in quotes.
pub open spec fn quoted_name(s: Seq<char>) -> Seq<char> {
    "\""@ + quotes_doubled(s) + "\""@
}

/// A dotted name, each of its parts in quotes.
pub open spec fn quoted_relation(s: Seq<char>) -> Seq<char> {
    let parts = text::fields(s, '.');
    text::joined(Seq::new(parts.len(), |i: int| quoted_name(parts[i])), "."@)
}

fn quote_name(s: &str) -> (r: String)
    ensures
        r@ == quoted_name(s@),
{
    let cs = text::chars_of(s);
    let mut out: String = String::new();
    let mut i: usize = 0;
    while i < cs.len()
        invariant
            i <= cs.len(),
            cs@ == s@,
            out@ == quotes_doubled(s@.take(i as int)),
        decreases cs.len() - i,
    {
        let ghost before = out@;
        assert(s@.take(i + 1).drop_last() =~= s@.take(i as int));
        if cs[i] == '"' {
            out.push('"');
            out.push('"');
            assert(out@ =~= before + seq!['"', '"']);
        } else {
            out.push(cs[i]);
        }
        i = i + 1;
    }
    assert(s@.take(cs.len() as int) =~= s@);
    text::cat3("\"", out.as_str(), "\"")
}

/// A dotted name, each of its parts in quotes.
pub fn quote_postgres_relation_identifier(relation: &str) -> (r: String)
    ensures
        r@ == quoted_relation(relation@),
{
    let parts = text::split_on(relation, '.');
    let mut quoted: Vec<String> = Vec::new();
    let mut i: usize = 0;
    while i < parts.len()
        invariant
            i <= parts.len(),
            quoted@.len() == i,
            forall|j: int| 0 <= j < i ==> (#[trigger] quoted@[j])@ == quoted_name(parts@[j]@),
        decreases parts.len() - i,
    {
        quoted.push(quote_name(parts[i].as_str()));
        i = i + 1;
    }
    let ghost names = text::fields(relation@, '.');
    assert(text::texts(quoted@) =~= Seq::new(names.len(), |i: int| quoted_name(names[i]))) by {
        assert(text::texts(parts@) == names);
        assert forall|i: int| 0 <= i < names.len() implies text::texts(quoted@)[i] == quoted_name(
            names[i],
        ) by {
            assert(quoted@[i]@ == quoted_name(parts@[i]@));
            assert(text::texts(parts@)[i] == parts@[i]@);
        }
    }
    text::join(&quoted, ".")
}

/// What is asked of the database.
pub open spec fn tenant_query(relation: Seq<char>, filtered: bool) -> Seq<char> {
    "SELECT key_sha256, workspace_id::text AS workspace_id, rate_limit_rpm::bigint AS rate_limit_rpm FROM "@
        + relation + (if filtered {
        " WHERE status = 'active'"@
    } else {
        ""@
    })
}

/// What is asked of the database.
pub fn format_tenant_query(relation: &str, use_status_filter: bool) -> (r: String)
    ensures
        r@ == tenant_query(relation@, use_status_filter),
{
    let tail: &str = if use_status_filter {
        " WHERE status = 'active'"
    } else {
        ""
    };
    text::cat3(
        "SELECT key_sha256, workspace_id::text AS workspace_id, rate_limit_rpm::bigint AS rate_limit_rpm FROM ",
        relation,
        tail,
    )
}

/// The relation that is asked: the view of the keys in use stands in for the
/// default table where it is there.
pub open spec fn relation_asked(relation: Seq<char>, view_exists: bool) -> Seq<char> {
    if relation == RELATION_DEFAULT@ && view_exists {
        ACTIVE_KEYS_VIEW@
    } else {
        relation
    }
}

/// The relation that is asked.
pub fn resolve_postgres_relation(relation: &str, view_exists: bool) -> (r: String)
    ensures
        r@ == relation_asked(relation@, view_exists),
{
    if text::same_text(relation, RELATION_DEFAULT) && view_exists {
        ACTIVE_KEYS_VIEW.to_string()
    } else {
        relation.to_string()
    }
}

/// Whether keys out of use must be left out of what a relation holds.
pub fn relation_uses_status_filter(relation: &str) -> (r: bool)
    ensures
        r == (relation@ != ACTIVE_KEYS_VIEW@),
{
    !text::same_text(relation, ACTIVE_KEYS_VIEW)
}

/// The query for a configured relation.
pub fn snapshot_query(relation: &str, view_exists: bool) -> (r: String)
    ensures
        r@ == ({
            let asked = relation_asked(relation@, view_exists);
            tenant_query(quoted_relation(asked), asked != ACTIVE_KEYS_VIEW@)
        }),
{
    let asked = resolve_postgres_relation(relation, view_exists);
    let quoted = quote_postgres_relation_identifier(asked.as_str());
    format_tenant_query(quoted.as_str(), relation_uses_status_filter(asked.as_str()))
}

/// A row.
#[derive(Debug, Clone, PartialEq, Eq)]
pub struct TenantRow {
    pub key_sha256: String,
    pub workspace_id: String,
    pub rate_limit_rpm: Option<i64>,
}

/// The limit of a row.
pub open spec fn row_limit(rpm: Option<i64>, default: u64) -> int {
    match rpm {
        Some(n) => n as int,
        None => if default <= i64::MAX {
            default as int
        } else {
            0
        },
    }
}

/// Reads one more row.
pub open spec fn row_added(
    known: Map<Seq<char>, tenants::Tenant>,
    row: TenantRow,
    default: u64,
) -> Result<Map<Seq<char>, tenants::Tenant>, Seq<char>> {
    let hash = text::ascii_lowered(text::trimmed(row.key_sha256@));
    let limit = row_limit(row.rate_limit_rpm, default);
    match tenants::digest_of_text(hash) {
        Err(e) => Err(e),
        Ok(_) => if limit < 0 {
            Err(
                "rate_limit_rpm for tenant '"@ + row.workspace_id@
                    + "' must be a non-negative integer"@,
            )
        } else if limit == 0 {
            Err(tenants::zero_limit(row.workspace_id@))
        } else if known.contains_key(hash) {
            Err("duplicate tenant api_key_sha256 in tenant registry snapshot"@)
        } else {
            Ok(
                known.insert(
                    hash,
                    tenants::Tenant { tenant_id: row.workspace_id@, rate_limit_rpm: limit as u64 },
                ),
            )
        },
    }
}

/// The tenants of some rows: the first row that is wrong decides.
pub open spec fn tenants_in_rows(rows: Seq<TenantRow>, default: u64) -> Result<
    Map<Seq<char>, tenants::Tenant>,
    Seq<char>,
>
    decreases rows.len(),
{
    if rows.len() == 0 {
        Ok(Map::empty())
    } else {
        match tenants_in_rows(rows.drop_last(), default) {
            Err(e) => Err(e),
            Ok(known) => row_added(known, rows.last(), default),
        }
    }
}

proof fn lemma_row_error_stays(rows: Seq<TenantRow>, default: u64, k: int)
    requires
        0 <= k <= rows.len(),
        tenants_in_rows(rows.take(k), default) is Err,
    ensures
        tenants_in_rows(rows, default) == tenants_in_rows(rows.take(k), default),
    decreases rows.len() - k,
{
    if k < rows.len() {
        assert(rows.take(k + 1).drop_last() =~= rows.take(k));
        lemma_row_error_stays(rows, default, k + 1);
    } else {
        assert(rows.take(k) =~= rows);
    }
}

/// The tenants of some rows.
pub fn load_postgres_tenant_snapshot(rows: &Vec<TenantRow>, default_rate_limit_rpm: u64) -> (r:
    Result<TenantSnapshot, String>)
    ensures
        tenants::tenants_outcome(r) == tenants_in_rows(rows@, default_rate_limit_rpm),
{
    let mut snapshot = TenantSnapshot::new();
    let mut i: usize = 0;
    while i < rows.len()
        invariant
            i <= rows.len(),
            tenants_in_rows(rows@.take(i as int), default_rate_limit_rpm) == Ok::<
                Map<Seq<char>, tenants::Tenant>,
                Seq<char>,
            >(snapshot@),
        decreases rows.len() - i,
    {
        let row = &rows[i];
        proof {
            assert(rows@.take(i + 1).drop_last() =~= rows@.take(i as int));
            assert(rows@.take(i + 1).last() == *row);
            if row_added(snapshot@, *row, default_rate_limit_rpm) is Err {
                lemma_row_error_stays(rows@, default_rate_limit_rpm, i + 1);
            }
        }
        let trimmed = text::trim(row.key_sha256.as_str());
        let hash = text::ascii_lowercase(trimmed.as_str());
        match parse_hex_sha256(hash.as_str()) {
            Ok(_) => {},
            Err(e) => {
                return Err(e);
            },
        }
        let limit: i64 = match row.rate_limit_rpm {
            Some(n) => n,
            None => if default_rate_limit_rpm <= 0x7fff_ffff_ffff_ffff {
                default_rate_limit_rpm as i64
            } else {
                0
            },
        };
        if limit < 0 {
            return Err(
                text::cat3(
                    "rate_limit_rpm for tenant '",
                    row.workspace_id.as_str(),
                    "' must be a non-negative integer",
                ),
            );
        }
        if limit == 0 {
            return Err(
                text::cat3(
                    "rate_limit_rpm for tenant '",
                    row.workspace_id.as_str(),
                    "' must be greater than 0",
                ),
            );
        }
        if snapshot.insert(
            hash,
            TenantInfo { tenant_id: row.workspace_id.clone(), rate_limit_rpm: limit as u64 },
        ) {
            return Err("duplicate tenant api_key_sha256 in tenant registry snapshot".to_string());
        }
        i = i + 1;
    }
    assert(rows@.take(rows.len() as int) =~= rows@);
    Ok(snapshot)
}

/// Whatever a URL asks for, the connection is encrypted: a mode that would
/// allow otherwise is never used.
pub proof fn lemma_connection_is_encrypted(mode: Option<SslMode>)
    ensures
        secured(mode) == SslMode::Require || secured(mode) == SslMode::VerifyCa || secured(mode)
            == SslMode::VerifyFull,
        mode == Some(SslMode::VerifyFull) ==> secured(mode) == SslMode::VerifyFull,
        mode == Some(SslMode::VerifyCa) ==> secured(mode) == SslMode::VerifyCa,
{
}

/// Inside a quoted name every quote of the name has a partner, and nothing else
/// is added.
pub proof fn lemma_quotes_come_in_pairs(s: Seq<char>)
    ensures
        count_of(quotes_doubled(s), '"') == 2 * count_of(s, '"'),
        quotes_doubled(s).len() == s.len() + count_of(s, '"'),
    decreases s.len(),
{
    reveal_with_fuel(count_of, 3);
    if s.len() > 0 {
        lemma_quotes_come_in_pairs(s.drop_last());
        let inner = quotes_doubled(s.drop_last());
        let now = quotes_doubled(s);
        if s.last() == '"' {
            assert(now.last() == '"');
            assert(now.drop_last() =~= inner.push('"'));
            assert(now.drop_last().drop_last() =~= inner);
            assert(count_of(now, '"') == count_of(now.drop_last(), '"') + 1);
            assert(now.drop_last().last() == '"');
            assert(count_of(now.drop_last(), '"') == count_of(inner, '"') + 1);
        } else {
            assert(now.drop_last() =~= inner);
        }
    }
}

proof fn lemma_doubling_is_faithful(a: Seq<char>, b: Seq<char>)
    requires
        quotes_doubled(a) == quotes_doubled(b),
    ensures
        a == b,
    decreases a.len(),
{
    let d = quotes_doubled(a);
    if a.len() == 0 || b.len() == 0 {
        assert(a.len() == 0 <==> quotes_doubled(a).len() == 0);
        assert(b.len() == 0 <==> quotes_doubled(b).len() == 0);
        assert(a =~= b);
    } else {
        assert(d.last() == a.last());
        assert(d.last() == b.last());
        let x = quotes_doubled(a.drop_last());
        let y = quotes_doubled(b.drop_last());
        assert(x =~= y) by {
            assert(x =~= d.take(x.len() as int));
            assert(y =~= d.take(y.len() as int));
        }
        lemma_doubling_is_faithful(a.drop_last(), b.drop_last());
        assert(a =~= a.drop_last().push(a.last()));
        assert(b =~= b.drop_last().push(b.last()));
    }
}

/// Two names that are quoted alike are the same name.
pub proof fn lemma_quoting_is_faithful(a: Seq<char>, b: Seq<char>)
    requires
        quoted_name(a) == quoted_name(b),
    ensures
        a == b,
{
    reveal_strlit("\"");
    let qa = quoted_name(a);
    let qb = quoted_name(b);
    assert(qa.subrange(1, qa.len() - 1) =~= quotes_doubled(a));
    assert(qb.subrange(1, qb.len() - 1) =~= quotes_doubled(b));
    lemma_doubling_is_faithful(a, b);
}

/// How often a character occurs.
pub open spec fn count_of(s: Seq<char>, c: char) -> nat
    decreases s.len(),
{
    if s.len() == 0 {
        0
    } else {
        count_of(s.drop_last(), c) + (if s.last() == c {
            1nat
        } else {
            0nat
        })
    }
}

/// Modes of a connection are chosen by their words, in whatever case, and each
/// word chooses its own.
pub proof fn lemma_ssl_modes_are_chosen_by_word(s: Seq<char>, w: Seq<char>)
    requires
        w == text::ascii_lowered(s),
    ensures
        ssl_mode_of(s) == Some(SslMode::Disable) <==> w == "disable"@,
        ssl_mode_of(s) == Some(SslMode::Allow) <==> w == "allow"@,
        ssl_mode_of(s) == Some(SslMode::Prefer) <==> w == "prefer"@,
        ssl_mode_of(s) == Some(SslMode::Require) <==> w == "require"@,
        ssl_mode_of(s) == Some(SslMode::VerifyCa) <==> w == "verify-ca"@,
        ssl_mode_of(s) == Some(SslMode::VerifyFull) <==> w == "verify-full"@,
{
    reveal_strlit("disable");
    reveal_strlit("allow");
    reveal_strlit("prefer");
    reveal_strlit("require");
    reveal_strlit("verify-ca");
    reveal_strlit("verify-full");
    assert("disable"@[0] == 'd' && "allow"@[0] == 'a' && "prefer"@[0] == 'p' && "require"@[0]
        == 'r');
    assert("verify-ca"@.len() == 9 && "verify-full"@.len() == 11);
    assert("verify-ca"@[0] == 'v' && "verify-full"@[0] == 'v');
}

/// The mode of a connection is the one that the address sets under `sslmode`,
/// the first that can be read.
pub proof fn lemma_address_sets_the_mode(
    base: Seq<char>,
    key: Seq<char>,
    word: Seq<char>,
    rest: Seq<Seq<char>>,
)
    requires
        !key.contains('='),
    ensures
        text::ascii_lowered(key) == "sslmode"@ ==> pair_ssl_mode(key + seq!['='] + word)
            == ssl_mode_of(word),
        text::ascii_lowered(key) != "sslmode"@ ==> pair_ssl_mode(key + seq!['='] + word) is None,
        pair_ssl_mode(key) is None,
        text::ascii_lowered(key) == "sslmode"@ && ssl_mode_of(word) is Some ==> first_ssl_mode(
            seq![key + seq!['='] + word] + rest,
        ) == ssl_mode_of(word),
        text::ascii_lowered(key) != "sslmode"@ ==> first_ssl_mode(
            seq![key + seq!['='] + word] + rest,
        ) == first_ssl_mode(rest),
        !base.contains('?') ==> url_ssl_mode(base) is None,
        !base.contains('?') ==> url_ssl_mode(base + seq!['?'] + word) == first_ssl_mode(
            text::fields(word, '&'),
        ),
{
    text::lemma_cut_undoes_join(key, '=', word);
    text::lemma_join_undoes_cut(key, '=');
    reveal_strlit("sslmode");
    assert(text::ascii_lowered("sslmode"@) =~= "sslmode"@);
    if text::cut(key, '=') is Some {
        let p = text::cut(key, '=')->0;
        assert(key[p.0.len() as int] == '=');
    }
    let pairs = seq![key + seq!['='] + word] + rest;
    assert(pairs[0] == key + seq!['='] + word);
    assert(pairs.skip(1) =~= rest);
    if !base.contains('?') {
        text::lemma_join_undoes_cut(base, '?');
        if text::cut(base, '?') is Some {
            let p = text::cut(base, '?')->0;
            assert(base[p.0.len() as int] == '?');
        }
        text::lemma_cut_undoes_join(base, '?', word);
    }
}

/// What is asked of the database names the relation, and where it is filtered
/// only what is active.
pub proof fn lemma_queries_name_the_relation(relation: Seq<char>, filtered: bool)
    ensures
        text::has_text(tenant_query(relation, filtered), relation),
        text::ends(tenant_query(relation, true), " WHERE status = 'active'"@),
        text::ends(tenant_query(relation, false), relation),
        text::has_text(tenant_query(relation, filtered), "rate_limit_rpm"@),
        text::has_text(tenant_query(relation, filtered), "key_sha256"@),
        text::has_text(tenant_query(relation, filtered), "workspace_id"@),
{
    let lead = "SELECT key_sha256, workspace_id::text AS workspace_id, rate_limit_rpm::bigint AS rate_limit_rpm FROM "@;
    let active = " WHERE status = 'active'"@;
    let tail = if filtered {
        active
    } else {
        ""@
    };
    text::lemma_part_is_held(lead, relation, tail);
    reveal_strlit("");
    let q = tenant_query(relation, true);
    assert(q.subrange(q.len() - active.len(), q.len() as int) =~= active);
    let p = tenant_query(relation, false);
    assert(p =~= lead + relation);
    assert(p.subrange(p.len() - relation.len(), p.len() as int) =~= relation);
    lemma_columns_are_asked();
    text::lemma_held_in_longer(Seq::empty(), lead, relation + tail, "rate_limit_rpm"@);
    text::lemma_held_in_longer(Seq::empty(), lead, relation + tail, "key_sha256"@);
    text::lemma_held_in_longer(Seq::empty(), lead, relation + tail, "workspace_id"@);
    assert(tenant_query(relation, filtered) =~= lead + (relation + tail));
}

proof fn lemma_columns_are_asked()
    ensures
        ({
            let lead = "SELECT key_sha256, workspace_id::text AS workspace_id, rate_limit_rpm::bigint AS rate_limit_rpm FROM "@;
            &&& text::has_text(lead, "rate_limit_rpm"@)
            &&& text::has_text(lead, "key_sha256"@)
            &&& text::has_text(lead, "workspace_id"@)
        }),
{
    let lead = "SELECT key_sha256, workspace_id::text AS workspace_id, rate_limit_rpm::bigint AS rate_limit_rpm FROM "@;
    reveal_strlit(
        "SELECT key_sha256, workspace_id::text AS workspace_id, rate_limit_rpm::bigint AS rate_limit_rpm FROM ",
    );
    reveal_strlit("rate_limit_rpm");
    reveal_strlit("key_sha256");
    reveal_strlit("workspace_id");
    assert(lead.subrange(7, 17) =~= "key_sha256"@);
    assert(text::text_at(lead, "key_sha256"@, 7));
    assert(lead.subrange(19, 31) =~= "workspace_id"@);
    assert(text::text_at(lead, "workspace_id"@, 19));
    assert(lead.subrange(55, 69) =~= "rate_limit_rpm"@);
    assert(text::text_at(lead, "rate_limit_rpm"@, 55));
}

/// The view of active keys is asked only in place of the usual relation, and
/// only if it is there.
pub proof fn lemma_views_stand_for_the_default(relation: Seq<char>, view_exists: bool)
    ensures
        relation_asked(relation, view_exists) == relation || (relation == "api_keys"@ && view_exists
            && relation_asked(relation, view_exists) == "active_api_keys"@),
        relation == "api_keys"@ && view_exists ==> relation_asked(relation, view_exists)
            == "active_api_keys"@,
        !view_exists ==> relation_asked(relation, view_exists) == relation,
{
}

/// A row adds its tenant, under the digest of its key in small letters and with
/// its own limit or else the default, and changes nothing of the others; without
/// a digest, without a limit or with a key that is known already it adds none.
pub proof fn lemma_rows_add_their_tenant(
    known: Map<Seq<char>, tenants::Tenant>,
    row: TenantRow,
    default: u64,
    other: Seq<char>,
)
    ensures
        row_added(known, row, default) matches Ok(next) ==> {
            let hash = text::ascii_lowered(text::trimmed(row.key_sha256@));
            &&& !known.contains_key(hash) && next.contains_key(hash)
            &&& next[hash].tenant_id == row.workspace_id@
            &&& row.rate_limit_rpm matches Some(n) ==> n > 0 && next[hash].rate_limit_rpm == n
            &&& row.rate_limit_rpm is None ==> next[hash].rate_limit_rpm == default && default > 0
            &&& other != hash ==> next.contains_key(other) == known.contains_key(other)
            &&& other != hash && known.contains_key(other) ==> next[other] == known[other]
        },
        row.rate_limit_rpm matches Some(n) ==> (n <= 0 ==> row_added(known, row, default) is Err),
        known.contains_key(text::ascii_lowered(text::trimmed(row.key_sha256@))) ==> row_added(
            known,
            row,
            default,
        ) is Err,
        tenants::digest_of_text(text::ascii_lowered(text::trimmed(row.key_sha256@))) is Ok
            && !known.contains_key(text::ascii_lowered(text::trimmed(row.key_sha256@))) && (
        row.rate_limit_rpm is Some ==> row.rate_limit_rpm->0 > 0) && (row.rate_limit_rpm is None
            ==> 0 < default <= i64::MAX) ==> row_added(known, row, default) is Ok,
{
}

} // verus!
