//! Who may call over the network, and how often.

use crate::aeon::memory;
use crate::mcp::tenants;
use crate::mcp::tenants::{parse_bearer_token, sha256_hex_bytes, tenant_for_token, TenantSnapshot};
use crate::text;
use vstd::prelude::*;
use vstd::string::*;

verus! {

/// How long a window of the call limit is, in milliseconds.
pub const RATE_WINDOW_MS: u64 = 60_000;

/// The calls of one tenant since a moment. Moments are held as milliseconds on
/// a clock that never goes back.
#[derive(Debug, Clone, PartialEq, Eq)]
pub struct TenantRateWindow {
    pub tenant_id: String,
    pub window_start: u64,
    pub request_count: u64,
}

/// The calls of all tenants.
#[derive(Debug, Clone, PartialEq, Eq)]
pub struct RateLimits {
    pub windows: Vec<TenantRateWindow>,
}

/// The start and the count of a tenant's window.
pub open spec fn window_of(windows: Seq<TenantRateWindow>, tenant: Seq<char>) -> Option<(u64, u64)>
    decreases windows.len(),
{
    if windows.len() == 0 {
        None
    } else if windows[0].tenant_id@ == tenant {
        Some((windows[0].window_start, windows[0].request_count))
    } else {
        window_of(windows.skip(1), tenant)
    }
}

/// A window after one more call at `now`, and whether the call is refused.
pub open spec fn counted(window: Option<(u64, u64)>, limit: u64, now: u64) -> ((u64, u64), bool) {
    let w = match window {
        Some(w) => if now >= w.0 && now - w.0 >= RATE_WINDOW_MS {
            (now, 0u64)
        } else {
            w
        },
        None => (now, 0u64),
    };
    if w.1 >= limit {
        (w, true)
    } else {
        ((w.0, (w.1 + 1) as u64), false)
    }
}

proof fn lemma_window_at(windows: Seq<TenantRateWindow>, tenant: Seq<char>, i: int)
    requires
        0 <= i < windows.len(),
        windows[i].tenant_id@ == tenant,
        forall|j: int| 0 <= j < i ==> (#[trigger] windows[j]).tenant_id@ != tenant,
    ensures
        window_of(windows, tenant) == Some((windows[i].window_start, windows[i].request_count)),
    decreases i,
{
    if i > 0 {
        let rest = windows.skip(1);
        assert(rest[i - 1] == windows[i]);
        assert forall|j: int| 0 <= j < i - 1 implies (#[trigger] rest[j]).tenant_id@ != tenant by {
            assert(rest[j] == windows[j + 1]);
        }
        lemma_window_at(rest, tenant, i - 1);
        assert(windows[0].tenant_id@ != tenant);
    }
}

proof fn lemma_no_window(windows: Seq<TenantRateWindow>, tenant: Seq<char>)
    requires
        forall|j: int| 0 <= j < windows.len() ==> (#[trigger] windows[j]).tenant_id@ != tenant,
    ensures
        window_of(windows, tenant) is None,
    decreases windows.len(),
{
    if windows.len() > 0 {
        let rest = windows.skip(1);
        assert forall|j: int| 0 <= j < rest.len() implies (#[trigger] rest[j]).tenant_id@
            != tenant by {
            assert(rest[j] == windows[j + 1]);
        }
        lemma_no_window(rest, tenant);
        assert(windows[0].tenant_id@ != tenant);
    }
}

// To change a window leaves those of the other tenants alone.
proof fn lemma_update_is_local(
    windows: Seq<TenantRateWindow>,
    i: int,
    w: TenantRateWindow,
    other: Seq<char>,
)
    requires
        0 <= i < windows.len(),
        w.tenant_id@ == windows[i].tenant_id@,
        other != w.tenant_id@,
    ensures
        window_of(windows.update(i, w), other) == window_of(windows, other),
    decreases windows.len(),
{
    let changed = windows.update(i, w);
    if i == 0 {
        assert(changed.skip(1) =~= windows.skip(1));
    } else {
        assert(changed.skip(1) =~= windows.skip(1).update(i - 1, w));
        lemma_update_is_local(windows.skip(1), i - 1, w, other);
    }
}

// To add a window leaves those of the other tenants alone.
proof fn lemma_push_is_local(
    windows: Seq<TenantRateWindow>,
    w: TenantRateWindow,
    other: Seq<char>,
)
    requires
        other != w.tenant_id@,
    ensures
        window_of(windows.push(w), other) == window_of(windows, other),
    decreases windows.len(),
{
    reveal_with_fuel(window_of, 2);
    let longer = windows.push(w);
    if windows.len() == 0 {
        assert(longer.skip(1) =~= Seq::<TenantRateWindow>::empty());
    } else {
        assert(longer.skip(1) =~= windows.skip(1).push(w));
        lemma_push_is_local(windows.skip(1), w, other);
    }
}

impl RateLimits {
    /// No calls yet.
    pub fn new() -> (r: Self)
        ensures
            r.windows@.len() == 0,
    {
        RateLimits { windows: Vec::new() }
    }

    /// Counts one more call of a tenant, and says whether it is refused. The
    /// other tenants are not touched.
    pub fn rate_limit_blocked(&mut self, tenant_id: &str, limit_rpm: u64, now: u64) -> (r: bool)
        ensures
            is_counted(old(self).windows@, final(self).windows@, tenant_id@, limit_rpm, now, r),
    {
        let ghost before = self.windows@;
        let mut i: usize = 0;
        let mut found = false;
        while i < self.windows.len() && !found
            invariant
                i <= self.windows.len(),
                self.windows@ == before,
                forall|j: int|
                    0 <= j < i ==> (#[trigger] self.windows@[j]).tenant_id@ != tenant_id@,
                found ==> i < self.windows.len() && self.windows@[i as int].tenant_id@
                    == tenant_id@,
            decreases self.windows.len() - i, if found { 0int } else { 1int },
        {
            if text::same_text(self.windows[i].tenant_id.as_str(), tenant_id) {
                found = true;
            } else {
                i = i + 1;
            }
        }
        if !found {
            let blocked = limit_rpm == 0;
            let w = TenantRateWindow {
                tenant_id: tenant_id.to_string(),
                window_start: now,
                request_count: if blocked {
                    0
                } else {
                    1
                },
            };
            proof {
                lemma_no_window(before, tenant_id@);
                assert forall|t: Seq<char>| t != tenant_id@ implies #[trigger] window_of(
                    before.push(w),
                    t,
                ) == window_of(before, t) by {
                    lemma_push_is_local(before, w, t);
                }
                let longer = before.push(w);
                assert forall|j: int| 0 <= j < before.len() implies (
                #[trigger] longer[j]).tenant_id@ != tenant_id@ by {
                    assert(longer[j] == before[j]);
                }
                lemma_window_at(longer, tenant_id@, before.len() as int);
            }
            self.windows.push(w);
            return blocked;
        }
        proof {
            lemma_window_at(before, tenant_id@, i as int);
        }
        let old_start: u64 = self.windows[i].window_start;
        let old_count: u64 = self.windows[i].request_count;
        let over = now >= old_start && now - old_start >= RATE_WINDOW_MS;
        let start: u64 = if over {
            now
        } else {
            old_start
        };
        let count: u64 = if over {
            0
        } else {
            old_count
        };
        let blocked = count >= limit_rpm;
        let w = TenantRateWindow {
            tenant_id: self.windows[i].tenant_id.clone(),
            window_start: start,
            request_count: if blocked {
                count
            } else {
                count + 1
            },
        };
        proof {
            assert forall|t: Seq<char>| t != tenant_id@ implies #[trigger] window_of(
                before.update(i as int, w),
                t,
            ) == window_of(before, t) by {
                lemma_update_is_local(before, i as int, w, t);
            }
            let changed = before.update(i as int, w);
            assert forall|j: int| 0 <= j < i implies (#[trigger] changed[j]).tenant_id@
                != tenant_id@ by {
                assert(changed[j] == before[j]);
            }
            lemma_window_at(changed, tenant_id@, i as int);
        }
        self.windows.set(i, w);
        blocked
    }
}

/// What is done with a call.
#[derive(Debug, Clone, PartialEq, Eq)]
pub enum Admission {
    /// Callers are not told apart: it goes on.
    Open,
    /// It goes on in the name of this tenant.
    As(String),
    /// It is refused: the caller is not known.
    Unauthorized,
    /// It is refused: this tenant calls too often.
    TooMany(String),
}

/// What is done with a call, by its contents.
pub enum Entry {
    Open,
    As(Seq<char>),
    Unauthorized,
    TooMany(Seq<char>),
}

impl View for Admission {
    type V = Entry;

    open spec fn view(&self) -> Entry {
        match self {
            Admission::Open => Entry::Open,
            Admission::As(t) => Entry::As(t@),
            Admission::Unauthorized => Entry::Unauthorized,
            Admission::TooMany(t) => Entry::TooMany(t@),
        }
    }
}

/// The tenant that shows its key in a header.
pub open spec fn caller(
    known: Map<Seq<char>, tenants::Tenant>,
    header: Option<Seq<char>>,
) -> Option<tenants::Tenant> {
    match header {
        None => None,
        Some(h) => match tenants::bearer(h) {
            None => None,
            Some(key) => if known.contains_key(memory::text_digest(key)) {
                Some(known[memory::text_digest(key)])
            } else {
                None
            },
        },
    }
}

/// The status that answers a refused call.
pub fn refusal_status(a: &Admission) -> (r: Option<u16>)
    ensures
        r == (match a@ {
            Entry::Unauthorized => Some(401u16),
            Entry::TooMany(_) => Some(429u16),
            _ => None,
        }),
{
    match a {
        Admission::Unauthorized => Some(401),
        Admission::TooMany(_) => Some(429),
        _ => None,
    }
}

/// Whether `e` is how a call is let in, and `after` what is counted then.
pub open spec fn is_entry(
    known: Option<Map<Seq<char>, tenants::Tenant>>,
    before: RateLimits,
    after: RateLimits,
    header: Option<Seq<char>>,
    now: u64,
    e: Entry,
) -> bool {
    match known {
        None => e == Entry::Open && after == before,
        Some(k) => match caller(k, header) {
            None => e == Entry::Unauthorized && after == before,
            Some(t) => {
                let step = counted(
                    window_of(before.windows@, t.tenant_id),
                    t.rate_limit_rpm,
                    now,
                );
                &&& e == (if step.1 {
                    Entry::TooMany(t.tenant_id)
                } else {
                    Entry::As(t.tenant_id)
                })
                &&& window_of(after.windows@, t.tenant_id) == Some(step.0)
                &&& forall|other: Seq<char>|
                    other != t.tenant_id ==> #[trigger] window_of(after.windows@, other)
                        == window_of(before.windows@, other)
            },
        },
    }
}

/// Decides whether a call goes on. `known` holds the tenants, and is none where
/// callers are not told apart; `header` is the `Authorization` header.
pub fn require_bearer_token(
    known: Option<&TenantSnapshot>,
    limits: &mut RateLimits,
    header: Option<&str>,
    now: u64,
) -> (r: Admission)
    ensures
        is_entry(
            match known {
                Some(k) => Some(k@),
                None => None,
            },
            *old(limits),
            *final(limits),
            crate::daemon::slice_text(header),
            now,
            r@,
        ),
{
    let snapshot: &TenantSnapshot = match known {
        None => {
            return Admission::Open;
        },
        Some(k) => k,
    };
    let key: String = match header {
        None => {
            return Admission::Unauthorized;
        },
        Some(h) => match parse_bearer_token(h) {
            None => {
                return Admission::Unauthorized;
            },
            Some(k) => k,
        },
    };
    let hash = sha256_hex_bytes(key.as_str());
    match tenant_for_token(snapshot, hash.as_str()) {
        None => Admission::Unauthorized,
        Some(t) => {
            let name = t.tenant_id.clone();
            if limits.rate_limit_blocked(t.tenant_id.as_str(), t.rate_limit_rpm, now) {
                Admission::TooMany(name)
            } else {
                Admission::As(name)
            }
        },
    }
}

/// Whether the server may listen: an address that others can reach takes known
/// tenants.
pub fn may_bind(authenticated: bool, loopback: bool) -> (r: Result<(), String>)
    ensures
        match r {
            Ok(_) => authenticated || loopback,
            Err(e) => !authenticated && !loopback && e@
                == "tenant auth source is required for non-loopback HTTP bind"@,
        },
{
    if !authenticated && !loopback {
        Err("tenant auth source is required for non-loopback HTTP bind".to_string())
    } else {
        Ok(())
    }
}

/// How many calls of a run are let through.
pub open spec fn passed(window: Option<(u64, u64)>, limit: u64, times: Seq<u64>) -> nat
    decreases times.len(),
{
    if times.len() == 0 {
        0
    } else {
        let step = counted(window, limit, times[0]);
        passed(Some(step.0), limit, times.skip(1)) + (if step.1 {
            0nat
        } else {
            1nat
        })
    }
}

/// Within one window a tenant passes as often as its limit says, and not more
/// often.
pub proof fn lemma_window_limit(start: u64, count: u64, limit: u64, times: Seq<u64>)
    requires
        count <= limit,
        forall|i: int| 0 <= i < times.len() ==> #[trigger] times[i] < start + RATE_WINDOW_MS,
    ensures
        passed(Some((start, count)), limit, times) == (if count + times.len() <= limit {
            times.len()
        } else {
            (limit - count) as nat
        }),
    decreases times.len(),
{
    if times.len() > 0 {
        let step = counted(Some((start, count)), limit, times[0]);
        assert(times[0] < start + RATE_WINDOW_MS);
        assert forall|i: int| 0 <= i < times.skip(1).len() implies #[trigger] times.skip(1)[i]
            < start + RATE_WINDOW_MS by {
            assert(times.skip(1)[i] == times[i + 1]);
        }
        if count < limit {
            lemma_window_limit(start, (count + 1) as u64, limit, times.skip(1));
        } else {
            lemma_window_limit(start, count, limit, times.skip(1));
        }
    }
}

/// Where no tenant is known, every call is refused.
pub proof fn lemma_no_tenants_no_calls(header: Option<Seq<char>>)
    ensures
        caller(Map::<Seq<char>, tenants::Tenant>::empty(), header) is None,
{
}

/// Calls are counted for each tenant by the minute: within a minute of the first
/// a call passes exactly while fewer than the limit passed, and only a call that
/// passes counts; a minute later a new count begins. The first call of a tenant
/// begins one.
pub proof fn lemma_tenants_are_counted_by_the_minute(
    start: u64,
    count: u64,
    limit: u64,
    now: u64,
)
    ensures
        now < start + 60_000 && count < limit ==> counted(Some((start, count)), limit, now) == ((
            (start, (count + 1) as u64),
            false,
        )),
        now < start + 60_000 && count >= limit ==> counted(Some((start, count)), limit, now) == ((
            (start, count),
            true,
        )),
        now >= start + 60_000 && limit > 0 ==> counted(Some((start, count)), limit, now) == ((
            (now, 1u64),
            false,
        )),
        limit > 0 ==> counted(None, limit, now) == (((now, 1u64), false)),
        limit == 0 ==> counted(None, limit, now).1,
{
}

/// The count of a tenant is the tenant's own: the first one under that name.
pub proof fn lemma_windows_are_kept_apart(windows: Seq<TenantRateWindow>, tenant: Seq<char>)
    ensures
        window_of(windows, tenant) is None <==> forall|i: int|
            0 <= i < windows.len() ==> (#[trigger] windows[i]).tenant_id@ != tenant,
        window_of(windows, tenant) matches Some(w) ==> exists|i: int|
            0 <= i < windows.len() && (#[trigger] windows[i]).tenant_id@ == tenant && w == (
                windows[i].window_start,
                windows[i].request_count,
            ) && (forall|j: int| 0 <= j < i ==> (#[trigger] windows[j]).tenant_id@ != tenant),
    decreases windows.len(),
{
    if windows.len() > 0 && windows[0].tenant_id@ != tenant {
        let rest = windows.skip(1);
        lemma_windows_are_kept_apart(rest, tenant);
        assert forall|i: int| 0 <= i < rest.len() implies #[trigger] rest[i] == windows[i + 1] by {
        }
        if window_of(rest, tenant) is None {
            assert forall|i: int| 0 <= i < windows.len() implies (
            #[trigger] windows[i]).tenant_id@ != tenant by {
                if i > 0 {
                    assert(rest[i - 1].tenant_id@ != tenant);
                }
            }
        } else {
            let w = window_of(rest, tenant)->0;
            let i = choose|i: int|
                0 <= i < rest.len() && (#[trigger] rest[i]).tenant_id@ == tenant && w == (
                    rest[i].window_start,
                    rest[i].request_count,
                ) && (forall|j: int| 0 <= j < i ==> (#[trigger] rest[j]).tenant_id@ != tenant);
            assert(windows[i + 1].tenant_id@ == tenant);
            assert forall|j: int| 0 <= j < i + 1 implies (#[trigger] windows[j]).tenant_id@
                != tenant by {
                if j > 0 {
                    assert(rest[j - 1].tenant_id@ != tenant);
                }
            }
        }
    } else if windows.len() > 0 {
        assert(windows[0].tenant_id@ == tenant);
    }
}

/// A caller is known by the key that they show, and by nothing else: they are
/// the tenant whose enrolled digest is that of the key.
pub proof fn lemma_callers_are_known_by_their_key(
    known: Map<Seq<char>, tenants::Tenant>,
    header: Option<Seq<char>>,
    key: Seq<char>,
)
    ensures
        caller(known, header) matches Some(t) ==> header is Some && tenants::bearer(header->0)
            is Some && known.contains_key(memory::text_digest(tenants::bearer(header->0)->0)) && t
            == known[memory::text_digest(tenants::bearer(header->0)->0)],
        header is Some && tenants::bearer(header->0) == Some(key) && known.contains_key(
            memory::text_digest(key),
        ) ==> caller(known, header) == Some(known[memory::text_digest(key)]),
        header is None ==> caller(known, header) is None,
{
}

/// Who is let in: anybody where tenants are not told apart; else only who shows
/// the key of a tenant, in that tenant's name, and only within that tenant's
/// limit. A stranger costs nobody a call, and a tenant's call costs only that
/// tenant.
pub proof fn lemma_who_is_let_in(
    known: Option<Map<Seq<char>, tenants::Tenant>>,
    before: RateLimits,
    after: RateLimits,
    header: Option<Seq<char>>,
    now: u64,
    e: Entry,
    other: Seq<char>,
)
    requires
        is_entry(known, before, after, header, now, e),
    ensures
        e == Entry::Open <==> known is None,
        known is Some && header is None ==> e == Entry::Unauthorized,
        known is Some ==> (e == Entry::Unauthorized <==> caller(known->0, header) is None),
        e matches Entry::As(name) ==> caller(known->0, header) is Some && name == caller(
            known->0,
            header,
        )->0.tenant_id,
        e matches Entry::TooMany(name) ==> caller(known->0, header) is Some && name == caller(
            known->0,
            header,
        )->0.tenant_id,
        e == Entry::Unauthorized || e == Entry::Open ==> after == before,
        (e matches Entry::As(name) && name != other) ==> window_of(after.windows@, other)
            == window_of(before.windows@, other),
        e matches Entry::As(name) ==> window_of(after.windows@, name) is Some && (window_of(
            after.windows@,
            name,
        )->0).1 >= 1,
{
}

/// Whether one more call of a tenant was counted, and `blocked` says whether it
/// is refused.
pub open spec fn is_counted(
    before: Seq<TenantRateWindow>,
    after: Seq<TenantRateWindow>,
    tenant: Seq<char>,
    limit: u64,
    now: u64,
    blocked: bool,
) -> bool {
    let step = counted(window_of(before, tenant), limit, now);
    &&& blocked == step.1
    &&& window_of(after, tenant) == Some(step.0)
    &&& forall|t: Seq<char>|
        t != tenant ==> #[trigger] window_of(after, t) == window_of(before, t)
}

/// A call counts for its tenant alone: of the others nothing changes. A tenant's
/// first call passes where any may, and the next in that minute counts on.
pub proof fn lemma_calls_count_for_their_tenant(
    a: Seq<TenantRateWindow>,
    b: Seq<TenantRateWindow>,
    c: Seq<TenantRateWindow>,
    tenant: Seq<char>,
    other: Seq<char>,
    limit: u64,
    now: u64,
    blocked: bool,
    again: bool,
)
    requires
        window_of(a, tenant) is None,
        limit > 0,
        is_counted(a, b, tenant, limit, now, blocked),
        is_counted(b, c, tenant, limit, now, again),
    ensures
        !blocked,
        again <==> limit == 1,
        other != tenant ==> window_of(c, other) == window_of(a, other),
{
    lemma_tenants_are_counted_by_the_minute(now, 1, limit, now);
    if other != tenant {
        assert(window_of(b, other) == window_of(a, other));
        assert(window_of(c, other) == window_of(b, other));
    }
}

} // verus!
