//! Learned recovery advice: what helped against which failure, and how often.

use crate::daemon;
use crate::hypervisor::failure_mode::FailureMode;
use crate::hypervisor::recovery::{Ratio, RecoveryAction, RecoverySource};
use crate::paths;
use crate::text;
use vstd::prelude::*;
use vstd::string::*;

verus! {

/// One piece of advice against one category of failure.
#[derive(Debug, Clone, PartialEq, Eq)]
pub struct Instinct {
    pub id: String,
    pub failure_category: String,
    /// The operation that the advice is for; `*` stands for all.
    pub operation_pattern: String,
    pub recovery_description: String,
    /// How likely the advice is to help, with Laplace smoothing.
    pub confidence: Ratio,
    /// How often the next attempt succeeded.
    pub support_count: u64,
    /// How often the next attempt still failed.
    pub failure_count: u64,
    pub created_at: String,
    pub last_updated: String,
}

/// An instinct, by its contents.
pub struct Inst {
    pub id: Seq<char>,
    pub category: Seq<char>,
    pub pattern: Seq<char>,
    pub description: Seq<char>,
    pub confidence: Ratio,
    pub support: u64,
    pub failures: u64,
    pub created_at: Seq<char>,
    pub last_updated: Seq<char>,
}

impl View for Instinct {
    type V = Inst;

    open spec fn view(&self) -> Inst {
        Inst {
            id: self.id@,
            category: self.failure_category@,
            pattern: self.operation_pattern@,
            description: self.recovery_description@,
            confidence: self.confidence,
            support: self.support_count,
            failures: self.failure_count,
            created_at: self.created_at@,
            last_updated: self.last_updated@,
        }
    }
}

/// The contents of a list of instincts.
pub open spec fn insts(v: Seq<Instinct>) -> Seq<Inst> {
    Seq::new(v.len(), |i: int| v[i]@)
}

/// The smoothed success rate after some successes and failures.
pub open spec fn laplace(support: u64, failures: u64) -> Ratio {
    Ratio { num: (support + 1) as u128, den: (support + failures + 2) as u128 }
}

/// One more, as far as 64 bits can count.
pub open spec fn one_more(n: u64) -> u64 {
    if n == u64::MAX {
        n
    } else {
        (n + 1) as u64
    }
}

impl Inst {
    /// A new instinct, with no evidence either way.
    pub open spec fn fresh(
        id: Seq<char>,
        category: Seq<char>,
        pattern: Seq<char>,
        description: Seq<char>,
        now: Seq<char>,
    ) -> Inst {
        Inst {
            id,
            category,
            pattern,
            description,
            confidence: Ratio { num: 1, den: 2 },
            support: 0,
            failures: 0,
            created_at: now,
            last_updated: now,
        }
    }

    /// After one more outcome.
    pub open spec fn after(self, success: bool, now: Seq<char>) -> Inst {
        let support = if success {
            one_more(self.support)
        } else {
            self.support
        };
        let failures = if success {
            self.failures
        } else {
            one_more(self.failures)
        };
        Inst {
            support,
            failures,
            confidence: laplace(support, failures),
            last_updated: now,
            ..self
        }
    }

    /// Whether the advice is for the operation.
    pub open spec fn matches_op(self, operation: Seq<char>) -> bool {
        self.pattern == "*"@ || self.pattern == operation
    }

    /// Whether two instincts give the same advice for the same operation.
    pub open spec fn same_advice(self, pattern: Seq<char>, description: Seq<char>) -> bool {
        self.pattern == pattern && self.description == description
    }
}

/// Evidence keeps the smoothed rate strictly between zero and one; a new
/// instinct stands at one half, as the rate does without evidence.
pub proof fn lemma_confidence_is_a_probability(support: u64, failures: u64)
    ensures
        laplace(support, failures).valid(),
        0 < laplace(support, failures).num < laplace(support, failures).den,
        laplace(0, 0) == (Ratio { num: 1, den: 2 }),
{
}

/// A success raises the confidence and a failure lowers it, as long as they can
/// be counted.
pub proof fn lemma_evidence_moves_confidence(support: u64, failures: u64)
    requires
        support < u64::MAX,
        failures < u64::MAX,
    ensures
        laplace(support, failures).less(laplace((support + 1) as u64, failures)),
        laplace(support, (failures + 1) as u64).less(laplace(support, failures)),
{
    let s = support as int;
    let f = failures as int;
    assert((s + 1) * (s + 1 + f + 2) < (s + 1 + 1) * (s + f + 2)) by (nonlinear_arith)
        requires
            s >= 0,
            f >= 0,
    ;
    assert((s + 1) * (s + f + 2) < (s + 1) * (s + f + 1 + 2)) by (nonlinear_arith)
        requires
            s >= 0,
            f >= 0,
    ;
}

impl Instinct {
    /// A new instinct; its identifier and the time are passed in.
    pub fn new(
        id: String,
        failure_category: String,
        operation_pattern: String,
        recovery_description: String,
        now: String,
    ) -> (r: Self)
        ensures
            r@ == Inst::fresh(
                id@,
                failure_category@,
                operation_pattern@,
                recovery_description@,
                now@,
            ),
    {
        Instinct {
            id,
            failure_category,
            operation_pattern,
            recovery_description,
            confidence: Ratio { num: 1, den: 2 },
            support_count: 0,
            failure_count: 0,
            created_at: now.clone(),
            last_updated: now,
        }
    }

    /// Takes in that the advice helped, or did not.
    pub fn record(&mut self, success: bool, now: String)
        ensures
            final(self)@ == old(self)@.after(success, now@),
    {
        if success {
            if self.support_count < u64::MAX {
                self.support_count = self.support_count + 1;
            }
        } else {
            if self.failure_count < u64::MAX {
                self.failure_count = self.failure_count + 1;
            }
        }
        let s: u128 = self.support_count as u128;
        let f: u128 = self.failure_count as u128;
        self.confidence = Ratio { num: s + 1, den: s + f + 2 };
        self.last_updated = now;
    }

    /// Whether the advice is for the operation.
    pub fn matches_operation(&self, operation: &str) -> (r: bool)
        ensures
            r == self@.matches_op(operation@),
    {
        text::same_text(self.operation_pattern.as_str(), "*") || text::same_text(
            self.operation_pattern.as_str(),
            operation,
        )
    }

    /// Whether the advice is this one.
    fn gives(&self, pattern: &str, description: &str) -> (r: bool)
        ensures
            r == self@.same_advice(pattern@, description@),
    {
        text::same_text(self.operation_pattern.as_str(), pattern) && text::same_text(
            self.recovery_description.as_str(),
            description,
        )
    }

    /// A copy.
    pub fn copy(&self) -> (r: Instinct)
        ensures
            r@ == self@,
    {
        Instinct {
            id: self.id.clone(),
            failure_category: self.failure_category.clone(),
            operation_pattern: self.operation_pattern.clone(),
            recovery_description: self.recovery_description.clone(),
            confidence: self.confidence,
            support_count: self.support_count,
            failure_count: self.failure_count,
            created_at: self.created_at.clone(),
            last_updated: self.last_updated.clone(),
        }
    }
}

/// The instincts for an operation, in their order.
pub open spec fn hits(bucket: Seq<Inst>, operation: Seq<char>) -> Seq<Inst>
    decreases bucket.len(),
{
    if bucket.len() == 0 {
        Seq::empty()
    } else {
        let rest = hits(bucket.drop_last(), operation);
        if bucket.last().matches_op(operation) {
            rest.push(bucket.last())
        } else {
            rest
        }
    }
}

/// A ranked list with one more instinct: behind those that are no less
/// confident.
pub open spec fn insert_ranked(s: Seq<Inst>, x: Inst) -> Seq<Inst>
    decreases s.len(),
{
    if s.len() > 0 && s.last().confidence.less(x.confidence) {
        insert_ranked(s.drop_last(), x).push(s.last())
    } else {
        s.push(x)
    }
}

/// The list by descending confidence; equals keep their order.
pub open spec fn ranked(s: Seq<Inst>) -> Seq<Inst>
    decreases s.len(),
{
    if s.len() == 0 {
        s
    } else {
        insert_ranked(ranked(s.drop_last()), s.last())
    }
}

/// No instinct is more confident than one before it.
pub open spec fn descending(s: Seq<Inst>) -> bool {
    forall|i: int, j: int|
        0 <= i < j < s.len() ==> !(#[trigger] s[i]).confidence.less((#[trigger] s[j]).confidence)
}

proof fn lemma_insert_at(s: Seq<Inst>, x: Inst, k: int)
    requires
        0 <= k <= s.len(),
        forall|j: int| k <= j < s.len() ==> (#[trigger] s[j]).confidence.less(x.confidence),
        k > 0 ==> !s[k - 1].confidence.less(x.confidence),
    ensures
        insert_ranked(s, x) == s.insert(k, x),
    decreases s.len(),
{
    if k == s.len() {
        assert(s.insert(k, x) =~= s.push(x));
    } else {
        let t = s.drop_last();
        assert(s[s.len() - 1].confidence.less(x.confidence));
        assert forall|j: int| k <= j < t.len() implies (#[trigger] t[j]).confidence.less(
            x.confidence,
        ) by {
            assert(t[j] == s[j]);
        }
        lemma_insert_at(t, x, k);
        assert(t.insert(k, x).push(s.last()) =~= s.insert(k, x));
    }
}

proof fn lemma_insert_keeps_order(s: Seq<Inst>, x: Inst)
    requires
        descending(s),
        x.confidence.valid(),
        forall|i: int| 0 <= i < s.len() ==> (#[trigger] s[i]).confidence.valid(),
    ensures
        descending(insert_ranked(s, x)),
        insert_ranked(s, x).to_multiset() == s.push(x).to_multiset(),
        insert_ranked(s, x).len() == s.len() + 1,
        forall|i: int| 0 <= i < s.len() + 1 ==> (#[trigger] insert_ranked(
            s,
            x,
        )[i]).confidence.valid(),
        s.len() > 0 && s.last().confidence.less(x.confidence) ==> forall|i: int|
            0 <= i < s.len() + 1 ==> !(#[trigger] insert_ranked(s, x)[i]).confidence.less(
                s.last().confidence,
            ),
    decreases s.len(),
{
    broadcast use vstd::seq_lib::group_to_multiset_ensures;

    if s.len() > 0 && s.last().confidence.less(x.confidence) {
        let t = s.drop_last();
        let y = s.last();
        lemma_insert_keeps_order(t, x);
        let u = insert_ranked(t, x);
        let r = u.push(y);
        assert(s =~= t.push(y));
        assert(s.push(x) =~= t.push(y).push(x));
        assert(r.to_multiset() == t.push(x).to_multiset().insert(y));
        assert(s.push(x).to_multiset() =~= r.to_multiset());
        Ratio::lemma_less_is_one_way(y.confidence, x.confidence);
        assert forall|i: int| 0 <= i < u.len() implies !(#[trigger] u[i]).confidence.less(
            y.confidence,
        ) by {
            lemma_inserted_is_old_or_new(t, x, i);
            if u[i] != x {
                let j = choose|j: int| 0 <= j < t.len() && t[j] == u[i];
                assert(s[j] == t[j]);
                assert(!s[j].confidence.less(s[s.len() - 1].confidence));
            }
        }
        assert forall|i: int, j: int| 0 <= i < j < r.len() implies !(
        #[trigger] r[i]).confidence.less((#[trigger] r[j]).confidence) by {
            if j < u.len() {
                assert(r[i] == u[i] && r[j] == u[j]);
            } else {
                assert(r[i] == u[i]);
            }
        }
        assert forall|i: int| 0 <= i < r.len() implies !(#[trigger] r[i]).confidence.less(
            y.confidence,
        ) by {
            if i < u.len() {
                assert(r[i] == u[i]);
            }
        }
    } else {
        let r = s.push(x);
        assert forall|i: int, j: int| 0 <= i < j < r.len() implies !(
        #[trigger] r[i]).confidence.less((#[trigger] r[j]).confidence) by {
            if j == s.len() {
                if i < s.len() - 1 {
                    assert(!s[i].confidence.less(s[s.len() - 1].confidence));
                    Ratio::lemma_not_less_transitive(
                        s[i].confidence,
                        s[s.len() - 1].confidence,
                        x.confidence,
                    );
                }
            } else {
                assert(r[i] == s[i] && r[j] == s[j]);
            }
        }
    }
}

proof fn lemma_inserted_is_old_or_new(s: Seq<Inst>, x: Inst, i: int)
    requires
        0 <= i < insert_ranked(s, x).len(),
    ensures
        insert_ranked(s, x)[i] == x || exists|j: int| 0 <= j < s.len() && s[j] == insert_ranked(
            s,
            x,
        )[i],
    decreases s.len(),
{
    if s.len() > 0 && s.last().confidence.less(x.confidence) {
        let t = s.drop_last();
        let u = insert_ranked(t, x);
        if i < u.len() {
            lemma_inserted_is_old_or_new(t, x, i);
            if u[i] != x {
                let j = choose|j: int| 0 <= j < t.len() && t[j] == u[i];
                assert(s[j] == u[i]);
            }
        } else {
            assert(s[s.len() - 1] == insert_ranked(s, x)[i]);
        }
    } else if i < s.len() {
        assert(s[i] == insert_ranked(s, x)[i]);
    }
}

/// A ranked list holds the same instincts, by descending confidence.
pub proof fn lemma_ranked_is_sorted(s: Seq<Inst>)
    requires
        forall|i: int| 0 <= i < s.len() ==> (#[trigger] s[i]).confidence.valid(),
    ensures
        descending(ranked(s)),
        ranked(s).to_multiset() == s.to_multiset(),
        ranked(s).len() == s.len(),
        forall|i: int| 0 <= i < ranked(s).len() ==> (#[trigger] ranked(s)[i]).confidence.valid(),
    decreases s.len(),
{
    broadcast use vstd::seq_lib::group_to_multiset_ensures;

    if s.len() > 0 {
        let t = s.drop_last();
        assert forall|i: int| 0 <= i < t.len() implies (#[trigger] t[i]).confidence.valid() by {
            assert(t[i] == s[i]);
        }
        lemma_ranked_is_sorted(t);
        lemma_insert_keeps_order(ranked(t), s.last());
        assert(s =~= t.push(s.last()));
    }
}

/// The instincts against one category.
#[derive(Debug, PartialEq, Eq)]
pub struct Bucket {
    pub category: String,
    pub items: Vec<Instinct>,
}

/// All instincts, by category.
#[derive(Debug, PartialEq, Eq)]
pub struct InstinctStore {
    pub buckets: Vec<Bucket>,
}

impl View for InstinctStore {
    type V = Map<Seq<char>, Seq<Inst>>;

    open spec fn view(&self) -> Map<Seq<char>, Seq<Inst>> {
        bucket_map(self.buckets@)
    }
}

/// Whether the bucket at `i` is that of the category.
pub open spec fn bucket_at(buckets: Seq<Bucket>, category: Seq<char>, i: int) -> bool {
    0 <= i < buckets.len() && buckets[i].category@ == category
}

/// No category has two buckets.
pub open spec fn distinct_buckets(buckets: Seq<Bucket>) -> bool {
    forall|i: int, j: int|
        0 <= i < j < buckets.len() ==> (#[trigger] buckets[i]).category@ != (
        #[trigger] buckets[j]).category@
}

/// The instincts by category.
pub open spec fn bucket_map(buckets: Seq<Bucket>) -> Map<Seq<char>, Seq<Inst>> {
    Map::new(
        |k: Seq<char>| exists|i: int| bucket_at(buckets, k, i),
        |k: Seq<char>| insts(buckets[choose|i: int| bucket_at(buckets, k, i)].items@),
    )
}

proof fn lemma_bucket_map(buckets: Seq<Bucket>, i: int)
    requires
        distinct_buckets(buckets),
        0 <= i < buckets.len(),
    ensures
        bucket_map(buckets).contains_key(buckets[i].category@),
        bucket_map(buckets)[buckets[i].category@] == insts(buckets[i].items@),
{
    let k = buckets[i].category@;
    assert(bucket_at(buckets, k, i));
    let c = choose|c: int| bucket_at(buckets, k, c);
    assert(c == i);
}

proof fn lemma_bucket_map_push(buckets: Seq<Bucket>, bucket: Bucket)
    requires
        distinct_buckets(buckets),
        !bucket_map(buckets).contains_key(bucket.category@),
    ensures
        distinct_buckets(buckets.push(bucket)),
        bucket_map(buckets.push(bucket)) == bucket_map(buckets).insert(
            bucket.category@,
            insts(bucket.items@),
        ),
{
    let after = buckets.push(bucket);
    let n = buckets.len() as int;
    let cat = bucket.category@;
    let m = bucket_map(buckets).insert(cat, insts(bucket.items@));
    assert forall|a: int, b: int| 0 <= a < b < after.len() implies (#[trigger] after[a]).category@
        != (#[trigger] after[b]).category@ by {
        assert(after[a] == buckets[a]);
        if b == n {
            assert(bucket_at(buckets, buckets[a].category@, a));
        } else {
            assert(after[b] == buckets[b]);
        }
    }
    assert forall|k: Seq<char>| bucket_map(after).contains_key(k) == m.contains_key(k) by {
        if bucket_map(after).contains_key(k) {
            let a = choose|a: int| bucket_at(after, k, a);
            if a < n {
                assert(bucket_at(buckets, k, a));
            }
        } else {
            assert(bucket_at(after, cat, n));
            if bucket_map(buckets).contains_key(k) {
                let a = choose|a: int| bucket_at(buckets, k, a);
                assert(bucket_at(after, k, a));
            }
        }
    }
    assert forall|k: Seq<char>| bucket_map(after).contains_key(k) implies bucket_map(after)[k]
        == m[k] by {
        let a = choose|a: int| bucket_at(after, k, a);
        lemma_bucket_map(after, a);
        if a < n {
            assert(after[a] == buckets[a]);
            assert(bucket_at(buckets, k, a));
            lemma_bucket_map(buckets, a);
        }
    }
    assert(bucket_map(after) =~= m);
}

/// The instincts against a category, none if there is no bucket.
pub open spec fn bucket_of(m: Map<Seq<char>, Seq<Inst>>, category: Seq<char>) -> Seq<Inst> {
    if m.contains_key(category) {
        m[category]
    } else {
        Seq::empty()
    }
}

/// The position of the first instinct with this advice.
pub open spec fn advice_at(
    bucket: Seq<Inst>,
    pattern: Seq<char>,
    description: Seq<char>,
    i: int,
) -> bool {
    &&& 0 <= i < bucket.len()
    &&& bucket[i].same_advice(pattern, description)
    &&& forall|j: int| 0 <= j < i ==> !(#[trigger] bucket[j]).same_advice(pattern, description)
}

/// Whether a bucket holds this advice.
pub open spec fn has_advice(
    bucket: Seq<Inst>,
    pattern: Seq<char>,
    description: Seq<char>,
) -> bool {
    exists|i: int| 0 <= i < bucket.len() && (#[trigger] bucket[i]).same_advice(pattern, description)
}

/// Whether the instinct of that identifier stands at `i` in a bucket, and is the
/// first one there.
pub open spec fn id_at(bucket: Seq<Inst>, id: Seq<char>, i: int) -> bool {
    &&& 0 <= i < bucket.len()
    &&& bucket[i].id == id
    &&& forall|j: int| 0 <= j < i ==> (#[trigger] bucket[j]).id != id
}

/// Whether no instinct has that identifier.
pub open spec fn id_unknown(m: Map<Seq<char>, Seq<Inst>>, id: Seq<char>) -> bool {
    forall|k: Seq<char>, i: int|
        m.contains_key(k) && 0 <= i < m[k].len() ==> (#[trigger] m[k][i]).id != id
}

/// The state of an import.
pub struct Importing {
    pub store: Map<Seq<char>, Seq<Inst>>,
    pub added: nat,
    pub merged: nat,
    pub touched: Set<Seq<char>>,
}

/// One instinct is imported: it is added at the end of its bucket, unless its
/// advice is there.
pub open spec fn import_one(s: Importing, inc: Inst) -> Importing {
    let bucket = bucket_of(s.store, inc.category);
    if has_advice(bucket, inc.pattern, inc.description) {
        Importing { merged: s.merged + 1, ..s }
    } else {
        Importing {
            store: s.store.insert(inc.category, bucket.push(inc)),
            added: s.added + 1,
            touched: s.touched.insert(inc.category),
            ..s
        }
    }
}

/// A list of instincts is imported, one after the other.
pub open spec fn import_list(
    store: Map<Seq<char>, Seq<Inst>>,
    list: Seq<Inst>,
) -> Importing
    decreases list.len(),
{
    if list.len() == 0 {
        Importing { store, added: 0, merged: 0, touched: Set::empty() }
    } else {
        import_one(import_list(store, list.drop_last()), list.last())
    }
}

/// All instincts of some buckets in a row.
pub open spec fn all_items(buckets: Seq<Bucket>) -> Seq<Inst>
    decreases buckets.len(),
{
    if buckets.len() == 0 {
        Seq::empty()
    } else {
        all_items(buckets.drop_last()) + insts(buckets.last().items@)
    }
}

impl InstinctStore {
    /// No category has two buckets.
    pub open spec fn valid(&self) -> bool {
        distinct_buckets(self.buckets@)
    }

    /// An empty store.
    pub fn new() -> (r: Self)
        ensures
            r.valid(),
            r@ == Map::<Seq<char>, Seq<Inst>>::empty(),
    {
        let r = InstinctStore { buckets: Vec::new() };
        proof {
            assert(r@ =~= Map::<Seq<char>, Seq<Inst>>::empty());
        }
        r
    }

    /// The position of a category's bucket.
    fn find_bucket(&self, category: &str) -> (r: Option<usize>)
        requires
            self.valid(),
        ensures
            match r {
                Some(i) => i < self.buckets@.len() && self.buckets@[i as int].category@ == category@
                    && self@.contains_key(category@) && self@[category@] == insts(
                    self.buckets@[i as int].items@,
                ),
                None => !self@.contains_key(category@),
            },
    {
        let mut i: usize = 0;
        while i < self.buckets.len()
            invariant
                i <= self.buckets.len(),
                self.valid(),
                forall|j: int| 0 <= j < i ==> (#[trigger] self.buckets@[j]).category@ != category@,
            decreases self.buckets.len() - i,
        {
            if text::same_text(self.buckets[i].category.as_str(), category) {
                proof {
                    lemma_bucket_map(self.buckets@, i as int);
                }
                return Some(i);
            }
            i = i + 1;
        }
        None
    }

    /// Takes a category's instincts out of the store.
    fn take_bucket(&mut self, category: &str) -> (r: Vec<Instinct>)
        requires
            old(self).valid(),
        ensures
            final(self).valid(),
            final(self)@ == old(self)@.remove(category@),
            insts(r@) == bucket_of(old(self)@, category@),
    {
        match self.find_bucket(category) {
            Some(i) => {
                let ghost before = self.buckets@;
                let bucket = self.buckets.remove(i);
                proof {
                    let after = self.buckets@;
                    assert forall|a: int, b: int| 0 <= a < b < after.len() implies (
                    #[trigger] after[a]).category@ != (#[trigger] after[b]).category@ by {
                        let a2 = if a < i {
                            a
                        } else {
                            a + 1
                        };
                        let b2 = if b < i {
                            b
                        } else {
                            b + 1
                        };
                        assert(after[a] == before[a2]);
                        assert(after[b] == before[b2]);
                    }
                    assert forall|k: Seq<char>| self@.contains_key(k) == old(self)@.remove(
                        category@,
                    ).contains_key(k) by {
                        if self@.contains_key(k) {
                            let a = choose|a: int| bucket_at(self.buckets@, k, a);
                            let a2 = if a < i {
                                a
                            } else {
                                a + 1
                            };
                            assert(after[a] == before[a2]);
                            assert(bucket_at(old(self).buckets@, k, a2));
                            if k == category@ {
                                assert(before[a2].category@ == before[i as int].category@);
                            }
                        } else if old(self)@.contains_key(k) && k != category@ {
                            let a2 = choose|a: int| bucket_at(old(self).buckets@, k, a);
                            let a = if a2 < i {
                                a2
                            } else {
                                a2 - 1
                            };
                            assert(after[a] == before[a2]);
                            assert(bucket_at(self.buckets@, k, a));
                        }
                    }
                    assert forall|k: Seq<char>| self@.contains_key(k) implies self@[k]
                        == old(self)@.remove(category@)[k] by {
                        let a = choose|a: int| bucket_at(self.buckets@, k, a);
                        let a2 = if a < i {
                            a
                        } else {
                            a + 1
                        };
                        assert(after[a] == before[a2]);
                        lemma_bucket_map(self.buckets@, a);
                        lemma_bucket_map(old(self).buckets@, a2);
                    }
                    assert(self@ =~= old(self)@.remove(category@));
                }
                bucket.items
            },
            None => {
                let none: Vec<Instinct> = Vec::new();
                proof {
                    assert(self@ =~= old(self)@.remove(category@));
                    assert(insts(none@) =~= Seq::<Inst>::empty());
                }
                none
            },
        }
    }

    /// Puts a category's instincts into the store.
    fn put_bucket(&mut self, category: String, items: Vec<Instinct>)
        requires
            old(self).valid(),
            !old(self)@.contains_key(category@),
        ensures
            final(self).valid(),
            final(self)@ == old(self)@.insert(category@, insts(items@)),
    {
        let ghost before = self.buckets@;
        let bucket = Bucket { category, items };
        let ghost bv = bucket;
        self.buckets.push(bucket);
        proof {
            lemma_bucket_map_push(before, bv);
        }
    }

    /// Takes over the instincts of one file: they replace the bucket of the
    /// category of the first one. An empty file says nothing.
    pub fn load(&mut self, items: Vec<Instinct>)
        requires
            old(self).valid(),
        ensures
            final(self).valid(),
            final(self)@ == (if items@.len() == 0 {
                old(self)@
            } else {
                old(self)@.insert(items@[0].failure_category@, insts(items@))
            }),
    {
        if items.len() == 0 {
            return;
        }
        let category = items[0].failure_category.clone();
        let ghost before = self@;
        let _old = self.take_bucket(category.as_str());
        let ghost cat = category@;
        let ghost list = insts(items@);
        self.put_bucket(category, items);
        proof {
            assert(before.remove(cat).insert(cat, list) =~= before.insert(cat, list));
        }
    }

    /// The instincts against a failure for an operation, by descending
    /// confidence.
    pub fn query(&self, mode: &FailureMode, operation: &str) -> (r: Vec<Instinct>)
        requires
            self.valid(),
        ensures
            insts(r@) == ranked(hits(bucket_of(self@, mode@.category()), operation@)),
    {
        let mut out: Vec<Instinct> = Vec::new();
        proof {
            assert(insts(out@) =~= Seq::<Inst>::empty());
        }
        let b = match self.find_bucket(mode.category()) {
            Some(b) => b,
            None => {
                return out;
            },
        };
        let items = &self.buckets[b].items;
        let ghost all = insts(items@);
        let mut i: usize = 0;
        while i < items.len()
            invariant
                i <= items.len(),
                all == insts(items@),
                insts(out@) == ranked(hits(all.take(i as int), operation@)),
            decreases items.len() - i,
        {
            proof {
                assert(all.take(i + 1).drop_last() =~= all.take(i as int));
                assert(all.take(i + 1).last() == items@[i as int]@);
            }
            if items[i].matches_operation(operation) {
                let ghost found = hits(all.take(i as int), operation@);
                let ghost before = insts(out@);
                let item = items[i].copy();
                let mut k: usize = out.len();
                while k > 0 && out[k - 1].confidence.is_less(&item.confidence)
                    invariant
                        k <= out.len(),
                        before == insts(out@),
                        forall|j: int|
                            k <= j < before.len() ==> (#[trigger] before[j]).confidence.less(
                                item@.confidence,
                            ),
                    decreases k,
                {
                    k = k - 1;
                    proof {
                        assert(before[k as int] == out@[k as int]@);
                    }
                }
                proof {
                    if k > 0 {
                        assert(before[k - 1] == out@[k - 1]@);
                    }
                    lemma_insert_at(before, item@, k as int);
                    assert(found.push(item@).drop_last() =~= found);
                }
                let ghost iv = item@;
                out.insert(k, item);
                proof {
                    assert(insts(out@) =~= before.insert(k as int, iv));
                }
            }
            i = i + 1;
        }
        proof {
            assert(all.take(i as int) =~= all);
        }
        out
    }

    /// Registers advice, unless it is there. The identifier for a new instinct
    /// and the time are passed in; what is returned is the identifier under
    /// which the advice is known.
    pub fn register(
        &mut self,
        mode: &FailureMode,
        operation_pattern: &str,
        recovery_description: &str,
        fresh_id: String,
        now: String,
    ) -> (r: String)
        requires
            old(self).valid(),
        ensures
            final(self).valid(),
            registered(
                old(self)@,
                final(self)@,
                mode@.category(),
                operation_pattern@,
                recovery_description@,
                fresh_id@,
                now@,
                r@,
            ),
    {
        let key = mode.category();
        let ghost cat = key@;
        let ghost before = self@;
        if let Some(b) = self.find_bucket(key) {
            let items = &self.buckets[b].items;
            let ghost all = insts(items@);
            let mut i: usize = 0;
            while i < items.len()
                invariant
                    i <= items.len(),
                    all == insts(items@),
                    before == self@,
                    old(self)@ == self@,
                    self.valid(),
                    cat == mode@.category(),
                    before.contains_key(cat),
                    all == before[cat],
                    forall|j: int|
                        0 <= j < i ==> !(#[trigger] all[j]).same_advice(
                            operation_pattern@,
                            recovery_description@,
                        ),
                decreases items.len() - i,
            {
                proof {
                    assert(all[i as int] == items@[i as int]@);
                }
                if items[i].gives(operation_pattern, recovery_description) {
                    proof {
                        assert(advice_at(
                            all,
                            operation_pattern@,
                            recovery_description@,
                            i as int,
                        ));
                    }
                    return items[i].id.clone();
                }
                i = i + 1;
            }
            proof {
                assert(!has_advice(all, operation_pattern@, recovery_description@));
            }
        }
        let r = fresh_id.clone();
        let inst = Instinct::new(
            fresh_id,
            key.to_string(),
            operation_pattern.to_string(),
            recovery_description.to_string(),
            now,
        );
        let ghost iv = inst@;
        let mut items = self.take_bucket(key);
        let ghost list = insts(items@);
        items.push(inst);
        proof {
            assert(insts(items@) =~= list.push(iv));
        }
        self.put_bucket(key.to_string(), items);
        proof {
            assert(self@ =~= before.insert(cat, list.push(iv)));
        }
        r
    }

    /// Where the instinct of that identifier stands: its bucket and its position
    /// in it.
    fn locate(&self, instinct_id: &str) -> (r: Option<(usize, usize)>)
        requires
            self.valid(),
        ensures
            match r {
                Some((b, i)) => b < self.buckets@.len() && id_at(
                    insts(self.buckets@[b as int].items@),
                    instinct_id@,
                    i as int,
                ),
                None => id_unknown(self@, instinct_id@),
            },
    {
        let mut b: usize = 0;
        while b < self.buckets.len()
            invariant
                b <= self.buckets.len(),
                forall|c: int, j: int|
                    0 <= c < b && 0 <= j < self.buckets@[c].items@.len() ==> (
                    #[trigger] self.buckets@[c].items@[j]).id@ != instinct_id@,
            decreases self.buckets.len() - b,
        {
            let items = &self.buckets[b].items;
            let mut i: usize = 0;
            while i < items.len()
                invariant
                    i <= items.len(),
                    b < self.buckets.len(),
                    items@ == self.buckets@[b as int].items@,
                    forall|j: int| 0 <= j < i ==> (#[trigger] items@[j]).id@ != instinct_id@,
                decreases items.len() - i,
            {
                if text::same_text(items[i].id.as_str(), instinct_id) {
                    proof {
                        let bucket = insts(items@);
                        assert forall|j: int| 0 <= j < i implies (#[trigger] bucket[j]).id
                            != instinct_id@ by {
                            assert(items@[j].id@ != instinct_id@);
                        }
                        assert(id_at(bucket, instinct_id@, i as int));
                    }
                    return Some((b, i));
                }
                i = i + 1;
            }
            b = b + 1;
        }
        proof {
            assert forall|k: Seq<char>, i: int|
                self@.contains_key(k) && 0 <= i < self@[k].len() implies (#[trigger] self@[k][i]).id
                != instinct_id@ by {
                let c = choose|c: int| bucket_at(self.buckets@, k, c);
                lemma_bucket_map(self.buckets@, c);
                assert(self@[k][i] == self.buckets@[c].items@[i]@);
            }
        }
        None
    }

    /// Takes in that an instinct helped, or did not. What is returned is the
    /// category whose bucket has changed, if the instinct is known.
    fn record(&mut self, instinct_id: &str, success: bool, now: String) -> (r: Option<String>)
        requires
            old(self).valid(),
        ensures
            final(self).valid(),
            recorded(
                old(self)@,
                final(self)@,
                instinct_id@,
                success,
                now@,
                text::opt_text(r),
            ),
    {
        let ghost before = self@;
        let (b, i) = match self.locate(instinct_id) {
            Some(at) => at,
            None => {
                return None;
            },
        };
        let category = self.buckets[b].category.clone();
        proof {
            lemma_bucket_map(self.buckets@, b as int);
        }
        let ghost bucket = before[category@];
        let mut items = self.take_bucket(category.as_str());
        proof {
            assert(insts(items@).len() == items@.len());
            assert(insts(items@)[i as int] == items@[i as int]@);
        }
        let mut item = items.remove(i);
        let ghost nv = now@;
        item.record(success, now);
        let ghost iv = item@;
        items.insert(i, item);
        proof {
            assert(insts(items@) =~= bucket.update(i as int, iv));
        }
        let name = category.clone();
        self.put_bucket(category, items);
        proof {
            assert(self@ =~= before.insert(name@, bucket.update(i as int, iv)));
            assert(updated(before, self@, name@, i as int, instinct_id@, success, nv));
            assert(updated_in(before, self@, name@, instinct_id@, success, nv));
        }
        Some(name)
    }

    /// Takes in that an instinct helped.
    pub fn record_success(&mut self, instinct_id: &str, now: String) -> (r: Option<String>)
        requires
            old(self).valid(),
        ensures
            final(self).valid(),
            recorded(old(self)@, final(self)@, instinct_id@, true, now@, text::opt_text(r)),
    {
        self.record(instinct_id, true, now)
    }

    /// Takes in that an instinct did not help.
    pub fn record_failure(&mut self, instinct_id: &str, now: String) -> (r: Option<String>)
        requires
            old(self).valid(),
        ensures
            final(self).valid(),
            recorded(old(self)@, final(self)@, instinct_id@, false, now@, text::opt_text(r)),
    {
        self.record(instinct_id, false, now)
    }

    /// Whether the bucket of a category holds this advice.
    fn knows(&self, category: &str, pattern: &str, description: &str) -> (r: bool)
        requires
            self.valid(),
        ensures
            r == has_advice(bucket_of(self@, category@), pattern@, description@),
    {
        match self.find_bucket(category) {
            None => false,
            Some(b) => {
                let items = &self.buckets[b].items;
                let ghost all = insts(items@);
                let mut i: usize = 0;
                while i < items.len()
                    invariant
                        i <= items.len(),
                        all == insts(items@),
                        all == bucket_of(self@, category@),
                        forall|j: int|
                            0 <= j < i ==> !(#[trigger] all[j]).same_advice(pattern@, description@),
                    decreases items.len() - i,
                {
                    proof {
                        assert(all[i as int] == items@[i as int]@);
                    }
                    if items[i].gives(pattern, description) {
                        return true;
                    }
                    i = i + 1;
                }
                false
            },
        }
    }

    /// Imports instincts. Advice that is there is kept as it is. What is
    /// returned is how many were added, how many were there, and the categories
    /// whose buckets have changed.
    pub fn import_all(&mut self, parsed: Vec<Instinct>) -> (r: (usize, usize, Vec<String>))
        requires
            old(self).valid(),
        ensures
            final(self).valid(),
            final(self)@ == import_list(old(self)@, insts(parsed@)).store,
            r.0 == import_list(old(self)@, insts(parsed@)).added,
            r.1 == import_list(old(self)@, insts(parsed@)).merged,
            r.0 + r.1 == parsed@.len(),
            all_items(final(self).buckets@).len() == all_items(old(self).buckets@).len() + r.0,
            text::texts(r.2@).no_duplicates(),
            forall|c: Seq<char>|
                text::texts(r.2@).contains(c) <==> import_list(
                    old(self)@,
                    insts(parsed@),
                ).touched.contains(c),
    {
        let ghost start = self@;
        let ghost all = insts(parsed@);
        let mut added: usize = 0;
        let mut merged: usize = 0;
        let mut touched: Vec<String> = Vec::new();
        let mut i: usize = 0;
        proof {
            assert(all.take(0) =~= Seq::<Inst>::empty());
            assert(text::texts(touched@) =~= Seq::<Seq<char>>::empty());
        }
        while i < parsed.len()
            invariant
                i <= parsed.len(),
                all == insts(parsed@),
                start == old(self)@,
                self.valid(),
                self@ == import_list(start, all.take(i as int)).store,
                added == import_list(start, all.take(i as int)).added,
                merged == import_list(start, all.take(i as int)).merged,
                added + merged == i,
                text::texts(touched@).no_duplicates(),
                forall|c: Seq<char>|
                    text::texts(touched@).contains(c) <==> import_list(
                        start,
                        all.take(i as int),
                    ).touched.contains(c),
            decreases parsed.len() - i,
        {
            proof {
                assert(all.take(i + 1).drop_last() =~= all.take(i as int));
                assert(all.take(i + 1).last() == parsed@[i as int]@);
            }
            let inc = parsed[i].copy();
            let ghost iv = inc@;
            let ghost now = import_list(start, all.take(i as int));
            if self.knows(
                inc.failure_category.as_str(),
                inc.operation_pattern.as_str(),
                inc.recovery_description.as_str(),
            ) {
                merged = merged + 1;
            } else {
                let category = inc.failure_category.clone();
                let ghost before = self@;
                let mut items = self.take_bucket(category.as_str());
                let ghost list = insts(items@);
                items.push(inc);
                proof {
                    assert(insts(items@) =~= list.push(iv));
                }
                self.put_bucket(category.clone(), items);
                proof {
                    assert(self@ =~= before.insert(category@, list.push(iv)));
                }
                added = added + 1;
                let ghost names = text::texts(touched@);
                if !text::list_has(&touched, category.as_str()) {
                    let ghost cv = category@;
                    touched.push(category);
                    proof {
                        let after = text::texts(touched@);
                        assert(after =~= names.push(cv));
                        assert forall|c: Seq<char>| after.contains(c) <==> now.touched.insert(
                            cv,
                        ).contains(c) by {
                            if after.contains(c) {
                                let k = choose|k: int| 0 <= k < after.len() && after[k] == c;
                                if k < names.len() {
                                    assert(names[k] == c);
                                    assert(names.contains(c));
                                }
                            } else {
                                if names.contains(c) {
                                    let k = choose|k: int| 0 <= k < names.len() && names[k] == c;
                                    assert(after[k] == c);
                                }
                                assert(after[names.len() as int] == cv);
                            }
                        }
                    }
                }
            }
            i = i + 1;
        }
        proof {
            assert(all.take(i as int) =~= all);
            lemma_total_counts_items(old(self).buckets@);
            lemma_total_counts_items(self.buckets@);
            lemma_import_counts(start, all);
        }
        (added, merged, touched)
    }

    /// All instincts, bucket by bucket.
    pub fn export_all(&self) -> (r: Vec<Instinct>)
        ensures
            insts(r@) == all_items(self.buckets@),
    {
        let mut out: Vec<Instinct> = Vec::new();
        let mut b: usize = 0;
        proof {
            assert(insts(out@) =~= all_items(self.buckets@.take(0)));
        }
        while b < self.buckets.len()
            invariant
                b <= self.buckets.len(),
                insts(out@) == all_items(self.buckets@.take(b as int)),
            decreases self.buckets.len() - b,
        {
            let items = &self.buckets[b].items;
            let ghost front = insts(out@);
            let ghost list = insts(items@);
            let mut i: usize = 0;
            proof {
                assert(front + list.take(0) =~= front);
            }
            while i < items.len()
                invariant
                    i <= items.len(),
                    list == insts(items@),
                    insts(out@) == front + list.take(i as int),
                decreases items.len() - i,
            {
                let ghost before = insts(out@);
                let item = items[i].copy();
                let ghost iv = item@;
                out.push(item);
                proof {
                    assert(insts(out@) =~= before.push(iv));
                    assert(iv == list[i as int]);
                    assert(list.take(i + 1) =~= list.take(i as int).push(iv));
                    assert(before.push(iv) =~= front + list.take(i + 1));
                }
                i = i + 1;
            }
            proof {
                assert(list.take(i as int) =~= list);
                let t = self.buckets@.take(b + 1);
                assert(t.drop_last() =~= self.buckets@.take(b as int));
                assert(t.last() == self.buckets@[b as int]);
            }
            b = b + 1;
        }
        proof {
            assert(self.buckets@.take(b as int) =~= self.buckets@);
        }
        out
    }
}

/// What a registration does: the first instinct with that advice is named and
/// nothing changes, or else a fresh instinct is added at the end of its bucket.
pub open spec fn registered(
    before: Map<Seq<char>, Seq<Inst>>,
    after: Map<Seq<char>, Seq<Inst>>,
    category: Seq<char>,
    pattern: Seq<char>,
    description: Seq<char>,
    fresh_id: Seq<char>,
    now: Seq<char>,
    id: Seq<char>,
) -> bool {
    let bucket = bucket_of(before, category);
    if has_advice(bucket, pattern, description) {
        &&& after == before
        &&& exists|i: int| #[trigger] advice_at(bucket, pattern, description, i) && bucket[i].id
            == id
    } else {
        &&& id == fresh_id
        &&& after == before.insert(
            category,
            bucket.push(Inst::fresh(fresh_id, category, pattern, description, now)),
        )
    }
}

/// One instinct takes in an outcome; all others stay.
pub open spec fn updated(
    before: Map<Seq<char>, Seq<Inst>>,
    after: Map<Seq<char>, Seq<Inst>>,
    category: Seq<char>,
    i: int,
    id: Seq<char>,
    success: bool,
    now: Seq<char>,
) -> bool {
    &&& before.contains_key(category)
    &&& id_at(before[category], id, i)
    &&& after == before.insert(
        category,
        before[category].update(i, before[category][i].after(success, now)),
    )
}

/// The instinct of that identifier in that category takes in an outcome.
pub open spec fn updated_in(
    before: Map<Seq<char>, Seq<Inst>>,
    after: Map<Seq<char>, Seq<Inst>>,
    category: Seq<char>,
    id: Seq<char>,
    success: bool,
    now: Seq<char>,
) -> bool {
    exists|i: int| #[trigger] updated(before, after, category, i, id, success, now)
}

/// What recording an outcome does: nothing for an unknown identifier, and else
/// the instinct of that identifier takes it in.
pub open spec fn recorded(
    before: Map<Seq<char>, Seq<Inst>>,
    after: Map<Seq<char>, Seq<Inst>>,
    id: Seq<char>,
    success: bool,
    now: Seq<char>,
    category: Option<Seq<char>>,
) -> bool {
    match category {
        None => after == before && id_unknown(before, id),
        Some(c) => updated_in(before, after, c, id, success, now),
    }
}

/// Every bucket holds only instincts of its category, and no advice twice.
pub open spec fn tidy(m: Map<Seq<char>, Seq<Inst>>) -> bool {
    forall|k: Seq<char>| #[trigger] m.contains_key(k) ==> tidy_bucket(k, m[k])
}

/// A bucket holds only instincts of its category, and no advice twice.
pub open spec fn tidy_bucket(category: Seq<char>, bucket: Seq<Inst>) -> bool {
    &&& forall|i: int| 0 <= i < bucket.len() ==> (#[trigger] bucket[i]).category == category
    &&& forall|i: int, j: int|
        0 <= i < j < bucket.len() ==> !(#[trigger] bucket[i]).same_advice(
            (#[trigger] bucket[j]).pattern,
            bucket[j].description,
        )
}

/// Adding advice that is not there keeps a bucket tidy.
proof fn lemma_tidy_push(category: Seq<char>, bucket: Seq<Inst>, x: Inst)
    requires
        tidy_bucket(category, bucket),
        x.category == category,
        !has_advice(bucket, x.pattern, x.description),
    ensures
        tidy_bucket(category, bucket.push(x)),
{
    let b = bucket.push(x);
    assert forall|i: int, j: int| 0 <= i < j < b.len() implies !(#[trigger] b[i]).same_advice(
        (#[trigger] b[j]).pattern,
        b[j].description,
    ) by {
        assert(b[i] == bucket[i]);
        if j < bucket.len() {
            assert(b[j] == bucket[j]);
        }
    }
}

/// Registering advice keeps a store tidy.
pub proof fn lemma_register_keeps_tidy(
    before: Map<Seq<char>, Seq<Inst>>,
    after: Map<Seq<char>, Seq<Inst>>,
    category: Seq<char>,
    pattern: Seq<char>,
    description: Seq<char>,
    fresh_id: Seq<char>,
    now: Seq<char>,
    id: Seq<char>,
)
    requires
        tidy(before),
        registered(before, after, category, pattern, description, fresh_id, now, id),
    ensures
        tidy(after),
{
    let bucket = bucket_of(before, category);
    if !has_advice(bucket, pattern, description) {
        lemma_tidy_push(
            category,
            bucket,
            Inst::fresh(fresh_id, category, pattern, description, now),
        );
    }
}

/// Recording an outcome keeps a store tidy.
pub proof fn lemma_record_keeps_tidy(
    before: Map<Seq<char>, Seq<Inst>>,
    after: Map<Seq<char>, Seq<Inst>>,
    id: Seq<char>,
    success: bool,
    now: Seq<char>,
    category: Option<Seq<char>>,
)
    requires
        tidy(before),
        recorded(before, after, id, success, now, category),
    ensures
        tidy(after),
{
    if let Some(c) = category {
        let i = choose|i: int| updated(before, after, c, i, id, success, now);
        let b = before[c];
        let u = b.update(i, b[i].after(success, now));
        assert(tidy_bucket(c, b));
        assert forall|x: int, y: int| 0 <= x < y < u.len() implies !(#[trigger] u[x]).same_advice(
            (#[trigger] u[y]).pattern,
            u[y].description,
        ) by {
            assert(!b[x].same_advice(b[y].pattern, b[y].description));
        }
        assert forall|x: int| 0 <= x < u.len() implies (#[trigger] u[x]).category == c by {
            assert(b[x].category == c);
        }
        assert(tidy_bucket(c, u));
        assert forall|k: Seq<char>| #[trigger] after.contains_key(k) implies tidy_bucket(
            k,
            after[k],
        ) by {
            if k != c {
                assert(before.contains_key(k));
            }
        }
    }
}

/// Importing keeps a store tidy.
pub proof fn lemma_import_keeps_tidy(store: Map<Seq<char>, Seq<Inst>>, list: Seq<Inst>)
    requires
        tidy(store),
    ensures
        tidy(import_list(store, list).store),
    decreases list.len(),
{
    if list.len() > 0 {
        lemma_import_keeps_tidy(store, list.drop_last());
        let s = import_list(store, list.drop_last());
        let inc = list.last();
        let bucket = bucket_of(s.store, inc.category);
        if !has_advice(bucket, inc.pattern, inc.description) {
            lemma_tidy_push(inc.category, bucket, inc);
        }
    }
}

/// Registering the same advice a second time changes nothing and names the same
/// instinct.
pub proof fn lemma_register_is_idempotent(
    m0: Map<Seq<char>, Seq<Inst>>,
    m1: Map<Seq<char>, Seq<Inst>>,
    m2: Map<Seq<char>, Seq<Inst>>,
    category: Seq<char>,
    pattern: Seq<char>,
    description: Seq<char>,
    first: (Seq<char>, Seq<char>, Seq<char>),
    second: (Seq<char>, Seq<char>, Seq<char>),
)
    requires
        registered(m0, m1, category, pattern, description, first.0, first.1, first.2),
        registered(m1, m2, category, pattern, description, second.0, second.1, second.2),
    ensures
        m2 == m1,
        second.2 == first.2,
{
    let b0 = bucket_of(m0, category);
    let b1 = bucket_of(m1, category);
    if has_advice(b0, pattern, description) {
        let i = choose|i: int|
            advice_at(b0, pattern, description, i) && b0[i].id == first.2;
        let j = choose|j: int|
            advice_at(b1, pattern, description, j) && b1[j].id == second.2;
        assert(i == j) by {
            if i < j {
                assert(!b1[i].same_advice(pattern, description));
            }
            if j < i {
                assert(!b0[j].same_advice(pattern, description));
            }
        }
    } else {
        let n = b0.len() as int;
        assert(b1[n].same_advice(pattern, description));
        let j = choose|j: int|
            advice_at(b1, pattern, description, j) && b1[j].id == second.2;
        if j < n {
            assert(b1[j] == b0[j]);
        }
        if n < j {
            assert(!b1[n].same_advice(pattern, description));
        }
    }
}

/// What is registered is found: after a registration, a query for an operation
/// that the pattern covers gives an instinct with that advice.
pub proof fn lemma_registered_is_found(
    before: Map<Seq<char>, Seq<Inst>>,
    after: Map<Seq<char>, Seq<Inst>>,
    category: Seq<char>,
    pattern: Seq<char>,
    description: Seq<char>,
    fresh_id: Seq<char>,
    now: Seq<char>,
    id: Seq<char>,
    operation: Seq<char>,
)
    requires
        registered(before, after, category, pattern, description, fresh_id, now, id),
        pattern == "*"@ || pattern == operation,
    ensures
        exists|x: Inst|
            #[trigger] ranked(hits(bucket_of(after, category), operation)).contains(x)
                && x.same_advice(pattern, description) && x.id == id,
{
    let bucket = bucket_of(after, category);
    let i = if has_advice(bucket_of(before, category), pattern, description) {
        choose|i: int| advice_at(bucket, pattern, description, i) && bucket[i].id == id
    } else {
        bucket.len() - 1
    };
    lemma_hits_hold(bucket, operation, i);
    lemma_ranked_holds(hits(bucket, operation), bucket[i]);
}

proof fn lemma_hits_hold(bucket: Seq<Inst>, operation: Seq<char>, i: int)
    requires
        0 <= i < bucket.len(),
        bucket[i].matches_op(operation),
    ensures
        hits(bucket, operation).contains(bucket[i]),
    decreases bucket.len(),
{
    let rest = hits(bucket.drop_last(), operation);
    if i < bucket.len() - 1 {
        lemma_hits_hold(bucket.drop_last(), operation, i);
        let k = choose|k: int| 0 <= k < rest.len() && rest[k] == bucket[i];
        assert(hits(bucket, operation)[k] == bucket[i]);
    } else {
        assert(rest.push(bucket[i])[rest.len() as int] == bucket[i]);
    }
}

proof fn lemma_insert_holds(s: Seq<Inst>, x: Inst)
    ensures
        insert_ranked(s, x).contains(x),
        forall|y: Inst| s.contains(y) ==> #[trigger] insert_ranked(s, x).contains(y),
    decreases s.len(),
{
    let r = insert_ranked(s, x);
    if s.len() > 0 && s.last().confidence.less(x.confidence) {
        let t = s.drop_last();
        lemma_insert_holds(t, x);
        let u = insert_ranked(t, x);
        let k = choose|k: int| 0 <= k < u.len() && u[k] == x;
        assert(r[k] == x);
        assert forall|y: Inst| s.contains(y) implies #[trigger] r.contains(y) by {
            let i = choose|i: int| 0 <= i < s.len() && s[i] == y;
            if i < t.len() {
                assert(t[i] == y);
                assert(t.contains(y));
                assert(u.contains(y));
                let j = choose|j: int| 0 <= j < u.len() && u[j] == y;
                assert(r[j] == y);
            } else {
                assert(r[u.len() as int] == y);
            }
        }
    } else {
        assert(r[s.len() as int] == x);
        assert forall|y: Inst| s.contains(y) implies #[trigger] r.contains(y) by {
            let i = choose|i: int| 0 <= i < s.len() && s[i] == y;
            assert(r[i] == y);
        }
    }
}

proof fn lemma_ranked_holds(s: Seq<Inst>, x: Inst)
    requires
        s.contains(x),
    ensures
        ranked(s).contains(x),
    decreases s.len(),
{
    let t = s.drop_last();
    let i = choose|i: int| 0 <= i < s.len() && s[i] == x;
    lemma_insert_holds(ranked(t), s.last());
    if i < t.len() {
        assert(t[i] == x);
        lemma_ranked_holds(t, x);
        assert(insert_ranked(ranked(t), s.last()).contains(x));
    }
}

/// Advice that is in a store stays there through an import, and what is imported
/// is there afterwards.
proof fn lemma_import_brings(
    store: Map<Seq<char>, Seq<Inst>>,
    list: Seq<Inst>,
    c: Seq<char>,
    p: Seq<char>,
    d: Seq<char>,
)
    ensures
        has_advice(bucket_of(store, c), p, d) ==> has_advice(
            bucket_of(import_list(store, list).store, c),
            p,
            d,
        ),
        forall|i: int|
            0 <= i < list.len() ==> has_advice(
                bucket_of(import_list(store, list).store, (#[trigger] list[i]).category),
                list[i].pattern,
                list[i].description,
            ),
    decreases list.len(),
{
    if list.len() > 0 {
        let t = list.drop_last();
        lemma_import_brings(store, t, c, p, d);
        let s = import_list(store, t);
        let inc = list.last();
        let r = import_one(s, inc);
        assert forall|k: Seq<char>, a: Seq<char>, b: Seq<char>|
            has_advice(bucket_of(s.store, k), a, b) implies #[trigger] has_advice(
            bucket_of(r.store, k),
            a,
            b,
        ) by {
            let x = bucket_of(s.store, k);
            let y = bucket_of(r.store, k);
            let i = choose|i: int| 0 <= i < x.len() && (#[trigger] x[i]).same_advice(a, b);
            assert(y[i] == x[i]);
        }
        assert(has_advice(bucket_of(r.store, inc.category), inc.pattern, inc.description)) by {
            let x = bucket_of(s.store, inc.category);
            if !has_advice(x, inc.pattern, inc.description) {
                let y = bucket_of(r.store, inc.category);
                assert(y[x.len() as int] == inc);
            }
        }
        assert forall|i: int| 0 <= i < list.len() implies has_advice(
            bucket_of(r.store, (#[trigger] list[i]).category),
            list[i].pattern,
            list[i].description,
        ) by {
            if i < t.len() {
                assert(t[i] == list[i]);
            }
        }
    }
}

proof fn lemma_import_known(store: Map<Seq<char>, Seq<Inst>>, list: Seq<Inst>)
    requires
        forall|i: int|
            0 <= i < list.len() ==> has_advice(
                bucket_of(store, (#[trigger] list[i]).category),
                list[i].pattern,
                list[i].description,
            ),
    ensures
        import_list(store, list) == (Importing {
            store,
            added: 0,
            merged: list.len(),
            touched: Set::empty(),
        }),
    decreases list.len(),
{
    if list.len() > 0 {
        let t = list.drop_last();
        assert forall|i: int| 0 <= i < t.len() implies has_advice(
            bucket_of(store, (#[trigger] t[i]).category),
            t[i].pattern,
            t[i].description,
        ) by {
            assert(t[i] == list[i]);
        }
        lemma_import_known(store, t);
        assert(has_advice(
            bucket_of(store, list[list.len() - 1].category),
            list[list.len() - 1].pattern,
            list[list.len() - 1].description,
        ));
    }
}

/// Importing the same list again adds nothing: all of it is there.
pub proof fn lemma_reimport_merges(store: Map<Seq<char>, Seq<Inst>>, list: Seq<Inst>)
    ensures
        import_list(import_list(store, list).store, list) == (Importing {
            store: import_list(store, list).store,
            added: 0,
            merged: list.len(),
            touched: Set::empty(),
        }),
{
    lemma_import_brings(store, list, Seq::empty(), Seq::empty(), Seq::empty());
    lemma_import_known(import_list(store, list).store, list);
}

/// How many instincts there are in a store.
pub open spec fn total(m: Map<Seq<char>, Seq<Inst>>) -> nat
    decreases m.dom().len(),
    when m.dom().finite()
{
    if m.dom().len() == 0 {
        0
    } else {
        let k = m.dom().choose();
        m[k].len() + total(m.remove(k))
    }
}

proof fn lemma_total_without(m: Map<Seq<char>, Seq<Inst>>, k: Seq<char>)
    requires
        m.dom().finite(),
        m.contains_key(k),
    ensures
        total(m) == m[k].len() + total(m.remove(k)),
    decreases m.dom().len(),
{
    let c = m.dom().choose();
    assert(m.dom().contains(k));
    assert(m.dom().len() > 0);
    assert(m.dom().contains(c));
    if c != k {
        lemma_total_without(m.remove(c), k);
        lemma_total_without(m.remove(k), c);
        assert(m.remove(c).remove(k) =~= m.remove(k).remove(c));
    }
}

proof fn lemma_total_with(m: Map<Seq<char>, Seq<Inst>>, k: Seq<char>, v: Seq<Inst>)
    requires
        m.dom().finite(),
    ensures
        m.insert(k, v).dom().finite(),
        total(m.insert(k, v)) + bucket_of(m, k).len() == total(m) + v.len(),
{
    assert(m.insert(k, v).dom() =~= m.dom().insert(k));
    lemma_total_without(m.insert(k, v), k);
    if m.contains_key(k) {
        lemma_total_without(m, k);
        assert(m.insert(k, v).remove(k) =~= m.remove(k));
    } else {
        assert(m.insert(k, v).remove(k) =~= m);
    }
}

/// What the buckets hold in a row is what the store holds.
pub proof fn lemma_total_counts_items(buckets: Seq<Bucket>)
    requires
        distinct_buckets(buckets),
    ensures
        bucket_map(buckets).dom().finite(),
        total(bucket_map(buckets)) == all_items(buckets).len(),
    decreases buckets.len(),
{
    if buckets.len() == 0 {
        assert(bucket_map(buckets).dom() =~= Set::empty());
    } else {
        let t = buckets.drop_last();
        let b = buckets.last();
        assert(distinct_buckets(t)) by {
            assert forall|i: int, j: int| 0 <= i < j < t.len() implies (
            #[trigger] t[i]).category@ != (#[trigger] t[j]).category@ by {
                assert(t[i] == buckets[i] && t[j] == buckets[j]);
            }
        }
        lemma_total_counts_items(t);
        if bucket_map(t).contains_key(b.category@) {
            let i = choose|i: int| bucket_at(t, b.category@, i);
            assert(t[i] == buckets[i]);
            assert(buckets[i].category@ != buckets[buckets.len() - 1].category@);
        }
        lemma_bucket_map_push(t, b);
        assert(t.push(b) =~= buckets);
        lemma_total_with(bucket_map(t), b.category@, insts(b.items@));
    }
}

/// What an import does to a store: everything that is imported is either added
/// or was there, and the total grows by what was added. The instincts of the
/// store stay as they are, at their places, and none that comes after them
/// repeats advice that stands before it.
pub proof fn lemma_import_counts(store: Map<Seq<char>, Seq<Inst>>, list: Seq<Inst>)
    requires
        store.dom().finite(),
    ensures
        ({
            let r = import_list(store, list);
            &&& r.store.dom().finite()
            &&& r.added + r.merged == list.len()
            &&& total(r.store) == total(store) + r.added
            &&& forall|c: Seq<char>|
                bucket_of(store, c).len() <= #[trigger] bucket_of(r.store, c).len()
            &&& forall|c: Seq<char>, i: int|
                0 <= i < bucket_of(store, c).len() ==> #[trigger] bucket_of(r.store, c)[i]
                    == bucket_of(store, c)[i]
            &&& forall|c: Seq<char>, i: int, j: int|
                0 <= i < j < bucket_of(r.store, c).len() && bucket_of(store, c).len() <= j
                    ==> !(#[trigger] bucket_of(r.store, c)[i]).same_advice(
                    (#[trigger] bucket_of(r.store, c)[j]).pattern,
                    bucket_of(r.store, c)[j].description,
                )
        }),
    decreases list.len(),
{
    if list.len() > 0 {
        let t = list.drop_last();
        lemma_import_counts(store, t);
        let s = import_list(store, t);
        let inc = list.last();
        let bucket = bucket_of(s.store, inc.category);
        let r = import_one(s, inc);
        if !has_advice(bucket, inc.pattern, inc.description) {
            lemma_total_with(s.store, inc.category, bucket.push(inc));
            assert forall|c: Seq<char>|
                bucket_of(store, c).len() <= #[trigger] bucket_of(r.store, c).len() by {
                assert(bucket_of(store, c).len() <= bucket_of(s.store, c).len());
            }
            assert forall|c: Seq<char>, i: int|
                0 <= i < bucket_of(store, c).len() implies #[trigger] bucket_of(r.store, c)[i]
                == bucket_of(store, c)[i] by {
                assert(bucket_of(store, c).len() <= bucket_of(s.store, c).len());
                assert(bucket_of(s.store, c)[i] == bucket_of(store, c)[i]);
            }
            assert forall|c: Seq<char>, i: int, j: int|
                0 <= i < j < bucket_of(r.store, c).len() && bucket_of(store, c).len()
                    <= j implies !(#[trigger] bucket_of(r.store, c)[i]).same_advice(
                (#[trigger] bucket_of(r.store, c)[j]).pattern,
                bucket_of(r.store, c)[j].description,
            ) by {
                let x = bucket_of(s.store, c);
                assert(bucket_of(r.store, c)[i] == x[i]);
                if j < x.len() {
                    assert(bucket_of(r.store, c)[j] == x[j]);
                } else {
                    assert(c == inc.category);
                    assert(bucket_of(r.store, c)[j] == inc);
                    assert(!bucket[i].same_advice(inc.pattern, inc.description));
                }
            }
        }
    }
}

/// How an import ends that was fresh in all its parts.
pub open spec fn all_added(r: Importing, store: Map<Seq<char>, Seq<Inst>>, n: nat) -> bool {
    r.store == store && r.added == n && r.merged == 0
}

proof fn lemma_import_bucket(
    store: Map<Seq<char>, Seq<Inst>>,
    front: Seq<Inst>,
    category: Seq<char>,
    items: Seq<Inst>,
    j: int,
)
    requires
        0 < j <= items.len(),
        tidy_bucket(category, items),
        !store.contains_key(category),
        all_added(import_list(Map::empty(), front), store, front.len()),
    ensures
        all_added(
            import_list(Map::empty(), front + items.take(j)),
            store.insert(category, items.take(j)),
            (front.len() + j) as nat,
        ),
    decreases j,
{
    let list = front + items.take(j);
    let x = items[j - 1];
    assert(list.drop_last() =~= front + items.take(j - 1));
    assert(list.last() == x);
    assert(x.category == category);
    if j == 1 {
        assert(front + items.take(0) =~= front);
        assert(items.take(1) =~= Seq::empty().push(x));
        assert(!has_advice(Seq::<Inst>::empty(), x.pattern, x.description));
    } else {
        lemma_import_bucket(store, front, category, items, j - 1);
        let before = items.take(j - 1);
        assert(items.take(j) =~= before.push(x));
        assert(!has_advice(before, x.pattern, x.description)) by {
            if has_advice(before, x.pattern, x.description) {
                let i = choose|i: int|
                    0 <= i < before.len() && (#[trigger] before[i]).same_advice(
                        x.pattern,
                        x.description,
                    );
                assert(before[i] == items[i]);
                assert(!items[i].same_advice(items[j - 1].pattern, items[j - 1].description));
            }
        }
        assert(store.insert(category, before).insert(category, before.push(x)) =~= store.insert(
            category,
            before.push(x),
        ));
    }
}

/// What is exported from a tidy store without empty buckets and imported into an
/// empty store makes the same store, and every instinct counts as added.
pub proof fn lemma_export_import_round_trip(buckets: Seq<Bucket>)
    requires
        distinct_buckets(buckets),
        tidy(bucket_map(buckets)),
        forall|i: int| 0 <= i < buckets.len() ==> (#[trigger] buckets[i]).items@.len() > 0,
    ensures
        all_added(
            import_list(Map::empty(), all_items(buckets)),
            bucket_map(buckets),
            all_items(buckets).len(),
        ),
    decreases buckets.len(),
{
    if buckets.len() == 0 {
        assert(bucket_map(buckets) =~= Map::<Seq<char>, Seq<Inst>>::empty());
    } else {
        let t = buckets.drop_last();
        let last = buckets.last();
        let n = t.len() as int;
        assert(buckets =~= t.push(last));
        assert forall|i: int, j: int| 0 <= i < j < t.len() implies (#[trigger] t[i]).category@ != (
        #[trigger] t[j]).category@ by {
            assert(t[i] == buckets[i] && t[j] == buckets[j]);
        }
        assert(!bucket_map(t).contains_key(last.category@)) by {
            if bucket_map(t).contains_key(last.category@) {
                let a = choose|a: int| bucket_at(t, last.category@, a);
                assert(t[a] == buckets[a]);
                assert(buckets[a].category@ != buckets[n].category@);
            }
        }
        lemma_bucket_map_push(t, last);
        let m = bucket_map(buckets);
        assert forall|k: Seq<char>| #[trigger] bucket_map(t).contains_key(k) implies tidy_bucket(
            k,
            bucket_map(t)[k],
        ) by {
            assert(m.contains_key(k));
            assert(m[k] == bucket_map(t)[k]);
        }
        assert forall|i: int| 0 <= i < t.len() implies (#[trigger] t[i]).items@.len() > 0 by {
            assert(t[i] == buckets[i]);
        }
        lemma_export_import_round_trip(t);
        let items = insts(last.items@);
        assert(m.contains_key(last.category@));
        assert(buckets[n].items@.len() > 0);
        lemma_import_bucket(
            bucket_map(t),
            all_items(t),
            last.category@,
            items,
            items.len() as int,
        );
        assert(items.take(items.len() as int) =~= items);
    }
}

/// What a store holds at a glance. The average confidence is left out.
#[derive(Debug, PartialEq, Eq)]
pub struct InstinctStats {
    pub total_instincts: u64,
    /// Each category with the number of its instincts.
    pub categories: Vec<(String, u64)>,
    /// The advice with the highest confidence, and that confidence.
    pub highest_confidence: Option<(String, Ratio)>,
    pub total_support: u64,
    pub total_failures: u64,
}

/// The number of successes of some instincts.
pub open spec fn support_sum(s: Seq<Inst>) -> nat
    decreases s.len(),
{
    if s.len() == 0 {
        0
    } else {
        support_sum(s.drop_last()) + s.last().support as nat
    }
}

/// The number of failures of some instincts.
pub open spec fn failure_sum(s: Seq<Inst>) -> nat
    decreases s.len(),
{
    if s.len() == 0 {
        0
    } else {
        failure_sum(s.drop_last()) + s.last().failures as nat
    }
}

/// The first instinct that is more confident than all before it, and no less
/// than any after it.
pub open spec fn best_of(s: Seq<Inst>) -> Option<(Seq<char>, Ratio)>
    decreases s.len(),
{
    if s.len() == 0 {
        None
    } else {
        match best_of(s.drop_last()) {
            None => Some((s.last().description, s.last().confidence)),
            Some(b) => if b.1.less(s.last().confidence) {
                Some((s.last().description, s.last().confidence))
            } else {
                Some(b)
            },
        }
    }
}

proof fn lemma_sums_grow(s: Seq<Inst>, k: int)
    requires
        0 <= k <= s.len(),
    ensures
        support_sum(s.take(k)) <= support_sum(s),
        failure_sum(s.take(k)) <= failure_sum(s),
    decreases s.len() - k,
{
    if k == s.len() {
        assert(s.take(k) =~= s);
    } else {
        lemma_sums_grow(s, k + 1);
        assert(s.take(k + 1).drop_last() =~= s.take(k));
    }
}

impl InstinctStore {
    /// Whether the counts of the store have sums that fit a counter.
    pub open spec fn summable(&self) -> bool {
        support_sum(all_items(self.buckets@)) <= u64::MAX && failure_sum(
            all_items(self.buckets@),
        ) <= u64::MAX
    }

    /// Whether the counts of the store can be summed up.
    pub fn can_be_summed(&self) -> (r: bool)
        ensures
            r == self.summable(),
    {
        let all = self.export_all();
        let ghost items = insts(all@);
        let mut support: u64 = 0;
        let mut failures: u64 = 0;
        let mut i: usize = 0;
        while i < all.len()
            invariant
                i <= all.len(),
                items == insts(all@),
                items == all_items(self.buckets@),
                support == support_sum(items.take(i as int)),
                failures == failure_sum(items.take(i as int)),
            decreases all.len() - i,
        {
            proof {
                assert(items.take(i + 1).drop_last() =~= items.take(i as int));
                assert(items.take(i + 1).last() == all@[i as int]@);
                lemma_sums_grow(items, i + 1);
            }
            match (
                support.checked_add(all[i].support_count),
                failures.checked_add(all[i].failure_count),
            ) {
                (Some(s), Some(f)) => {
                    support = s;
                    failures = f;
                },
                _ => {
                    return false;
                },
            }
            i = i + 1;
        }
        proof {
            assert(items.take(i as int) =~= items);
        }
        true
    }

    /// Sums up the store.
    pub fn stats(&self) -> (r: InstinctStats)
        requires
            self.summable(),
        ensures
            r.total_instincts == all_items(self.buckets@).len(),
            r.total_support == support_sum(all_items(self.buckets@)),
            r.total_failures == failure_sum(all_items(self.buckets@)),
            r.categories@.len() == self.buckets@.len(),
            forall|i: int|
                0 <= i < r.categories@.len() ==> (#[trigger] r.categories@[i]).0@
                    == self.buckets@[i].category@ && r.categories@[i].1
                    == self.buckets@[i].items@.len(),
            match r.highest_confidence {
                Some(h) => best_of(all_items(self.buckets@)) == Some((h.0@, h.1)),
                None => all_items(self.buckets@).len() == 0,
            },
    {
        let all = self.export_all();
        let ghost items = insts(all@);
        let mut support: u64 = 0;
        let mut failures: u64 = 0;
        let mut best: Option<(String, Ratio)> = None;
        let mut i: usize = 0;
        while i < all.len()
            invariant
                i <= all.len(),
                items == insts(all@),
                support_sum(items) <= u64::MAX,
                failure_sum(items) <= u64::MAX,
                support == support_sum(items.take(i as int)),
                failures == failure_sum(items.take(i as int)),
                match best {
                    Some(h) => best_of(items.take(i as int)) == Some((h.0@, h.1)),
                    None => i == 0,
                },
            decreases all.len() - i,
        {
            proof {
                assert(items.take(i + 1).drop_last() =~= items.take(i as int));
                assert(items.take(i + 1).last() == all@[i as int]@);
                lemma_sums_grow(items, i + 1);
            }
            support = support + all[i].support_count;
            failures = failures + all[i].failure_count;
            let better = match &best {
                Some(b) => b.1.is_less(&all[i].confidence),
                None => true,
            };
            if better {
                best = Some((all[i].recovery_description.clone(), all[i].confidence));
            }
            i = i + 1;
        }
        proof {
            assert(items.take(i as int) =~= items);
        }
        let mut categories: Vec<(String, u64)> = Vec::new();
        let mut b: usize = 0;
        while b < self.buckets.len()
            invariant
                b <= self.buckets.len(),
                categories@.len() == b,
                forall|j: int|
                    0 <= j < b ==> (#[trigger] categories@[j]).0@ == self.buckets@[j].category@
                        && categories@[j].1 == self.buckets@[j].items@.len(),
            decreases self.buckets.len() - b,
        {
            categories.push(
                (self.buckets[b].category.clone(), self.buckets[b].items.len() as u64),
            );
            b = b + 1;
        }
        InstinctStats {
            total_instincts: all.len() as u64,
            categories,
            highest_confidence: best,
            total_support: support,
            total_failures: failures,
        }
    }
}

/// Advice from the store, from a least confidence on.
#[derive(Debug, Clone, Copy, PartialEq, Eq, Structural)]
pub struct InstinctPolicy {
    pub min_confidence: Ratio,
}

/// The actions that instincts stand for, from a least confidence on.
pub open spec fn actions_of(s: Seq<Inst>, least: Ratio) -> Seq<Inst>
    decreases s.len(),
{
    if s.len() == 0 {
        s
    } else {
        let rest = actions_of(s.drop_last(), least);
        if s.last().confidence.less(least) {
            rest
        } else {
            rest.push(s.last())
        }
    }
}

/// Whether an action is that of an instinct.
pub open spec fn is_action(a: RecoveryAction, x: Inst) -> bool {
    &&& a.description@ == x.description
    &&& a.confidence == x.confidence
    &&& a.source == RecoverySource::Instinct
    &&& !a.non_retryable
    &&& text::opt_text(a.instinct_id) == Some(x.id)
}

/// Whether the actions are those of the instincts, one for one.
pub open spec fn are_actions(v: Seq<RecoveryAction>, s: Seq<Inst>) -> bool {
    v.len() == s.len() && forall|i: int| 0 <= i < v.len() ==> is_action(#[trigger] v[i], s[i])
}

impl InstinctPolicy {
    /// A policy that uses every instinct.
    pub fn new() -> (r: Self)
        ensures
            r.min_confidence == (Ratio { num: 0, den: 1 }),
    {
        InstinctPolicy { min_confidence: Ratio { num: 0, den: 1 } }
    }

    /// The policy with a least confidence, of at most one.
    pub fn with_min_confidence(self, c: Ratio) -> (r: Self)
        ensures
            r.min_confidence == (if (Ratio { num: 1, den: 1 }).less(c) {
                Ratio { num: 1, den: 1 }
            } else {
                c
            }),
    {
        let one = Ratio { num: 1, den: 1 };
        if one.is_less(&c) {
            InstinctPolicy { min_confidence: one }
        } else {
            InstinctPolicy { min_confidence: c }
        }
    }

    /// What the store advises against a failure, by descending confidence.
    pub fn recover(&self, store: &InstinctStore, mode: &FailureMode, operation: &str) -> (r: Vec<
        RecoveryAction,
    >)
        requires
            store.valid(),
        ensures
            are_actions(
                r@,
                actions_of(
                    ranked(hits(bucket_of(store@, mode@.category()), operation@)),
                    self.min_confidence,
                ),
            ),
    {
        let found = store.query(mode, operation);
        let ghost all = insts(found@);
        let mut out: Vec<RecoveryAction> = Vec::new();
        let mut i: usize = 0;
        while i < found.len()
            invariant
                i <= found.len(),
                all == insts(found@),
                are_actions(out@, actions_of(all.take(i as int), self.min_confidence)),
            decreases found.len() - i,
        {
            proof {
                assert(all.take(i + 1).drop_last() =~= all.take(i as int));
                assert(all.take(i + 1).last() == found@[i as int]@);
            }
            if !found[i].confidence.is_less(&self.min_confidence) {
                out.push(
                    RecoveryAction {
                        description: found[i].recovery_description.clone(),
                        confidence: found[i].confidence,
                        source: RecoverySource::Instinct,
                        non_retryable: false,
                        instinct_id: Some(found[i].id.clone()),
                    },
                );
            }
            i = i + 1;
        }
        proof {
            assert(all.take(i as int) =~= all);
        }
        out
    }
}

/// No action is below the least confidence.
pub proof fn lemma_actions_meet_threshold(s: Seq<Inst>, least: Ratio)
    ensures
        forall|i: int|
            0 <= i < actions_of(s, least).len() ==> !(#[trigger] actions_of(
                s,
                least,
            )[i]).confidence.less(least),
    decreases s.len(),
{
    if s.len() > 0 {
        lemma_actions_meet_threshold(s.drop_last(), least);
        let rest = actions_of(s.drop_last(), least);
        let all = actions_of(s, least);
        assert forall|i: int| 0 <= i < all.len() implies !(#[trigger] all[i]).confidence.less(
            least,
        ) by {
            if i < rest.len() {
                assert(all[i] == rest[i]);
            }
        }
    }
}

/// The user's home directory: the first of the two variables that is set and not
/// empty.
pub open spec fn home_of(home: Option<Seq<char>>, userprofile: Option<Seq<char>>) -> Option<
    Seq<char>,
> {
    match home {
        Some(h) if h.len() > 0 => Some(h),
        _ => match userprofile {
            Some(u) if u.len() > 0 => Some(u),
            _ => None,
        },
    }
}

/// The user's home directory.
pub fn home_dir(home: Option<&str>, userprofile: Option<&str>) -> (r: Option<String>)
    ensures
        text::opt_text(r) == home_of(daemon::slice_text(home), daemon::slice_text(userprofile)),
{
    if let Some(h) = home {
        if !h.is_empty() {
            return Some(h.to_string());
        }
    }
    if let Some(u) = userprofile {
        if !u.is_empty() {
            return Some(u.to_string());
        }
    }
    None
}

impl InstinctStore {
    /// Where instincts are kept: below the directory that was chosen, and
    /// otherwise below the user's home directory.
    pub fn default_dir(chosen: Option<&str>, home: Option<&str>, userprofile: Option<&str>) -> (r:
        String)
        ensures
            r@ == kept_in(
                daemon::slice_text(chosen),
                home_of(daemon::slice_text(home), daemon::slice_text(userprofile)),
            ),
    {
        match chosen {
            Some(c) => paths::join_path(c, "instincts"),
            None => {
                let base: String = match home_dir(home, userprofile) {
                    Some(h) => h,
                    None => ".".to_string(),
                };
                let dir = paths::join_path(base.as_str(), ".nexus");
                paths::join_path(dir.as_str(), "instincts")
            },
        }
    }

    /// The file that keeps a category.
    pub fn category_file(dir: &str, category: &str) -> (r: String)
        ensures
            r@ == paths::joined_path(dir@, category@ + ".json"@),
    {
        let name = text::cat2(category, ".json");
        paths::join_path(dir, name.as_str())
    }
}

/// What is found for an operation is the advice for that operation and the
/// advice for all, and no other.
pub proof fn lemma_hits_are_for_the_operation(bucket: Seq<Inst>, operation: Seq<char>, x: Inst)
    ensures
        hits(bucket, operation).contains(x) <==> bucket.contains(x) && (x.pattern == "*"@
            || x.pattern == operation),
        hits(bucket, operation).len() <= bucket.len(),
    decreases bucket.len(),
{
    if bucket.len() > 0 {
        let before = bucket.drop_last();
        lemma_hits_are_for_the_operation(before, operation, x);
        let kept = hits(before, operation);
        let all = hits(bucket, operation);
        if all.contains(x) {
            let i = choose|i: int| 0 <= i < all.len() && all[i] == x;
            if i < kept.len() {
                assert(kept[i] == x);
                let j = choose|j: int| 0 <= j < before.len() && before[j] == x;
                assert(bucket[j] == x);
            } else {
                assert(bucket[bucket.len() - 1] == x);
            }
        }
        if bucket.contains(x) && (x.pattern == "*"@ || x.pattern == operation) {
            let j = choose|j: int| 0 <= j < bucket.len() && bucket[j] == x;
            if j < before.len() {
                assert(before[j] == x);
                let i = choose|i: int| 0 <= i < kept.len() && kept[i] == x;
                assert(all[i] == x);
            } else {
                assert(all[all.len() - 1] == x);
            }
        }
    }
}

/// A success counts for an instinct and a failure against it, each once; what it
/// advises stays as it was, and its confidence is that of its new counts.
pub proof fn lemma_outcomes_are_counted(x: Inst, now: Seq<char>)
    ensures
        x.support < u64::MAX ==> x.after(true, now).support == x.support + 1,
        x.after(true, now).failures == x.failures,
        x.failures < u64::MAX ==> x.after(false, now).failures == x.failures + 1,
        x.after(false, now).support == x.support,
        forall|success: bool|
            {
                let y = #[trigger] x.after(success, now);
                &&& y.id == x.id && y.category == x.category && y.pattern == x.pattern
                &&& y.description == x.description && y.created_at == x.created_at
                &&& y.last_updated == now
                &&& y.confidence.num == y.support + 1
                &&& y.confidence.den == y.support + y.failures + 2
            },
{
}

/// A recorded outcome counts for one instinct, the one of that identifier, and
/// leaves every other as it was; an unknown identifier leaves everything.
pub proof fn lemma_outcomes_touch_one_instinct(
    before: Map<Seq<char>, Seq<Inst>>,
    after: Map<Seq<char>, Seq<Inst>>,
    id: Seq<char>,
    success: bool,
    now: Seq<char>,
    category: Option<Seq<char>>,
    k: Seq<char>,
    j: int,
)
    requires
        recorded(before, after, id, success, now, category),
        before.contains_key(k),
        0 <= j < before[k].len(),
    ensures
        after.contains_key(k) && after[k].len() == before[k].len(),
        after[k][j] == before[k][j] || (before[k][j].id == id && after[k][j]
            == before[k][j].after(success, now)),
        before[k][j].id != id ==> after[k][j] == before[k][j],
        category matches Some(c) ==> exists|i: int|
            #![trigger before[c][i]]
            before.contains_key(c) && 0 <= i < before[c].len() && before[c][i].id == id
                && after[c][i] == before[c][i].after(success, now),
        category is None ==> before[k][j].id != id,
{
    if category is Some {
        let c = category->0;
        let i = choose|i: int| #[trigger] updated(before, after, c, i, id, success, now);
        assert(updated(before, after, c, i, id, success, now));
        assert(before[c][i].id == id);
        assert(after[c][i] == before[c][i].after(success, now));
    }
}

/// A new instinct knows nothing yet: nothing counts for or against it, and it is
/// as likely to help as not.
pub proof fn lemma_new_instincts_are_open(
    id: Seq<char>,
    category: Seq<char>,
    pattern: Seq<char>,
    description: Seq<char>,
    now: Seq<char>,
)
    ensures
        ({
            let x = Inst::fresh(id, category, pattern, description, now);
            &&& x.id == id && x.category == category && x.pattern == pattern
            &&& x.description == description
            &&& x.support == 0 && x.failures == 0
            &&& x.confidence == laplace(0, 0)
            &&& 2 * x.confidence.num == x.confidence.den
            &&& x.created_at == now && x.last_updated == now
        }),
{
}

/// The best advice is one that there is, none is more likely to help, and none
/// before it is as likely.
pub proof fn lemma_best_advice_is_best(s: Seq<Inst>)
    requires
        forall|i: int| 0 <= i < s.len() ==> (#[trigger] s[i]).confidence.valid(),
    ensures
        best_of(s) is Some <==> s.len() > 0,
        best_of(s) matches Some(b) ==> b.1.valid() && (exists|i: int|
            0 <= i < s.len() && (#[trigger] s[i]).description == b.0 && s[i].confidence == b.1)
            && (forall|i: int| 0 <= i < s.len() ==> !b.1.less((#[trigger] s[i]).confidence)),
    decreases s.len(),
{
    if s.len() > 0 {
        let before = s.drop_last();
        assert forall|i: int| 0 <= i < before.len() implies (
        #[trigger] before[i]).confidence.valid() by {
            assert(before[i] == s[i]);
        }
        lemma_best_advice_is_best(before);
        let b = best_of(s)->0;
        let last = s[s.len() - 1];
        assert(last.confidence.valid());
        match best_of(before) {
            None => {
                assert(s[0] == last);
            },
            Some(old) => {
                if old.1.less(last.confidence) {
                    assert(b == (last.description, last.confidence));
                    Ratio::lemma_less_is_one_way(old.1, last.confidence);
                    assert forall|i: int| 0 <= i < s.len() implies !b.1.less(
                        (#[trigger] s[i]).confidence,
                    ) by {
                        if i < before.len() {
                            assert(before[i] == s[i]);
                            Ratio::lemma_not_less_transitive(
                                last.confidence,
                                old.1,
                                s[i].confidence,
                            );
                        }
                    }
                } else {
                    let i = choose|i: int|
                        0 <= i < before.len() && (#[trigger] before[i]).description == old.0
                            && before[i].confidence == old.1;
                    assert(s[i] == before[i]);
                    assert forall|i: int| 0 <= i < s.len() implies !b.1.less(
                        (#[trigger] s[i]).confidence,
                    ) by {
                        if i < before.len() {
                            assert(before[i] == s[i]);
                        }
                    }
                }
            },
        }
    }
}

/// An instinct is proposed exactly if it is confident enough, and as what it is:
/// its words, its confidence, and its identifier for the outcome to be told.
pub proof fn lemma_confident_instincts_are_proposed(s: Seq<Inst>, least: Ratio, x: Inst)
    ensures
        actions_of(s, least).contains(x) <==> s.contains(x) && !x.confidence.less(least),
    decreases s.len(),
{
    if s.len() > 0 {
        let before = s.drop_last();
        lemma_confident_instincts_are_proposed(before, least, x);
        let kept = actions_of(before, least);
        let all = actions_of(s, least);
        if all.contains(x) {
            let i = choose|i: int| 0 <= i < all.len() && all[i] == x;
            if i < kept.len() {
                assert(kept[i] == x);
                let j = choose|j: int| 0 <= j < before.len() && before[j] == x;
                assert(s[j] == x);
            } else {
                assert(s[s.len() - 1] == x);
            }
        }
        if s.contains(x) && !x.confidence.less(least) {
            let j = choose|j: int| 0 <= j < s.len() && s[j] == x;
            if j < before.len() {
                assert(before[j] == x);
                let i = choose|i: int| 0 <= i < kept.len() && kept[i] == x;
                assert(all[i] == x);
            } else {
                assert(all[all.len() - 1] == x);
            }
        }
    }
}

/// A proposed action names its instinct and says what it advises.
pub proof fn lemma_actions_name_their_instinct(
    v: Seq<RecoveryAction>,
    s: Seq<Inst>,
    i: int,
)
    requires
        are_actions(v, s),
        0 <= i < s.len(),
    ensures
        v.len() == s.len(),
        v[i].instinct_id is Some && v[i].instinct_id->0@ == s[i].id,
        v[i].description@ == s[i].description,
        v[i].confidence == s[i].confidence,
        v[i].source == RecoverySource::Instinct && !v[i].non_retryable,
{
}

/// Home is where the first setting says, else where the second one does; empty
/// ones say nothing.
pub proof fn lemma_home_is_found(home: Option<Seq<char>>, userprofile: Option<Seq<char>>)
    ensures
        home is Some && home->0.len() > 0 ==> home_of(home, userprofile) == home,
        (home is None || home->0.len() == 0) && userprofile is Some && userprofile->0.len() > 0
            ==> home_of(home, userprofile) == userprofile,
        home_of(home, userprofile) matches Some(h) ==> h.len() > 0,
{
}

/// Where instincts are kept.
pub open spec fn kept_in(chosen: Option<Seq<char>>, home: Option<Seq<char>>) -> Seq<char> {
    match chosen {
        Some(c) => paths::joined_path(c, "instincts"@),
        None => paths::joined_path(
            paths::joined_path(
                match home {
                    Some(h) => h,
                    None => "."@,
                },
                ".nexus"@,
            ),
            "instincts"@,
        ),
    }
}

/// The directory that was chosen decides where instincts are kept, whatever home
/// is; without one they are kept as if one below home had been chosen, and
/// without a home in the current directory.
pub proof fn lemma_chosen_directory_decides(
    chosen: Seq<char>,
    home: Option<Seq<char>>,
    other: Option<Seq<char>>,
)
    ensures
        kept_in(Some(chosen), home) == kept_in(Some(chosen), other),
        home is Some ==> kept_in(None, home) == kept_in(
            Some(paths::joined_path(home->0, ".nexus"@)),
            other,
        ),
        kept_in(None, None) == kept_in(None, Some("."@)),
        kept_in(Some(chosen), home) == paths::joined_path(chosen, "instincts"@),
{
}

/// Totals add up: those of two lots of instincts are those of both together, and
/// an instinct brings its own counts.
pub proof fn lemma_totals_add_up(a: Seq<Inst>, b: Seq<Inst>, x: Inst)
    ensures
        support_sum(a + b) == support_sum(a) + support_sum(b),
        failure_sum(a + b) == failure_sum(a) + failure_sum(b),
        support_sum(seq![x]) == x.support,
        failure_sum(seq![x]) == x.failures,
    decreases b.len(),
{
    assert(seq![x].drop_last() =~= Seq::<Inst>::empty());
    assert(support_sum(Seq::<Inst>::empty()) == 0 && failure_sum(Seq::<Inst>::empty()) == 0);
    if b.len() == 0 {
        assert(a + b =~= a);
    } else {
        lemma_totals_add_up(a, b.drop_last(), x);
        assert((a + b).drop_last() =~= a + b.drop_last());
    }
}

} // verus!
