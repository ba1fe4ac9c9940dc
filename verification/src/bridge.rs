//! The host bridge: the typed contract for calls back into the host, and
//! the memoizing subclass cache.
//!
//! The core never interprets host values; it only asks the host the five
//! questions below.  A bridge implementation is supplied by the embedder.
//! Its mathematical model is a bundle of functions of the call's arguments
//! alone, which is exactly the determinism the stepping semantics relies on:
//! repeated calls with equal arguments answer alike.

use vstd::prelude::*;
use crate::keys::{Digest, Function, Key, TypeId};

verus! {

/// The mathematical model of a host bridge: one function per operation.
#[verifier::ext_equal]
pub struct HostModel {
    /// What `issubclass` answers for a type and a type constraint.
    pub subclass: spec_fn(TypeId, TypeId) -> bool,
    /// What projecting a field out of a host value yields.
    pub project: spec_fn(Key, Key) -> Key,
    /// The ordered elements of a collection-valued field on a host value.
    pub project_multi: spec_fn(Key, Key) -> Seq<Key>,
    /// The interned list value for an ordered sequence of keys.
    pub store: spec_fn(Seq<Key>) -> Key,
    /// The best-effort debug rendering of a digest.
    pub render: spec_fn(Digest) -> Seq<char>,
    /// The host callable that performs single-field projections, named in
    /// emitted `Runnable`s.
    pub project_func: Function,
}

/// The five operations the core asks of its host, plus the handle of the
/// host's projection callable.  Implemented by the embedder; the core is
/// generic over the implementation.
pub trait Host {
    /// The bridge's model: every operation answers as a function of its
    /// arguments.
    spec fn model(&self) -> HostModel;

    /// Whether `cls` satisfies the type constraint `super_cls`.
    fn issubclass(&self, cls: &TypeId, super_cls: &TypeId) -> (r: bool)
        ensures
            r == (self.model().subclass)(*cls, *super_cls),
    ;

    /// The key for `item.field`.
    fn project(&self, item: &Key, field: &Key) -> (r: Key)
        ensures
            r == (self.model().project)(*item, *field),
    ;

    /// The ordered elements of the collection-valued field `item.field`.
    fn project_multi(&self, item: &Key, field: &Key) -> (r: Vec<Key>)
        ensures
            r@ == (self.model().project_multi)(*item, *field),
    ;

    /// Interns an ordered list of keys as a single host value.
    fn store_list(&self, items: Vec<Key>) -> (r: Key)
        ensures
            r == (self.model().store)(items@),
    ;

    /// Best-effort debug rendering of a digest; purely diagnostic.
    fn to_str(&self, digest: &Digest) -> (r: String)
        ensures
            r@ == (self.model().render)(*digest),
    ;

    /// The handle of the host callable that performs projections.
    fn project_function(&self) -> (r: Function)
        ensures
            r == self.model().project_func,
    ;
}

/// The map denoted by a subclass cache's entries.
pub open spec fn subclass_map(s: Seq<((TypeId, TypeId), bool)>) -> Map<(TypeId, TypeId), bool>
    decreases s.len(),
{
    if s.len() == 0 {
        Map::empty()
    } else {
        subclass_map(s.drop_last()).insert(s.last().0, s.last().1)
    }
}

/// A pair is in the map exactly when some entry carries it.
pub proof fn lemma_subclass_map_contains(s: Seq<((TypeId, TypeId), bool)>, k: (TypeId, TypeId))
    ensures
        subclass_map(s).contains_key(k) <==> exists|i: int| 0 <= i < s.len() && s[i].0 == k,
    decreases s.len(),
{
    if s.len() == 0 {
    } else {
        lemma_subclass_map_contains(s.drop_last(), k);
        if s.last().0 == k {
            assert(s[s.len() - 1].0 == k);
        } else if subclass_map(s).contains_key(k) {
            let i = choose|i: int| 0 <= i < s.drop_last().len() && s.drop_last()[i].0 == k;
            assert(s[i].0 == k);
        } else {
            if exists|i: int| 0 <= i < s.len() && s[i].0 == k {
                let i = choose|i: int| 0 <= i < s.len() && s[i].0 == k;
                assert(i < s.len() - 1);
                assert(s.drop_last()[i].0 == k);
            }
        }
    }
}

/// With pairwise-distinct pairs, the map answers each entry's pair with that
/// entry's answer.
pub proof fn lemma_subclass_map_get(s: Seq<((TypeId, TypeId), bool)>, i: int)
    requires
        forall|p: int, q: int| 0 <= p < q < s.len() ==> s[p].0 != s[q].0,
        0 <= i < s.len(),
    ensures
        subclass_map(s).contains_key(s[i].0),
        subclass_map(s)[s[i].0] == s[i].1,
    decreases s.len(),
{
    if i == s.len() - 1 {
    } else {
        assert(forall|p: int, q: int|
            0 <= p < q < s.drop_last().len() ==> s.drop_last()[p].0 != s.drop_last()[q].0);
        lemma_subclass_map_get(s.drop_last(), i);
        assert(s.drop_last()[i] == s[i]);
        assert(s[i].0 != s[s.len() - 1].0);
    }
}

/// Every cached answer agrees with the host function `f`.
pub open spec fn cache_consistent(m: Map<(TypeId, TypeId), bool>, f: spec_fn(TypeId, TypeId) -> bool) -> bool {
    forall|p: (TypeId, TypeId)| m.contains_key(p) ==> m[p] == f(p.0, p.1)
}

/// A local memo of subclass answers: repeated queries are common and the
/// host call is expensive, so the bridge caches each answer for its own
/// lifetime.
pub struct SubclassCache {
    entries: Vec<((TypeId, TypeId), bool)>,
}

impl View for SubclassCache {
    type V = Map<(TypeId, TypeId), bool>;

    closed spec fn view(&self) -> Map<(TypeId, TypeId), bool> {
        subclass_map(self.entries@)
    }
}

impl SubclassCache {
    /// The cache holds each pair at most once.
    pub closed spec fn wf(&self) -> bool {
        forall|p: int, q: int|
            0 <= p < q < self.entries@.len() ==> self.entries@[p].0 != self.entries@[q].0
    }

    /// An empty cache.
    pub fn new() -> (r: SubclassCache)
        ensures
            r@ == Map::<(TypeId, TypeId), bool>::empty(),
            r.wf(),
    {
        let r = SubclassCache { entries: Vec::new() };
        proof {
            assert(r@ =~= Map::<(TypeId, TypeId), bool>::empty());
        }
        r
    }

    /// The cached answer for a pair, if one was recorded.
    pub fn lookup(&self, cls: &TypeId, super_cls: &TypeId) -> (r: Option<bool>)
        requires
            self.wf(),
        ensures
            (match r {
                Some(b) => self@.contains_key((*cls, *super_cls)) && b == self@[(*cls, *super_cls)],
                None => !self@.contains_key((*cls, *super_cls)),
            }),
    {
        let n = self.entries.len();
        let mut i: usize = 0;
        while i < n
            invariant
                self.wf(),
                n == self.entries@.len(),
                i <= n,
                forall|j: int| 0 <= j < i ==> self.entries@[j].0 != (*cls, *super_cls),
            decreases n - i,
        {
            let entry = &self.entries[i];
            if entry.0.0 == *cls && entry.0.1 == *super_cls {
                proof {
                    lemma_subclass_map_get(self.entries@, i as int);
                    assert(self.entries@[i as int].0 == (*cls, *super_cls));
                }
                return Some(entry.1);
            }
            i += 1;
        }
        proof {
            lemma_subclass_map_contains(self.entries@, (*cls, *super_cls));
        }
        None
    }

    /// Records the host's answer for a pair not cached yet.
    pub fn record(&mut self, cls: TypeId, super_cls: TypeId, answer: bool)
        requires
            old(self).wf(),
            !old(self)@.contains_key((cls, super_cls)),
        ensures
            final(self).wf(),
            final(self)@ == old(self)@.insert((cls, super_cls), answer),
    {
        proof {
            lemma_subclass_map_contains(self.entries@, (cls, super_cls));
        }
        self.entries.push(((cls, super_cls), answer));
        proof {
            assert(self.entries@.drop_last() =~= old(self).entries@);
            assert(forall|p: int| 0 <= p < old(self).entries@.len()
                ==> old(self).entries@[p] == self.entries@[p]);
        }
    }

    /// Memoized subclass query: answers from the cache when possible, else
    /// asks the host once and records the answer.  Either way the answer is
    /// exactly the host's, and the cache stays consistent with the host.
    pub fn issubclass_cached<H: Host>(&mut self, host: &H, cls: &TypeId, super_cls: &TypeId) -> (r: bool)
        requires
            old(self).wf(),
            cache_consistent(old(self)@, host.model().subclass),
        ensures
            final(self).wf(),
            cache_consistent(final(self)@, host.model().subclass),
            r == (host.model().subclass)(*cls, *super_cls),
    {
        match self.lookup(cls, super_cls) {
            Some(b) => {
                proof {
                    assert(self@[(*cls, *super_cls)] == (host.model().subclass)(*cls, *super_cls));
                }
                b
            },
            None => {
                let b = host.issubclass(cls, super_cls);
                self.record(*cls, *super_cls, b);
                b
            },
        }
    }
}

/// A consistent cache is transparent: whatever it answers for a cached pair
/// is exactly what the deterministic host function answers, so a bridge
/// responds identically with and without caching.
pub proof fn lemma_cache_transparent(
    m: Map<(TypeId, TypeId), bool>,
    f: spec_fn(TypeId, TypeId) -> bool,
    cls: TypeId,
    super_cls: TypeId,
)
    requires
        cache_consistent(m, f),
        m.contains_key((cls, super_cls)),
    ensures
        m[(cls, super_cls)] == f(cls, super_cls),
{
}

/// Recording a host answer keeps a cache consistent with the host.
pub proof fn lemma_cache_consistent_record(
    m: Map<(TypeId, TypeId), bool>,
    f: spec_fn(TypeId, TypeId) -> bool,
    cls: TypeId,
    super_cls: TypeId,
)
    requires
        cache_consistent(m, f),
    ensures
        cache_consistent(m.insert((cls, super_cls), f(cls, super_cls)), f),
{
    let m2 = m.insert((cls, super_cls), f(cls, super_cls));
    assert forall|p: (TypeId, TypeId)| m2.contains_key(p) implies m2[p] == f(p.0, p.1) by {
        if p != (cls, super_cls) {
            assert(m.contains_key(p));
        }
    }
}

} // verus!
