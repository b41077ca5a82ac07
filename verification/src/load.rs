//! The eager-loading orchestrator and the capability traits it composes.
//!
//! [`GraphqlNodeForModel`] marshals store models into nodes;
//! [`EagerLoadChildrenOfType`] describes one declared child relationship of a
//! node type and carries the per-level orchestration algorithm; and
//! [`EagerLoadAllChildren`] resolves every declared relationship of a level
//! and is what one level calls to recurse into the next.

use crate::cache::eq_reflects_eq;
use crate::cache::sat_add;
use crate::cache::Cache;
use vstd::prelude::*;

verus! {

/// The outcome of one batched cache probe: either the resolved model, or the
/// still-missing id that must be fetched from the store. Produced only inside
/// one orchestration step and never persisted.
#[derive(Debug)]
pub enum LoadResult<A, B> {
    Loaded(A),
    Missing(B),
}

/// Marker relating a query trail to the node type it walks. The orchestrator
/// never inspects a trail; it only forwards it level by level.
pub trait GenericQueryTrail<T, K> {

}

/// Given a list of ids, how should the models be loaded from the data store?
pub trait LoadFromIds: Sized {
    /// The primary key type the model uses.
    type Id;

    /// The error type the store operation uses.
    type Error;

    /// The connection handle the store operation needs.
    type Connection;

    /// Perform the load. Fewer models than ids may come back: ids without a
    /// matching row are simply absent from the result.
    fn load(ids: &Vec<Self::Id>, db: &Self::Connection) -> Result<Vec<Self>, Self::Error>;
}

/// A caller-defined node: an entity built from one store model, carrying a
/// relationship slot per declared child relationship.
pub trait GraphqlNodeForModel: Sized {
    /// The raw record this node is built from.
    type Model;

    /// The id space of this node tree; also the shared cache's key type.
    type Id: PartialEq;

    /// The store handle batched loads need.
    type Connection;

    /// The error a failed batched load surfaces.
    type Error;

    /// The payload type every level of one node tree stores in the shared
    /// cache; each relationship wraps and unwraps its own child models.
    type CacheValue;

    /// The node a given source model maps to.
    spec fn new_from_model_spec(model: Self::Model) -> Self;

    /// Whether `node` is the node of `model`: built from it, with any of its
    /// relationship slots since written. Construction establishes it and
    /// resolving relationships preserves it, so it survives orchestration.
    spec fn built_from(node: Self, model: Self::Model) -> bool;

    /// A freshly built node is the node of its model.
    proof fn new_from_model_builds(model: Self::Model)
        ensures
            Self::built_from(Self::new_from_model_spec(model), model),
    ;

    /// Build the node for one source model.
    fn new_from_model(model: &Self::Model) -> (r: Self)
        ensures
            r == Self::new_from_model_spec(*model),
    ;

    /// Build one node per source model, in order.
    fn from_db_models(models: &Vec<Self::Model>) -> (r: Vec<Self>)
        ensures
            r@.len() == models@.len(),
            forall|i: int|
                #![auto]
                0 <= i < models@.len() ==> r@[i] == Self::new_from_model_spec(models@[i]),
            forall|i: int|
                #![auto]
                0 <= i < models@.len() ==> Self::built_from(r@[i], models@[i]),
    {
        let mut nodes: Vec<Self> = Vec::new();
        let mut idx: usize = 0;
        while idx < models.len()
            invariant
                idx <= models@.len(),
                nodes@.len() == idx,
                forall|i: int|
                    #![auto]
                    0 <= i < idx ==> nodes@[i] == Self::new_from_model_spec(models@[i]),
                forall|i: int|
                    #![auto]
                    0 <= i < idx ==> Self::built_from(nodes@[i], models@[i]),
            decreases models@.len() - idx,
        {
            proof {
                Self::new_from_model_builds(models@[idx as int]);
            }
            nodes.push(Self::new_from_model(&models[idx]));
            idx += 1;
        }
        nodes
    }
}

/// Whether `v@` holds `x`.
fn vec_contains<T: PartialEq>(v: &Vec<T>, x: &T) -> (r: bool)
    requires
        eq_reflects_eq::<T>(),
    ensures
        r == v@.contains(*x),
{
    let mut i: usize = 0;
    while i < v.len()
        invariant
            i <= v@.len(),
            eq_reflects_eq::<T>(),
            forall|m: int| 0 <= m < i ==> v@[m] != *x,
        decreases v@.len() - i,
    {
        if v[i] == *x {
            proof {
                assert(v@[i as int] == *x);
            }
            return true;
        }
        i += 1;
    }
    false
}

/// `s` with every repeated element dropped: each element is kept only at its
/// first occurrence, so the result lists the distinct elements of `s` in
/// first-appearance order.
pub open spec fn dedup_seq<T>(s: Seq<T>) -> Seq<T>
    decreases s.len(),
{
    if s.len() == 0 {
        Seq::empty()
    } else {
        let d = dedup_seq(s.drop_last());
        if s.drop_last().contains(s.last()) {
            d
        } else {
            d.push(s.last())
        }
    }
}

/// Deduplication keeps exactly the elements of the original sequence.
pub proof fn lemma_dedup_seq_contains<T>(s: Seq<T>, x: T)
    ensures
        dedup_seq(s).contains(x) <==> s.contains(x),
    decreases s.len(),
{
    if s.len() == 0 {
    } else {
        let t = s.drop_last();
        let z = s.last();
        let d = dedup_seq(t);
        lemma_dedup_seq_contains(t, x);
        assert(forall|j: int| 0 <= j < t.len() ==> t[j] == s[j]);
        if s.contains(x) {
            let i = choose|i: int| 0 <= i < s.len() && s[i] == x;
            if i < s.len() - 1 {
                assert(t[i] == x);
                assert(t.contains(x));
                if t.contains(z) {
                } else {
                    let j = choose|j: int| 0 <= j < d.len() && d[j] == x;
                    assert(d.push(z)[j] == x);
                }
            } else {
                assert(z == x);
                if t.contains(z) {
                    assert(t.contains(x));
                } else {
                    assert(d.push(z)[d.len() as int] == x);
                }
            }
            assert(dedup_seq(s).contains(x));
        }
        if dedup_seq(s).contains(x) {
            let j = choose|j: int| 0 <= j < dedup_seq(s).len() && dedup_seq(s)[j] == x;
            if t.contains(z) && x == z {
                let m = choose|m: int| 0 <= m < t.len() && t[m] == z;
                assert(s[m] == x);
            } else if j < d.len() {
                assert(d[j] == x);
                assert(d.contains(x));
                let m = choose|m: int| 0 <= m < t.len() && t[m] == x;
                assert(s[m] == x);
            } else {
                assert(dedup_seq(s)[j] == z);
                assert(s[s.len() - 1] == x);
            }
            assert(s.contains(x));
        }
    }
}

/// Deduplication leaves no element twice.
pub proof fn lemma_dedup_seq_no_duplicates<T>(s: Seq<T>)
    ensures
        dedup_seq(s).no_duplicates(),
    decreases s.len(),
{
    if s.len() == 0 {
    } else {
        lemma_dedup_seq_no_duplicates(s.drop_last());
        lemma_dedup_seq_contains(s.drop_last(), s.last());
        let d = dedup_seq(s.drop_last());
        if !s.drop_last().contains(s.last()) {
            assert forall|i: int, j: int|
                0 <= i < dedup_seq(s).len() && 0 <= j < dedup_seq(s).len() && i != j implies dedup_seq(
                s,
            )[i] != dedup_seq(s)[j] by {
                if i < d.len() && j < d.len() {
                } else if i == d.len() {
                    assert(dedup_seq(s)[j] == d[j]);
                    assert(d.contains(d[j]));
                } else if j == d.len() {
                    assert(dedup_seq(s)[i] == d[i]);
                    assert(d.contains(d[i]));
                }
            }
        }
    }
}

/// The models of the `Loaded` entries of `s`, in order.
pub open spec fn loaded_part<M, I>(s: Seq<LoadResult<M, I>>) -> Seq<M>
    decreases s.len(),
{
    if s.len() == 0 {
        Seq::empty()
    } else {
        let rest = loaded_part(s.drop_last());
        match s.last() {
            LoadResult::Loaded(m) => rest.push(m),
            LoadResult::Missing(_) => rest,
        }
    }
}

/// The ids of the `Missing` entries of `s`, in order, repetitions kept.
pub open spec fn missing_part<M, I>(s: Seq<LoadResult<M, I>>) -> Seq<I>
    decreases s.len(),
{
    if s.len() == 0 {
        Seq::empty()
    } else {
        let rest = missing_part(s.drop_last());
        match s.last() {
            LoadResult::Loaded(_) => rest,
            LoadResult::Missing(id) => rest.push(id),
        }
    }
}

/// Split a batch of cache probe outcomes into the already-known models and
/// the ids that still must be fetched. The ids come out deduplicated, in
/// first-appearance order, so a batched fetch asks for each distinct missing
/// id exactly once.
pub fn split_load_results<M, I: PartialEq + Copy>(results: Vec<LoadResult<M, I>>) -> (r: (
    Vec<M>,
    Vec<I>,
))
    requires
        eq_reflects_eq::<I>(),
    ensures
        r.0@ == loaded_part(results@),
        r.1@ == dedup_seq(missing_part(results@)),
        r.1@.no_duplicates(),
        forall|x: I| r.1@.contains(x) <==> missing_part(results@).contains(x),
{
    let mut models: Vec<M> = Vec::new();
    let mut ids: Vec<I> = Vec::new();
    let mut rest = results;
    let ghost all = rest@;
    let ghost mut processed: Seq<LoadResult<M, I>> = Seq::empty();
    while rest.len() > 0
        invariant
            eq_reflects_eq::<I>(),
            all == processed + rest@,
            models@ == loaded_part(processed),
            ids@ == dedup_seq(missing_part(processed)),
        decreases rest@.len(),
    {
        let item = rest.remove(0);
        proof {
            assert(all =~= processed.push(item) + rest@);
            assert(processed.push(item).drop_last() =~= processed);
        }
        match item {
            LoadResult::Loaded(m) => {
                proof {
                    processed = processed.push(LoadResult::Loaded(m));
                }
                models.push(m);
            },
            LoadResult::Missing(id) => {
                proof {
                    processed = processed.push(LoadResult::Missing(id));
                    lemma_dedup_seq_contains(missing_part(processed.drop_last()), id);
                    assert(missing_part(processed).drop_last() =~= missing_part(
                        processed.drop_last(),
                    ));
                }
                if !vec_contains(&ids, &id) {
                    ids.push(id);
                }
            },
        }
    }
    proof {
        assert(processed =~= all);
        lemma_dedup_seq_no_duplicates(missing_part(all));
        assert forall|x: I| ids@.contains(x) <==> missing_part(all).contains(x) by {
            lemma_dedup_seq_contains(missing_part(all), x);
        }
    }
    (models, ids)
}

/// Resolve every declared child relationship of one level of nodes, then
/// recurse into the next level. Implementations call
/// [`EagerLoadChildrenOfType::eager_load_children`] once per declared
/// relationship; a type with no child relationships just returns `Ok(())`.
pub trait EagerLoadAllChildren<Q>: GraphqlNodeForModel {
    /// Whether every relationship slot this node type declares has been
    /// resolved — written as loaded or as failed, never left untouched.
    spec fn edges_resolved(node: Self) -> bool;

    /// Resolve all declared relationships for each node of one level, given
    /// one source model per node, in the same order.
    fn eager_load_all_children_for_each(
        nodes: &mut Vec<Self>,
        models: &Vec<Self::Model>,
        db: &Self::Connection,
        trail: &Q,
        cache: &mut Cache<Self::Id, Self::CacheValue>,
    ) -> (r: Result<(), Self::Error>)
        requires
            old(nodes)@.len() == models@.len(),
            eq_reflects_eq::<Self::Id>(),
        ensures
            final(nodes)@.len() == old(nodes)@.len(),
            final(cache).is_enabled() == old(cache).is_enabled(),
            !old(cache).is_enabled() ==> *final(cache) == *old(cache),
            forall|t: u64, k: Self::Id|
                #![auto]
                old(cache).lookup(t, k) is Some ==> final(cache).lookup(t, k) is Some,
            forall|i: int|
                #![auto]
                0 <= i < models@.len() && Self::built_from(old(nodes)@[i], models@[i])
                    ==> Self::built_from(final(nodes)@[i], models@[i]),
            r is Ok ==> forall|i: int|
                #![auto]
                0 <= i < final(nodes)@.len() ==> Self::edges_resolved(final(nodes)@[i]),
    ;

    /// The caching-disabled entry point: same results as with a cache, every
    /// lookup simply misses.
    fn eager_load_all_children_for_each_without_cache(
        nodes: &mut Vec<Self>,
        models: &Vec<Self::Model>,
        db: &Self::Connection,
        trail: &Q,
    ) -> (r: Result<(), Self::Error>)
        requires
            old(nodes)@.len() == models@.len(),
            eq_reflects_eq::<Self::Id>(),
        ensures
            final(nodes)@.len() == old(nodes)@.len(),
            forall|i: int|
                #![auto]
                0 <= i < models@.len() && Self::built_from(old(nodes)@[i], models@[i])
                    ==> Self::built_from(final(nodes)@[i], models@[i]),
            r is Ok ==> forall|i: int|
                #![auto]
                0 <= i < final(nodes)@.len() ==> Self::edges_resolved(final(nodes)@[i]),
    {
        let mut cache = Cache::disabled();
        Self::eager_load_all_children_for_each(nodes, models, db, trail, &mut cache)
    }

    /// Resolve all declared relationships below one single node, given the
    /// one source model it was built from.
    fn eager_load_all_chilren(
        node: Self,
        models: &Vec<Self::Model>,
        db: &Self::Connection,
        trail: &Q,
        cache: &mut Cache<Self::Id, Self::CacheValue>,
    ) -> (r: Result<Self, Self::Error>)
        requires
            models@.len() == 1,
            eq_reflects_eq::<Self::Id>(),
        ensures
            final(cache).is_enabled() == old(cache).is_enabled(),
            !old(cache).is_enabled() ==> *final(cache) == *old(cache),
            forall|t: u64, k: Self::Id|
                #![auto]
                old(cache).lookup(t, k) is Some ==> final(cache).lookup(t, k) is Some,
            r matches Ok(n) ==> Self::edges_resolved(n),
            r matches Ok(n) ==> (Self::built_from(node, models@[0]) ==> Self::built_from(
                n,
                models@[0],
            )),
    {
        let mut nodes = vec![node];
        match Self::eager_load_all_children_for_each(&mut nodes, models, db, trail, cache) {
            Ok(()) => {
                let n = nodes.remove(0);
                Ok(n)
            },
            Err(e) => Err(e),
        }
    }
}

/// The capability hooks one declared child relationship injects into the
/// orchestrator: the id projection, the cache keying discipline, and the
/// slot-writing rules. [`EagerLoadChildrenOfType`] builds the per-level
/// algorithm on top of these.
pub trait ChildRelation<Child>: GraphqlNodeForModel {
    /// The raw record a child of this relationship is built from.
    type ChildModel;

    /// The foreign-key-like value a source model projects for this
    /// relationship.
    type ChildId: PartialEq + Copy;

    /// The child id `model` points at.
    spec fn child_id_spec(model: Self::Model) -> Self::ChildId;

    /// Project the child id out of one source model. Pure and total.
    fn child_id(model: &Self::Model) -> (r: Self::ChildId)
        ensures
            r == Self::child_id_spec(*model),
    ;

    /// The tag under which this relationship's entries live in the shared
    /// cache; distinct relationships sharing an id space use distinct tags.
    spec fn relationship_tag_spec() -> u64;

    /// The cache type-tag of this relationship.
    fn relationship_tag() -> (r: u64)
        ensures
            r == Self::relationship_tag_spec(),
    ;

    /// The cache key a projected child id is looked up under.
    spec fn cache_key_of_id_spec(id: Self::ChildId) -> Self::Id;

    /// Turn a projected child id into the shared cache's key type.
    fn cache_key_of_id(id: &Self::ChildId) -> (r: Self::Id)
        ensures
            r == Self::cache_key_of_id_spec(*id),
    ;

    /// The cache key a fetched child model is stored under: its own identity.
    spec fn cache_key_of_model_spec(model: Self::ChildModel) -> Self::Id;

    /// The identity of a fetched child model, as a cache key.
    fn cache_key_of_model(model: &Self::ChildModel) -> (r: Self::Id)
        ensures
            r == Self::cache_key_of_model_spec(*model),
    ;

    /// How a child model of this relationship is wrapped into the shared
    /// cache's value type.
    spec fn wrap_spec(model: Self::ChildModel) -> Self::CacheValue;

    /// Wrap one child model for storage in the shared cache.
    fn wrap_model(model: &Self::ChildModel) -> (r: Self::CacheValue)
        ensures
            r == Self::wrap_spec(*model),
    ;

    /// How a cached value reads back as a child model of this relationship;
    /// `None` when the value belongs to another relationship kind.
    spec fn unwrap_spec(value: Self::CacheValue) -> Option<Self::ChildModel>;

    /// Read a cached value back as a child model of this relationship.
    fn unwrap_model(value: &Self::CacheValue) -> (r: Option<Self::ChildModel>)
        ensures
            r == Self::unwrap_spec(*value),
    ;

    /// Whether `child` is the child `node` points at; must be consistent with
    /// the id projection.
    spec fn is_child_of_spec(node: Self, child: Child) -> bool;

    /// The relationship predicate used to re-associate loaded children with
    /// their parents.
    fn is_child_of(node: &Self, child: &Child) -> (r: bool)
        ensures
            r == Self::is_child_of_spec(*node, *child),
    ;

    /// The node with this relationship's slot written with `child`.
    spec fn loaded_or_failed_child_spec(node: Self, child: Option<Child>) -> Self;

    /// Write this relationship's slot on `node`: the found child, or the
    /// absence of one.
    fn loaded_or_failed_child(node: &mut Self, child: Option<&Child>)
        ensures
            *final(node) == Self::loaded_or_failed_child_spec(
                *old(node),
                match child {
                    Some(c) => Some(*c),
                    None => None,
                },
            ),
    ;

    /// Whether this relationship's slot on `node` has been resolved.
    spec fn child_resolved(node: Self) -> bool;

    /// Writing the slot resolves it, whether or not a child was found.
    proof fn loaded_or_failed_resolves(node: Self, child: Option<Child>)
        ensures
            Self::child_resolved(Self::loaded_or_failed_child_spec(node, child)),
    ;

    /// Writing the slot only touches the slot: the node of a model stays the
    /// node of that model.
    proof fn loaded_or_failed_preserves_built(node: Self, model: Self::Model, child: Option<Child>)
        requires
            Self::built_from(node, model),
        ensures
            Self::built_from(Self::loaded_or_failed_child_spec(node, child), model),
    ;
}

/// One declared child relationship of a node type: the per-level
/// orchestration algorithm, built on the hooks of [`ChildRelation`] and on
/// the external batched-load capability.
pub trait EagerLoadChildrenOfType<Child, Q, C = ()>: ChildRelation<Child> where
    Child: GraphqlNodeForModel<
        Model = Self::ChildModel,
        Id = Self::Id,
        Connection = Self::Connection,
        Error = Self::Error,
        CacheValue = Self::CacheValue,
    > + EagerLoadAllChildren<Q>,
    Q: GenericQueryTrail<Child, C>,
 {
    /// Fetch the child models for `ids` from the backing store, batched in
    /// one call. Fewer models than ids may come back (ids without a matching
    /// row are absent), and input order need not be preserved. This external
    /// capability is the one failure source of an orchestration pass.
    fn load_children(ids: &Vec<Self::ChildId>, db: &Self::Connection) -> Result<
        Vec<Self::ChildModel>,
        Self::Error,
    >;

    /// Probe the cache once per id, in order. Each id yields its cached model
    /// or comes back as missing; the hit and miss counters advance by exactly
    /// the number of found and absent entries, and the cache's contents do
    /// not change.
    fn load_from_cache(
        ids: &Vec<Self::ChildId>,
        cache: &mut Cache<Self::Id, Self::CacheValue>,
    ) -> (results: Vec<LoadResult<Self::ChildModel, Self::ChildId>>)
        requires
            eq_reflects_eq::<Self::Id>(),
        ensures
            results@.len() == ids@.len(),
            forall|i: int|
                #![auto]
                0 <= i < ids@.len() ==> results@[i] == cache_probe::<Self, Child>(
                    *old(cache),
                    ids@[i],
                ),
            final(cache).is_enabled() == old(cache).is_enabled(),
            forall|t: u64, k: Self::Id|
                #[trigger] final(cache).lookup(t, k) == old(cache).lookup(t, k),
            !old(cache).is_enabled() ==> *final(cache) == *old(cache),
            old(cache).is_enabled() ==> final(cache).hit_count() == sat_add(
                old(cache).hit_count(),
                count_raw_hits::<Self, Child>(*old(cache), ids@),
            ),
            old(cache).is_enabled() ==> final(cache).miss_count() == sat_add(
                old(cache).miss_count(),
                count_raw_misses::<Self, Child>(*old(cache), ids@),
            ),
    {
        let mut results: Vec<LoadResult<Self::ChildModel, Self::ChildId>> = Vec::new();
        let mut idx: usize = 0;
        while idx < ids.len()
            invariant
                idx <= ids@.len(),
                results@.len() == idx,
                eq_reflects_eq::<Self::Id>(),
                forall|i: int|
                    #![auto]
                    0 <= i < idx ==> results@[i] == cache_probe::<Self, Child>(
                        *old(cache),
                        ids@[i],
                    ),
                cache.is_enabled() == old(cache).is_enabled(),
                forall|t: u64, k: Self::Id| #[trigger] cache.lookup(t, k) == old(cache).lookup(t, k),
                !old(cache).is_enabled() ==> *cache == *old(cache),
                old(cache).is_enabled() ==> cache.hit_count() == sat_add(
                    old(cache).hit_count(),
                    count_raw_hits::<Self, Child>(*old(cache), ids@.take(idx as int)),
                ),
                old(cache).is_enabled() ==> cache.miss_count() == sat_add(
                    old(cache).miss_count(),
                    count_raw_misses::<Self, Child>(*old(cache), ids@.take(idx as int)),
                ),
            decreases ids@.len() - idx,
        {
            let id = ids[idx];
            let tag = Self::relationship_tag();
            let key = Self::cache_key_of_id(&id);
            proof {
                assert(ids@.take(idx as int + 1).drop_last() =~= ids@.take(idx as int));
                assert(ids@.take(idx as int + 1).last() == ids@[idx as int]);
            }
            match cache.get(tag, key) {
                Some(v) => {
                    match Self::unwrap_model(v) {
                        Some(m) => results.push(LoadResult::Loaded(m)),
                        None => results.push(LoadResult::Missing(id)),
                    }
                },
                None => results.push(LoadResult::Missing(id)),
            }
            idx += 1;
        }
        proof {
            assert(ids@.take(ids@.len() as int) =~= ids@);
        }
        results
    }

    /// Store one freshly fetched child model in the cache, keyed by its own
    /// identity under this relationship's tag. Counters never move.
    fn store_in_cache(child: &Self::ChildModel, cache: &mut Cache<Self::Id, Self::CacheValue>)
        ensures
            final(cache).is_enabled() == old(cache).is_enabled(),
            final(cache).hit_count() == old(cache).hit_count(),
            final(cache).miss_count() == old(cache).miss_count(),
            !old(cache).is_enabled() ==> *final(cache) == *old(cache),
            old(cache).is_enabled() ==> forall|t: u64, k: Self::Id|
                #[trigger] final(cache).lookup(t, k) == (if t == Self::relationship_tag_spec()
                    && k == Self::cache_key_of_model_spec(*child) {
                    Some(Self::wrap_spec(*child))
                } else {
                    old(cache).lookup(t, k)
                }),
    {
        let tag = Self::relationship_tag();
        let key = Self::cache_key_of_model(child);
        let value = Self::wrap_model(child);
        cache.insert(tag, key, value);
    }

    /// Resolve this relationship for one whole level of nodes: project the
    /// child ids from the source models, answer what the cache already
    /// knows, fetch the distinct missing ids in one batched call, store the
    /// fetched models back, build one child node per child model, recurse
    /// into the children's own relationships, and finally write every node's
    /// slot with its first matching child — or with the absence of one.
    ///
    /// A failed batched load aborts the pass with the store's error and
    /// leaves every node untouched; models cached before the failure remain
    /// cached. On success every node's slot for this relationship is
    /// resolved, and [`level_outcome`] in the postcondition ties the slot's
    /// value down: the children stitched onto the nodes are exactly the ones
    /// built from the cache-answered models followed by whatever the store
    /// returned, so a cached child must reach its parent.
    fn eager_load_children(
        nodes: &mut Vec<Self>,
        models: &Vec<Self::Model>,
        db: &Self::Connection,
        trail: &Q,
        cache: &mut Cache<Self::Id, Self::CacheValue>,
    ) -> (r: Result<(), Self::Error>)
        requires
            old(nodes)@.len() == models@.len(),
            eq_reflects_eq::<Self::Id>(),
            eq_reflects_eq::<Self::ChildId>(),
        ensures
            final(nodes)@.len() == old(nodes)@.len(),
            final(cache).is_enabled() == old(cache).is_enabled(),
            !old(cache).is_enabled() ==> *final(cache) == *old(cache),
            forall|t: u64, k: Self::Id|
                #![auto]
                old(cache).lookup(t, k) is Some ==> final(cache).lookup(t, k) is Some,
            r is Err ==> final(nodes)@ == old(nodes)@,
            forall|i: int|
                #![auto]
                0 <= i < models@.len() && Self::built_from(old(nodes)@[i], models@[i])
                    ==> Self::built_from(final(nodes)@[i], models@[i]),
            r is Ok ==> exists|fetched: Seq<Self::ChildModel>, children: Seq<Child>|
                #![auto]
                level_outcome::<Self, Child, Q>(
                    old(nodes)@,
                    models@,
                    *old(cache),
                    *final(cache),
                    final(nodes)@,
                    fetched,
                    children,
                ),
            r is Ok ==> forall|i: int|
                #![auto]
                0 <= i < final(nodes)@.len() ==> Self::child_resolved(final(nodes)@[i]),
    {
        // 1. project one child id per source model
        let mut child_ids: Vec<Self::ChildId> = Vec::new();
        let mut idx: usize = 0;
        while idx < models.len()
            invariant
                idx <= models@.len(),
                child_ids@.len() == idx,
                forall|i: int|
                    #![auto]
                    0 <= i < idx ==> child_ids@[i] == Self::child_id_spec(models@[i]),
            decreases models@.len() - idx,
        {
            child_ids.push(Self::child_id(&models[idx]));
            idx += 1;
        }

        // 2. answer what the cache already knows
        let results = Self::load_from_cache(&child_ids, cache);
        let ghost probes = Seq::new(
            models@.len(),
            |i: int| cache_probe::<Self, Child>(*old(cache), Self::child_id_spec(models@[i])),
        );
        proof {
            assert(results@ =~= probes);
        }
        let ghost results_snap = results@;

        // 3. split into known models and distinct missing ids
        let (mut child_models, ids_to_load) = split_load_results(results);

        // 4. one batched fetch for the missing ids; store what came back
        let ghost mut fetched: Seq<Self::ChildModel> = Seq::empty();
        if ids_to_load.len() > 0 {
            let mut loaded_models = match Self::load_children(&ids_to_load, db) {
                Ok(ms) => ms,
                Err(e) => { return Err(e) },
            };
            proof {
                fetched = loaded_models@;
            }
            let mut li: usize = 0;
            while li < loaded_models.len()
                invariant
                    fetched == loaded_models@,
                    cache.is_enabled() == old(cache).is_enabled(),
                    !old(cache).is_enabled() ==> *cache == *old(cache),
                    forall|t: u64, k: Self::Id|
                        #![auto]
                        old(cache).lookup(t, k) is Some ==> cache.lookup(t, k) is Some,
                    old(cache).is_enabled() ==> forall|j: int|
                        #![auto]
                        0 <= j < li ==> cache.lookup(
                            Self::relationship_tag_spec(),
                            Self::cache_key_of_model_spec(loaded_models@[j]),
                        ) is Some,
                decreases loaded_models@.len() - li,
            {
                Self::store_in_cache(&loaded_models[li], cache);
                li += 1;
            }
            child_models.append(&mut loaded_models);
        }
        let ghost cache_mid = *cache;
        proof {
            assert(child_models@ =~= loaded_part(results_snap) + fetched);
        }

        // 5. one child node per child model
        let mut children = Child::from_db_models(&child_models);

        // 6. recurse into the children's own relationships
        match Child::eager_load_all_children_for_each(&mut children, &child_models, db, trail, cache)
        {
            Ok(()) => {},
            Err(e) => { return Err(e) },
        }
        proof {
            assert forall|j: int|
                0 <= j < children@.len() implies Child::built_from(
                children@[j],
                child_models@[j],
            ) by {
            }
            assert(old(cache).is_enabled() ==> forall|j: int|
                #![auto]
                0 <= j < fetched.len() ==> cache.lookup(
                    Self::relationship_tag_spec(),
                    Self::cache_key_of_model_spec(fetched[j]),
                ) is Some);
        }

        // 7. write every node's slot with its first matching child
        let ghost before = nodes@;
        let mut updated: Vec<Self> = Vec::new();
        while nodes.len() > 0
            invariant
                updated@.len() + nodes@.len() == before.len(),
                nodes@ == before.skip(updated@.len() as int),
                forall|j: int|
                    #![auto]
                    0 <= j < children@.len() ==> Child::edges_resolved(children@[j]),
                forall|i: int|
                    #![auto]
                    0 <= i < updated@.len() ==> updated@[i] == Self::loaded_or_failed_child_spec(
                        before[i],
                        first_match::<Self, Child>(before[i], children@),
                    ) && Self::child_resolved(updated@[i]),
            decreases nodes@.len(),
        {
            let ghost u = updated@.len() as int;
            proof {
                assert(before.skip(u)[0] == before[u]);
            }
            let mut n = nodes.remove(0);
            proof {
                assert(nodes@ =~= before.skip(u + 1));
            }
            let mut j: usize = 0;
            let mut found: Option<usize> = None;
            while j < children.len() && found.is_none()
                invariant
                    j <= children@.len(),
                    found is None ==> forall|m: int|
                        #![auto]
                        0 <= m < j ==> !Self::is_child_of_spec(n, children@[m]),
                    found matches Some(k) ==> k < children@.len() && Self::is_child_of_spec(
                        n,
                        children@[k as int],
                    ) && forall|m: int| #![auto] 0 <= m < k ==> !Self::is_child_of_spec(
                        n,
                        children@[m],
                    ),
                decreases children@.len() - j, (if found is None {
                    1int
                } else {
                    0int
                }),
            {
                if Self::is_child_of(&n, &children[j]) {
                    found = Some(j);
                } else {
                    j += 1;
                }
            }
            let child_ref: Option<&Child> = match found {
                Some(k) => Some(&children[k]),
                None => None,
            };
            proof {
                match found {
                    Some(k) => lemma_first_match_at::<Self, Child>(n, children@, k as int),
                    None => lemma_first_match_none::<Self, Child>(n, children@),
                }
            }
            Self::loaded_or_failed_child(&mut n, child_ref);
            proof {
                Self::loaded_or_failed_resolves(
                    before[u],
                    first_match::<Self, Child>(before[u], children@),
                );
            }
            updated.push(n);
        }
        *nodes = updated;
        proof {
            assert forall|i: int|
                0 <= i < models@.len() && Self::built_from(before[i], models@[i]) implies Self::built_from(
                nodes@[i],
                models@[i],
            ) by {
                Self::loaded_or_failed_preserves_built(
                    before[i],
                    models@[i],
                    first_match::<Self, Child>(before[i], children@),
                );
            }
            assert(level_outcome::<Self, Child, Q>(
                before,
                models@,
                *old(cache),
                *cache,
                nodes@,
                fetched,
                children@,
            ));
        }
        Ok(())
    }
}

/// What probing the cache for `id` under relationship `P` yields: the cached
/// model when the entry is present and belongs to this relationship, and the
/// still-missing id otherwise. A disabled cache yields only misses.
pub open spec fn cache_probe<P, Child>(
    c: Cache<P::Id, P::CacheValue>,
    id: P::ChildId,
) -> LoadResult<P::ChildModel, P::ChildId> where P: ChildRelation<Child> {
    match c.lookup(P::relationship_tag_spec(), P::cache_key_of_id_spec(id)) {
        Some(v) => match P::unwrap_spec(v) {
            Some(m) => LoadResult::Loaded(m),
            None => LoadResult::Missing(id),
        },
        None => LoadResult::Missing(id),
    }
}

/// What a successful per-level orchestration leaves behind, witnessed by the
/// models the store returned (`fetched`) and the recursively resolved child
/// nodes (`children`). The working set of child models is what the cache of
/// entry answered for the projected ids, followed by the fetched models; one
/// child node was built from each working model, in that order, and carries
/// it still; every fetched model sits in the final cache under this
/// relationship's tag and its own id (when caching is on); every child's own
/// relationships are resolved; and every node's slot holds its first
/// matching child among these children — or the absence of one.
pub open spec fn level_outcome<P, Child, Q>(
    nodes0: Seq<P>,
    models: Seq<P::Model>,
    cache0: Cache<P::Id, P::CacheValue>,
    cache1: Cache<P::Id, P::CacheValue>,
    nodes1: Seq<P>,
    fetched: Seq<P::ChildModel>,
    children: Seq<Child>,
) -> bool where
    P: ChildRelation<Child>,
    Child: GraphqlNodeForModel<
        Model = P::ChildModel,
        Id = P::Id,
        Connection = P::Connection,
        Error = P::Error,
        CacheValue = P::CacheValue,
    > + EagerLoadAllChildren<Q>,
 {
    let working = loaded_part(
        Seq::new(
            models.len(),
            |i: int| cache_probe::<P, Child>(cache0, P::child_id_spec(models[i])),
        ),
    ) + fetched;
    &&& children.len() == working.len()
    &&& forall|j: int| #![auto] 0 <= j < children.len() ==> Child::built_from(children[j], working[j])
    &&& forall|j: int| #![auto] 0 <= j < children.len() ==> Child::edges_resolved(children[j])
    &&& cache0.is_enabled() ==> forall|j: int|
        #![auto]
        0 <= j < fetched.len() ==> cache1.lookup(
            P::relationship_tag_spec(),
            P::cache_key_of_model_spec(fetched[j]),
        ) is Some
    &&& nodes1.len() == nodes0.len()
    &&& forall|i: int|
        #![auto]
        0 <= i < nodes0.len() ==> nodes1[i] == P::loaded_or_failed_child_spec(
            nodes0[i],
            first_match::<P, Child>(nodes0[i], children),
        )
}

/// How many of the probes for `ids` find an entry in `c`.
pub open spec fn count_raw_hits<P, Child>(
    c: Cache<P::Id, P::CacheValue>,
    ids: Seq<P::ChildId>,
) -> nat where P: ChildRelation<Child>
    decreases ids.len(),
{
    if ids.len() == 0 {
        0
    } else {
        count_raw_hits::<P, Child>(c, ids.drop_last()) + (if c.lookup(
            P::relationship_tag_spec(),
            P::cache_key_of_id_spec(ids.last()),
        ) is Some {
            1nat
        } else {
            0nat
        })
    }
}

/// How many of the probes for `ids` find nothing in `c`.
pub open spec fn count_raw_misses<P, Child>(
    c: Cache<P::Id, P::CacheValue>,
    ids: Seq<P::ChildId>,
) -> nat where P: ChildRelation<Child>
    decreases ids.len(),
{
    if ids.len() == 0 {
        0
    } else {
        count_raw_misses::<P, Child>(c, ids.drop_last()) + (if c.lookup(
            P::relationship_tag_spec(),
            P::cache_key_of_id_spec(ids.last()),
        ) is None {
            1nat
        } else {
            0nat
        })
    }
}

/// Every probe either hits or misses: over one batch of lookups the hit
/// count and the miss count always add up to the number of ids probed.
pub proof fn lemma_probe_counts_partition<P, Child>(
    c: Cache<P::Id, P::CacheValue>,
    ids: Seq<P::ChildId>,
) where P: ChildRelation<Child>
    ensures
        count_raw_hits::<P, Child>(c, ids) + count_raw_misses::<P, Child>(c, ids) == ids.len(),
    decreases ids.len(),
{
    if ids.len() > 0 {
        lemma_probe_counts_partition::<P, Child>(c, ids.drop_last());
    }
}

/// The first child of `children` (in construction order) satisfying the
/// relationship predicate for `node`; `None` when no child matches. When
/// several children match, the first one wins.
pub open spec fn first_match<P, Child>(node: P, children: Seq<Child>) -> Option<Child> where
    P: ChildRelation<Child>,
    decreases children.len(),
{
    if children.len() == 0 {
        None
    } else if P::is_child_of_spec(node, children.first()) {
        Some(children.first())
    } else {
        first_match::<P, Child>(node, children.drop_first())
    }
}

/// When `children[k]` matches `node` and nothing before it does, the first
/// match is exactly `children[k]`.
pub proof fn lemma_first_match_at<P, Child>(node: P, children: Seq<Child>, k: int) where
    P: ChildRelation<Child>,

    requires
        0 <= k < children.len(),
        P::is_child_of_spec(node, children[k]),
        forall|m: int| 0 <= m < k ==> !P::is_child_of_spec(node, children[m]),
    ensures
        first_match::<P, Child>(node, children) == Some(children[k]),
    decreases k,
{
    if k == 0 {
        assert(children.first() == children[0]);
    } else {
        assert(!P::is_child_of_spec(node, children.first()));
        assert(forall|m: int|
            0 <= m < k - 1 ==> children.drop_first()[m] == children[m + 1]
                && !P::is_child_of_spec(node, children.drop_first()[m]));
        lemma_first_match_at::<P, Child>(node, children.drop_first(), k - 1);
        assert(children.drop_first()[k - 1] == children[k]);
    }
}

/// When no child matches `node`, the first match is absent.
pub proof fn lemma_first_match_none<P, Child>(node: P, children: Seq<Child>) where
    P: ChildRelation<Child>,

    requires
        forall|m: int| 0 <= m < children.len() ==> !P::is_child_of_spec(node, children[m]),
    ensures
        first_match::<P, Child>(node, children) is None,
    decreases children.len(),
{
    if children.len() > 0 {
        assert(forall|m: int|
            0 <= m < children.len() - 1 ==> children.drop_first()[m] == children[m + 1]);
        lemma_first_match_none::<P, Child>(node, children.drop_first());
    }
}

} // verus!
