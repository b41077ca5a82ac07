//! A small concrete schema wired into the orchestrator: users pointing at
//! the country they belong to, loaded from an in-memory store. It shows what
//! implementations of the capability traits look like, and it is what the
//! integration tests drive.

use crate::cache::Cache;
use crate::edge::DbEdge;
use crate::edge::OptionDbEdge;
use crate::load::ChildRelation;
use crate::load::EagerLoadAllChildren;
use crate::load::EagerLoadChildrenOfType;
use crate::load::GenericQueryTrail;
use crate::load::GraphqlNodeForModel;
use crate::load::LoadFromIds;
use vstd::prelude::*;

verus! {

/// A raw user record: its own id and the id of the country it belongs to.
#[derive(Debug, Clone, Copy, PartialEq, Eq, Structural)]
pub struct User {
    pub id: u64,
    pub country_id: u64,
}

/// A raw country record.
#[derive(Debug, Clone, Copy, PartialEq, Eq, Structural)]
pub struct Country {
    pub id: u64,
}

/// The in-memory backing store: the country rows, plus a switch that makes
/// batched loads fail the way a lost connection would.
#[derive(Debug)]
pub struct MemoryStore {
    pub countries: Vec<Country>,
    pub available: bool,
}

/// The error an unavailable store reports.
#[derive(Debug, Clone, Copy, PartialEq, Eq, Structural)]
pub struct StoreError;

/// The query trail of this schema: the user level walks into the country
/// level, which declares nothing further. The orchestrator only forwards it.
#[derive(Debug, Clone, Copy)]
pub struct CountryTrail;

impl GenericQueryTrail<CountryNode, ()> for CountryTrail {

}

/// The node built from a country record; countries declare no relationships.
#[derive(Debug, Clone, Copy)]
pub struct CountryNode {
    pub country: Country,
}

/// The node built from a user record, carrying its one declared
/// relationship: the country the user belongs to.
#[derive(Debug, Clone)]
pub struct UserNode {
    pub user: User,
    pub country: DbEdge<CountryNode>,
}

/// The cache type-tag of the user-to-country relationship.
pub const COUNTRY_TAG: u64 = 1;

/// The first stored row carrying `id`, scanning in store order.
pub open spec fn first_row(rows: Seq<Country>, id: u64) -> Option<Country>
    decreases rows.len(),
{
    if rows.len() == 0 {
        None
    } else if rows.first().id == id {
        Some(rows.first())
    } else {
        first_row(rows.drop_first(), id)
    }
}

/// The rows a load returns for `ids`: for each requested id in request
/// order, the first stored row carrying it; ids without a row are absent.
pub open spec fn rows_for(rows: Seq<Country>, ids: Seq<u64>) -> Seq<Country>
    decreases ids.len(),
{
    if ids.len() == 0 {
        Seq::empty()
    } else {
        let rest = rows_for(rows, ids.drop_last());
        match first_row(rows, ids.last()) {
            Some(c) => rest.push(c),
            None => rest,
        }
    }
}

proof fn lemma_first_row_at(rows: Seq<Country>, id: u64, k: int)
    requires
        0 <= k < rows.len(),
        rows[k].id == id,
        forall|m: int| 0 <= m < k ==> rows[m].id != id,
    ensures
        first_row(rows, id) == Some(rows[k]),
    decreases k,
{
    if k > 0 {
        assert(forall|m: int| 0 <= m < k - 1 ==> rows.drop_first()[m] == rows[m + 1]);
        lemma_first_row_at(rows.drop_first(), id, k - 1);
        assert(rows.drop_first()[k - 1] == rows[k]);
    }
}

proof fn lemma_first_row_none(rows: Seq<Country>, id: u64)
    requires
        forall|m: int| 0 <= m < rows.len() ==> rows[m].id != id,
    ensures
        first_row(rows, id) is None,
    decreases rows.len(),
{
    if rows.len() > 0 {
        assert(forall|m: int| 0 <= m < rows.len() - 1 ==> rows.drop_first()[m] == rows[m + 1]);
        lemma_first_row_none(rows.drop_first(), id);
    }
}

/// Countries load by scanning the store rows once per requested id, keeping
/// the first row with that id, in request order. The load fails exactly
/// when the store is unavailable.
impl LoadFromIds for Country {
    type Id = u64;

    type Error = StoreError;

    type Connection = MemoryStore;

    fn load(ids: &Vec<u64>, db: &MemoryStore) -> (r: Result<Vec<Country>, StoreError>)
        ensures
            db.available <==> r is Ok,
            r matches Ok(found) ==> found@ == rows_for(db.countries@, ids@),
    {
        if !db.available {
            return Err(StoreError);
        }
        let mut found: Vec<Country> = Vec::new();
        let mut i: usize = 0;
        while i < ids.len()
            invariant
                i <= ids@.len(),
                found@ == rows_for(db.countries@, ids@.take(i as int)),
            decreases ids@.len() - i,
        {
            let id = ids[i];
            let mut j: usize = 0;
            let mut hit: Option<usize> = None;
            while j < db.countries.len() && hit.is_none()
                invariant
                    j <= db.countries@.len(),
                    hit is None ==> forall|m: int|
                        #![auto]
                        0 <= m < j ==> db.countries@[m].id != id,
                    hit matches Some(k) ==> k < db.countries@.len() && db.countries@[k as int].id
                        == id && forall|m: int| #![auto] 0 <= m < k ==> db.countries@[m].id != id,
                decreases db.countries@.len() - j, (if hit is None {
                    1int
                } else {
                    0int
                }),
            {
                if db.countries[j].id == id {
                    hit = Some(j);
                } else {
                    j += 1;
                }
            }
            proof {
                assert(ids@.take(i as int + 1).drop_last() =~= ids@.take(i as int));
                assert(ids@.take(i as int + 1).last() == ids@[i as int]);
                match hit {
                    Some(k) => lemma_first_row_at(db.countries@, id, k as int),
                    None => lemma_first_row_none(db.countries@, id),
                }
            }
            match hit {
                Some(k) => found.push(db.countries[k]),
                None => {},
            }
            i += 1;
        }
        proof {
            assert(ids@.take(ids@.len() as int) =~= ids@);
        }
        Ok(found)
    }
}

impl GraphqlNodeForModel for CountryNode {
    type Model = Country;

    type Id = u64;

    type Connection = MemoryStore;

    type Error = StoreError;

    type CacheValue = Country;

    open spec fn new_from_model_spec(model: Country) -> Self {
        CountryNode { country: model }
    }

    open spec fn built_from(node: Self, model: Country) -> bool {
        node.country == model
    }

    proof fn new_from_model_builds(model: Country) {
    }

    fn new_from_model(model: &Country) -> Self {
        CountryNode { country: *model }
    }
}

/// A country node has no declared relationships, so a level of them is
/// already fully resolved.
impl EagerLoadAllChildren<CountryTrail> for CountryNode {
    open spec fn edges_resolved(node: Self) -> bool {
        true
    }

    fn eager_load_all_children_for_each(
        nodes: &mut Vec<Self>,
        models: &Vec<Country>,
        db: &MemoryStore,
        trail: &CountryTrail,
        cache: &mut Cache<u64, Country>,
    ) -> Result<(), StoreError> {
        Ok(())
    }
}

impl GraphqlNodeForModel for UserNode {
    type Model = User;

    type Id = u64;

    type Connection = MemoryStore;

    type Error = StoreError;

    type CacheValue = Country;

    open spec fn new_from_model_spec(model: User) -> Self {
        UserNode { user: model, country: DbEdge::NotLoaded }
    }

    open spec fn built_from(node: Self, model: User) -> bool {
        node.user == model
    }

    proof fn new_from_model_builds(model: User) {
    }

    fn new_from_model(model: &User) -> Self {
        UserNode { user: *model, country: DbEdge::NotLoaded }
    }
}

impl ChildRelation<CountryNode> for UserNode {
    type ChildModel = Country;

    type ChildId = u64;

    open spec fn child_id_spec(model: User) -> u64 {
        model.country_id
    }

    fn child_id(model: &User) -> u64 {
        model.country_id
    }

    open spec fn relationship_tag_spec() -> u64 {
        COUNTRY_TAG
    }

    fn relationship_tag() -> u64 {
        COUNTRY_TAG
    }

    open spec fn cache_key_of_id_spec(id: u64) -> u64 {
        id
    }

    fn cache_key_of_id(id: &u64) -> u64 {
        *id
    }

    open spec fn cache_key_of_model_spec(model: Country) -> u64 {
        model.id
    }

    fn cache_key_of_model(model: &Country) -> u64 {
        model.id
    }

    open spec fn wrap_spec(model: Country) -> Country {
        model
    }

    fn wrap_model(model: &Country) -> Country {
        *model
    }

    open spec fn unwrap_spec(value: Country) -> Option<Country> {
        Some(value)
    }

    fn unwrap_model(value: &Country) -> Option<Country> {
        Some(*value)
    }

    open spec fn is_child_of_spec(node: UserNode, child: CountryNode) -> bool {
        node.user.country_id == child.country.id
    }

    fn is_child_of(node: &UserNode, child: &CountryNode) -> bool {
        node.user.country_id == child.country.id
    }

    open spec fn loaded_or_failed_child_spec(node: UserNode, child: Option<CountryNode>) -> UserNode {
        UserNode {
            user: node.user,
            country: match child {
                Some(c) => DbEdge::Loaded(c),
                None => DbEdge::LoadFailed,
            },
        }
    }

    fn loaded_or_failed_child(node: &mut UserNode, child: Option<&CountryNode>) {
        match child {
            Some(c) => node.country.loaded_or_failed(Some(*c)),
            None => node.country.loaded_or_failed(None),
        }
    }

    open spec fn child_resolved(node: UserNode) -> bool {
        !(node.country is NotLoaded)
    }

    proof fn loaded_or_failed_resolves(node: UserNode, child: Option<CountryNode>) {
    }

    proof fn loaded_or_failed_preserves_built(
        node: UserNode,
        model: User,
        child: Option<CountryNode>,
    ) {
    }
}

/// The user-to-country relationship loads its children through
/// [`LoadFromIds`] on [`Country`].
impl EagerLoadChildrenOfType<CountryNode, CountryTrail, ()> for UserNode {
    fn load_children(ids: &Vec<u64>, db: &MemoryStore) -> (r: Result<Vec<Country>, StoreError>)
        ensures
            db.available <==> r is Ok,
            r matches Ok(found) ==> found@ == rows_for(db.countries@, ids@),
    {
        Country::load(ids, db)
    }
}

/// The node built from a user record whose country association is optional:
/// a user without a matching country is valid data, not a failed load.
#[derive(Debug, Clone)]
pub struct TravelerNode {
    pub user: User,
    pub country: OptionDbEdge<CountryNode>,
}

impl GraphqlNodeForModel for TravelerNode {
    type Model = User;

    type Id = u64;

    type Connection = MemoryStore;

    type Error = StoreError;

    type CacheValue = Country;

    open spec fn new_from_model_spec(model: User) -> Self {
        TravelerNode { user: model, country: OptionDbEdge::NotLoaded }
    }

    open spec fn built_from(node: Self, model: User) -> bool {
        node.user == model
    }

    proof fn new_from_model_builds(model: User) {
    }

    fn new_from_model(model: &User) -> Self {
        TravelerNode { user: *model, country: OptionDbEdge::NotLoaded }
    }
}

impl ChildRelation<CountryNode> for TravelerNode {
    type ChildModel = Country;

    type ChildId = u64;

    open spec fn child_id_spec(model: User) -> u64 {
        model.country_id
    }

    fn child_id(model: &User) -> u64 {
        model.country_id
    }

    open spec fn relationship_tag_spec() -> u64 {
        COUNTRY_TAG
    }

    fn relationship_tag() -> u64 {
        COUNTRY_TAG
    }

    open spec fn cache_key_of_id_spec(id: u64) -> u64 {
        id
    }

    fn cache_key_of_id(id: &u64) -> u64 {
        *id
    }

    open spec fn cache_key_of_model_spec(model: Country) -> u64 {
        model.id
    }

    fn cache_key_of_model(model: &Country) -> u64 {
        model.id
    }

    open spec fn wrap_spec(model: Country) -> Country {
        model
    }

    fn wrap_model(model: &Country) -> Country {
        *model
    }

    open spec fn unwrap_spec(value: Country) -> Option<Country> {
        Some(value)
    }

    fn unwrap_model(value: &Country) -> Option<Country> {
        Some(*value)
    }

    open spec fn is_child_of_spec(node: TravelerNode, child: CountryNode) -> bool {
        node.user.country_id == child.country.id
    }

    fn is_child_of(node: &TravelerNode, child: &CountryNode) -> bool {
        node.user.country_id == child.country.id
    }

    open spec fn loaded_or_failed_child_spec(
        node: TravelerNode,
        child: Option<CountryNode>,
    ) -> TravelerNode {
        TravelerNode { user: node.user, country: OptionDbEdge::Loaded(child) }
    }

    fn loaded_or_failed_child(node: &mut TravelerNode, child: Option<&CountryNode>) {
        match child {
            Some(c) => node.country.loaded_or_failed(Some(*c)),
            None => node.country.loaded_or_failed(None),
        }
    }

    open spec fn child_resolved(node: TravelerNode) -> bool {
        !(node.country is NotLoaded)
    }

    proof fn loaded_or_failed_resolves(node: TravelerNode, child: Option<CountryNode>) {
    }

    proof fn loaded_or_failed_preserves_built(
        node: TravelerNode,
        model: User,
        child: Option<CountryNode>,
    ) {
    }
}

/// The traveler-to-country relationship loads through [`LoadFromIds`] too.
impl EagerLoadChildrenOfType<CountryNode, CountryTrail, ()> for TravelerNode {
    fn load_children(ids: &Vec<u64>, db: &MemoryStore) -> (r: Result<Vec<Country>, StoreError>)
        ensures
            db.available <==> r is Ok,
            r matches Ok(found) ==> found@ == rows_for(db.countries@, ids@),
    {
        Country::load(ids, db)
    }
}

/// A traveler level resolves its one declared relationship, then is done.
impl EagerLoadAllChildren<CountryTrail> for TravelerNode {
    open spec fn edges_resolved(node: Self) -> bool {
        !(node.country is NotLoaded)
    }

    fn eager_load_all_children_for_each(
        nodes: &mut Vec<Self>,
        models: &Vec<User>,
        db: &MemoryStore,
        trail: &CountryTrail,
        cache: &mut Cache<u64, Country>,
    ) -> Result<(), StoreError> {
        Self::eager_load_children(nodes, models, db, trail, cache)
    }
}

/// A user level resolves its one declared relationship, then is done.
impl EagerLoadAllChildren<CountryTrail> for UserNode {
    open spec fn edges_resolved(node: Self) -> bool {
        !(node.country is NotLoaded)
    }

    fn eager_load_all_children_for_each(
        nodes: &mut Vec<Self>,
        models: &Vec<User>,
        db: &MemoryStore,
        trail: &CountryTrail,
        cache: &mut Cache<u64, Country>,
    ) -> Result<(), StoreError> {
        Self::eager_load_children(nodes, models, db, trail, cache)
    }
}

} // verus!
