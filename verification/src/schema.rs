//! The API composition layer: merges the per-domain operation sets into one
//! query root and one mutation root at startup, refusing name collisions,
//! and guards resolver calls with the feature switches.

use vstd::prelude::*;

use crate::error::StoreError;
use crate::features::lot_enabled;
use crate::features::AppConfig;
use crate::model::Model;
use crate::model::ReviewInput;
use crate::store::assoc_upsert;
use crate::store::has_assoc;
use crate::store::has_metadata;
use crate::store::has_user;
use crate::store::rating_ok;
use crate::store::Store;
use crate::summary::md_find;

verus! {

/// No two operation names read the same.
pub open spec fn names_distinct(s: Seq<String>) -> bool {
    forall|i: int, j: int| 0 <= i < j < s.len() ==> (#[trigger] s[i])@ != (#[trigger] s[j])@
}

/// The operation names of a list of domain modules, laid end to end in
/// module order.
pub open spec fn flat_names(sets: Seq<Vec<String>>) -> Seq<String>
    decreases sets.len(),
{
    if sets.len() == 0 {
        Seq::empty()
    } else {
        flat_names(sets.drop_last()) + sets.last()@
    }
}

/// Whether some already-registered name reads like this one.
fn contains_name(v: &Vec<String>, name: &String) -> (r: bool)
    ensures
        r == exists|k: int| 0 <= k < v@.len() && (#[trigger] v@[k])@ == name@,
{
    let mut k: usize = 0;
    while k < v.len()
        invariant
            k <= v@.len(),
            forall|j: int| 0 <= j < k ==> (#[trigger] v@[j])@ != name@,
        decreases v@.len() - k,
    {
        if v[k].eq(name) {
            return true;
        }
        k += 1;
    }
    false
}

/// Registers one module's names after the ones already merged. Fails with
/// `Conflict` exactly when a name of the module collides with an earlier
/// name or repeats inside the module.
fn append_set(acc: &mut Vec<String>, set: &Vec<String>) -> (r: Result<(), StoreError>)
    requires
        names_distinct(old(acc)@),
    ensures
        r is Ok <==> names_distinct(old(acc)@ + set@),
        r is Ok ==> final(acc)@ == old(acc)@ + set@ && names_distinct(final(acc)@),
        r is Err ==> r == Err::<(), StoreError>(StoreError::Conflict),
{
    let ghost base = acc@;
    let mut j: usize = 0;
    proof {
        assert(base + set@.take(0) =~= base);
    }
    while j < set.len()
        invariant
            j <= set@.len(),
            base == old(acc)@,
            acc@ == base + set@.take(j as int),
            names_distinct(acc@),
        decreases set@.len() - j,
    {
        if contains_name(acc, &set[j]) {
            proof {
                let full = base + set@;
                let k = choose|k: int| 0 <= k < acc@.len() && (acc@[k])@ == (set@[j as int])@;
                assert(full[base.len() + j] == set@[j as int]);
                if k < base.len() {
                    assert(full[k] == acc@[k]);
                } else {
                    assert(full[k] == set@[k - base.len()]);
                    assert(acc@[k] == set@.take(j as int)[k - base.len()]);
                }
                assert(!names_distinct(full));
            }
            return Err(StoreError::Conflict);
        }
        let name = set[j].clone();
        acc.push(name);
        proof {
            assert(acc@ =~= base + set@.take(j as int + 1));
            assert forall|a: int, b: int| 0 <= a < b < acc@.len() implies (#[trigger] acc@[a])@
                != (#[trigger] acc@[b])@ by {
                if b < acc@.len() - 1 {
                } else {
                    assert(acc@[b] == set@[j as int]);
                }
            }
        }
        j += 1;
    }
    proof {
        assert(base + set@.take(set@.len() as int) =~= base + set@);
    }
    Ok(())
}

/// Earlier modules' names keep their positions in the flattened whole.
proof fn lemma_flat_names_prefix(sets: Seq<Vec<String>>, i: int)
    requires
        0 <= i <= sets.len(),
    ensures
        flat_names(sets.take(i)).len() <= flat_names(sets).len(),
        forall|k: int|
            0 <= k < flat_names(sets.take(i)).len() ==> #[trigger] flat_names(sets)[k]
                == flat_names(sets.take(i))[k],
    decreases sets.len() - i,
{
    if i < sets.len() {
        assert(sets.take(i + 1).drop_last() =~= sets.take(i));
        assert(sets.take(i + 1).last() == sets[i]);
        lemma_flat_names_prefix(sets, i + 1);
    } else {
        assert(sets.take(i) =~= sets);
    }
}

/// Merges the operation names of the given modules into one dispatch list.
/// Composition is purely additive: it succeeds exactly when the flattened
/// names are collision-free, and then returns them in module order.
pub fn merge_operation_sets(sets: &Vec<Vec<String>>) -> (r: Result<Vec<String>, StoreError>)
    ensures
        r is Ok <==> names_distinct(flat_names(sets@)),
        r matches Ok(v) ==> v@ == flat_names(sets@) && names_distinct(v@),
        r is Err ==> r == Err::<Vec<String>, StoreError>(StoreError::Conflict),
{
    let mut acc: Vec<String> = Vec::new();
    let mut i: usize = 0;
    proof {
        assert(sets@.take(0) =~= Seq::<Vec<String>>::empty());
        assert(acc@ =~= flat_names(sets@.take(0)));
    }
    while i < sets.len()
        invariant
            i <= sets@.len(),
            acc@ == flat_names(sets@.take(i as int)),
            names_distinct(acc@),
        decreases sets@.len() - i,
    {
        proof {
            assert(sets@.take(i as int + 1).drop_last() =~= sets@.take(i as int));
            assert(sets@.take(i as int + 1).last() == sets@[i as int]);
        }
        let res = append_set(&mut acc, &sets[i]);
        if res.is_err() {
            proof {
                let partial = flat_names(sets@.take(i as int + 1));
                lemma_flat_names_prefix(sets@, i as int + 1);
                let (a, b) = choose|a: int, b: int|
                    0 <= a < b < partial.len() && (partial[a])@ == (partial[b])@;
                assert(flat_names(sets@)[a] == partial[a]);
                assert(flat_names(sets@)[b] == partial[b]);
                assert(!names_distinct(flat_names(sets@)));
            }
            return Err(StoreError::Conflict);
        }
        i += 1;
    }
    proof {
        assert(sets@.take(sets@.len() as int) =~= sets@);
    }
    Ok(acc)
}

/// A mutation result that carries just the id of the row acted on.
#[derive(Clone, Copy, Debug, PartialEq, Eq, Structural)]
pub struct IdObject {
    pub id: crate::ids::Identifier,
}

impl IdObject {
    /// Wraps a row id for the wire.
    pub fn new(id: crate::ids::Identifier) -> (r: IdObject)
        ensures
            r.id == id,
    {
        IdObject { id }
    }
}

/// The merged query surface: every query operation of every domain module,
/// collision-free.
pub struct QueryRoot {
    pub operations: Vec<String>,
}

/// The merged mutation surface.
pub struct MutationRoot {
    pub operations: Vec<String>,
}

impl QueryRoot {
    pub open spec fn wf(self) -> bool {
        names_distinct(self.operations@)
    }

    /// Merges the domain modules' query operations; a name collision is a
    /// startup-time `Conflict`, never a runtime surprise.
    pub fn compose(sets: &Vec<Vec<String>>) -> (r: Result<QueryRoot, StoreError>)
        ensures
            r is Ok <==> names_distinct(flat_names(sets@)),
            r matches Ok(q) ==> q.operations@ == flat_names(sets@) && q.wf(),
            r is Err ==> r == Err::<QueryRoot, StoreError>(StoreError::Conflict),
    {
        match merge_operation_sets(sets) {
            Ok(operations) => Ok(QueryRoot { operations }),
            Err(e) => Err(e),
        }
    }

    /// Whether the composed surface dispatches an operation of this name.
    pub fn has_operation(&self, name: &String) -> (r: bool)
        ensures
            r == exists|k: int|
                0 <= k < self.operations@.len() && (#[trigger] self.operations@[k])@ == name@,
    {
        contains_name(&self.operations, name)
    }
}

impl MutationRoot {
    pub open spec fn wf(self) -> bool {
        names_distinct(self.operations@)
    }

    /// Merges the domain modules' mutation operations, as `QueryRoot::compose`
    /// does for queries.
    pub fn compose(sets: &Vec<Vec<String>>) -> (r: Result<MutationRoot, StoreError>)
        ensures
            r is Ok <==> names_distinct(flat_names(sets@)),
            r matches Ok(q) ==> q.operations@ == flat_names(sets@) && q.wf(),
            r is Err ==> r == Err::<MutationRoot, StoreError>(StoreError::Conflict),
    {
        match merge_operation_sets(sets) {
            Ok(operations) => Ok(MutationRoot { operations }),
            Err(e) => Err(e),
        }
    }

    /// Whether the composed surface dispatches an operation of this name.
    pub fn has_operation(&self, name: &String) -> (r: bool)
        ensures
            r == exists|k: int|
                0 <= k < self.operations@.len() && (#[trigger] self.operations@[k])@ == name@,
    {
        contains_name(&self.operations, name)
    }
}

/// The assembled request surface: both roots and the injected
/// configuration. The store and service handles live with the transport
/// layer and are injected there; this core carries what it can state.
pub struct GraphqlSchema {
    pub query: QueryRoot,
    pub mutation: MutationRoot,
    pub config: AppConfig,
}

/// Assembles the schema once at startup: composes both operation surfaces
/// and captures the shared configuration every resolver will read from the
/// request context.
pub fn get_schema(
    query_sets: &Vec<Vec<String>>,
    mutation_sets: &Vec<Vec<String>>,
    config: &AppConfig,
) -> (r: Result<GraphqlSchema, StoreError>)
    ensures
        r is Ok <==> names_distinct(flat_names(query_sets@)) && names_distinct(
            flat_names(mutation_sets@),
        ),
        r matches Ok(s) ==> s.query.operations@ == flat_names(query_sets@) && s.query.wf()
            && s.mutation.operations@ == flat_names(mutation_sets@) && s.mutation.wf() && s.config
            == *config,
        r is Err ==> r == Err::<GraphqlSchema, StoreError>(StoreError::Conflict),
{
    let query = match QueryRoot::compose(query_sets) {
        Ok(q) => q,
        Err(e) => {
            return Err(e);
        },
    };
    let mutation = match MutationRoot::compose(mutation_sets) {
        Ok(m) => m,
        Err(e) => {
            return Err(e);
        },
    };
    Ok(GraphqlSchema { query, mutation, config: *config })
}

/// Whether the item under review belongs to a domain that is switched off.
pub open spec fn domain_blocked(st: Store, config: AppConfig, metadata_id: i32) -> bool {
    match md_find(st.metadata@, metadata_id) {
        Some(m) => !lot_enabled(config, m.lot),
        None => false,
    }
}

/// The review-posting resolver: refuses a disabled domain with
/// `NotEnabled` before touching the store, and otherwise behaves exactly
/// as `Store::post_review`.
pub fn post_review_resolver(
    store: &mut Store,
    config: &AppConfig,
    input: ReviewInput,
    posted_on: i64,
    association_write_ok: bool,
) -> (r: Result<Model, StoreError>)
    requires
        old(store).wf(),
    ensures
        final(store).wf(),
        domain_blocked(*old(store), *config, input.metadata_id) ==> r == Err::<Model, StoreError>(
            StoreError::NotEnabled,
        ) && *final(store) == *old(store),
        !domain_blocked(*old(store), *config, input.metadata_id) ==> {
            &&& r is Ok <==> rating_ok(input) && has_user(old(store).users@, input.user_id)
                && has_metadata(old(store).metadata@, input.metadata_id) && old(
                store,
            ).next_review_id < i32::MAX
            &&& (r is Err ==> *final(store) == *old(store))
            &&& (r matches Ok(m) ==> m == (Model {
                id: old(store).next_review_id,
                posted_on,
                rating: input.rating,
                text: input.text,
                visibility: input.visibility,
                spoiler: input.spoiler,
                user_id: input.user_id,
                metadata_id: input.metadata_id,
                extra_information: input.extra_information,
                identifier: input.identifier,
            }) && final(store).reviews@ == old(store).reviews@.push(m))
            &&& (r is Ok && association_write_ok ==> final(store).associations@ == assoc_upsert(
                old(store).associations@,
                input.user_id,
                input.metadata_id,
            ) && has_assoc(final(store).associations@, input.user_id, input.metadata_id))
            &&& (r is Ok && !association_write_ok ==> final(store).associations@ == old(
                store,
            ).associations@)
        },
        final(store).users@ == old(store).users@,
        final(store).metadata@ == old(store).metadata@,
        final(store).summaries@ == old(store).summaries@,
{
    let found = store.find_metadata(input.metadata_id);
    if let Some(m) = found {
        let enabled = match m.lot {
            crate::model::MetadataLot::AudioBook => config.audio_books.enabled,
            crate::model::MetadataLot::Book => config.books.enabled,
            crate::model::MetadataLot::Movie => config.movies.enabled,
            crate::model::MetadataLot::Podcast => config.podcasts.enabled,
            crate::model::MetadataLot::Show => config.shows.enabled,
            crate::model::MetadataLot::VideoGame => config.video_games.enabled,
        };
        if !enabled {
            return Err(StoreError::NotEnabled);
        }
    }
    store.post_review(input, posted_on, association_write_ok)
}

} // verus!
