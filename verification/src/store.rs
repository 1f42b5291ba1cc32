//! The entity store: typed create/read/update/delete over users, metadata
//! items, reviews, summaries and associations, with referential integrity
//! and cascading deletion enforced at this layer.

use vstd::prelude::*;

use crate::error::StoreError;
use crate::ids::Identifier;
use crate::model::Association;
use crate::model::MetadataLot;
use crate::model::MetadataRow;
use crate::model::Model;
use crate::model::clone_opt_string;
use crate::model::ReviewInput;
use crate::model::Summary;
use crate::model::UserRow;

verus! {

broadcast use vstd::seq_lib::group_filter_ensures;

// ---------------------------------------------------------------------------
// Spec-level predicates over the stored tables.
// ---------------------------------------------------------------------------

pub open spec fn has_user(users: Seq<UserRow>, id: i32) -> bool {
    exists|i: int| 0 <= i < users.len() && users[i].id == id
}

pub open spec fn has_metadata(md: Seq<MetadataRow>, id: i32) -> bool {
    exists|i: int| 0 <= i < md.len() && md[i].id == id
}

pub open spec fn has_review(rs: Seq<Model>, id: i32) -> bool {
    exists|i: int| 0 <= i < rs.len() && rs[i].id == id
}

pub open spec fn has_summary(ss: Seq<Summary>, user_id: i32) -> bool {
    exists|i: int| 0 <= i < ss.len() && ss[i].user_id == user_id
}

pub open spec fn has_assoc(assocs: Seq<Association>, user_id: i32, metadata_id: i32) -> bool {
    exists|i: int|
        0 <= i < assocs.len() && assocs[i].user_id == user_id && assocs[i].metadata_id
            == metadata_id
}

/// No two rows share a key, for any key function.
pub open spec fn distinct_keys<A, K>(s: Seq<A>, key: spec_fn(A) -> K) -> bool {
    forall|i: int, j: int| 0 <= i < j < s.len() ==> key(#[trigger] s[i]) != key(#[trigger] s[j])
}

/// The primary key of each table, and the composite key of the
/// association table.
pub open spec fn user_key() -> spec_fn(UserRow) -> i32 {
    |u: UserRow| u.id
}

pub open spec fn metadata_key() -> spec_fn(MetadataRow) -> i32 {
    |m: MetadataRow| m.id
}

pub open spec fn review_key() -> spec_fn(Model) -> i32 {
    |r: Model| r.id
}

pub open spec fn summary_key() -> spec_fn(Summary) -> i32 {
    |s: Summary| s.user_id
}

pub open spec fn assoc_key() -> spec_fn(Association) -> (i32, i32) {
    |a: Association| (a.user_id, a.metadata_id)
}

/// The row filters behind each cascade, named so that every mention is the
/// same function value.
pub open spec fn keep_other_user(id: i32) -> spec_fn(UserRow) -> bool {
    |u: UserRow| u.id != id
}

pub open spec fn keep_other_metadata(id: i32) -> spec_fn(MetadataRow) -> bool {
    |m: MetadataRow| m.id != id
}

pub open spec fn keep_other_review(id: i32) -> spec_fn(Model) -> bool {
    |r: Model| r.id != id
}

pub open spec fn keep_reviews_not_of_user(user_id: i32) -> spec_fn(Model) -> bool {
    |r: Model| r.user_id != user_id
}

pub open spec fn keep_reviews_not_of_metadata(metadata_id: i32) -> spec_fn(Model) -> bool {
    |r: Model| r.metadata_id != metadata_id
}

pub open spec fn keep_summaries_not_of_user(user_id: i32) -> spec_fn(Summary) -> bool {
    |s: Summary| s.user_id != user_id
}

pub open spec fn keep_assocs_not_of_user(user_id: i32) -> spec_fn(Association) -> bool {
    |a: Association| a.user_id != user_id
}

pub open spec fn keep_assocs_not_of_metadata(metadata_id: i32) -> spec_fn(Association) -> bool {
    |a: Association| a.metadata_id != metadata_id
}

/// The first row with the given id, scanning from the front.
pub open spec fn review_lookup(rs: Seq<Model>, id: i32) -> Option<Model>
    decreases rs.len(),
{
    if rs.len() == 0 {
        None
    } else if rs[0].id == id {
        Some(rs[0])
    } else {
        review_lookup(rs.drop_first(), id)
    }
}

// ---------------------------------------------------------------------------
// The cascaded remainders of each table, named once so that every contract
// speaks of the same function.
// ---------------------------------------------------------------------------

pub open spec fn users_without(users: Seq<UserRow>, id: i32) -> Seq<UserRow> {
    users.filter(keep_other_user(id))
}

pub open spec fn metadata_without(md: Seq<MetadataRow>, id: i32) -> Seq<MetadataRow> {
    md.filter(keep_other_metadata(id))
}

pub open spec fn reviews_without_id(rs: Seq<Model>, id: i32) -> Seq<Model> {
    rs.filter(keep_other_review(id))
}

pub open spec fn reviews_without_user(rs: Seq<Model>, user_id: i32) -> Seq<Model> {
    rs.filter(keep_reviews_not_of_user(user_id))
}

pub open spec fn reviews_without_metadata(rs: Seq<Model>, metadata_id: i32) -> Seq<Model> {
    rs.filter(keep_reviews_not_of_metadata(metadata_id))
}

pub open spec fn summaries_without_user(ss: Seq<Summary>, user_id: i32) -> Seq<Summary> {
    ss.filter(keep_summaries_not_of_user(user_id))
}

pub open spec fn assocs_without_user(assocs: Seq<Association>, user_id: i32) -> Seq<Association> {
    assocs.filter(keep_assocs_not_of_user(user_id))
}

pub open spec fn assocs_without_metadata(
    assocs: Seq<Association>,
    metadata_id: i32,
) -> Seq<Association> {
    assocs.filter(keep_assocs_not_of_metadata(metadata_id))
}

/// What the idempotent association upsert leaves behind.
pub open spec fn assoc_upsert(
    assocs: Seq<Association>,
    user_id: i32,
    metadata_id: i32,
) -> Seq<Association> {
    if has_assoc(assocs, user_id, metadata_id) {
        assocs
    } else {
        assocs.push(Association { user_id, metadata_id })
    }
}

// ---------------------------------------------------------------------------
// Facts about filtered sequences.
// ---------------------------------------------------------------------------

/// Every row of a filtered table was a row of the table.
pub proof fn lemma_filter_is_subset<A>(s: Seq<A>, pred: spec_fn(A) -> bool)
    ensures
        forall|i: int|
            0 <= i < s.filter(pred).len() ==> s.contains(#[trigger] s.filter(pred)[i]),
    decreases s.len(),
{
    reveal(Seq::filter);
    if s.len() > 0 {
        lemma_filter_is_subset(s.drop_last(), pred);
        let f = s.filter(pred);
        let fd = s.drop_last().filter(pred);
        assert forall|i: int| 0 <= i < f.len() implies s.contains(f[i]) by {
            if i < fd.len() {
                assert(s.drop_last().contains(fd[i]));
                let j = choose|j: int|
                    0 <= j < s.drop_last().len() && s.drop_last()[j] == fd[i];
                assert(s[j] == fd[i]);
            } else {
                assert(f[i] == s.last());
                assert(s[s.len() - 1] == s.last());
            }
        }
    }
}

/// Filtering keeps keys distinct.
pub proof fn lemma_filter_distinct_keys<A, K>(
    s: Seq<A>,
    pred: spec_fn(A) -> bool,
    key: spec_fn(A) -> K,
)
    requires
        distinct_keys(s, key),
    ensures
        distinct_keys(s.filter(pred), key),
    decreases s.len(),
{
    reveal(Seq::filter);
    if s.len() > 0 {
        let d = s.drop_last();
        assert(distinct_keys(d, key)) by {
            assert(forall|i: int| 0 <= i < d.len() ==> d[i] == s[i]);
        }
        lemma_filter_distinct_keys(d, pred, key);
        if pred(s.last()) {
            let fd = d.filter(pred);
            lemma_filter_is_subset(d, pred);
            assert forall|i: int| 0 <= i < fd.len() implies key(fd[i]) != key(s.last()) by {
                assert(d.contains(fd[i]));
                let j = choose|j: int| 0 <= j < d.len() && d[j] == fd[i];
                assert(s[j] == d[j]);
                assert(key(s[j]) != key(s[s.len() - 1]));
            }
            assert(s.filter(pred) == fd.push(s.last()));
        }
    }
}

/// A row whose key is fresh keeps a table's keys distinct.
pub proof fn lemma_push_distinct<A, K>(s: Seq<A>, key: spec_fn(A) -> K, x: A)
    requires
        distinct_keys(s, key),
        forall|i: int| 0 <= i < s.len() ==> key(#[trigger] s[i]) != key(x),
    ensures
        distinct_keys(s.push(x), key),
{
    let t = s.push(x);
    assert forall|i: int, j: int| 0 <= i < j < t.len() implies key(t[i]) != key(t[j]) by {
        if j < t.len() - 1 {
            assert(t[i] == s[i] && t[j] == s[j]);
        } else {
            assert(t[i] == s[i] && t[j] == x);
        }
    }
}

/// How each existence predicate behaves when one row is appended.
pub proof fn lemma_has_user_push(users: Seq<UserRow>, x: UserRow)
    ensures
        forall|id: i32| #[trigger] has_user(users.push(x), id) <==> (has_user(users, id) || x.id
            == id),
{
    let t = users.push(x);
    assert forall|id: i32| #[trigger] has_user(t, id) <==> (has_user(users, id) || x.id == id) by {
        if has_user(users, id) {
            let j = choose|j: int| 0 <= j < users.len() && users[j].id == id;
            assert(t[j] == users[j]);
        }
        if x.id == id {
            assert(t[users.len() as int] == x);
        }
        if has_user(t, id) {
            let j = choose|j: int| 0 <= j < t.len() && t[j].id == id;
            if j < users.len() {
                assert(users[j] == t[j]);
            }
        }
    }
}

pub proof fn lemma_has_metadata_push(md: Seq<MetadataRow>, x: MetadataRow)
    ensures
        forall|id: i32| #[trigger] has_metadata(md.push(x), id) <==> (has_metadata(md, id) || x.id
            == id),
{
    let t = md.push(x);
    assert forall|id: i32| #[trigger] has_metadata(t, id) <==> (has_metadata(md, id) || x.id
        == id) by {
        if has_metadata(md, id) {
            let j = choose|j: int| 0 <= j < md.len() && md[j].id == id;
            assert(t[j] == md[j]);
        }
        if x.id == id {
            assert(t[md.len() as int] == x);
        }
        if has_metadata(t, id) {
            let j = choose|j: int| 0 <= j < t.len() && t[j].id == id;
            if j < md.len() {
                assert(md[j] == t[j]);
            }
        }
    }
}

// ---------------------------------------------------------------------------
// The store.
// ---------------------------------------------------------------------------

/// The in-memory relational store. All writes go through the typed
/// operations below, which keep `wf` true.
pub struct Store {
    pub users: Vec<UserRow>,
    pub metadata: Vec<MetadataRow>,
    pub reviews: Vec<Model>,
    pub summaries: Vec<Summary>,
    pub associations: Vec<Association>,
    pub next_user_id: i32,
    pub next_metadata_id: i32,
    pub next_review_id: i32,
}

impl Store {
    /// The store's invariant: primary keys are unique, every foreign key
    /// points at a live parent row, at most one summary row exists per
    /// user, associations are unique per (user, metadata) pair, and every
    /// assigned id lies below the corresponding auto-increment counter.
    pub open spec fn wf(self) -> bool {
        &&& distinct_keys(self.users@, user_key())
        &&& distinct_keys(self.metadata@, metadata_key())
        &&& distinct_keys(self.reviews@, review_key())
        &&& distinct_keys(self.summaries@, summary_key())
        &&& distinct_keys(self.associations@, assoc_key())
        &&& forall|i: int|
            0 <= i < self.reviews@.len() ==> has_user(
                self.users@,
                (#[trigger] self.reviews@[i]).user_id,
            ) && has_metadata(self.metadata@, self.reviews@[i].metadata_id)
        &&& forall|i: int|
            0 <= i < self.summaries@.len() ==> has_user(
                self.users@,
                (#[trigger] self.summaries@[i]).user_id,
            )
        &&& forall|i: int|
            0 <= i < self.associations@.len() ==> has_user(
                self.users@,
                (#[trigger] self.associations@[i]).user_id,
            ) && has_metadata(self.metadata@, self.associations@[i].metadata_id)
        &&& 1 <= self.next_user_id
        &&& 1 <= self.next_metadata_id
        &&& 1 <= self.next_review_id
        &&& forall|i: int|
            0 <= i < self.users@.len() ==> 1 <= (#[trigger] self.users@[i]).id
                < self.next_user_id
        &&& forall|i: int|
            0 <= i < self.metadata@.len() ==> 1 <= (#[trigger] self.metadata@[i]).id
                < self.next_metadata_id
        &&& forall|i: int|
            0 <= i < self.reviews@.len() ==> 1 <= (#[trigger] self.reviews@[i]).id
                < self.next_review_id
        &&& self.reviews@.len() < self.next_review_id
    }

    /// An empty store.
    pub fn new() -> (r: Store)
        ensures
            r.wf(),
            r.users@ =~= Seq::<UserRow>::empty(),
            r.metadata@ =~= Seq::<MetadataRow>::empty(),
            r.reviews@ =~= Seq::<Model>::empty(),
            r.summaries@ =~= Seq::<Summary>::empty(),
            r.associations@ =~= Seq::<Association>::empty(),
            r.next_user_id == 1,
            r.next_metadata_id == 1,
            r.next_review_id == 1,
    {
        Store {
            users: Vec::new(),
            metadata: Vec::new(),
            reviews: Vec::new(),
            summaries: Vec::new(),
            associations: Vec::new(),
            next_user_id: 1,
            next_metadata_id: 1,
            next_review_id: 1,
        }
    }

    /// Creates a user under a fresh id. Fails with `Internal` only when the
    /// id space is exhausted.
    pub fn create_user(&mut self, name: String) -> (r: Result<Identifier, StoreError>)
        requires
            old(self).wf(),
        ensures
            final(self).wf(),
            old(self).next_user_id == i32::MAX ==> r == Err::<Identifier, StoreError>(
                StoreError::Internal,
            ) && *final(self) == *old(self),
            old(self).next_user_id < i32::MAX ==> {
                &&& r == Ok::<Identifier, StoreError>(Identifier(old(self).next_user_id))
                &&& final(self).users@ == old(self).users@.push(
                    (UserRow { id: old(self).next_user_id, name }),
                )
                &&& final(self).next_user_id == old(self).next_user_id + 1
            },
            final(self).metadata@ == old(self).metadata@,
            final(self).reviews@ == old(self).reviews@,
            final(self).summaries@ == old(self).summaries@,
            final(self).associations@ == old(self).associations@,
            final(self).next_metadata_id == old(self).next_metadata_id,
            final(self).next_review_id == old(self).next_review_id,
    {
        if self.next_user_id == i32::MAX {
            return Err(StoreError::Internal);
        }
        let id = self.next_user_id;
        let ghost prev = self.users@;
        self.users.push(UserRow { id, name });
        self.next_user_id = id + 1;
        proof {
            assert(forall|i: int|
                0 <= i < prev.len() ==> user_key()(#[trigger] prev[i]) != user_key()(
                    self.users@.last(),
                ));
            lemma_push_distinct(prev, user_key(), self.users@.last());
            lemma_has_user_push(prev, self.users@.last());
            assert(self.users@ =~= prev.push(self.users@.last()));
        }
        Ok(Identifier(id))
    }

    /// Creates a metadata item under a fresh id. Fails with `Internal` only
    /// when the id space is exhausted.
    pub fn create_metadata(&mut self, lot: MetadataLot, units: u32) -> (r: Result<
        Identifier,
        StoreError,
    >)
        requires
            old(self).wf(),
        ensures
            final(self).wf(),
            old(self).next_metadata_id == i32::MAX ==> r == Err::<Identifier, StoreError>(
                StoreError::Internal,
            ) && *final(self) == *old(self),
            old(self).next_metadata_id < i32::MAX ==> {
                &&& r == Ok::<Identifier, StoreError>(Identifier(old(self).next_metadata_id))
                &&& final(self).metadata@ == old(self).metadata@.push(
                    (MetadataRow { id: old(self).next_metadata_id, lot, units }),
                )
                &&& final(self).next_metadata_id == old(self).next_metadata_id + 1
            },
            final(self).users@ == old(self).users@,
            final(self).reviews@ == old(self).reviews@,
            final(self).summaries@ == old(self).summaries@,
            final(self).associations@ == old(self).associations@,
            final(self).next_user_id == old(self).next_user_id,
            final(self).next_review_id == old(self).next_review_id,
    {
        if self.next_metadata_id == i32::MAX {
            return Err(StoreError::Internal);
        }
        let id = self.next_metadata_id;
        let ghost prev = self.metadata@;
        self.metadata.push(MetadataRow { id, lot, units });
        self.next_metadata_id = id + 1;
        proof {
            assert(forall|i: int|
                0 <= i < prev.len() ==> metadata_key()(#[trigger] prev[i]) != metadata_key()(
                    self.metadata@.last(),
                ));
            lemma_push_distinct(prev, metadata_key(), self.metadata@.last());
            lemma_has_metadata_push(prev, self.metadata@.last());
            assert(self.metadata@ =~= prev.push(self.metadata@.last()));
        }
        Ok(Identifier(id))
    }

    /// Whether a user row with this id exists.
    pub fn user_exists(&self, id: i32) -> (r: bool)
        ensures
            r == has_user(self.users@, id),
    {
        let mut i: usize = 0;
        while i < self.users.len()
            invariant
                i <= self.users@.len(),
                forall|j: int| 0 <= j < i ==> (#[trigger] self.users@[j]).id != id,
            decreases self.users@.len() - i,
        {
            if self.users[i].id == id {
                return true;
            }
            i += 1;
        }
        false
    }

    /// Whether a metadata row with this id exists.
    pub fn metadata_exists(&self, id: i32) -> (r: bool)
        ensures
            r == has_metadata(self.metadata@, id),
    {
        let mut i: usize = 0;
        while i < self.metadata.len()
            invariant
                i <= self.metadata@.len(),
                forall|j: int| 0 <= j < i ==> (#[trigger] self.metadata@[j]).id != id,
            decreases self.metadata@.len() - i,
        {
            if self.metadata[i].id == id {
                return true;
            }
            i += 1;
        }
        false
    }

    /// Whether the association link for this (user, metadata) pair exists.
    pub fn association_exists(&self, user_id: i32, metadata_id: i32) -> (r: bool)
        ensures
            r == has_assoc(self.associations@, user_id, metadata_id),
    {
        let mut i: usize = 0;
        while i < self.associations.len()
            invariant
                i <= self.associations@.len(),
                forall|j: int|
                    0 <= j < i ==> !((#[trigger] self.associations@[j]).user_id == user_id
                        && self.associations@[j].metadata_id == metadata_id),
            decreases self.associations@.len() - i,
        {
            if self.associations[i].user_id == user_id && self.associations[i].metadata_id
                == metadata_id {
                return true;
            }
            i += 1;
        }
        false
    }

    /// Reads one review row by id.
    pub fn get_review(&self, id: i32) -> (r: Option<&Model>)
        ensures
            r is Some <==> has_review(self.reviews@, id),
            r matches Some(m) ==> review_lookup(self.reviews@, id) == Some(*m) && m.id == id,
    {
        proof {
            assert(self.reviews@.skip(0) =~= self.reviews@);
        }
        let mut i: usize = 0;
        while i < self.reviews.len()
            invariant
                i <= self.reviews@.len(),
                forall|j: int| 0 <= j < i ==> (#[trigger] self.reviews@[j]).id != id,
                review_lookup(self.reviews@, id) == review_lookup(
                    self.reviews@.skip(i as int),
                    id,
                ),
            decreases self.reviews@.len() - i,
        {
            if self.reviews[i].id == id {
                proof {
                    assert(self.reviews@.skip(i as int)[0] == self.reviews@[i as int]);
                }
                return Some(&self.reviews[i]);
            }
            proof {
                assert(self.reviews@.skip(i as int)[0] == self.reviews@[i as int]);
                assert(self.reviews@.skip(i as int).drop_first() =~= self.reviews@.skip(
                    i as int + 1,
                ));
            }
            i += 1;
        }
        proof {
            assert(self.reviews@.skip(self.reviews@.len() as int).len() == 0);
        }
        None
    }

    /// Reads the summary row of a user, if one has been computed.
    pub fn get_summary(&self, user_id: i32) -> (r: Option<&Summary>)
        ensures
            r is Some <==> has_summary(self.summaries@, user_id),
            r matches Some(s) ==> s.user_id == user_id && self.summaries@.contains(*s),
    {
        let mut i: usize = 0;
        while i < self.summaries.len()
            invariant
                i <= self.summaries@.len(),
                forall|j: int| 0 <= j < i ==> (#[trigger] self.summaries@[j]).user_id != user_id,
            decreases self.summaries@.len() - i,
        {
            if self.summaries[i].user_id == user_id {
                return Some(&self.summaries[i]);
            }
            i += 1;
        }
        None
    }
}


// ---------------------------------------------------------------------------
// Review creation and the post-insert association trigger.
// ---------------------------------------------------------------------------

/// An input rating must be a value a decimal column can store.
pub open spec fn rating_ok(input: ReviewInput) -> bool {
    match input.rating {
        Some(v) => v.wf(),
        None => true,
    }
}

impl Store {
    /// Nothing but the association table differs between the two stores.
    pub open spec fn same_but_associations(a: Store, b: Store) -> bool {
        &&& b.users@ == a.users@
        &&& b.metadata@ == a.metadata@
        &&& b.reviews@ == a.reviews@
        &&& b.summaries@ == a.summaries@
        &&& b.next_user_id == a.next_user_id
        &&& b.next_metadata_id == a.next_metadata_id
        &&& b.next_review_id == a.next_review_id
    }

    /// Records that the user has interacted with the metadata item. The
    /// upsert is idempotent: an existing link is left alone, so two reviews
    /// of the same item never make two links.
    pub fn associate_user_with_metadata(&mut self, user_id: i32, metadata_id: i32)
        requires
            old(self).wf(),
            has_user(old(self).users@, user_id),
            has_metadata(old(self).metadata@, metadata_id),
        ensures
            final(self).wf(),
            final(self).associations@ == assoc_upsert(old(self).associations@, user_id, metadata_id),
            has_assoc(final(self).associations@, user_id, metadata_id),
            Store::same_but_associations(*old(self), *final(self)),
    {
        if !self.association_exists(user_id, metadata_id) {
            let ghost prev = self.associations@;
            self.associations.push(Association { user_id, metadata_id });
            proof {
                assert(forall|i: int|
                    0 <= i < prev.len() ==> assoc_key()(#[trigger] prev[i]) != assoc_key()(
                        self.associations@.last(),
                    ));
                lemma_push_distinct(prev, assoc_key(), self.associations@.last());
                assert(self.associations@ =~= prev.push(self.associations@.last()));
                assert(self.associations@[prev.len() as int] == (Association {
                    user_id,
                    metadata_id,
                }));
            }
        }
    }

    /// The post-write hook: after a review row is newly inserted (and only
    /// then), it records the user-metadata association. The association
    /// write is best-effort: `association_write_ok` carries the outcome of
    /// the secondary write, and a failure is swallowed, never surfaced, so
    /// the primary write stands either way.
    pub fn after_save(
        &mut self,
        user_id: i32,
        metadata_id: i32,
        insert: bool,
        association_write_ok: bool,
    )
        requires
            old(self).wf(),
            has_user(old(self).users@, user_id),
            has_metadata(old(self).metadata@, metadata_id),
        ensures
            final(self).wf(),
            insert && association_write_ok ==> final(self).associations@ == assoc_upsert(
                old(self).associations@,
                user_id,
                metadata_id,
            ) && has_assoc(final(self).associations@, user_id, metadata_id),
            !(insert && association_write_ok) ==> final(self).associations@ == old(self).associations@,
            Store::same_but_associations(*old(self), *final(self)),
    {
        if insert && association_write_ok {
            self.associate_user_with_metadata(user_id, metadata_id);
        }
    }

    /// Creates a review. On success the stored row equals the returned row,
    /// whose fields equal the input; the association trigger then runs
    /// exactly once, and its failure (a false `association_write_ok`) does
    /// not undo or fail the insert. Fails with `ValidationFailed` on an
    /// ill-formed rating, `ReferenceNotFound` when the user or the metadata
    /// item does not exist, and `Internal` only on id exhaustion; on any
    /// failure the store is unchanged.
    pub fn post_review(
        &mut self,
        input: ReviewInput,
        posted_on: i64,
        association_write_ok: bool,
    ) -> (r: Result<Model, StoreError>)
        requires
            old(self).wf(),
        ensures
            final(self).wf(),
            r is Ok <==> rating_ok(input) && has_user(old(self).users@, input.user_id)
                && has_metadata(old(self).metadata@, input.metadata_id) && old(self).next_review_id
                < i32::MAX,
            r == Err::<Model, StoreError>(StoreError::ValidationFailed) <==> !rating_ok(input),
            r == Err::<Model, StoreError>(StoreError::ReferenceNotFound) <==> rating_ok(input) && !(
            has_user(old(self).users@, input.user_id) && has_metadata(
                old(self).metadata@,
                input.metadata_id,
            )),
            r == Err::<Model, StoreError>(StoreError::Internal) <==> rating_ok(input) && has_user(
                old(self).users@,
                input.user_id,
            ) && has_metadata(old(self).metadata@, input.metadata_id) && old(self).next_review_id
                == i32::MAX,
            r is Err ==> *final(self) == *old(self),
            r matches Ok(m) ==> m == (Model {
                id: old(self).next_review_id,
                posted_on,
                rating: input.rating,
                text: input.text,
                visibility: input.visibility,
                spoiler: input.spoiler,
                user_id: input.user_id,
                metadata_id: input.metadata_id,
                extra_information: input.extra_information,
                identifier: input.identifier,
            }),
            r matches Ok(m) ==> final(self).reviews@ == old(self).reviews@.push(m) && final(self).next_review_id == old(self).next_review_id + 1,
            r is Ok && association_write_ok ==> final(self).associations@ == assoc_upsert(
                old(self).associations@,
                input.user_id,
                input.metadata_id,
            ) && has_assoc(final(self).associations@, input.user_id, input.metadata_id),
            r is Ok && !association_write_ok ==> final(self).associations@ == old(self).associations@,
            final(self).users@ == old(self).users@,
            final(self).metadata@ == old(self).metadata@,
            final(self).summaries@ == old(self).summaries@,
            final(self).next_user_id == old(self).next_user_id,
            final(self).next_metadata_id == old(self).next_metadata_id,
    {
        if let Some(v) = &input.rating {
            if !v.is_wf() {
                return Err(StoreError::ValidationFailed);
            }
        }
        if !self.user_exists(input.user_id) {
            return Err(StoreError::ReferenceNotFound);
        }
        if !self.metadata_exists(input.metadata_id) {
            return Err(StoreError::ReferenceNotFound);
        }
        if self.next_review_id == i32::MAX {
            return Err(StoreError::Internal);
        }
        let id = self.next_review_id;
        let ReviewInput {
            rating,
            text,
            visibility,
            spoiler,
            user_id,
            metadata_id,
            extra_information,
            identifier,
        } = input;
        let row = Model {
            id,
            posted_on,
            rating,
            text,
            visibility,
            spoiler,
            user_id,
            metadata_id,
            extra_information,
            identifier,
        };
        let stored = row.duplicate();
        let ghost prev = self.reviews@;
        self.reviews.push(stored);
        self.next_review_id = id + 1;
        proof {
            assert(forall|i: int|
                0 <= i < prev.len() ==> review_key()(#[trigger] prev[i]) != review_key()(
                    self.reviews@.last(),
                ));
            lemma_push_distinct(prev, review_key(), self.reviews@.last());
            assert(self.reviews@ =~= prev.push(self.reviews@.last()));
        }
        self.after_save(row.user_id, row.metadata_id, true, association_write_ok);
        Ok(row)
    }
}


// ---------------------------------------------------------------------------
// Cascading deletion and in-place update.
// ---------------------------------------------------------------------------

fn filter_users(rows: &Vec<UserRow>, id: i32) -> (out: Vec<UserRow>)
    ensures
        out@ == users_without(rows@, id),
{
    let mut out: Vec<UserRow> = Vec::new();
    let mut i: usize = 0;
    proof {
        reveal(Seq::filter);
        assert(rows@.take(0) =~= Seq::<UserRow>::empty());
    }
    while i < rows.len()
        invariant
            i <= rows@.len(),
            out@ == users_without(rows@.take(i as int), id),
        decreases rows@.len() - i,
    {
        if rows[i].id != id {
            out.push(rows[i].duplicate());
        }
        proof {
            reveal(Seq::filter);
            assert(rows@.take(i as int + 1).drop_last() =~= rows@.take(i as int));
            assert(rows@.take(i as int + 1).last() == rows@[i as int]);
        }
        i += 1;
    }
    proof {
        assert(rows@.take(rows@.len() as int) =~= rows@);
    }
    out
}

fn filter_reviews_by_user(rows: &Vec<Model>, user_id: i32) -> (out: Vec<Model>)
    ensures
        out@ == reviews_without_user(rows@, user_id),
{
    let mut out: Vec<Model> = Vec::new();
    let mut i: usize = 0;
    proof {
        reveal(Seq::filter);
        assert(rows@.take(0) =~= Seq::<Model>::empty());
    }
    while i < rows.len()
        invariant
            i <= rows@.len(),
            out@ == reviews_without_user(rows@.take(i as int), user_id),
        decreases rows@.len() - i,
    {
        if rows[i].user_id != user_id {
            out.push(rows[i].duplicate());
        }
        proof {
            reveal(Seq::filter);
            assert(rows@.take(i as int + 1).drop_last() =~= rows@.take(i as int));
            assert(rows@.take(i as int + 1).last() == rows@[i as int]);
        }
        i += 1;
    }
    proof {
        assert(rows@.take(rows@.len() as int) =~= rows@);
    }
    out
}

fn filter_reviews_by_metadata(rows: &Vec<Model>, metadata_id: i32) -> (out: Vec<Model>)
    ensures
        out@ == reviews_without_metadata(rows@, metadata_id),
{
    let mut out: Vec<Model> = Vec::new();
    let mut i: usize = 0;
    proof {
        reveal(Seq::filter);
        assert(rows@.take(0) =~= Seq::<Model>::empty());
    }
    while i < rows.len()
        invariant
            i <= rows@.len(),
            out@ == reviews_without_metadata(rows@.take(i as int), metadata_id),
        decreases rows@.len() - i,
    {
        if rows[i].metadata_id != metadata_id {
            out.push(rows[i].duplicate());
        }
        proof {
            reveal(Seq::filter);
            assert(rows@.take(i as int + 1).drop_last() =~= rows@.take(i as int));
            assert(rows@.take(i as int + 1).last() == rows@[i as int]);
        }
        i += 1;
    }
    proof {
        assert(rows@.take(rows@.len() as int) =~= rows@);
    }
    out
}

fn filter_reviews_by_id(rows: &Vec<Model>, id: i32) -> (out: Vec<Model>)
    ensures
        out@ == reviews_without_id(rows@, id),
{
    let mut out: Vec<Model> = Vec::new();
    let mut i: usize = 0;
    proof {
        reveal(Seq::filter);
        assert(rows@.take(0) =~= Seq::<Model>::empty());
    }
    while i < rows.len()
        invariant
            i <= rows@.len(),
            out@ == reviews_without_id(rows@.take(i as int), id),
        decreases rows@.len() - i,
    {
        if rows[i].id != id {
            out.push(rows[i].duplicate());
        }
        proof {
            reveal(Seq::filter);
            assert(rows@.take(i as int + 1).drop_last() =~= rows@.take(i as int));
            assert(rows@.take(i as int + 1).last() == rows@[i as int]);
        }
        i += 1;
    }
    proof {
        assert(rows@.take(rows@.len() as int) =~= rows@);
    }
    out
}

pub(crate) fn filter_summaries_by_user(rows: &Vec<Summary>, user_id: i32) -> (out: Vec<Summary>)
    ensures
        out@ == summaries_without_user(rows@, user_id),
{
    let mut out: Vec<Summary> = Vec::new();
    let mut i: usize = 0;
    proof {
        reveal(Seq::filter);
        assert(rows@.take(0) =~= Seq::<Summary>::empty());
    }
    while i < rows.len()
        invariant
            i <= rows@.len(),
            out@ == summaries_without_user(rows@.take(i as int), user_id),
        decreases rows@.len() - i,
    {
        if rows[i].user_id != user_id {
            out.push(rows[i]);
        }
        proof {
            reveal(Seq::filter);
            assert(rows@.take(i as int + 1).drop_last() =~= rows@.take(i as int));
            assert(rows@.take(i as int + 1).last() == rows@[i as int]);
        }
        i += 1;
    }
    proof {
        assert(rows@.take(rows@.len() as int) =~= rows@);
    }
    out
}

fn filter_assocs_by_user(rows: &Vec<Association>, user_id: i32) -> (out: Vec<Association>)
    ensures
        out@ == assocs_without_user(rows@, user_id),
{
    let mut out: Vec<Association> = Vec::new();
    let mut i: usize = 0;
    proof {
        reveal(Seq::filter);
        assert(rows@.take(0) =~= Seq::<Association>::empty());
    }
    while i < rows.len()
        invariant
            i <= rows@.len(),
            out@ == assocs_without_user(rows@.take(i as int), user_id),
        decreases rows@.len() - i,
    {
        if rows[i].user_id != user_id {
            out.push(rows[i]);
        }
        proof {
            reveal(Seq::filter);
            assert(rows@.take(i as int + 1).drop_last() =~= rows@.take(i as int));
            assert(rows@.take(i as int + 1).last() == rows@[i as int]);
        }
        i += 1;
    }
    proof {
        assert(rows@.take(rows@.len() as int) =~= rows@);
    }
    out
}

fn filter_assocs_by_metadata(rows: &Vec<Association>, metadata_id: i32) -> (out: Vec<Association>)
    ensures
        out@ == assocs_without_metadata(rows@, metadata_id),
{
    let mut out: Vec<Association> = Vec::new();
    let mut i: usize = 0;
    proof {
        reveal(Seq::filter);
        assert(rows@.take(0) =~= Seq::<Association>::empty());
    }
    while i < rows.len()
        invariant
            i <= rows@.len(),
            out@ == assocs_without_metadata(rows@.take(i as int), metadata_id),
        decreases rows@.len() - i,
    {
        if rows[i].metadata_id != metadata_id {
            out.push(rows[i]);
        }
        proof {
            reveal(Seq::filter);
            assert(rows@.take(i as int + 1).drop_last() =~= rows@.take(i as int));
            assert(rows@.take(i as int + 1).last() == rows@[i as int]);
        }
        i += 1;
    }
    proof {
        assert(rows@.take(rows@.len() as int) =~= rows@);
    }
    out
}

fn filter_metadata(rows: &Vec<MetadataRow>, id: i32) -> (out: Vec<MetadataRow>)
    ensures
        out@ == metadata_without(rows@, id),
{
    let mut out: Vec<MetadataRow> = Vec::new();
    let mut i: usize = 0;
    proof {
        reveal(Seq::filter);
        assert(rows@.take(0) =~= Seq::<MetadataRow>::empty());
    }
    while i < rows.len()
        invariant
            i <= rows@.len(),
            out@ == metadata_without(rows@.take(i as int), id),
        decreases rows@.len() - i,
    {
        if rows[i].id != id {
            out.push(rows[i]);
        }
        proof {
            reveal(Seq::filter);
            assert(rows@.take(i as int + 1).drop_last() =~= rows@.take(i as int));
            assert(rows@.take(i as int + 1).last() == rows@[i as int]);
        }
        i += 1;
    }
    proof {
        assert(rows@.take(rows@.len() as int) =~= rows@);
    }
    out
}

/// A user filtered out by one id keeps every other user findable.
pub proof fn lemma_has_user_after_filter(users: Seq<UserRow>, id: i32, x: i32)
    ensures
        x != id && has_user(users, x) ==> has_user(users_without(users, id), x),
{
    if x != id && has_user(users, x) {
        let k = choose|k: int| 0 <= k < users.len() && users[k].id == x;
        assert(keep_other_user(id)(users[k]));
        users.lemma_filter_contains(keep_other_user(id), k);
        let f = users_without(users, id);
        assert(f.contains(users[k]));
        let m = choose|m: int| 0 <= m < f.len() && f[m] == users[k];
        assert(f[m].id == x);
    }
}

/// A metadata item filtered out by one id keeps every other item findable.
pub proof fn lemma_has_metadata_after_filter(md: Seq<MetadataRow>, id: i32, x: i32)
    ensures
        x != id && has_metadata(md, x) ==> has_metadata(metadata_without(md, id), x),
{
    if x != id && has_metadata(md, x) {
        let k = choose|k: int| 0 <= k < md.len() && md[k].id == x;
        assert(keep_other_metadata(id)(md[k]));
        md.lemma_filter_contains(keep_other_metadata(id), k);
        let f = metadata_without(md, id);
        assert(f.contains(md[k]));
        let m = choose|m: int| 0 <= m < f.len() && f[m] == md[k];
        assert(f[m].id == x);
    }
}

impl Store {
    /// Deletes a user. The deletion cascades: the user's reviews, summary
    /// row and association links go with the user, and no other user's rows
    /// are touched. Fails with `ReferenceNotFound`, changing nothing, when
    /// no such user exists.
    pub fn delete_user(&mut self, id: i32) -> (r: Result<(), StoreError>)
        requires
            old(self).wf(),
        ensures
            final(self).wf(),
            r is Ok <==> has_user(old(self).users@, id),
            r is Err ==> r == Err::<(), StoreError>(StoreError::ReferenceNotFound) && *final(self)
                == *old(self),
            r is Ok ==> {
                &&& final(self).users@ == users_without(old(self).users@, id)
                &&& final(self).reviews@ == reviews_without_user(old(self).reviews@, id)
                &&& final(self).summaries@ == summaries_without_user(old(self).summaries@, id)
                &&& final(self).associations@ == assocs_without_user(old(self).associations@, id)
            },
            final(self).metadata@ == old(self).metadata@,
            final(self).next_user_id == old(self).next_user_id,
            final(self).next_metadata_id == old(self).next_metadata_id,
            final(self).next_review_id == old(self).next_review_id,
    {
        if !self.user_exists(id) {
            return Err(StoreError::ReferenceNotFound);
        }
        let ghost prev = *self;
        let users = filter_users(&self.users, id);
        self.users = users;
        let reviews = filter_reviews_by_user(&self.reviews, id);
        self.reviews = reviews;
        let summaries = filter_summaries_by_user(&self.summaries, id);
        self.summaries = summaries;
        let assocs = filter_assocs_by_user(&self.associations, id);
        self.associations = assocs;
        proof {
            lemma_filter_distinct_keys(prev.users@, keep_other_user(id), user_key());
            lemma_filter_distinct_keys(prev.reviews@, keep_reviews_not_of_user(id), review_key());
            lemma_filter_distinct_keys(
                prev.summaries@,
                keep_summaries_not_of_user(id),
                summary_key(),
            );
            lemma_filter_distinct_keys(prev.associations@, keep_assocs_not_of_user(id), assoc_key());
            lemma_filter_is_subset(prev.users@, keep_other_user(id));
            lemma_filter_is_subset(prev.reviews@, keep_reviews_not_of_user(id));
            lemma_filter_is_subset(prev.summaries@, keep_summaries_not_of_user(id));
            lemma_filter_is_subset(prev.associations@, keep_assocs_not_of_user(id));
            assert forall|i: int| 0 <= i < self.reviews@.len() implies has_user(
                self.users@,
                (#[trigger] self.reviews@[i]).user_id,
            ) && has_metadata(self.metadata@, self.reviews@[i].metadata_id) by {
                let row = self.reviews@[i];
                assert(prev.reviews@.contains(row));
                let j = choose|j: int| 0 <= j < prev.reviews@.len() && prev.reviews@[j] == row;
                assert(has_user(prev.users@, row.user_id));
                assert(row.user_id != id);
                lemma_has_user_after_filter(prev.users@, id, row.user_id);
            }
            assert forall|i: int| 0 <= i < self.summaries@.len() implies has_user(
                self.users@,
                (#[trigger] self.summaries@[i]).user_id,
            ) by {
                let row = self.summaries@[i];
                assert(prev.summaries@.contains(row));
                let j = choose|j: int| 0 <= j < prev.summaries@.len() && prev.summaries@[j] == row;
                assert(row.user_id != id);
                lemma_has_user_after_filter(prev.users@, id, row.user_id);
            }
            assert forall|i: int| 0 <= i < self.associations@.len() implies has_user(
                self.users@,
                (#[trigger] self.associations@[i]).user_id,
            ) && has_metadata(self.metadata@, self.associations@[i].metadata_id) by {
                let row = self.associations@[i];
                assert(prev.associations@.contains(row));
                let j = choose|j: int|
                    0 <= j < prev.associations@.len() && prev.associations@[j] == row;
                assert(row.user_id != id);
                lemma_has_user_after_filter(prev.users@, id, row.user_id);
            }
            assert forall|i: int| 0 <= i < self.users@.len() implies 1 <= (
            #[trigger] self.users@[i]).id < self.next_user_id by {
                assert(prev.users@.contains(self.users@[i]));
                let j = choose|j: int| 0 <= j < prev.users@.len() && prev.users@[j]
                    == self.users@[i];
            }
            assert forall|i: int| 0 <= i < self.reviews@.len() implies 1 <= (
            #[trigger] self.reviews@[i]).id < self.next_review_id by {
                assert(prev.reviews@.contains(self.reviews@[i]));
                let j = choose|j: int| 0 <= j < prev.reviews@.len() && prev.reviews@[j]
                    == self.reviews@[i];
            }
        }
        Ok(())
    }

    /// Deletes a metadata item. The deletion cascades: every review of the
    /// item, by any user, and every association link to it go with the
    /// item. Fails with `ReferenceNotFound`, changing nothing, when no such
    /// item exists.
    pub fn delete_metadata(&mut self, id: i32) -> (r: Result<(), StoreError>)
        requires
            old(self).wf(),
        ensures
            final(self).wf(),
            r is Ok <==> has_metadata(old(self).metadata@, id),
            r is Err ==> r == Err::<(), StoreError>(StoreError::ReferenceNotFound) && *final(self)
                == *old(self),
            r is Ok ==> {
                &&& final(self).metadata@ == metadata_without(old(self).metadata@, id)
                &&& final(self).reviews@ == reviews_without_metadata(old(self).reviews@, id)
                &&& final(self).associations@ == assocs_without_metadata(
                    old(self).associations@,
                    id,
                )
            },
            final(self).users@ == old(self).users@,
            final(self).summaries@ == old(self).summaries@,
            final(self).next_user_id == old(self).next_user_id,
            final(self).next_metadata_id == old(self).next_metadata_id,
            final(self).next_review_id == old(self).next_review_id,
    {
        if !self.metadata_exists(id) {
            return Err(StoreError::ReferenceNotFound);
        }
        let ghost prev = *self;
        let metadata = filter_metadata(&self.metadata, id);
        self.metadata = metadata;
        let reviews = filter_reviews_by_metadata(&self.reviews, id);
        self.reviews = reviews;
        let assocs = filter_assocs_by_metadata(&self.associations, id);
        self.associations = assocs;
        proof {
            lemma_filter_distinct_keys(prev.metadata@, keep_other_metadata(id), metadata_key());
            lemma_filter_distinct_keys(
                prev.reviews@,
                keep_reviews_not_of_metadata(id),
                review_key(),
            );
            lemma_filter_distinct_keys(
                prev.associations@,
                keep_assocs_not_of_metadata(id),
                assoc_key(),
            );
            lemma_filter_is_subset(prev.metadata@, keep_other_metadata(id));
            lemma_filter_is_subset(prev.reviews@, keep_reviews_not_of_metadata(id));
            lemma_filter_is_subset(prev.associations@, keep_assocs_not_of_metadata(id));
            assert forall|i: int| 0 <= i < self.reviews@.len() implies has_user(
                self.users@,
                (#[trigger] self.reviews@[i]).user_id,
            ) && has_metadata(self.metadata@, self.reviews@[i].metadata_id) by {
                let row = self.reviews@[i];
                assert(prev.reviews@.contains(row));
                let j = choose|j: int| 0 <= j < prev.reviews@.len() && prev.reviews@[j] == row;
                assert(row.metadata_id != id);
                lemma_has_metadata_after_filter(prev.metadata@, id, row.metadata_id);
            }
            assert forall|i: int| 0 <= i < self.associations@.len() implies has_user(
                self.users@,
                (#[trigger] self.associations@[i]).user_id,
            ) && has_metadata(self.metadata@, self.associations@[i].metadata_id) by {
                let row = self.associations@[i];
                assert(prev.associations@.contains(row));
                let j = choose|j: int|
                    0 <= j < prev.associations@.len() && prev.associations@[j] == row;
                assert(row.metadata_id != id);
                lemma_has_metadata_after_filter(prev.metadata@, id, row.metadata_id);
            }
            assert forall|i: int| 0 <= i < self.metadata@.len() implies 1 <= (
            #[trigger] self.metadata@[i]).id < self.next_metadata_id by {
                assert(prev.metadata@.contains(self.metadata@[i]));
                let j = choose|j: int| 0 <= j < prev.metadata@.len() && prev.metadata@[j]
                    == self.metadata@[i];
            }
            assert forall|i: int| 0 <= i < self.reviews@.len() implies 1 <= (
            #[trigger] self.reviews@[i]).id < self.next_review_id by {
                assert(prev.reviews@.contains(self.reviews@[i]));
                let j = choose|j: int| 0 <= j < prev.reviews@.len() && prev.reviews@[j]
                    == self.reviews@[i];
            }
        }
        Ok(())
    }

    /// Deletes one review row explicitly. No cascade and no trigger; the
    /// association link, a derived cache, stays. Fails with
    /// `ReferenceNotFound`, changing nothing, when no such review exists.
    pub fn delete_review(&mut self, id: i32) -> (r: Result<(), StoreError>)
        requires
            old(self).wf(),
        ensures
            final(self).wf(),
            r is Ok <==> has_review(old(self).reviews@, id),
            r is Err ==> r == Err::<(), StoreError>(StoreError::ReferenceNotFound) && *final(self)
                == *old(self),
            r is Ok ==> final(self).reviews@ == reviews_without_id(old(self).reviews@, id),
            final(self).users@ == old(self).users@,
            final(self).metadata@ == old(self).metadata@,
            final(self).summaries@ == old(self).summaries@,
            final(self).associations@ == old(self).associations@,
            final(self).next_user_id == old(self).next_user_id,
            final(self).next_metadata_id == old(self).next_metadata_id,
            final(self).next_review_id == old(self).next_review_id,
    {
        let mut found = false;
        let mut i: usize = 0;
        while i < self.reviews.len()
            invariant
                i <= self.reviews@.len(),
                found <==> exists|j: int| 0 <= j < i && (#[trigger] self.reviews@[j]).id == id,
            decreases self.reviews@.len() - i,
        {
            if self.reviews[i].id == id {
                found = true;
            }
            i += 1;
        }
        if !found {
            return Err(StoreError::ReferenceNotFound);
        }
        let ghost prev = *self;
        let reviews = filter_reviews_by_id(&self.reviews, id);
        self.reviews = reviews;
        proof {
            lemma_filter_distinct_keys(prev.reviews@, keep_other_review(id), review_key());
            lemma_filter_is_subset(prev.reviews@, keep_other_review(id));
            assert forall|i: int| 0 <= i < self.reviews@.len() implies has_user(
                self.users@,
                (#[trigger] self.reviews@[i]).user_id,
            ) && has_metadata(self.metadata@, self.reviews@[i].metadata_id) && 1
                <= self.reviews@[i].id < self.next_review_id by {
                assert(prev.reviews@.contains(self.reviews@[i]));
                let j = choose|j: int| 0 <= j < prev.reviews@.len() && prev.reviews@[j]
                    == self.reviews@[i];
            }
        }
        Ok(())
    }
}


/// A review row after an update: the caller-supplied fields are replaced,
/// while the id, the posting time and the ownership edges stay.
pub open spec fn updated_model(m: Model, input: ReviewInput) -> Model {
    Model {
        id: m.id,
        posted_on: m.posted_on,
        rating: input.rating,
        text: input.text,
        visibility: input.visibility,
        spoiler: input.spoiler,
        user_id: m.user_id,
        metadata_id: m.metadata_id,
        extra_information: input.extra_information,
        identifier: input.identifier,
    }
}

impl Store {
    /// Updates a review in place. Reviews are updated freely, but an update
    /// never moves a review to another user or item and never runs the
    /// association trigger. Fails with `ValidationFailed` on an ill-formed
    /// rating and with `ReferenceNotFound` when no such review exists; on
    /// any failure the store is unchanged.
    pub fn update_review(&mut self, id: i32, input: ReviewInput) -> (r: Result<Model, StoreError>)
        requires
            old(self).wf(),
        ensures
            final(self).wf(),
            r is Ok <==> rating_ok(input) && has_review(old(self).reviews@, id),
            r == Err::<Model, StoreError>(StoreError::ValidationFailed) <==> !rating_ok(input),
            r == Err::<Model, StoreError>(StoreError::ReferenceNotFound) <==> rating_ok(input)
                && !has_review(old(self).reviews@, id),
            r is Err ==> *final(self) == *old(self),
            r is Ok ==> final(self).reviews@.len() == old(self).reviews@.len(),
            r matches Ok(m) ==> forall|k: int|
                0 <= k < old(self).reviews@.len() ==> final(self).reviews@[k] == (if (
                #[trigger] old(self).reviews@[k]).id == id {
                    updated_model(old(self).reviews@[k], input)
                } else {
                    old(self).reviews@[k]
                }),
            r matches Ok(m) ==> exists|k: int|
                0 <= k < old(self).reviews@.len() && (#[trigger] old(self).reviews@[k]).id == id
                    && m == updated_model(old(self).reviews@[k], input),
            final(self).users@ == old(self).users@,
            final(self).metadata@ == old(self).metadata@,
            final(self).summaries@ == old(self).summaries@,
            final(self).associations@ == old(self).associations@,
            final(self).next_user_id == old(self).next_user_id,
            final(self).next_metadata_id == old(self).next_metadata_id,
            final(self).next_review_id == old(self).next_review_id,
    {
        if let Some(v) = &input.rating {
            if !v.is_wf() {
                return Err(StoreError::ValidationFailed);
            }
        }
        let ghost prev = *self;
        let mut out: Vec<Model> = Vec::new();
        let mut updated: Option<Model> = None;
        let mut i: usize = 0;
        while i < self.reviews.len()
            invariant
                i <= self.reviews@.len(),
                out@.len() == i,
                *self == prev,
                rating_ok(input),
                forall|k: int|
                    0 <= k < i ==> out@[k] == (if (#[trigger] self.reviews@[k]).id == id {
                        updated_model(self.reviews@[k], input)
                    } else {
                        self.reviews@[k]
                    }),
                updated is Some <==> exists|k: int|
                    0 <= k < i && (#[trigger] self.reviews@[k]).id == id,
                updated matches Some(m) ==> exists|k: int|
                    0 <= k < i && (#[trigger] self.reviews@[k]).id == id && m == updated_model(
                        self.reviews@[k],
                        input,
                    ),
            decreases self.reviews@.len() - i,
        {
            let row = &self.reviews[i];
            if row.id == id {
                let m = Model {
                    id: row.id,
                    posted_on: row.posted_on,
                    rating: input.rating,
                    text: clone_opt_string(&input.text),
                    visibility: input.visibility,
                    spoiler: input.spoiler,
                    user_id: row.user_id,
                    metadata_id: row.metadata_id,
                    extra_information: input.extra_information,
                    identifier: clone_opt_string(&input.identifier),
                };
                out.push(m.duplicate());
                updated = Some(m);
            } else {
                out.push(row.duplicate());
            }
            i += 1;
        }
        match updated {
            None => Err(StoreError::ReferenceNotFound),
            Some(m) => {
                self.reviews = out;
                proof {
                    assert forall|a: int, b: int| 0 <= a < b < self.reviews@.len() implies
                        review_key()(#[trigger] self.reviews@[a]) != review_key()(
                        #[trigger] self.reviews@[b]) by {
                        assert(self.reviews@[a].id == prev.reviews@[a].id);
                        assert(self.reviews@[b].id == prev.reviews@[b].id);
                    }
                    assert forall|k: int| 0 <= k < self.reviews@.len() implies has_user(
                        self.users@,
                        (#[trigger] self.reviews@[k]).user_id,
                    ) && has_metadata(self.metadata@, self.reviews@[k].metadata_id) && 1
                        <= self.reviews@[k].id < self.next_review_id by {
                        assert(self.reviews@[k].user_id == prev.reviews@[k].user_id);
                        assert(self.reviews@[k].metadata_id == prev.reviews@[k].metadata_id);
                        assert(self.reviews@[k].id == prev.reviews@[k].id);
                    }
                }
                Ok(m)
            },
        }
    }
}

} // verus!
