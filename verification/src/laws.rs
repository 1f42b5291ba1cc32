//! The store-wide laws: proofs that relate the operations to one another —
//! read-back after creation, exact cascade accounting, association
//! idempotence, and determinism and uniqueness of summary recomputation.

use vstd::prelude::*;

use crate::model::Association;
use crate::model::MetadataRow;
use crate::model::Model;
use crate::model::Summary;
use crate::store::assoc_key;
use crate::store::assoc_upsert;
use crate::store::distinct_keys;
use crate::store::has_assoc;
use crate::store::has_summary;
use crate::store::lemma_push_distinct;
use crate::store::review_lookup;
use crate::store::reviews_without_metadata;
use crate::store::reviews_without_user;
use crate::store::summaries_without_user;
use crate::store::summary_key;
use crate::store::has_review;
use crate::store::Store;
use crate::summary::summary_ok;

verus! {

broadcast use vstd::seq_lib::group_filter_ensures;

/// A row with a fresh id, appended at the end, is what a lookup of that id
/// finds.
pub proof fn lemma_lookup_push(rs: Seq<Model>, m: Model)
    requires
        forall|i: int| 0 <= i < rs.len() ==> (#[trigger] rs[i]).id != m.id,
    ensures
        review_lookup(rs.push(m), m.id) == Some(m),
    decreases rs.len(),
{
    if rs.len() == 0 {
        assert(rs.push(m)[0] == m);
    } else {
        assert(rs.push(m)[0] == rs[0]);
        assert(rs.push(m).drop_first() =~= rs.drop_first().push(m));
        assert(forall|i: int|
            0 <= i < rs.drop_first().len() ==> #[trigger] rs.drop_first()[i] == rs[i + 1]);
        lemma_lookup_push(rs.drop_first(), m);
    }
}

/// Law: a successful review creation stores a row equal to the returned
/// one, and a subsequent read of that id finds exactly that row.
pub proof fn lemma_review_create_then_read(pre: Store, post: Store, m: Model)
    requires
        pre.wf(),
        m.id == pre.next_review_id,
        post.reviews@ == pre.reviews@.push(m),
    ensures
        has_review(post.reviews@, m.id),
        review_lookup(post.reviews@, m.id) == Some(m),
{
    assert(forall|i: int|
        0 <= i < pre.reviews@.len() ==> (#[trigger] pre.reviews@[i]).id != m.id);
    lemma_lookup_push(pre.reviews@, m);
    assert(post.reviews@[pre.reviews@.len() as int] == m);
}

/// How many review rows belong to one user.
pub open spec fn count_reviews_of_user(rs: Seq<Model>, uid: i32) -> int
    decreases rs.len(),
{
    if rs.len() == 0 {
        0
    } else {
        count_reviews_of_user(rs.drop_last(), uid) + if rs.last().user_id == uid {
            1int
        } else {
            0int
        }
    }
}

/// How many review rows reference one metadata item.
pub open spec fn count_reviews_of_metadata(rs: Seq<Model>, mid: i32) -> int
    decreases rs.len(),
{
    if rs.len() == 0 {
        0
    } else {
        count_reviews_of_metadata(rs.drop_last(), mid) + if rs.last().metadata_id == mid {
            1int
        } else {
            0int
        }
    }
}

/// Law: the user cascade removes exactly the user's N review rows — the
/// remainder has none of them, keeps every other row, and is shorter by
/// exactly N.
pub proof fn lemma_delete_user_exact_reviews(rs: Seq<Model>, uid: i32)
    ensures
        reviews_without_user(rs, uid).len() == rs.len() - count_reviews_of_user(rs, uid),
        forall|i: int|
            0 <= i < reviews_without_user(rs, uid).len() ==> (#[trigger] reviews_without_user(
                rs,
                uid,
            )[i]).user_id != uid,
        forall|i: int|
            0 <= i < rs.len() && (#[trigger] rs[i]).user_id != uid ==> reviews_without_user(
                rs,
                uid,
            ).contains(rs[i]),
    decreases rs.len(),
{
    reveal(Seq::filter);
    if rs.len() > 0 {
        lemma_delete_user_exact_reviews(rs.drop_last(), uid);
        assert(forall|i: int| 0 <= i < rs.len() - 1 ==> #[trigger] rs.drop_last()[i] == rs[i]);
        assert(rs[rs.len() - 1] == rs.last());
    }
}

/// Law: the metadata cascade removes exactly the item's M review rows,
/// across all users referencing it.
pub proof fn lemma_delete_metadata_exact_reviews(rs: Seq<Model>, mid: i32)
    ensures
        reviews_without_metadata(rs, mid).len() == rs.len() - count_reviews_of_metadata(rs, mid),
        forall|i: int|
            0 <= i < reviews_without_metadata(rs, mid).len() ==> (
            #[trigger] reviews_without_metadata(rs, mid)[i]).metadata_id != mid,
        forall|i: int|
            0 <= i < rs.len() && (#[trigger] rs[i]).metadata_id != mid
                ==> reviews_without_metadata(rs, mid).contains(rs[i]),
    decreases rs.len(),
{
    reveal(Seq::filter);
    if rs.len() > 0 {
        lemma_delete_metadata_exact_reviews(rs.drop_last(), mid);
        assert(forall|i: int| 0 <= i < rs.len() - 1 ==> #[trigger] rs.drop_last()[i] == rs[i]);
        assert(rs[rs.len() - 1] == rs.last());
    }
}

/// Law: the user cascade removes the user's summary row — exactly one row
/// if one existed, none otherwise — and keeps every other user's summary.
pub proof fn lemma_delete_user_summary(ss: Seq<Summary>, uid: i32)
    requires
        distinct_keys(ss, summary_key()),
    ensures
        !has_summary(summaries_without_user(ss, uid), uid),
        summaries_without_user(ss, uid).len() == if has_summary(ss, uid) {
            ss.len() - 1
        } else {
            ss.len() as int
        },
        forall|x: i32|
            x != uid ==> (#[trigger] has_summary(summaries_without_user(ss, uid), x)
                <==> has_summary(ss, x)),
    decreases ss.len(),
{
    reveal(Seq::filter);
    let f = summaries_without_user(ss, uid);
    assert forall|i: int| 0 <= i < f.len() implies (#[trigger] f[i]).user_id != uid by {}
    if ss.len() > 0 {
        let d = ss.drop_last();
        assert(distinct_keys(d, summary_key())) by {
            assert(forall|i: int| 0 <= i < d.len() ==> #[trigger] d[i] == ss[i]);
        }
        lemma_delete_user_summary(d, uid);
        assert(forall|i: int| 0 <= i < d.len() ==> #[trigger] d[i] == ss[i]);
        assert(ss[ss.len() - 1] == ss.last());
        if ss.last().user_id == uid {
            assert(!has_summary(d, uid)) by {
                if has_summary(d, uid) {
                    let j = choose|j: int| 0 <= j < d.len() && d[j].user_id == uid;
                    assert(summary_key()(ss[j]) == summary_key()(ss[ss.len() - 1]));
                }
            }
            assert(has_summary(ss, uid));
        } else {
            assert(has_summary(ss, uid) <==> has_summary(d, uid)) by {
                if has_summary(ss, uid) {
                    let j = choose|j: int| 0 <= j < ss.len() && ss[j].user_id == uid;
                    assert(j < d.len() && d[j] == ss[j]);
                }
            }
        }
        assert forall|x: i32| x != uid implies (#[trigger] has_summary(f, x) <==> has_summary(
            ss,
            x,
        )) by {
            if ss.last().user_id == uid {
                assert(f == summaries_without_user(d, uid));
                if has_summary(ss, x) {
                    let j = choose|j: int| 0 <= j < ss.len() && ss[j].user_id == x;
                    assert(j < d.len());
                    assert(d[j] == ss[j]);
                    assert(has_summary(d, x));
                    assert(has_summary(f, x));
                }
                if has_summary(f, x) {
                    assert(has_summary(d, x));
                    let j = choose|j: int| 0 <= j < d.len() && d[j].user_id == x;
                    assert(ss[j] == d[j]);
                    assert(has_summary(ss, x));
                }
            } else {
                assert(f == summaries_without_user(d, uid).push(ss.last()));
                if has_summary(ss, x) {
                    let j = choose|j: int| 0 <= j < ss.len() && ss[j].user_id == x;
                    if j < d.len() {
                        assert(d[j] == ss[j]);
                        assert(has_summary(d, x));
                        let g = summaries_without_user(d, uid);
                        assert(has_summary(g, x));
                        let k = choose|k: int| 0 <= k < g.len() && g[k].user_id == x;
                        assert(f[k] == g[k]);
                    } else {
                        assert(f[f.len() - 1] == ss.last());
                    }
                }
                if has_summary(f, x) {
                    let k = choose|k: int| 0 <= k < f.len() && f[k].user_id == x;
                    let g = summaries_without_user(d, uid);
                    if k < g.len() {
                        assert(f[k] == g[k]);
                        assert(has_summary(g, x));
                        assert(has_summary(d, x));
                        let j = choose|j: int| 0 <= j < d.len() && d[j].user_id == x;
                        assert(ss[j] == d[j]);
                        assert(ss[j].user_id == x);
                    } else {
                        assert(f[k] == ss.last());
                        assert(ss[ss.len() - 1].user_id == x);
                    }
                }
            }
        }
    }
}

/// Law: the association upsert is idempotent and never leaves two links for
/// one (user, metadata) pair — after any upsert the link exists, the table
/// keys stay distinct, and upserting again changes nothing.
pub proof fn lemma_association_exactly_once(assocs: Seq<Association>, u: i32, m: i32)
    requires
        distinct_keys(assocs, assoc_key()),
    ensures
        has_assoc(assoc_upsert(assocs, u, m), u, m),
        distinct_keys(assoc_upsert(assocs, u, m), assoc_key()),
        assoc_upsert(assoc_upsert(assocs, u, m), u, m) == assoc_upsert(assocs, u, m),
{
    let up = assoc_upsert(assocs, u, m);
    if !has_assoc(assocs, u, m) {
        let x = Association { user_id: u, metadata_id: m };
        assert(forall|i: int|
            0 <= i < assocs.len() ==> assoc_key()(#[trigger] assocs[i]) != assoc_key()(x));
        lemma_push_distinct(assocs, assoc_key(), x);
        assert(up[assocs.len() as int] == x);
    }
}

/// Law: recomputation is deterministic — two summaries computed from the
/// same stored rows carry identical counters.
pub proof fn lemma_recompute_idempotent(
    s1: Summary,
    s2: Summary,
    rs: Seq<Model>,
    md: Seq<MetadataRow>,
    uid: i32,
    now: i64,
)
    requires
        summary_ok(s1, rs, md, uid, now),
        summary_ok(s2, rs, md, uid, now),
    ensures
        s1 == s2,
{
}

/// Law: a well-formed store never holds two summary rows for one user, so
/// any interleaving of serialized recomputations leaves exactly one row.
pub proof fn lemma_one_summary_row(st: Store, uid: i32, i: int, j: int)
    requires
        st.wf(),
        0 <= i < st.summaries@.len(),
        0 <= j < st.summaries@.len(),
        st.summaries@[i].user_id == uid,
        st.summaries@[j].user_id == uid,
    ensures
        i == j,
{
    if i != j {
        assert(summary_key()(st.summaries@[i]) == summary_key()(st.summaries@[j]));
    }
}

} // verus!
