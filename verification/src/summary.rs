//! The aggregation engine: recomputes a user's summary counters from the
//! stored review and metadata rows, and replaces the summary row wholesale
//! so repeated runs never double-count.

use vstd::prelude::*;

use crate::error::StoreError;
use crate::model::MetadataLot;
use crate::model::MetadataRow;
use crate::model::Model;
use crate::model::Summary;
use crate::store::has_user;
use crate::store::keep_summaries_not_of_user;
use crate::store::lemma_filter_distinct_keys;
use crate::store::lemma_filter_is_subset;
use crate::store::lemma_push_distinct;
use crate::store::summaries_without_user;
use crate::store::summary_key;
use crate::store::Store;

verus! {

// ---------------------------------------------------------------------------
// What the counters mean, as folds over the stored rows.
// ---------------------------------------------------------------------------

/// The metadata row a review points at, if it exists.
pub open spec fn md_find(md: Seq<MetadataRow>, id: i32) -> Option<MetadataRow>
    decreases md.len(),
{
    if md.len() == 0 {
        None
    } else if md[0].id == id {
        Some(md[0])
    } else {
        md_find(md.drop_first(), id)
    }
}

/// A review is a consumption event of the user in a domain when its item
/// belongs to that domain. Each review counts as one event, so a rewatch or
/// reread, posted as a fresh review, counts again.
pub open spec fn is_event(r: Model, md: Seq<MetadataRow>, uid: i32, lot: MetadataLot) -> bool {
    &&& r.user_id == uid
    &&& match md_find(md, r.metadata_id) {
        Some(m) => m.lot == lot,
        None => false,
    }
}

/// The units (pages or minutes) one event of this review contributes.
pub open spec fn event_units(r: Model, md: Seq<MetadataRow>) -> int {
    match md_find(md, r.metadata_id) {
        Some(m) => m.units as int,
        None => 0,
    }
}

/// How many events the user has in a domain.
pub open spec fn count_events(
    rs: Seq<Model>,
    md: Seq<MetadataRow>,
    uid: i32,
    lot: MetadataLot,
) -> int
    decreases rs.len(),
{
    if rs.len() == 0 {
        0
    } else {
        count_events(rs.drop_last(), md, uid, lot) + if is_event(rs.last(), md, uid, lot) {
            1int
        } else {
            0int
        }
    }
}

/// The units the user's events in a domain add up to.
pub open spec fn sum_units(rs: Seq<Model>, md: Seq<MetadataRow>, uid: i32, lot: MetadataLot) -> int
    decreases rs.len(),
{
    if rs.len() == 0 {
        0
    } else {
        sum_units(rs.drop_last(), md, uid, lot) + if is_event(rs.last(), md, uid, lot) {
            event_units(rs.last(), md)
        } else {
            0int
        }
    }
}

/// A show event that carries episode progress.
pub open spec fn is_episode_event(r: Model, md: Seq<MetadataRow>, uid: i32) -> bool {
    is_event(r, md, uid, MetadataLot::Show) && r.extra_information is Some
}

/// How many episode events the user has.
pub open spec fn count_episode_events(rs: Seq<Model>, md: Seq<MetadataRow>, uid: i32) -> int
    decreases rs.len(),
{
    if rs.len() == 0 {
        0
    } else {
        count_episode_events(rs.drop_last(), md, uid) + if is_episode_event(
            rs.last(),
            md,
            uid,
        ) {
            1int
        } else {
            0int
        }
    }
}

/// The distinct (show, season) pairs the user's episode events touch.
pub open spec fn seasons_of(rs: Seq<Model>, md: Seq<MetadataRow>, uid: i32) -> Set<(i32, u32)>
    decreases rs.len(),
{
    if rs.len() == 0 {
        Set::empty()
    } else {
        let rest = seasons_of(rs.drop_last(), md, uid);
        match rs.last().extra_information {
            Some(e) => if is_event(rs.last(), md, uid, MetadataLot::Show) {
                rest.insert((rs.last().metadata_id, e.season))
            } else {
                rest
            },
            None => rest,
        }
    }
}

/// The full statement of a correctly computed summary row: every counter is
/// the corresponding fold over the stored rows, and absence of activity in
/// a domain yields zero by the folds' base case.
pub open spec fn summary_ok(
    s: Summary,
    rs: Seq<Model>,
    md: Seq<MetadataRow>,
    uid: i32,
    now: i64,
) -> bool {
    &&& s.user_id == uid
    &&& s.created_on == now
    &&& s.books_read == count_events(rs, md, uid, MetadataLot::Book)
    &&& s.books_pages == sum_units(rs, md, uid, MetadataLot::Book)
    &&& s.movies_watched == count_events(rs, md, uid, MetadataLot::Movie)
    &&& s.movies_runtime == sum_units(rs, md, uid, MetadataLot::Movie)
    &&& s.shows_watched == count_events(rs, md, uid, MetadataLot::Show)
    &&& s.shows_runtime == sum_units(rs, md, uid, MetadataLot::Show)
    &&& s.shows_episodes_watched == count_episode_events(rs, md, uid)
    &&& s.shows_seasons_watched == seasons_of(rs, md, uid).len()
    &&& s.video_games_played == count_events(rs, md, uid, MetadataLot::VideoGame)
    &&& s.audio_books_played == count_events(rs, md, uid, MetadataLot::AudioBook)
    &&& s.audio_books_runtime == sum_units(rs, md, uid, MetadataLot::AudioBook)
    &&& s.podcasts_played == count_events(rs, md, uid, MetadataLot::Podcast)
    &&& s.podcasts_runtime == sum_units(rs, md, uid, MetadataLot::Podcast)
}

/// One step of a unit sum stays below the 64-bit range while fewer than
/// 2^31 reviews exist.
proof fn lemma_sum_step(s: int, i: int, u: int)
    requires
        0 <= s <= i * 0xffffffff,
        0 <= u <= 0xffffffff,
        0 <= i,
        i + 1 <= 0x80000000,
    ensures
        0 <= s + u <= (i + 1) * 0xffffffff,
        (i + 1) * 0xffffffff < 0x8000000000000000,
{
    assert((i + 1) * 0xffffffff == i * 0xffffffff + 0xffffffff) by (nonlinear_arith);
    assert((i + 1) * 0xffffffff <= 0x80000000 * 0xffffffff) by (nonlinear_arith)
        requires
            i + 1 <= 0x80000000,
    ;
}

/// Whether a (show, season) pair was already seen.
fn contains_pair(v: &Vec<(i32, u32)>, a: i32, b: u32) -> (r: bool)
    ensures
        r == v@.contains((a, b)),
{
    let mut k: usize = 0;
    while k < v.len()
        invariant
            k <= v@.len(),
            forall|j: int| 0 <= j < k ==> #[trigger] v@[j] != (a, b),
        decreases v@.len() - k,
    {
        if v[k].0 == a && v[k].1 == b {
            proof {
                assert(v@[k as int] == (a, b));
            }
            return true;
        }
        k += 1;
    }
    false
}

impl Store {
    /// The metadata row behind an id, as `md_find` names it.
    pub fn find_metadata(&self, id: i32) -> (r: Option<MetadataRow>)
        ensures
            r == md_find(self.metadata@, id),
    {
        proof {
            assert(self.metadata@.skip(0) =~= self.metadata@);
        }
        let mut i: usize = 0;
        while i < self.metadata.len()
            invariant
                i <= self.metadata@.len(),
                md_find(self.metadata@, id) == md_find(self.metadata@.skip(i as int), id),
            decreases self.metadata@.len() - i,
        {
            proof {
                assert(self.metadata@.skip(i as int)[0] == self.metadata@[i as int]);
                assert(self.metadata@.skip(i as int).drop_first() =~= self.metadata@.skip(
                    i as int + 1,
                ));
            }
            if self.metadata[i].id == id {
                return Some(self.metadata[i]);
            }
            i += 1;
        }
        proof {
            assert(self.metadata@.skip(self.metadata@.len() as int).len() == 0);
        }
        None
    }

    /// Computes the user's summary from the current rows. Pure with respect
    /// to the stored state: the result is a function of the review and
    /// metadata tables alone, so unchanged data yields identical counters.
    /// Fails with `ReferenceNotFound` when the user does not exist.
    pub fn recompute(&self, user_id: i32, now: i64) -> (r: Result<Summary, StoreError>)
        requires
            self.wf(),
        ensures
            r is Ok <==> has_user(self.users@, user_id),
            r is Err ==> r == Err::<Summary, StoreError>(StoreError::ReferenceNotFound),
            r matches Ok(s) ==> summary_ok(s, self.reviews@, self.metadata@, user_id, now),
    {
        if !self.user_exists(user_id) {
            return Err(StoreError::ReferenceNotFound);
        }
        let rs = &self.reviews;
        let ghost md = self.metadata@;
        let mut books_read: u64 = 0;
        let mut books_pages: u64 = 0;
        let mut movies_watched: u64 = 0;
        let mut movies_runtime: u64 = 0;
        let mut shows_watched: u64 = 0;
        let mut shows_runtime: u64 = 0;
        let mut shows_episodes_watched: u64 = 0;
        let mut video_games_played: u64 = 0;
        let mut audio_books_played: u64 = 0;
        let mut audio_books_runtime: u64 = 0;
        let mut podcasts_played: u64 = 0;
        let mut podcasts_runtime: u64 = 0;
        let mut seasons: Vec<(i32, u32)> = Vec::new();
        let mut i: usize = 0;
        proof {
            assert(rs@.take(0) =~= Seq::<Model>::empty());
        }
        while i < rs.len()
            invariant
                i <= rs@.len(),
                rs@.len() < 0x80000000,
                md == self.metadata@,
                books_read == count_events(rs@.take(i as int), md, user_id, MetadataLot::Book),
                books_pages == sum_units(rs@.take(i as int), md, user_id, MetadataLot::Book),
                movies_watched == count_events(rs@.take(i as int), md, user_id, MetadataLot::Movie),
                movies_runtime == sum_units(rs@.take(i as int), md, user_id, MetadataLot::Movie),
                shows_watched == count_events(rs@.take(i as int), md, user_id, MetadataLot::Show),
                shows_runtime == sum_units(rs@.take(i as int), md, user_id, MetadataLot::Show),
                shows_episodes_watched == count_episode_events(rs@.take(i as int), md, user_id),
                video_games_played == count_events(
                    rs@.take(i as int),
                    md,
                    user_id,
                    MetadataLot::VideoGame,
                ),
                audio_books_played == count_events(
                    rs@.take(i as int),
                    md,
                    user_id,
                    MetadataLot::AudioBook,
                ),
                audio_books_runtime == sum_units(
                    rs@.take(i as int),
                    md,
                    user_id,
                    MetadataLot::AudioBook,
                ),
                podcasts_played == count_events(
                    rs@.take(i as int),
                    md,
                    user_id,
                    MetadataLot::Podcast,
                ),
                podcasts_runtime == sum_units(
                    rs@.take(i as int),
                    md,
                    user_id,
                    MetadataLot::Podcast,
                ),
                books_read <= i && movies_watched <= i && shows_watched <= i
                    && shows_episodes_watched <= i && video_games_played <= i
                    && audio_books_played <= i && podcasts_played <= i,
                books_pages <= i * 0xffffffff,
                movies_runtime <= i * 0xffffffff,
                shows_runtime <= i * 0xffffffff,
                audio_books_runtime <= i * 0xffffffff,
                podcasts_runtime <= i * 0xffffffff,
                seasons@.to_set() == seasons_of(rs@.take(i as int), md, user_id),
                seasons@.no_duplicates(),
            decreases rs@.len() - i,
        {
            proof {
                assert(rs@.take(i as int + 1).drop_last() =~= rs@.take(i as int));
                assert(rs@.take(i as int + 1).last() == rs@[i as int]);
            }
            let row = &rs[i];
            let found = self.find_metadata(row.metadata_id);
            if row.user_id == user_id {
                if let Some(m) = found {
                    proof {
                        lemma_sum_step(books_pages as int, i as int, m.units as int);
                        lemma_sum_step(movies_runtime as int, i as int, m.units as int);
                        lemma_sum_step(shows_runtime as int, i as int, m.units as int);
                        lemma_sum_step(audio_books_runtime as int, i as int, m.units as int);
                        lemma_sum_step(podcasts_runtime as int, i as int, m.units as int);
                    }
                    match m.lot {
                        MetadataLot::Book => {
                            books_read = books_read + 1;
                            books_pages = books_pages + m.units as u64;
                        },
                        MetadataLot::Movie => {
                            movies_watched = movies_watched + 1;
                            movies_runtime = movies_runtime + m.units as u64;
                        },
                        MetadataLot::Show => {
                            shows_watched = shows_watched + 1;
                            shows_runtime = shows_runtime + m.units as u64;
                            if let Some(e) = row.extra_information {
                                shows_episodes_watched = shows_episodes_watched + 1;
                                let ghost p = (row.metadata_id, e.season);
                                if !contains_pair(&seasons, row.metadata_id, e.season) {
                                    let ghost before = seasons@;
                                    seasons.push((row.metadata_id, e.season));
                                    proof {
                                        vstd::prelude::Seq::lemma_push_to_set_commute(before, p);
                                        assert(seasons@ == before.push(p));
                                        assert(seasons@.to_set() == before.to_set().insert(p));
                                        assert(seasons@.no_duplicates()) by {
                                            assert(!before.contains(p));
                                            assert(forall|j: int|
                                                0 <= j < before.len() ==> seasons@[j] == before[j]);
                                            assert(seasons@.last() == p);
                                        }
                                        assert(seasons@.to_set() =~= seasons_of(
                                            rs@.take(i as int + 1),
                                            md,
                                            user_id,
                                        ));
                                    }
                                } else {
                                    proof {
                                        assert(seasons@.to_set().contains(p));
                                        assert(seasons@.to_set() =~= seasons@.to_set().insert(p));
                                        assert(seasons@.to_set() =~= seasons_of(
                                            rs@.take(i as int + 1),
                                            md,
                                            user_id,
                                        ));
                                    }
                                }
                            }
                        },
                        MetadataLot::VideoGame => {
                            video_games_played = video_games_played + 1;
                        },
                        MetadataLot::AudioBook => {
                            audio_books_played = audio_books_played + 1;
                            audio_books_runtime = audio_books_runtime + m.units as u64;
                        },
                        MetadataLot::Podcast => {
                            podcasts_played = podcasts_played + 1;
                            podcasts_runtime = podcasts_runtime + m.units as u64;
                        },
                    }
                }
            }
            proof {
                assert(seasons@.to_set() =~= seasons_of(rs@.take(i as int + 1), md, user_id));
                lemma_sum_step(0, i as int, 0);
            }
            i += 1;
        }
        proof {
            assert(rs@.take(rs@.len() as int) =~= rs@);
            seasons@.unique_seq_to_set();
        }
        let shows_seasons_watched: u64 = seasons.len() as u64;
        Ok(
            Summary {
                user_id,
                created_on: now,
                books_pages,
                books_read,
                movies_runtime,
                movies_watched,
                shows_runtime,
                shows_watched,
                shows_episodes_watched,
                shows_seasons_watched,
                video_games_played,
                audio_books_runtime,
                audio_books_played,
                podcasts_runtime,
                podcasts_played,
            },
        )
    }

    /// Recomputes the user's summary and replaces the stored row wholesale:
    /// the prior row (if any) is removed and exactly one fresh row is
    /// written, so no interleaving of counters from different runs can
    /// survive. On failure the prior summary row is untouched.
    pub fn recompute_and_store(&mut self, user_id: i32, now: i64) -> (r: Result<
        Summary,
        StoreError,
    >)
        requires
            old(self).wf(),
        ensures
            final(self).wf(),
            r is Ok <==> has_user(old(self).users@, user_id),
            r is Err ==> r == Err::<Summary, StoreError>(StoreError::ReferenceNotFound) && *final(self) == *old(self),
            r matches Ok(s) ==> summary_ok(
                s,
                old(self).reviews@,
                old(self).metadata@,
                user_id,
                now,
            ),
            r matches Ok(s) ==> final(self).summaries@ == summaries_without_user(
                old(self).summaries@,
                user_id,
            ).push(s),
            final(self).users@ == old(self).users@,
            final(self).metadata@ == old(self).metadata@,
            final(self).reviews@ == old(self).reviews@,
            final(self).associations@ == old(self).associations@,
            final(self).next_user_id == old(self).next_user_id,
            final(self).next_metadata_id == old(self).next_metadata_id,
            final(self).next_review_id == old(self).next_review_id,
    {
        let computed = self.recompute(user_id, now);
        match computed {
            Err(e) => Err(e),
            Ok(s) => {
                let ghost prev = *self;
                let remaining = crate::store::filter_summaries_by_user(&self.summaries, user_id);
                self.summaries = remaining;
                self.summaries.push(s);
                proof {
                    lemma_filter_distinct_keys(
                        prev.summaries@,
                        keep_summaries_not_of_user(user_id),
                        summary_key(),
                    );
                    lemma_filter_is_subset(prev.summaries@, keep_summaries_not_of_user(user_id));
                    let kept = summaries_without_user(prev.summaries@, user_id);
                    assert(forall|i: int|
                        0 <= i < kept.len() ==> summary_key()(#[trigger] kept[i]) != summary_key()(
                            s,
                        ));
                    lemma_push_distinct(kept, summary_key(), s);
                    assert forall|i: int| 0 <= i < self.summaries@.len() implies has_user(
                        self.users@,
                        (#[trigger] self.summaries@[i]).user_id,
                    ) by {
                        if i < kept.len() {
                            assert(prev.summaries@.contains(kept[i]));
                            let j = choose|j: int|
                                0 <= j < prev.summaries@.len() && prev.summaries@[j] == kept[i];
                        } else {
                            assert(self.summaries@[i] == s);
                        }
                    }
                }
                Ok(s)
            },
        }
    }
}

} // verus!
