use ryot::error::StoreError;
use ryot::model::MetadataLot;
use ryot::model::ReviewInput;
use ryot::model::ReviewVisibility;
use ryot::store::Store;

fn plain_review(user_id: i32, metadata_id: i32) -> ReviewInput {
    ReviewInput {
        rating: None,
        text: None,
        visibility: ReviewVisibility::Private,
        spoiler: false,
        user_id,
        metadata_id,
        extra_information: None,
        identifier: None,
    }
}

#[test]
fn recompute_twice_is_byte_identical_and_single_row() {
    let mut store = Store::new();
    let uid = i32::from(store.create_user("alice".to_owned()).unwrap());
    let book = i32::from(store.create_metadata(MetadataLot::Book, 250).unwrap());
    let movie = i32::from(store.create_metadata(MetadataLot::Movie, 120).unwrap());
    store.post_review(plain_review(uid, book), 1, true).unwrap();
    store.post_review(plain_review(uid, movie), 2, true).unwrap();

    let s1 = store.recompute_and_store(uid, 500).unwrap();
    let s2 = store.recompute_and_store(uid, 500).unwrap();
    assert_eq!(s1, s2);
    assert_eq!(store.summaries.len(), 1);
    assert_eq!(store.summaries[0], s2);
}

#[test]
fn repeated_recompute_never_duplicates_rows() {
    let mut store = Store::new();
    let uid = i32::from(store.create_user("alice".to_owned()).unwrap());
    let game = i32::from(store.create_metadata(MetadataLot::VideoGame, 0).unwrap());
    for round in 0..20 {
        store.post_review(plain_review(uid, game), round, true).unwrap();
        let s = store.recompute_and_store(uid, round).unwrap();
        assert_eq!(store.summaries.len(), 1);
        assert_eq!(s.video_games_played, (round + 1) as u64);
    }
}

#[test]
fn recompute_for_missing_user_fails_and_keeps_prior_summary() {
    let mut store = Store::new();
    let uid = i32::from(store.create_user("alice".to_owned()).unwrap());
    let book = i32::from(store.create_metadata(MetadataLot::Book, 90).unwrap());
    store.post_review(plain_review(uid, book), 1, true).unwrap();
    let before = store.recompute_and_store(uid, 5).unwrap();
    let r = store.recompute_and_store(uid + 7, 6);
    assert_eq!(r, Err(StoreError::ReferenceNotFound));
    assert_eq!(store.summaries.len(), 1);
    assert_eq!(store.summaries[0], before);
}

#[test]
fn absent_activity_yields_zero_counters() {
    let mut store = Store::new();
    let uid = i32::from(store.create_user("alice".to_owned()).unwrap());
    let s = store.recompute(uid, 3).unwrap();
    assert_eq!(s.user_id, uid);
    assert_eq!(s.created_on, 3);
    assert_eq!(s.books_read, 0);
    assert_eq!(s.books_pages, 0);
    assert_eq!(s.movies_watched, 0);
    assert_eq!(s.movies_runtime, 0);
    assert_eq!(s.shows_watched, 0);
    assert_eq!(s.shows_runtime, 0);
    assert_eq!(s.shows_episodes_watched, 0);
    assert_eq!(s.shows_seasons_watched, 0);
    assert_eq!(s.video_games_played, 0);
    assert_eq!(s.audio_books_played, 0);
    assert_eq!(s.audio_books_runtime, 0);
    assert_eq!(s.podcasts_played, 0);
    assert_eq!(s.podcasts_runtime, 0);
}

#[test]
fn counters_split_by_domain() {
    let mut store = Store::new();
    let uid = i32::from(store.create_user("alice".to_owned()).unwrap());
    let audio = i32::from(store.create_metadata(MetadataLot::AudioBook, 700).unwrap());
    let podcast = i32::from(store.create_metadata(MetadataLot::Podcast, 30).unwrap());
    store.post_review(plain_review(uid, audio), 1, true).unwrap();
    store.post_review(plain_review(uid, podcast), 2, true).unwrap();
    store.post_review(plain_review(uid, podcast), 3, true).unwrap();
    let s = store.recompute(uid, 4).unwrap();
    assert_eq!(s.audio_books_played, 1);
    assert_eq!(s.audio_books_runtime, 700);
    assert_eq!(s.podcasts_played, 2);
    assert_eq!(s.podcasts_runtime, 60);
    assert_eq!(s.books_read, 0);
}

#[test]
fn summaries_are_per_user() {
    let mut store = Store::new();
    let u1 = i32::from(store.create_user("alice".to_owned()).unwrap());
    let u2 = i32::from(store.create_user("bob".to_owned()).unwrap());
    let book = i32::from(store.create_metadata(MetadataLot::Book, 10).unwrap());
    store.post_review(plain_review(u1, book), 1, true).unwrap();
    store.recompute_and_store(u1, 2).unwrap();
    store.recompute_and_store(u2, 2).unwrap();
    let s1 = *store.get_summary(u1).unwrap();
    let s2 = *store.get_summary(u2).unwrap();
    assert_eq!(s1.books_read, 1);
    assert_eq!(s2.books_read, 0);
}
