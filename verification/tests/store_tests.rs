use ryot::error::StoreError;
use ryot::ids::rating_from_text;
use ryot::ids::rating_text;
use ryot::ids::Identifier;
use ryot::ids::Rating;
use ryot::model::MetadataLot;
use ryot::model::Model;
use ryot::model::Relation;
use ryot::model::ReviewInput;
use ryot::model::ReviewVisibility;
use ryot::model::SeenExtraInformation;
use ryot::store::Store;

fn review_input(user_id: i32, metadata_id: i32, rating: Option<Rating>) -> ReviewInput {
    ReviewInput {
        rating,
        text: Some("great".to_owned()),
        visibility: ReviewVisibility::Public,
        spoiler: false,
        user_id,
        metadata_id,
        extra_information: None,
        identifier: None,
    }
}

fn store_with_user_and_book() -> (Store, i32, i32) {
    let mut store = Store::new();
    let uid = i32::from(store.create_user("alice".to_owned()).unwrap());
    let mid = i32::from(store.create_metadata(MetadataLot::Book, 320).unwrap());
    (store, uid, mid)
}

#[test]
fn identifier_roundtrip() {
    let id = Identifier::from(7);
    assert_eq!(i32::from(id), 7);
}

#[test]
fn rating_parse_and_render() {
    let r = rating_from_text("4.5").unwrap();
    assert_eq!(r.mantissa, 45);
    assert_eq!(r.scale, 1);
    assert_eq!(rating_text(&r), "4.5");
}

#[test]
fn rating_parse_rejects_garbage() {
    assert!(rating_from_text("not a number").is_none());
}

#[test]
fn relations_cascade_both_ways() {
    for rel in [Relation::Metadata, Relation::User] {
        let def = rel.def();
        assert!(def.on_delete_cascade);
        assert!(def.on_update_cascade);
    }
}

#[test]
fn create_review_returns_stored_fields_and_reads_back() {
    let (mut store, uid, mid) = store_with_user_and_book();
    let rating = rating_from_text("4.5");
    let input = review_input(uid, mid, rating);
    let created = store.post_review(input.clone(), 1700000000, true).unwrap();
    assert_eq!(created.rating, rating);
    assert_eq!(created.text, input.text);
    assert_eq!(created.visibility, ReviewVisibility::Public);
    assert!(!created.spoiler);
    assert_eq!(created.user_id, uid);
    assert_eq!(created.metadata_id, mid);
    assert_eq!(created.posted_on, 1700000000);
    let read: &Model = store.get_review(created.id).unwrap();
    assert_eq!(*read, created);
}

#[test]
fn delete_user_cascades_reviews_and_summary_only_for_that_user() {
    let mut store = Store::new();
    let u1 = i32::from(store.create_user("alice".to_owned()).unwrap());
    let u2 = i32::from(store.create_user("bob".to_owned()).unwrap());
    let m1 = i32::from(store.create_metadata(MetadataLot::Book, 100).unwrap());
    let m2 = i32::from(store.create_metadata(MetadataLot::Movie, 120).unwrap());
    store.post_review(review_input(u1, m1, None), 1, true).unwrap();
    store.post_review(review_input(u1, m2, None), 2, true).unwrap();
    store.post_review(review_input(u2, m1, None), 3, true).unwrap();
    store.recompute_and_store(u1, 10).unwrap();
    store.recompute_and_store(u2, 10).unwrap();
    assert_eq!(store.reviews.len(), 3);
    assert_eq!(store.summaries.len(), 2);

    store.delete_user(u1).unwrap();
    assert_eq!(store.reviews.len(), 1);
    assert_eq!(store.reviews[0].user_id, u2);
    assert_eq!(store.summaries.len(), 1);
    assert_eq!(store.summaries[0].user_id, u2);
    assert!(store.user_exists(u2));
    assert!(!store.user_exists(u1));
}

#[test]
fn delete_metadata_cascades_reviews_across_users() {
    let mut store = Store::new();
    let u1 = i32::from(store.create_user("alice".to_owned()).unwrap());
    let u2 = i32::from(store.create_user("bob".to_owned()).unwrap());
    let m1 = i32::from(store.create_metadata(MetadataLot::Show, 45).unwrap());
    let m2 = i32::from(store.create_metadata(MetadataLot::Book, 200).unwrap());
    store.post_review(review_input(u1, m1, None), 1, true).unwrap();
    store.post_review(review_input(u2, m1, None), 2, true).unwrap();
    store.post_review(review_input(u2, m2, None), 3, true).unwrap();

    store.delete_metadata(m1).unwrap();
    assert_eq!(store.reviews.len(), 1);
    assert_eq!(store.reviews[0].metadata_id, m2);
    assert!(!store.association_exists(u1, m1));
    assert!(!store.association_exists(u2, m1));
    assert!(store.association_exists(u2, m2));
}

#[test]
fn create_review_for_missing_parent_fails_and_persists_nothing() {
    let (mut store, uid, mid) = store_with_user_and_book();
    let r1 = store.post_review(review_input(uid + 50, mid, None), 1, true);
    assert_eq!(r1, Err(StoreError::ReferenceNotFound));
    let r2 = store.post_review(review_input(uid, mid + 50, None), 1, true);
    assert_eq!(r2, Err(StoreError::ReferenceNotFound));
    assert_eq!(store.reviews.len(), 0);
    assert_eq!(store.associations.len(), 0);
}

#[test]
fn association_exists_exactly_once_after_two_reviews() {
    let (mut store, uid, mid) = store_with_user_and_book();
    store.post_review(review_input(uid, mid, None), 1, true).unwrap();
    store.post_review(review_input(uid, mid, None), 2, true).unwrap();
    assert!(store.association_exists(uid, mid));
    assert_eq!(store.associations.len(), 1);
    assert_eq!(store.reviews.len(), 2);
}

#[test]
fn failed_association_write_does_not_block_review() {
    let (mut store, uid, mid) = store_with_user_and_book();
    let created = store.post_review(review_input(uid, mid, None), 1, false).unwrap();
    assert!(!store.association_exists(uid, mid));
    let read = store.get_review(created.id).unwrap();
    assert_eq!(*read, created);
}

#[test]
fn invalid_rating_fails_validation() {
    let (mut store, uid, mid) = store_with_user_and_book();
    let bad = Rating { mantissa: 1, scale: 99 };
    let r = store.post_review(review_input(uid, mid, Some(bad)), 1, true);
    assert_eq!(r, Err(StoreError::ValidationFailed));
    assert_eq!(store.reviews.len(), 0);
}

#[test]
fn id_exhaustion_is_internal_error() {
    let mut store = Store::new();
    store.next_user_id = i32::MAX;
    let r = store.create_user("alice".to_owned());
    assert_eq!(r, Err(StoreError::Internal));
}

#[test]
fn update_review_changes_fields_without_touching_associations() {
    let (mut store, uid, mid) = store_with_user_and_book();
    let created = store.post_review(review_input(uid, mid, None), 1, true).unwrap();
    let assoc_count = store.associations.len();
    let new_rating = rating_from_text("3.0");
    let mut input = review_input(uid, mid, new_rating);
    input.text = Some("changed my mind".to_owned());
    let updated = store.update_review(created.id, input).unwrap();
    assert_eq!(updated.id, created.id);
    assert_eq!(updated.rating, new_rating);
    assert_eq!(updated.text, Some("changed my mind".to_owned()));
    assert_eq!(updated.posted_on, created.posted_on);
    assert_eq!(store.associations.len(), assoc_count);
    let read = store.get_review(created.id).unwrap();
    assert_eq!(*read, updated);
}

#[test]
fn update_missing_review_is_reference_not_found() {
    let (mut store, uid, mid) = store_with_user_and_book();
    let r = store.update_review(99, review_input(uid, mid, None));
    assert_eq!(r, Err(StoreError::ReferenceNotFound));
}

#[test]
fn delete_review_removes_only_that_row() {
    let (mut store, uid, mid) = store_with_user_and_book();
    let a = store.post_review(review_input(uid, mid, None), 1, true).unwrap();
    let b = store.post_review(review_input(uid, mid, None), 2, true).unwrap();
    store.delete_review(a.id).unwrap();
    assert!(store.get_review(a.id).is_none());
    assert!(store.get_review(b.id).is_some());
    assert_eq!(store.delete_review(a.id), Err(StoreError::ReferenceNotFound));
}

#[test]
fn error_kinds_are_stable() {
    assert_eq!(StoreError::ReferenceNotFound.kind(), "REFERENCE_NOT_FOUND");
    assert_eq!(StoreError::Conflict.kind(), "CONFLICT");
    assert_eq!(StoreError::ValidationFailed.kind(), "VALIDATION_FAILED");
    assert_eq!(StoreError::NotEnabled.kind(), "NOT_ENABLED");
    assert_eq!(StoreError::Internal.kind(), "INTERNAL");
}

#[test]
fn seen_extra_information_counts_episodes_and_seasons() {
    let mut store = Store::new();
    let uid = i32::from(store.create_user("alice".to_owned()).unwrap());
    let show = i32::from(store.create_metadata(MetadataLot::Show, 45).unwrap());
    for (season, episode) in [(1, 1), (1, 2), (2, 1)] {
        let mut input = review_input(uid, show, None);
        input.extra_information = Some(SeenExtraInformation { season, episode });
        store.post_review(input, 1, true).unwrap();
    }
    let s = store.recompute(uid, 99).unwrap();
    assert_eq!(s.shows_watched, 3);
    assert_eq!(s.shows_episodes_watched, 3);
    assert_eq!(s.shows_seasons_watched, 2);
    assert_eq!(s.shows_runtime, 135);
}

#[test]
fn update_review_changes_visibility() {
    let (mut store, uid, mid) = store_with_user_and_book();
    let created = store.post_review(review_input(uid, mid, None), 1, true).unwrap();
    let mut input = review_input(uid, mid, None);
    input.visibility = ReviewVisibility::Private;
    let updated = store.update_review(created.id, input).unwrap();
    assert_eq!(updated.visibility, ReviewVisibility::Private);
}
