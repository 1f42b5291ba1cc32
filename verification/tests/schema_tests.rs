use ryot::error::StoreError;
use ryot::features::core_details;
use ryot::features::core_enabled_features;
use ryot::features::AppConfig;
use ryot::features::FeatureConfig;
use ryot::features::IsFeatureEnabled;
use ryot::features::UsersConfig;
use ryot::ids::rating_from_text;
use ryot::model::MetadataLot;
use ryot::model::ReviewInput;
use ryot::model::ReviewVisibility;
use ryot::schema::get_schema;
use ryot::schema::post_review_resolver;
use ryot::schema::MutationRoot;
use ryot::schema::QueryRoot;
use ryot::store::Store;

fn books_only_config() -> AppConfig {
    AppConfig {
        audio_books: FeatureConfig { enabled: false },
        books: FeatureConfig { enabled: true },
        movies: FeatureConfig { enabled: false },
        podcasts: FeatureConfig { enabled: false },
        shows: FeatureConfig { enabled: false },
        video_games: FeatureConfig { enabled: false },
        file_storage: FeatureConfig { enabled: true },
        users: UsersConfig { allow_changing_username: false },
    }
}

fn names(items: &[&str]) -> Vec<String> {
    items.iter().map(|s| (*s).to_owned()).collect()
}

#[test]
fn enabled_features_lists_all_six_domains_with_flags() {
    let config = books_only_config();
    let listing = core_enabled_features(&config);
    assert_eq!(listing.metadata.len(), 6);
    for entry in &listing.metadata {
        let expected = match entry.name {
            MetadataLot::Book => true,
            _ => false,
        };
        assert_eq!(entry.enabled, expected);
    }
    assert!(listing.metadata.iter().any(|e| e.name == MetadataLot::Movie && !e.enabled));
    assert_eq!(listing.general.len(), 1);
    assert_eq!(listing.general[0].name, "FILE_STORAGE");
    assert!(listing.general[0].enabled);
}

#[test]
fn core_details_reports_service_information() {
    let config = books_only_config();
    let details = core_details(&config, "1.2.3");
    assert_eq!(details.version, "1.2.3");
    assert_eq!(details.author_name, "ignisda");
    assert_eq!(details.repository_link, "https://github.com/ignisda/ryot");
    assert!(!details.username_change_allowed);
}

#[test]
fn feature_config_reports_its_switch() {
    assert!(FeatureConfig { enabled: true }.is_enabled());
    assert!(!FeatureConfig { enabled: false }.is_enabled());
}

#[test]
fn composition_merges_disjoint_modules() {
    let sets = vec![
        names(&["coreEnabledFeatures", "coreDetails"]),
        names(&["booksSearch"]),
        names(&["moviesSearch"]),
    ];
    let root = QueryRoot::compose(&sets).unwrap();
    assert_eq!(root.operations.len(), 4);
    assert_eq!(root.operations[0], "coreEnabledFeatures");
    assert_eq!(root.operations[3], "moviesSearch");
    assert!(root.has_operation(&"booksSearch".to_owned()));
    assert!(!root.has_operation(&"podcastsSearch".to_owned()));
}

#[test]
fn composition_rejects_colliding_names() {
    let sets = vec![names(&["search", "details"]), names(&["search"])];
    assert_eq!(QueryRoot::compose(&sets).err(), Some(StoreError::Conflict));
    let sets2 = vec![names(&["postReview", "postReview"])];
    assert_eq!(MutationRoot::compose(&sets2).err(), Some(StoreError::Conflict));
}

#[test]
fn schema_assembles_both_roots_and_config() {
    let config = books_only_config();
    let queries = vec![names(&["coreEnabledFeatures", "coreDetails"]), names(&["booksSearch"])];
    let mutations = vec![names(&["postReview"]), names(&["deleteReview"])];
    let schema = get_schema(&queries, &mutations, &config).unwrap();
    assert_eq!(schema.query.operations.len(), 3);
    assert_eq!(schema.mutation.operations.len(), 2);
    assert_eq!(schema.config, config);
}

#[test]
fn resolver_refuses_disabled_domain() {
    let config = books_only_config();
    let mut store = Store::new();
    let uid = i32::from(store.create_user("alice".to_owned()).unwrap());
    let movie = i32::from(store.create_metadata(MetadataLot::Movie, 120).unwrap());
    let input = ReviewInput {
        rating: None,
        text: None,
        visibility: ReviewVisibility::Public,
        spoiler: false,
        user_id: uid,
        metadata_id: movie,
        extra_information: None,
        identifier: None,
    };
    let r = post_review_resolver(&mut store, &config, input, 1, true);
    assert_eq!(r, Err(StoreError::NotEnabled));
    assert_eq!(store.reviews.len(), 0);
}

#[test]
fn end_to_end_review_association_and_summary() {
    let config = books_only_config();
    let mut store = Store::new();
    let user = i32::from(store.create_user("alice".to_owned()).unwrap());
    assert_eq!(user, 1);
    let mut book = 0;
    for _ in 0..10 {
        book = i32::from(store.create_metadata(MetadataLot::Book, 310).unwrap());
    }
    assert_eq!(book, 10);

    let rating = rating_from_text("4.5");
    let input = ReviewInput {
        rating,
        text: Some("a fine book".to_owned()),
        visibility: ReviewVisibility::Public,
        spoiler: false,
        user_id: 1,
        metadata_id: 10,
        extra_information: None,
        identifier: None,
    };
    let created = post_review_resolver(&mut store, &config, input, 1700000000, true).unwrap();
    let read = store.get_review(created.id).unwrap();
    assert_eq!(read.rating, rating);
    assert_eq!(read.visibility, ReviewVisibility::Public);
    assert!(!read.spoiler);
    assert!(store.association_exists(1, 10));

    let summary = store.recompute_and_store(1, 1700000100).unwrap();
    assert_eq!(summary.books_read, 1);
    assert_eq!(summary.books_pages, 310);
    assert_eq!(store.summaries.len(), 1);
}

#[test]
fn id_object_wraps_identifier() {
    let id = ryot::ids::Identifier::from(42);
    let wrapped = ryot::schema::IdObject::new(id);
    assert_eq!(i32::from(wrapped.id), 42);
}
