//! The entity rows of the store: users, metadata items, reviews, summaries
//! and the denormalized user-metadata association.

use vstd::prelude::*;

use crate::ids::Rating;

verus! {

/// The media domain a metadata item belongs to.
#[derive(Clone, Copy, Debug, PartialEq, Eq, Hash, Structural)]
pub enum MetadataLot {
    AudioBook,
    Book,
    Movie,
    Podcast,
    Show,
    VideoGame,
}

/// Who may see a review. The exact variant set is domain-defined.
#[derive(Clone, Copy, Debug, PartialEq, Eq, Structural)]
pub enum ReviewVisibility {
    Public,
    Private,
}

/// Structured progress attached to a review of an episodic item: which
/// season and episode the review covers.
#[derive(Clone, Copy, Debug, PartialEq, Eq, Structural)]
pub struct SeenExtraInformation {
    pub season: u32,
    pub episode: u32,
}

/// A stored review row.
#[derive(Clone, Debug, PartialEq, Eq)]
pub struct Model {
    pub id: i32,
    pub posted_on: i64,
    pub rating: Option<Rating>,
    pub text: Option<String>,
    pub visibility: ReviewVisibility,
    pub spoiler: bool,
    pub user_id: i32,
    pub metadata_id: i32,
    pub extra_information: Option<SeenExtraInformation>,
    pub identifier: Option<String>,
}

/// The declared edges from a review to its parents. Both edges cascade on
/// delete and on update: removing or renumbering a parent removes or
/// renumbers the dependent review rows.
#[derive(Clone, Copy, Debug, PartialEq, Eq, Structural)]
pub enum Relation {
    Metadata,
    User,
}

/// What a declared relation promises the storage layer will enforce.
#[derive(Clone, Copy, Debug, PartialEq, Eq, Structural)]
pub struct RelationDef {
    pub on_delete_cascade: bool,
    pub on_update_cascade: bool,
}

impl Relation {
    /// Both belongs-to edges of a review cascade in both directions.
    pub fn def(&self) -> (r: RelationDef)
        ensures
            r == (RelationDef { on_delete_cascade: true, on_update_cascade: true }),
    {
        match self {
            Relation::Metadata => RelationDef { on_delete_cascade: true, on_update_cascade: true },
            Relation::User => RelationDef { on_delete_cascade: true, on_update_cascade: true },
        }
    }
}

/// A stored user row. Credentials are opaque to this core and stay outside.
#[derive(Clone, Debug, PartialEq, Eq)]
pub struct UserRow {
    pub id: i32,
    pub name: String,
}

/// A stored metadata row: the media domain tag and the size of one
/// consumption of the item in that domain's unit (pages for books, minutes
/// of runtime elsewhere). The domain-specific payload is opaque to this
/// core and stays with the domain collaborators.
#[derive(Clone, Copy, Debug, PartialEq, Eq, Structural)]
pub struct MetadataRow {
    pub id: i32,
    pub lot: MetadataLot,
    pub units: u32,
}

/// The per-user rollup row: one row per user, fully overwritten on each
/// recomputation.
#[derive(Clone, Copy, Debug, PartialEq, Eq, Structural)]
pub struct Summary {
    pub user_id: i32,
    pub created_on: i64,
    pub books_pages: u64,
    pub books_read: u64,
    pub movies_runtime: u64,
    pub movies_watched: u64,
    pub shows_runtime: u64,
    pub shows_watched: u64,
    pub shows_episodes_watched: u64,
    pub shows_seasons_watched: u64,
    pub video_games_played: u64,
    pub audio_books_runtime: u64,
    pub audio_books_played: u64,
    pub podcasts_runtime: u64,
    pub podcasts_played: u64,
}

/// One denormalized link: the user has interacted with the metadata item at
/// least once. A fast-path index, reconstructable from the review rows.
#[derive(Clone, Copy, Debug, PartialEq, Eq, Structural)]
pub struct Association {
    pub user_id: i32,
    pub metadata_id: i32,
}

/// The caller-supplied part of a review; the store assigns the id and the
/// caller passes the posting time separately.
#[derive(Clone, Debug, PartialEq, Eq)]
pub struct ReviewInput {
    pub rating: Option<Rating>,
    pub text: Option<String>,
    pub visibility: ReviewVisibility,
    pub spoiler: bool,
    pub user_id: i32,
    pub metadata_id: i32,
    pub extra_information: Option<SeenExtraInformation>,
    pub identifier: Option<String>,
}

/// Copies an optional text field; the copy equals the original.
pub fn clone_opt_string(o: &Option<String>) -> (r: Option<String>)
    ensures
        r == *o,
{
    match o {
        Some(s) => Some(s.clone()),
        None => None,
    }
}

impl UserRow {
    /// A field-for-field copy that provably equals the original row.
    pub fn duplicate(&self) -> (r: UserRow)
        ensures
            r == *self,
    {
        UserRow { id: self.id, name: self.name.clone() }
    }
}

impl Model {
    /// A field-for-field copy that provably equals the original row.
    pub fn duplicate(&self) -> (r: Model)
        ensures
            r == *self,
    {
        Model {
            id: self.id,
            posted_on: self.posted_on,
            rating: self.rating,
            text: clone_opt_string(&self.text),
            visibility: self.visibility,
            spoiler: self.spoiler,
            user_id: self.user_id,
            metadata_id: self.metadata_id,
            extra_information: self.extra_information,
            identifier: clone_opt_string(&self.identifier),
        }
    }
}

impl ReviewInput {
    /// A field-for-field copy that provably equals the original input.
    pub fn duplicate(&self) -> (r: ReviewInput)
        ensures
            r == *self,
    {
        ReviewInput {
            rating: self.rating,
            text: clone_opt_string(&self.text),
            visibility: self.visibility,
            spoiler: self.spoiler,
            user_id: self.user_id,
            metadata_id: self.metadata_id,
            extra_information: self.extra_information,
            identifier: clone_opt_string(&self.identifier),
        }
    }
}

} // verus!
