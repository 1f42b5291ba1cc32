//! Configuration and the two core queries the composition layer exposes
//! directly: the feature-enablement listing and the service details. Both
//! are pure reads of configuration.

use vstd::prelude::*;

use crate::model::MetadataLot;

verus! {

/// One domain's feature switch.
#[derive(Clone, Copy, Debug, PartialEq, Eq, Structural)]
pub struct FeatureConfig {
    pub enabled: bool,
}

/// The feature-enablement check every domain collaborator exposes.
pub trait IsFeatureEnabled {
    spec fn enabled_spec(&self) -> bool;

    fn is_enabled(&self) -> (r: bool)
        ensures
            r == self.enabled_spec(),
    ;
}

impl IsFeatureEnabled for FeatureConfig {
    open spec fn enabled_spec(&self) -> bool {
        self.enabled
    }

    fn is_enabled(&self) -> (r: bool) {
        self.enabled
    }
}

/// User-account policy switches.
#[derive(Clone, Copy, Debug, PartialEq, Eq, Structural)]
pub struct UsersConfig {
    pub allow_changing_username: bool,
}

/// The global configuration: one switch per media domain, the file-storage
/// switch, and the user policy. Read-only from this core's perspective.
#[derive(Clone, Copy, Debug, PartialEq, Eq, Structural)]
pub struct AppConfig {
    pub audio_books: FeatureConfig,
    pub books: FeatureConfig,
    pub movies: FeatureConfig,
    pub podcasts: FeatureConfig,
    pub shows: FeatureConfig,
    pub video_games: FeatureConfig,
    pub file_storage: FeatureConfig,
    pub users: UsersConfig,
}

/// Whether a media domain is switched on.
pub open spec fn lot_enabled(config: AppConfig, lot: MetadataLot) -> bool {
    match lot {
        MetadataLot::AudioBook => config.audio_books.enabled,
        MetadataLot::Book => config.books.enabled,
        MetadataLot::Movie => config.movies.enabled,
        MetadataLot::Podcast => config.podcasts.enabled,
        MetadataLot::Show => config.shows.enabled,
        MetadataLot::VideoGame => config.video_games.enabled,
    }
}

/// One media domain and whether it is enabled.
#[derive(Clone, Copy, Debug, PartialEq, Eq, Structural)]
pub struct MetadataCoreFeatureEnabled {
    pub name: MetadataLot,
    pub enabled: bool,
}

/// One general (non-domain) feature and whether it is enabled.
#[derive(Clone, Debug, PartialEq, Eq)]
pub struct GeneralCoreFeatureEnabled {
    pub name: String,
    pub enabled: bool,
}

/// The full feature listing: one entry per media domain plus the general
/// flags.
#[derive(Clone, Debug, PartialEq, Eq)]
pub struct CoreFeatureEnabled {
    pub metadata: Vec<MetadataCoreFeatureEnabled>,
    pub general: Vec<GeneralCoreFeatureEnabled>,
}

/// Primary information about the service.
#[derive(Clone, Debug, PartialEq, Eq)]
pub struct CoreDetails {
    pub version: String,
    pub author_name: String,
    pub repository_link: String,
    pub username_change_allowed: bool,
}

pub open spec fn author_name() -> Seq<char> {
    "ignisda"@
}

pub open spec fn repository_link() -> Seq<char> {
    "https://github.com/ignisda/ryot"@
}

pub open spec fn file_storage_tag() -> Seq<char> {
    "FILE_STORAGE"@
}

/// Lists, for each of the six media domains, whether it is enabled, plus
/// the general file-storage flag. A pure read of configuration.
pub fn core_enabled_features(config: &AppConfig) -> (r: CoreFeatureEnabled)
    ensures
        r.metadata@.len() == 6,
        r.metadata@[0] == (MetadataCoreFeatureEnabled {
            name: MetadataLot::Book,
            enabled: config.books.enabled,
        }),
        r.metadata@[1] == (MetadataCoreFeatureEnabled {
            name: MetadataLot::Movie,
            enabled: config.movies.enabled,
        }),
        r.metadata@[2] == (MetadataCoreFeatureEnabled {
            name: MetadataLot::Show,
            enabled: config.shows.enabled,
        }),
        r.metadata@[3] == (MetadataCoreFeatureEnabled {
            name: MetadataLot::VideoGame,
            enabled: config.video_games.enabled,
        }),
        r.metadata@[4] == (MetadataCoreFeatureEnabled {
            name: MetadataLot::AudioBook,
            enabled: config.audio_books.enabled,
        }),
        r.metadata@[5] == (MetadataCoreFeatureEnabled {
            name: MetadataLot::Podcast,
            enabled: config.podcasts.enabled,
        }),
        forall|i: int| 0 <= i < 6 ==> (#[trigger] r.metadata@[i]).enabled == lot_enabled(
            *config,
            r.metadata@[i].name,
        ),
        r.general@.len() == 1,
        r.general@[0].name@ == file_storage_tag(),
        r.general@[0].enabled == config.file_storage.enabled,
{
    let mut metadata: Vec<MetadataCoreFeatureEnabled> = Vec::new();
    metadata.push(
        MetadataCoreFeatureEnabled { name: MetadataLot::Book, enabled: config.books.is_enabled() },
    );
    metadata.push(
        MetadataCoreFeatureEnabled {
            name: MetadataLot::Movie,
            enabled: config.movies.is_enabled(),
        },
    );
    metadata.push(
        MetadataCoreFeatureEnabled { name: MetadataLot::Show, enabled: config.shows.is_enabled() },
    );
    metadata.push(
        MetadataCoreFeatureEnabled {
            name: MetadataLot::VideoGame,
            enabled: config.video_games.is_enabled(),
        },
    );
    metadata.push(
        MetadataCoreFeatureEnabled {
            name: MetadataLot::AudioBook,
            enabled: config.audio_books.is_enabled(),
        },
    );
    metadata.push(
        MetadataCoreFeatureEnabled {
            name: MetadataLot::Podcast,
            enabled: config.podcasts.is_enabled(),
        },
    );
    let mut general: Vec<GeneralCoreFeatureEnabled> = Vec::new();
    general.push(
        GeneralCoreFeatureEnabled {
            name: "FILE_STORAGE".to_owned(),
            enabled: config.file_storage.is_enabled(),
        },
    );
    CoreFeatureEnabled { metadata, general }
}

/// Primary information about the service: version, author, repository and
/// whether username changes are permitted. A pure read of configuration;
/// the version string is the running binary's and comes from the caller.
pub fn core_details(config: &AppConfig, version: &str) -> (r: CoreDetails)
    ensures
        r.version@ == version@,
        r.author_name@ == author_name(),
        r.repository_link@ == repository_link(),
        r.username_change_allowed == config.users.allow_changing_username,
{
    CoreDetails {
        version: version.to_owned(),
        author_name: "ignisda".to_owned(),
        repository_link: "https://github.com/ignisda/ryot".to_owned(),
        username_change_allowed: config.users.allow_changing_username,
    }
}

} // verus!
