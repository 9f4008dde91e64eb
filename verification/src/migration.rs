//! Carrying data over from older versions: the single-game configuration
//! they wrote and the directories they kept it in.

use vstd::prelude::*;
use crate::text::opt_chars;
use crate::game_profile::{
    is_preset_domain, lemma_preset_domains_distinct, preset_table, GameProfile, ProfileView,
};
use crate::paths::{
    copy_path, extension_of, extension_text, parts_of, plain_file_name, same_path,
    same_place, AppPath,
};
use crate::text::{chars_of, eq_ignore_ascii_case, eq_ignore_case_exec, owned, trim, trimmed, string_of};

verus! {

/// The game older versions managed alone.
pub open spec fn legacy_default_domain() -> Seq<char> {
    "slaythespire2"@
}

/// A configured text value: trimmed, and absent when blank.
pub open spec fn normalized(value: Option<Seq<char>>) -> Option<Seq<char>> {
    match value {
        Some(v) => if trim(v).len() > 0 {
            Some(trim(v))
        } else {
            None
        },
        None => None,
    }
}

/// `value` trimmed, or none when it is absent or blank.
pub fn normalize_optional_string(value: Option<String>) -> (r: Option<String>)
    ensures
        opt_chars(r) == normalized(opt_chars(value)),
{
    match value {
        Some(v) => {
            let t = trimmed(v.as_str());
            if t.len() > 0 {
                Some(string_of(&t))
            } else {
                None
            }
        },
        None => None,
    }
}

/// The message when the preset of the legacy game is missing.
pub open spec fn missing_preset_message() -> Seq<char> {
    "missing slaythespire2 preset"@
}

/// The preset of the game older versions managed.
pub fn slay_the_spire_2_profile() -> (r: Result<GameProfile, String>)
    ensures
        r matches Ok(p) ==> p@ == preset_table()[0],
        r matches Err(e) ==> e@ == missing_preset_message(),
        r is Ok,
{
    proof {
        reveal_strlit("slaythespire2");
        assert(preset_table()[0].nexus_domain == legacy_default_domain());
        assert(is_preset_domain(legacy_default_domain()));
        lemma_preset_domains_distinct();
    }
    match GameProfile::default_for("slaythespire2") {
        Some(p) => Ok(p),
        None => Err(owned("missing slaythespire2 preset")),
    }
}

/// One game of a migrated configuration.
#[derive(Debug, Clone)]
pub struct MigratedGame {
    pub game_path: Option<String>,
    pub profile: GameProfile,
}

/// The configuration written in place of an older version's one.
#[derive(Debug, Clone)]
pub struct MigratedConfig {
    /// The selected game.
    pub current_game: String,
    pub nexus_api_key: Option<String>,
    /// The configured games by domain.
    pub games: Vec<(String, MigratedGame)>,
}

/// The configuration an older version's settings become: its single game,
/// selected, with the game directory and API key it had (trimmed, blank
/// ones dropped).
pub fn migrated_config(legacy_game_path: Option<String>, legacy_api_key: Option<String>) -> (r:
    Result<MigratedConfig, String>)
    ensures
        r is Ok,
        r matches Ok(c) ==> c.current_game@ == legacy_default_domain() && opt_chars(c.nexus_api_key)
            == normalized(opt_chars(legacy_api_key)) && c.games.len() == 1 && c.games@[0].0@
            == legacy_default_domain() && opt_chars(c.games@[0].1.game_path) == normalized(
            opt_chars(legacy_game_path),
        ) && c.games@[0].1.profile@ == preset_table()[0],
{
    let profile = match slay_the_spire_2_profile() {
        Ok(p) => p,
        Err(e) => return Err(e),
    };
    let mut games: Vec<(String, MigratedGame)> = Vec::new();
    games.push(
        (
            owned("slaythespire2"),
            MigratedGame { game_path: normalize_optional_string(legacy_game_path), profile },
        ),
    );
    Ok(
        MigratedConfig {
            current_game: owned("slaythespire2"),
            nexus_api_key: normalize_optional_string(legacy_api_key),
            games,
        },
    )
}

/// Whether a directory entry named `name` is a database file: its extension
/// is `db` in any ASCII case.
pub fn is_db_file_name(name: &str) -> (r: bool)
    ensures
        plain_file_name(name@) ==> r == (extension_of(name@) matches Some(e)
            && eq_ignore_ascii_case(e, "db"@)),
{
    match extension_text(name) {
        Some(e) => eq_ignore_case_exec(&chars_of(e.as_str()), &chars_of("db")),
        None => false,
    }
}

/// One directory to carry over: everything under `source` that the
/// destination lacks is copied into `destination`; the configuration and
/// profiles files too when `include_config_files`. A missing `source` is
/// nothing to carry over.
#[derive(Debug, Clone)]
pub struct MigrationStep {
    pub source: Option<AppPath>,
    pub destination: AppPath,
    pub include_config_files: bool,
}

/// The directories to carry over from an older version, in order: nothing
/// when neither of its directories exists; else its configuration
/// directory (with the configuration files) into the current one, then its
/// data directory, when it differs from its configuration directory, into
/// the current data directory (the configuration directory when the two
/// current ones are the same).
pub fn migration_plan(
    legacy_config: Option<AppPath>,
    legacy_data: Option<AppPath>,
    legacy_config_exists: bool,
    legacy_data_exists: bool,
    writable_config: AppPath,
    writable_data: AppPath,
) -> (r: Vec<MigrationStep>)
    ensures
        !((legacy_config is Some && legacy_config_exists) || (legacy_data is Some
            && legacy_data_exists)) ==> r.len() == 0,
        ((legacy_config is Some && legacy_config_exists) || (legacy_data is Some
            && legacy_data_exists)) ==> 1 <= r.len() <= 2 && r@[0].source == legacy_config
            && r@[0].destination == writable_config && r@[0].include_config_files,
        r.len() == 2 ==> legacy_data is Some && r@[1].source == legacy_data
            && !r@[1].include_config_files && (same_place(r@[1].destination, writable_config)
            || same_place(r@[1].destination, writable_data)),
        r.len() == 2 && parts_of(writable_config) != parts_of(writable_data) ==> same_place(
            r@[1].destination,
            writable_data,
        ),
        r.len() >= 1 && legacy_data is Some && (legacy_config is None || parts_of(legacy_config->0)
            != parts_of(legacy_data->0)) ==> r.len() == 2,
        r.len() == 2 && legacy_config is Some && parts_of(legacy_config->0) == parts_of(
            legacy_data->0,
        ) ==> legacy_config->0.base != legacy_data->0.base,
{
    let mut steps: Vec<MigrationStep> = Vec::new();
    let has_config = match &legacy_config {
        Some(_) => legacy_config_exists,
        None => false,
    };
    let has_data = match &legacy_data {
        Some(_) => legacy_data_exists,
        None => false,
    };
    if !has_config && !has_data {
        return steps;
    }
    let data_is_config = match (&legacy_config, &legacy_data) {
        (Some(c), Some(d)) => same_path(c, d),
        _ => false,
    };
    let same_current = same_path(&writable_data, &writable_config);
    let destination = if same_current {
        copy_path(&writable_config)
    } else {
        copy_path(&writable_data)
    };
    steps.push(
        MigrationStep {
            source: legacy_config,
            destination: writable_config,
            include_config_files: true,
        },
    );
    if !data_is_config {
        match legacy_data {
            Some(d) => {
                steps.push(
                    MigrationStep {
                        source: Some(d),
                        destination,
                        include_config_files: false,
                    },
                );
            },
            None => {},
        }
    }
    steps
}

/// The name the single profiles file of an older version is copied to: the
/// profiles file of the game it managed.
pub fn legacy_profiles_target() -> (r: String)
    ensures
        r@ == crate::profiles::profiles_file_name(legacy_default_domain()),
{
    let mut v = chars_of("profiles_");
    crate::text::push_all(&mut v, &chars_of("slaythespire2"));
    crate::text::push_all(&mut v, &chars_of(".json"));
    string_of(&v)
}

} // verus!
