//! Game profiles: what the manager knows about each supported game, and the
//! built-in presets.

use vstd::prelude::*;
use crate::text::opt_chars;
use crate::text::{owned, chars_eq, chars_of, string_of};

verus! {

/// What the manager knows about one game.
#[derive(Clone, Debug, PartialEq, Eq)]
pub struct GameProfile {
    /// Nexus Mods game domain.
    pub nexus_domain: String,
    /// Human-readable game name.
    pub display_name: String,
    /// Optional Steam app id for launching through Steam.
    pub steam_app_id: Option<u64>,
    /// Optional executable file name for direct launching.
    pub exe_name: Option<String>,
    /// Optional process name used to detect a running game process.
    pub process_name: Option<String>,
    /// Optional Steam library directory name under steamapps/common.
    pub steam_dir_name: Option<String>,
    /// Mod directory relative to the game root.
    pub mods_subdir: String,
    /// Optional app data/config directory name for logs and saves.
    pub appdata_dir_name: Option<String>,
    /// Optional logs directory relative to the app data directory.
    pub logs_subdir: Option<String>,
    /// Whether save management is enabled for this game.
    pub saves_enabled: bool,
    /// Whether log browsing is enabled for this game.
    pub logs_enabled: bool,
    /// Whether crash analysis is enabled for this game.
    pub crash_analysis_enabled: bool,
}

/// A game profile with its strings as character sequences.
pub struct ProfileView {
    pub nexus_domain: Seq<char>,
    pub display_name: Seq<char>,
    pub steam_app_id: Option<u64>,
    pub exe_name: Option<Seq<char>>,
    pub process_name: Option<Seq<char>>,
    pub steam_dir_name: Option<Seq<char>>,
    pub mods_subdir: Seq<char>,
    pub appdata_dir_name: Option<Seq<char>>,
    pub logs_subdir: Option<Seq<char>>,
    pub saves_enabled: bool,
    pub logs_enabled: bool,
    pub crash_analysis_enabled: bool,
}

impl View for GameProfile {
    type V = ProfileView;

    open spec fn view(&self) -> ProfileView {
        ProfileView {
            nexus_domain: self.nexus_domain@,
            display_name: self.display_name@,
            steam_app_id: self.steam_app_id,
            exe_name: opt_chars(self.exe_name),
            process_name: opt_chars(self.process_name),
            steam_dir_name: opt_chars(self.steam_dir_name),
            mods_subdir: self.mods_subdir@,
            appdata_dir_name: opt_chars(self.appdata_dir_name),
            logs_subdir: opt_chars(self.logs_subdir),
            saves_enabled: self.saves_enabled,
            logs_enabled: self.logs_enabled,
            crash_analysis_enabled: self.crash_analysis_enabled,
        }
    }
}

/// A preset for a game launched through Steam, with no save, log or crash
/// support.
pub open spec fn preset_view(
    nexus_domain: Seq<char>,
    display_name: Seq<char>,
    steam_app_id: u64,
    exe_name: Seq<char>,
    process_name: Seq<char>,
    steam_dir_name: Seq<char>,
    mods_subdir: Seq<char>,
) -> ProfileView {
    ProfileView {
        nexus_domain,
        display_name,
        steam_app_id: Some(steam_app_id),
        exe_name: Some(exe_name),
        process_name: Some(process_name),
        steam_dir_name: Some(steam_dir_name),
        mods_subdir,
        appdata_dir_name: None,
        logs_subdir: None,
        saves_enabled: false,
        logs_enabled: false,
        crash_analysis_enabled: false,
    }
}

/// The Slay the Spire 2 preset, the only one with saves, logs and crash
/// analysis.
pub open spec fn slay_the_spire_2_view() -> ProfileView {
    ProfileView {
        nexus_domain: "slaythespire2"@,
        display_name: "Slay the Spire 2"@,
        steam_app_id: Some(2868840),
        exe_name: Some("SlayTheSpire2.exe"@),
        process_name: Some("SlayTheSpire2"@),
        steam_dir_name: Some("Slay the Spire 2"@),
        mods_subdir: "mods"@,
        appdata_dir_name: Some("SlayTheSpire2"@),
        logs_subdir: Some("logs"@),
        saves_enabled: true,
        logs_enabled: true,
        crash_analysis_enabled: true,
    }
}

/// The built-in presets, in their fixed order.
pub open spec fn preset_table() -> Seq<ProfileView> {
    seq![
        slay_the_spire_2_view(),
        preset_view("skyrimspecialedition"@, "Skyrim Special Edition"@, 489830, "SkyrimSE.exe"@, "SkyrimSE"@, "Skyrim Special Edition"@, "Data"@),
        preset_view("baldursgate3"@, "Baldur's Gate 3"@, 1086940, "bg3.exe"@, "bg3"@, "Baldur's Gate 3"@, "Mods"@),
        preset_view("stardewvalley"@, "Stardew Valley"@, 413150, "Stardew Valley.exe"@, "Stardew Valley"@, "Stardew Valley"@, "Mods"@),
        preset_view("cyberpunk2077"@, "Cyberpunk 2077"@, 1091500, "Cyberpunk2077.exe"@, "Cyberpunk2077"@, "Cyberpunk 2077"@, "archive\\pc\\mod"@),
        preset_view("monsterhunterworld"@, "Monster Hunter: World"@, 582010, "MonsterHunterWorld.exe"@, "MonsterHunterWorld"@, "Monster Hunter World"@, "nativePC"@),
        preset_view("fallout4"@, "Fallout 4"@, 377160, "Fallout4.exe"@, "Fallout4"@, "Fallout 4"@, "Data"@),
        preset_view("witcher3"@, "The Witcher 3"@, 292030, "witcher3.exe"@, "witcher3"@, "The Witcher 3"@, "mods"@),
        preset_view("eldenring"@, "Elden Ring"@, 1245620, "eldenring.exe"@, "eldenring"@, "ELDEN RING"@, "mods"@),
        preset_view("starfield"@, "Starfield"@, 1716740, "Starfield.exe"@, "Starfield"@, "Starfield"@, "Data"@),
    ]
}

/// The views of a list of profiles.
pub open spec fn profile_views(v: Seq<GameProfile>) -> Seq<ProfileView> {
    v.map_values(|p: GameProfile| p@)
}


fn preset_game(
    nexus_domain: &str,
    display_name: &str,
    steam_app_id: u64,
    exe_name: &str,
    process_name: &str,
    steam_dir_name: &str,
    mods_subdir: &str,
) -> (p: GameProfile)
    ensures
        p@ == preset_view(
            nexus_domain@,
            display_name@,
            steam_app_id,
            exe_name@,
            process_name@,
            steam_dir_name@,
            mods_subdir@,
        ),
{
    GameProfile {
        nexus_domain: owned(nexus_domain),
        display_name: owned(display_name),
        steam_app_id: Some(steam_app_id),
        exe_name: Some(owned(exe_name)),
        process_name: Some(owned(process_name)),
        steam_dir_name: Some(owned(steam_dir_name)),
        mods_subdir: owned(mods_subdir),
        appdata_dir_name: None,
        logs_subdir: None,
        saves_enabled: false,
        logs_enabled: false,
        crash_analysis_enabled: false,
    }
}

/// The built-in game presets.
pub fn preset_games() -> (v: Vec<GameProfile>)
    ensures
        profile_views(v@) == preset_table(),
{
    let mut v: Vec<GameProfile> = Vec::new();
    v.push(
        GameProfile {
            nexus_domain: owned("slaythespire2"),
            display_name: owned("Slay the Spire 2"),
            steam_app_id: Some(2868840),
            exe_name: Some(owned("SlayTheSpire2.exe")),
            process_name: Some(owned("SlayTheSpire2")),
            steam_dir_name: Some(owned("Slay the Spire 2")),
            mods_subdir: owned("mods"),
            appdata_dir_name: Some(owned("SlayTheSpire2")),
            logs_subdir: Some(owned("logs")),
            saves_enabled: true,
            logs_enabled: true,
            crash_analysis_enabled: true,
        },
    );
    v.push(preset_game("skyrimspecialedition", "Skyrim Special Edition", 489830, "SkyrimSE.exe", "SkyrimSE", "Skyrim Special Edition", "Data"));
    v.push(preset_game("baldursgate3", "Baldur's Gate 3", 1086940, "bg3.exe", "bg3", "Baldur's Gate 3", "Mods"));
    v.push(preset_game("stardewvalley", "Stardew Valley", 413150, "Stardew Valley.exe", "Stardew Valley", "Stardew Valley", "Mods"));
    v.push(preset_game("cyberpunk2077", "Cyberpunk 2077", 1091500, "Cyberpunk2077.exe", "Cyberpunk2077", "Cyberpunk 2077", "archive\\pc\\mod"));
    v.push(preset_game("monsterhunterworld", "Monster Hunter: World", 582010, "MonsterHunterWorld.exe", "MonsterHunterWorld", "Monster Hunter World", "nativePC"));
    v.push(preset_game("fallout4", "Fallout 4", 377160, "Fallout4.exe", "Fallout4", "Fallout 4", "Data"));
    v.push(preset_game("witcher3", "The Witcher 3", 292030, "witcher3.exe", "witcher3", "The Witcher 3", "mods"));
    v.push(preset_game("eldenring", "Elden Ring", 1245620, "eldenring.exe", "eldenring", "ELDEN RING", "mods"));
    v.push(preset_game("starfield", "Starfield", 1716740, "Starfield.exe", "Starfield", "Starfield", "Data"));
    assert(profile_views(v@) =~= preset_table());
    v
}

/// There is a preset for the domain `d`.
pub open spec fn is_preset_domain(d: Seq<char>) -> bool {
    exists|i: int| 0 <= i < preset_table().len() && preset_table()[i].nexus_domain == d
}

impl GameProfile {
    /// The preset for `nexus_domain`, if there is one.
    pub fn default_for(nexus_domain: &str) -> (r: Option<GameProfile>)
        ensures
            r is Some <==> is_preset_domain(nexus_domain@),
            r matches Some(p) ==> exists|i: int|
                0 <= i < preset_table().len() && preset_table()[i] == p@ && p@.nexus_domain
                    == nexus_domain@,
    {
        let mut presets = preset_games();
        let wanted = chars_of(nexus_domain);
        let mut i: usize = 0;
        while i < presets.len()
            invariant
                profile_views(presets@) == preset_table(),
                wanted@ == nexus_domain@,
                i <= presets.len(),
                forall|k: int| 0 <= k < i ==> preset_table()[k].nexus_domain != nexus_domain@,
            decreases presets.len() - i,
        {
            let d = chars_of(presets[i].nexus_domain.as_str());
            assert(preset_table()[i as int] == presets@[i as int]@);
            if chars_eq(&d, &wanted) {
                let p = presets.remove(i);
                return Some(p);
            }
            i = i + 1;
        }
        None
    }
}

/// The domain of the first preset, the game older versions managed alone.
pub open spec fn default_game_domain_spec() -> Seq<char> {
    preset_table()[0].nexus_domain
}

/// The domain of the first preset.
pub fn default_game_domain() -> (r: Option<String>)
    ensures
        r matches Some(d) && d@ == default_game_domain_spec(),
{
    let mut presets = preset_games();
    assert(profile_views(presets@).len() == preset_table().len());
    assert(presets@.len() > 0);
    assert(profile_views(presets@)[0] == presets@[0]@);
    let first = presets.remove(0);
    Some(first.nexus_domain)
}

/// No two presets share a domain, so a domain names at most one preset.
pub proof fn lemma_preset_domains_distinct()
    ensures
        forall|i: int, j: int|
            0 <= i < j < preset_table().len() ==> preset_table()[i].nexus_domain
                != preset_table()[j].nexus_domain,
{
    reveal_strlit("slaythespire2");
    reveal_strlit("skyrimspecialedition");
    reveal_strlit("baldursgate3");
    reveal_strlit("stardewvalley");
    reveal_strlit("cyberpunk2077");
    reveal_strlit("monsterhunterworld");
    reveal_strlit("fallout4");
    reveal_strlit("witcher3");
    reveal_strlit("eldenring");
    reveal_strlit("starfield");
    assert forall|i: int, j: int| 0 <= i < j < preset_table().len() implies preset_table()[i].nexus_domain != preset_table()[j].nexus_domain by {
        let a = preset_table()[i].nexus_domain;
        let b = preset_table()[j].nexus_domain;
        if a.len() == b.len() {
            assert(a[0] != b[0] || a[1] != b[1]);
        }
    }
}

/// The preset for a preset's own domain is that preset: looking a preset up
/// by its domain gives it back.
pub proof fn lemma_default_for_returns_the_preset(i: int)
    requires
        0 <= i < preset_table().len(),
    ensures
        is_preset_domain(preset_table()[i].nexus_domain),
        forall|j: int|
            0 <= j < preset_table().len() && preset_table()[j].nexus_domain
                == preset_table()[i].nexus_domain ==> j == i,
{
    lemma_preset_domains_distinct();
}

} // verus!
