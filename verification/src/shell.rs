//! What the "open" buttons open: web links only over HTTP(S), and the
//! game's mods, logs and save directories.

use vstd::prelude::*;
use crate::game_profile::GameProfile;
use crate::paths::{join, parts_of, AppPath};
use crate::text::{chars_of, starts_with};

verus! {

/// Whether `url` may be handed to the browser: it starts with `https://`
/// or `http://`.
pub open spec fn openable_url(url: Seq<char>) -> bool {
    "https://"@.is_prefix_of(url) || "http://"@.is_prefix_of(url)
}

/// Whether `url` may be handed to the browser.
pub fn is_openable_url(url: &str) -> (r: bool)
    ensures
        r == openable_url(url@),
{
    let u = chars_of(url);
    starts_with(&u, &chars_of("https://")) || starts_with(&u, &chars_of("http://"))
}

/// The logs directory the "open logs" button opens: `<appdata>/<game
/// data>/<logs>`, whether or not log browsing is enabled for the game.
pub fn logs_dir_to_open(appdata: &AppPath, profile: &GameProfile) -> (r: Option<AppPath>)
    ensures
        r is Some <==> (profile.appdata_dir_name is Some && profile.logs_subdir is Some),
        r matches Some(p) ==> p.base == appdata.base && parts_of(p) == parts_of(*appdata) + seq![
            profile.appdata_dir_name->0@,
            profile.logs_subdir->0@,
        ],
{
    let name = match &profile.appdata_dir_name {
        Some(n) => n,
        None => return None,
    };
    let logs = match &profile.logs_subdir {
        Some(l) => l,
        None => return None,
    };
    let r = join(&join(appdata, name.as_str()), logs.as_str());
    assert(parts_of(r) =~= parts_of(*appdata) + seq![name@, logs@]);
    Some(r)
}

/// The directory the "open saves" button opens: `<appdata>/<game data>`.
pub fn saves_dir_to_open(appdata: &AppPath, profile: &GameProfile) -> (r: Option<AppPath>)
    ensures
        r is Some <==> profile.appdata_dir_name is Some,
        r matches Some(p) ==> p.base == appdata.base && parts_of(p) == parts_of(*appdata).push(
            profile.appdata_dir_name->0@,
        ),
{
    match &profile.appdata_dir_name {
        Some(n) => Some(join(appdata, n.as_str())),
        None => None,
    }
}

} // verus!
