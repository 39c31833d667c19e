//! Where a creature's sprite files live in the PMDCollab SpriteCollab
//! repository, and which animations are fetched.
use crate::creatures::{lowercase, padded_id, to_lowercase};
use crate::text::{decimal, decimal_chars, push_chars, push_str, string_from_chars, zero_padded};
use vstd::prelude::*;

verus! {

/// Base URL for raw files in the PMDCollab SpriteCollab repo.
pub open spec fn spritecollab_base() -> Seq<char> {
    "https://raw.githubusercontent.com/PMDCollab/SpriteCollab/master/sprite"@
}

/// The animation sheets the virtual pet needs.
pub fn needed_anims() -> (v: Vec<&'static str>)
    ensures
        v@.map_values(|s: &str| s@) == seq!["Idle"@, "Sleep"@, "Eat"@],
{
    let v = vec!["Idle", "Sleep", "Eat"];
    assert(v@.map_values(|s: &str| s@) =~= seq!["Idle"@, "Sleep"@, "Eat"@]);
    v
}

/// URL of a creature's AnimData.xml.
pub fn anim_data_url(creature_id: u32) -> (u: String)
    ensures
        u@ == spritecollab_base() + "/"@ + zero_padded(creature_id as nat, 4) + "/AnimData.xml"@,
{
    let mut u = String::from_str("https://raw.githubusercontent.com/PMDCollab/SpriteCollab/master/sprite");
    u.append("/");
    let pid = padded_id(creature_id);
    u.append(pid.as_str());
    u.append("/AnimData.xml");
    u
}

/// File name of an animation's sprite sheet, e.g. `Idle-Anim.png`.
pub fn sprite_sheet_filename(anim_name: &str) -> (f: String)
    ensures
        f@ == anim_name@ + "-Anim.png"@,
{
    let mut f = String::from_str(anim_name);
    f.append("-Anim.png");
    f
}

/// URL of a creature's sprite sheet for one animation.
pub fn sprite_sheet_url(creature_id: u32, anim_name: &str) -> (u: String)
    ensures
        u@ == spritecollab_base() + "/"@ + zero_padded(creature_id as nat, 4) + "/"@ + anim_name@ + "-Anim.png"@,
{
    let mut u = String::from_str("https://raw.githubusercontent.com/PMDCollab/SpriteCollab/master/sprite");
    u.append("/");
    let pid = padded_id(creature_id);
    u.append(pid.as_str());
    u.append("/");
    let file = sprite_sheet_filename(anim_name);
    u.append(file.as_str());
    u
}

/// A downloaded sprite-collab file shorter than this many bytes is taken
/// for an error page, not the file.
pub const MIN_DOWNLOAD_BYTES: u64 = 50;

/// A downloaded artwork PNG shorter than this many bytes is taken for an
/// error page (most likely a 404).
pub const MIN_ARTWORK_BYTES: u64 = 100;

/// URL of a Pokémon's official artwork PNG in the PokeAPI sprites repository.
pub fn artwork_url(pokemon_id: u32) -> (u: String)
    ensures
        u@ == "https://raw.githubusercontent.com/PokeAPI/sprites/master/sprites/pokemon/other/official-artwork/"@
            + decimal(pokemon_id as nat) + ".png"@,
{
    let mut out: Vec<char> = Vec::new();
    push_str(&mut out, "https://raw.githubusercontent.com/PokeAPI/sprites/master/sprites/pokemon/other/official-artwork/");
    let digits = decimal_chars(pokemon_id as u64);
    push_chars(&mut out, &digits);
    push_str(&mut out, ".png");
    string_from_chars(&out)
}

/// Cache file name of a Pokémon's artwork: its number, an underscore and
/// its name in lower case, e.g. `25_pikachu.png`.
pub fn artwork_filename(pokemon_id: u32, name: &str) -> (f: String)
    ensures
        f@ == decimal(pokemon_id as nat) + "_"@ + lowercase(name@) + ".png"@,
{
    let mut out: Vec<char> = Vec::new();
    let digits = decimal_chars(pokemon_id as u64);
    push_chars(&mut out, &digits);
    push_str(&mut out, "_");
    let lower = to_lowercase(name);
    push_str(&mut out, lower.as_str());
    push_str(&mut out, ".png");
    string_from_chars(&out)
}

} // verus!
