//! Built-in creature definitions.
//!
//! Each creature maps to a Pokémon with a National Dex ID, which is used
//! to find its sprites in the PMDCollab SpriteCollab repository.
use crate::text::{
    decimal, is_ascii_digit, lemma_decimal_len_gt, lemma_decimal_len_le, lemma_decimal_reads_back,
    lemma_leading_zeros_value, parse_u32, string_from_chars, ten_pow, zero_padded, zero_padded_chars,
};
use vstd::prelude::*;

verus! {

/// A creature available in PoCLImon.
#[derive(Debug, Clone, Copy)]
pub struct CreatureDef {
    /// National Pokédex ID (e.g., 25 for Pikachu)
    pub id: u32,
    /// Display name
    pub name: &'static str,
}

impl CreatureDef {
    pub open spec fn view(self) -> (u32, Seq<char>) {
        (self.id, self.name@)
    }
}

/// The roster as `(id, display name)` pairs, in roster order.
pub open spec fn roster_spec() -> Seq<(u32, Seq<char>)> {
    seq![
        (1u32, "Bulbasaur"@),
        (4u32, "Charmander"@),
        (7u32, "Squirtle"@),
        (25u32, "Pikachu"@),
        (133u32, "Eevee"@),
        (134u32, "Vaporeon"@),
        (135u32, "Jolteon"@),
        (136u32, "Flareon"@),
        (144u32, "Articuno"@),
        (145u32, "Zapdos"@),
        (146u32, "Moltres"@),
    ]
}

/// The first roster entry at or after index `i` with this National Dex ID.
pub open spec fn lookup_id_from(id: u32, i: nat) -> Option<(u32, Seq<char>)>
    decreases roster_spec().len() - i,
{
    if i >= roster_spec().len() {
        None
    } else if roster_spec()[i as int].0 == id {
        Some(roster_spec()[i as int])
    } else {
        lookup_id_from(id, i + 1)
    }
}

/// The roster entry with this National Dex ID, if any.
pub open spec fn roster_lookup_id(id: u32) -> Option<(u32, Seq<char>)> {
    lookup_id_from(id, 0)
}

/// Whether roster entry `i` matches `name` case-insensitively.
pub open spec fn roster_name_matches(i: int, name: Seq<char>) -> bool {
    lowercase(roster_spec()[i].1) == lowercase(name)
}

/// The first roster entry at or after index `i` whose name matches `name`
/// case-insensitively.
pub open spec fn lookup_name_from(name: Seq<char>, i: nat) -> Option<(u32, Seq<char>)>
    decreases roster_spec().len() - i,
{
    if i >= roster_spec().len() {
        None
    } else if roster_name_matches(i as int, name) {
        Some(roster_spec()[i as int])
    } else {
        lookup_name_from(name, i + 1)
    }
}

/// The first roster entry whose name matches `name` case-insensitively.
pub open spec fn roster_lookup_name(name: Seq<char>) -> Option<(u32, Seq<char>)> {
    lookup_name_from(name, 0)
}

/// No two roster entries share a National Dex ID.
pub proof fn law_roster_ids_unique(i: int, j: int)
    requires
        0 <= i < roster_spec().len(),
        0 <= j < roster_spec().len(),
        roster_spec()[i].0 == roster_spec()[j].0,
    ensures
        i == j,
{
}

proof fn lemma_lookup_id_from_finds(id: u32, k: nat, i: int)
    requires
        k <= i < roster_spec().len(),
        roster_spec()[i].0 == id,
    ensures
        lookup_id_from(id, k) == Some(roster_spec()[i]),
    decreases roster_spec().len() - k,
{
    if roster_spec()[k as int].0 == id {
        law_roster_ids_unique(k as int, i);
    } else {
        lemma_lookup_id_from_finds(id, k + 1, i);
    }
}

/// Looking up the ID of any roster entry finds that entry.
pub proof fn law_lookup_id_of_roster_entry(i: int)
    requires
        0 <= i < roster_spec().len(),
    ensures
        roster_lookup_id(roster_spec()[i].0) == Some(roster_spec()[i]),
{
    lemma_lookup_id_from_finds(roster_spec()[i].0, 0, i);
}

/// Zero-pad a National Pokédex ID to 4 digits, as used in PMDCollab sprite paths.
pub fn padded_id(id: u32) -> (s: String)
    ensures
        s@ == zero_padded(id as nat, 4),
{
    let chars = zero_padded_chars(id as u64, 4);
    string_from_chars(&chars)
}

/// A padded ID of four digits or fewer is exactly four ASCII digits that
/// parse back to the ID; a longer ID is its plain decimal form, never cut.
pub proof fn law_padded_id_reads_back(id: u32)
    ensures
        id < 10000 ==> {
            let s = zero_padded(id as nat, 4);
            &&& s.len() == 4
            &&& forall|i: int| 0 <= i < 4 ==> #[trigger] is_ascii_digit(s[i])
            &&& parse_u32(s) == Some(id)
        },
        id >= 10000 ==> zero_padded(id as nat, 4) == decimal(id as nat),
{
    let d = decimal(id as nat);
    lemma_decimal_reads_back(id as nat);
    assert(ten_pow(4) == 10000) by {
        reveal_with_fuel(ten_pow, 5);
    }
    if id < 10000 {
        lemma_decimal_len_le(id as nat, 4);
        let s = zero_padded(id as nat, 4);
        if d.len() < 4 {
            let m = (4 - d.len()) as nat;
            let z = Seq::new(m, |_i: int| '0');
            assert(s == z + d);
            lemma_leading_zeros_value(m, d);
            assert forall|i: int| 0 <= i < s.len() implies #[trigger] is_ascii_digit(s[i]) by {
                if i >= m {
                    assert(s[i] == d[i - m]);
                }
            }
        }
        assert(s[0] != '+') by {
            assert(is_ascii_digit(s[0]));
        }
        assert(parse_u32(s) == Some(id));
    } else {
        lemma_decimal_len_gt(id as nat, 3);
        assert(ten_pow(3) == 1000) by {
            reveal_with_fuel(ten_pow, 4);
        }
    }
}

/// All creatures available in PoCLImon, in roster order.
///
/// IDs correspond to National Pokédex numbers. Sprites are sourced from
/// the PMDCollab SpriteCollab repository and cached locally on first use.
pub fn roster() -> (r: Vec<CreatureDef>)
    ensures
        r@.len() == roster_spec().len(),
        forall|i: int| 0 <= i < r@.len() ==> (#[trigger] r@[i]).view() == roster_spec()[i],
{
    let r = vec![
        // Gen 1 starters
        CreatureDef { id: 1, name: "Bulbasaur" },
        CreatureDef { id: 4, name: "Charmander" },
        CreatureDef { id: 7, name: "Squirtle" },
        // Electric mouse
        CreatureDef { id: 25, name: "Pikachu" },
        // Eevee and its evolutions
        CreatureDef { id: 133, name: "Eevee" },
        CreatureDef { id: 134, name: "Vaporeon" },
        CreatureDef { id: 135, name: "Jolteon" },
        CreatureDef { id: 136, name: "Flareon" },
        // Legendary birds
        CreatureDef { id: 144, name: "Articuno" },
        CreatureDef { id: 145, name: "Zapdos" },
        CreatureDef { id: 146, name: "Moltres" },
    ];
    r
}

/// Find a creature by ID.
pub fn find_by_id(id: u32) -> (r: Option<CreatureDef>)
    ensures
        match r {
            Some(c) => roster_lookup_id(id) == Some(c.view()),
            None => roster_lookup_id(id) is None,
        },
{
    let all = roster();
    let mut i: usize = 0;
    while i < all.len()
        invariant
            i <= all@.len(),
            all@.len() == roster_spec().len(),
            forall|k: int| 0 <= k < all@.len() ==> (#[trigger] all@[k]).view() == roster_spec()[k],
            roster_lookup_id(id) == lookup_id_from(id, i as nat),
        decreases all.len() - i,
    {
        assert(all@[i as int].view() == roster_spec()[i as int]);
        if all[i].id == id {
            return Some(all[i]);
        }
        i = i + 1;
    }
    None
}

/// The Unicode lowercase form of a string, as `str::to_lowercase` computes it.
pub uninterp spec fn lowercase(s: Seq<char>) -> Seq<char>;

/// Whether every character of `s` is ASCII.
pub open spec fn is_ascii_text(s: Seq<char>) -> bool {
    forall|i: int| 0 <= i < s.len() ==> (#[trigger] s[i] as int) < 128
}

/// The code of the lowercase form of an ASCII character: `'A'..='Z'` map to
/// `'a'..='z'`, every other character to itself.
pub open spec fn ascii_lower_code(c: char) -> int {
    if 'A' <= c && c <= 'Z' {
        c as int + 32
    } else {
        c as int
    }
}

/// Whether `l` is `s` with each ASCII uppercase letter made lowercase.
pub open spec fn lowers_ascii(s: Seq<char>, l: Seq<char>) -> bool {
    &&& l.len() == s.len()
    &&& forall|i: int| 0 <= i < s.len() ==> (#[trigger] l[i]) as int == ascii_lower_code(s[i])
}

/// Calls `str::to_lowercase`; the result is `lowercase` of the argument.
/// On ASCII text, whose characters' Unicode lowercase mappings are their
/// ASCII ones, it is the text with `'A'..='Z'` made `'a'..='z'`.
#[verifier::external_body]
pub(crate) fn to_lowercase(s: &str) -> (r: String)
    ensures
        r@ == lowercase(s@),
        is_ascii_text(s@) ==> lowers_ascii(s@, r@),
{
    s.to_lowercase()
}

/// Two strings with the same lowercase form find the same creature.
pub proof fn law_lookup_ignores_case(a: Seq<char>, b: Seq<char>)
    requires
        lowercase(a) == lowercase(b),
    ensures
        roster_lookup_name(a) == roster_lookup_name(b),
{
    lemma_lookup_name_same(a, b, 0);
}

proof fn lemma_lookup_name_same(a: Seq<char>, b: Seq<char>, i: nat)
    requires
        lowercase(a) == lowercase(b),
    ensures
        lookup_name_from(a, i) == lookup_name_from(b, i),
    decreases roster_spec().len() - i,
{
    if i < roster_spec().len() {
        lemma_lookup_name_same(a, b, i + 1);
    }
}

/// The roster names are ASCII, and no two start with the same letter up to
/// case.
proof fn lemma_roster_names_ascii()
    ensures
        forall|k: int| 0 <= k < roster_spec().len() ==> is_ascii_text(#[trigger] roster_spec()[k].1) && roster_spec()[k].1.len() > 0,
        forall|j: int, k: int| 0 <= j < roster_spec().len() && 0 <= k < roster_spec().len() && j != k
            ==> ascii_lower_code(#[trigger] roster_spec()[j].1[0]) != ascii_lower_code(#[trigger] roster_spec()[k].1[0]),
{
    reveal_strlit("Bulbasaur");
    reveal_strlit("Charmander");
    reveal_strlit("Squirtle");
    reveal_strlit("Pikachu");
    reveal_strlit("Eevee");
    reveal_strlit("Vaporeon");
    reveal_strlit("Jolteon");
    reveal_strlit("Flareon");
    reveal_strlit("Articuno");
    reveal_strlit("Zapdos");
    reveal_strlit("Moltres");
}

/// The position of the first of `lower_names` equal to `lower_name`, if any.
///
/// This is the comparison [`find_by_name`] makes once both sides are in
/// lowercase.
pub fn find_lowercased(lower_name: &str, lower_names: &Vec<String>) -> (r: Option<usize>)
    ensures
        match r {
            Some(k) => {
                &&& k < lower_names@.len()
                &&& lower_names@[k as int]@ == lower_name@
                &&& forall|j: int| 0 <= j < k ==> (#[trigger] lower_names@[j])@ != lower_name@
            },
            None => forall|j: int| 0 <= j < lower_names@.len() ==> (#[trigger] lower_names@[j])@ != lower_name@,
        },
{
    let key = String::from_str(lower_name);
    let mut i: usize = 0;
    while i < lower_names.len()
        invariant
            i <= lower_names@.len(),
            key@ == lower_name@,
            forall|j: int| 0 <= j < i ==> (#[trigger] lower_names@[j])@ != lower_name@,
        decreases lower_names.len() - i,
    {
        if lower_names[i] == key {
            return Some(i);
        }
        i = i + 1;
    }
    None
}

proof fn lemma_lookup_name_first(name: Seq<char>, i: nat, k: nat)
    requires
        i <= k < roster_spec().len(),
        roster_name_matches(k as int, name),
        forall|j: int| i <= j < k ==> !#[trigger] roster_name_matches(j, name),
    ensures
        lookup_name_from(name, i) == Some(roster_spec()[k as int]),
    decreases k - i,
{
    if i < k {
        assert(!roster_name_matches(i as int, name));
        lemma_lookup_name_first(name, i + 1, k);
    }
}

proof fn lemma_lookup_name_none(name: Seq<char>, i: nat)
    requires
        forall|j: int| i <= j < roster_spec().len() ==> !#[trigger] roster_name_matches(j, name),
    ensures
        lookup_name_from(name, i) is None,
    decreases roster_spec().len() - i,
{
    if i < roster_spec().len() {
        assert(!roster_name_matches(i as int, name));
        lemma_lookup_name_none(name, i + 1);
    }
}

/// Find a creature by name (case-insensitive): the first roster entry whose
/// lowercase name equals the lowercase of `name`. Every roster creature is
/// found again by its own name.
pub fn find_by_name(name: &str) -> (r: Option<CreatureDef>)
    ensures
        match r {
            Some(c) => roster_lookup_name(name@) == Some(c.view()),
            None => roster_lookup_name(name@) is None,
        },
        forall|i: int| 0 <= i < roster_spec().len() && name@ == (#[trigger] roster_spec()[i]).1 ==> (r matches Some(
            c,
        ) && c.view() == roster_spec()[i]),
{
    let lower = to_lowercase(name);
    let all = roster();
    let mut lower_names: Vec<String> = Vec::new();
    let mut i: usize = 0;
    while i < all.len()
        invariant
            i <= all@.len(),
            lower_names@.len() == i,
            forall|k: int| 0 <= k < i ==> (#[trigger] lower_names@[k])@ == lowercase(all@[k].name@),
            forall|k: int| 0 <= k < i ==> is_ascii_text(all@[k].name@) ==> lowers_ascii(
                all@[k].name@,
                #[trigger] lower_names@[k]@,
            ),
        decreases all.len() - i,
    {
        let l = to_lowercase(all[i].name);
        lower_names.push(l);
        i = i + 1;
    }
    proof {
        assert forall|j: int| 0 <= j < all@.len() implies (#[trigger] lower_names@[j])@ == lower@
            <==> roster_name_matches(j, name@) by {
            assert(all@[j].view() == roster_spec()[j]);
        }
        lemma_roster_names_ascii();
        assert forall|i: int| 0 <= i < roster_spec().len() && name@ == (#[trigger] roster_spec()[i]).1 implies roster_lookup_name(
            name@,
        ) == Some(roster_spec()[i]) by {
            assert(all@[i].view() == roster_spec()[i]);
            assert forall|j: int| 0 <= j < i implies !#[trigger] roster_name_matches(j, name@) by {
                assert(all@[j].view() == roster_spec()[j]);
                let lj = lower_names@[j]@;
                let li = lower_names@[i]@;
                assert(lj[0] as int == ascii_lower_code(roster_spec()[j].1[0]));
                assert(li[0] as int == ascii_lower_code(roster_spec()[i].1[0]));
                assert(lj != li);
            }
            lemma_lookup_name_first(name@, 0, i as nat);
        }
    }
    match find_lowercased(lower.as_str(), &lower_names) {
        Some(k) => {
            proof {
                assert(lower_names@[k as int]@ == lower@);
                assert forall|j: int| 0 <= j < k implies !#[trigger] roster_name_matches(j, name@) by {
                    assert(lower_names@[j]@ != lower@);
                }
                lemma_lookup_name_first(name@, 0, k as nat);
                assert(all@[k as int].view() == roster_spec()[k as int]);
            }
            Some(all[k])
        },
        None => {
            proof {
                assert forall|j: int| 0 <= j < roster_spec().len() implies !#[trigger] roster_name_matches(j, name@) by {
                    assert(lower_names@[j]@ != lower@);
                }
                lemma_lookup_name_none(name@, 0);
            }
            None
        },
    }
}

} // verus!
