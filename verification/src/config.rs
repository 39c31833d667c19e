//! Roster configuration: the TOML document's structure, its validation into
//! a [`GameConfig`], and the text written back when the roster is saved.
use crate::creatures::{
    find_by_id, find_by_name, law_lookup_id_of_roster_entry, lookup_id_from, lookup_name_from, roster_lookup_id,
    roster_lookup_name, roster_name_matches, roster_spec,
};
use crate::text::{chars_of, decimal, decimal_chars, parse_u32, parse_u32_range, string_from_chars};
use vstd::prelude::*;

verus! {

/// Most creatures a roster may hold.
pub const MAX_ACTIVE_CREATURES: usize = 6;

/// `std::io::Error`, carried through unchanged.
#[verifier::external_type_specification]
#[verifier::external_body]
pub struct ExIoError(std::io::Error);

/// `toml::de::Error`, carried through unchanged.
#[verifier::external_type_specification]
#[verifier::external_body]
pub struct ExTomlDeError(toml::de::Error);

/// `toml::ser::Error`, carried through unchanged.
#[verifier::external_type_specification]
#[verifier::external_body]
pub struct ExTomlSerError(toml::ser::Error);

/// Why a configuration could not be read, written or accepted.
#[derive(Debug)]
pub enum ConfigError {
    Io(std::io::Error),
    TomlParse(toml::de::Error),
    TomlSerialize(toml::ser::Error),
    Validation(String),
}

/// Calls `<std::io::Error as Display>::fmt` through `to_string`.
#[verifier::external_body]
fn io_error_text(e: &std::io::Error) -> String {
    e.to_string()
}

/// Calls `<toml::de::Error as Display>::fmt` through `to_string`.
#[verifier::external_body]
fn toml_de_error_text(e: &toml::de::Error) -> String {
    e.to_string()
}

/// Calls `<toml::ser::Error as Display>::fmt` through `to_string`.
#[verifier::external_body]
fn toml_ser_error_text(e: &toml::ser::Error) -> String {
    e.to_string()
}

fn prefixed(prefix: &str, text: String) -> (s: String)
    ensures
        s@ == prefix@ + text@,
{
    let mut s = String::from_str(prefix);
    s.append(text.as_str());
    s
}

impl ConfigError {
    /// The human-readable description of the error.
    pub fn message(&self) -> (s: String)
        ensures
            self matches ConfigError::Validation(m) ==> s@ == "Validation error: "@ + m@,
            self is Io ==> exists|t: Seq<char>| s@ == "Failed to read config file: "@ + t,
            self is TomlParse ==> exists|t: Seq<char>| s@ == "Failed to parse config: "@ + t,
            self is TomlSerialize ==> exists|t: Seq<char>| s@ == "Failed to serialize config: "@ + t,
    {
        match self {
            ConfigError::Io(e) => prefixed("Failed to read config file: ", io_error_text(e)),
            ConfigError::TomlParse(e) => prefixed("Failed to parse config: ", toml_de_error_text(e)),
            ConfigError::TomlSerialize(e) => prefixed("Failed to serialize config: ", toml_ser_error_text(e)),
            ConfigError::Validation(m) => prefixed("Validation error: ", m.clone()),
        }
    }
}

// ───────────────────────── the document ─────────────────────────

/// A single slot entry in the `[[slot]]` TOML format.
#[derive(Debug)]
pub struct SlotEntry {
    pub id: u32,
    pub slot_id: u64,
    pub name: String,
    pub level: u32,
    pub xp: u32,
}

/// The mathematical content of a [`SlotEntry`].
pub struct SlotEntryView {
    pub id: u32,
    pub slot_id: u64,
    pub name: Seq<char>,
    pub level: u32,
    pub xp: u32,
}

impl View for SlotEntry {
    type V = SlotEntryView;

    open spec fn view(&self) -> SlotEntryView {
        SlotEntryView { id: self.id, slot_id: self.slot_id, name: self.name@, level: self.level, xp: self.xp }
    }
}

impl Clone for SlotEntry {
    fn clone(&self) -> (r: Self)
        ensures
            r@ == self@,
    {
        SlotEntry { id: self.id, slot_id: self.slot_id, name: self.name.clone(), level: self.level, xp: self.xp }
    }
}

/// The `[display]` table.
#[derive(Debug, Clone, Copy)]
pub struct DisplayConfig {
    pub scale: u32,
}

/// Scale multiplier used when the document gives none.
pub fn default_scale() -> (s: u32)
    ensures
        s == 3,
{
    3
}

impl Default for DisplayConfig {
    fn default() -> (d: Self)
        ensures
            d.scale == 3,
    {
        DisplayConfig { scale: default_scale() }
    }
}

/// The legacy `[roster]` table: creature names or IDs.
#[derive(Debug)]
pub struct RosterConfig {
    pub creatures: Vec<String>,
}

/// The names a `[roster]` table holds.
pub open spec fn string_views(v: Seq<String>) -> Seq<Seq<char>> {
    v.map_values(|s: String| s@)
}

/// The starting roster used when the document gives none.
pub fn default_creatures() -> (v: Vec<String>)
    ensures
        string_views(v@) == seq!["bulbasaur"@, "charmander"@, "squirtle"@],
{
    let mut v: Vec<String> = Vec::new();
    v.push(String::from_str("bulbasaur"));
    v.push(String::from_str("charmander"));
    v.push(String::from_str("squirtle"));
    assert(string_views(v@) =~= seq!["bulbasaur"@, "charmander"@, "squirtle"@]);
    v
}

impl Default for RosterConfig {
    fn default() -> (r: Self)
        ensures
            string_views(r.creatures@) == seq!["bulbasaur"@, "charmander"@, "squirtle"@],
    {
        RosterConfig { creatures: default_creatures() }
    }
}

/// The parsed TOML document.
#[derive(Debug)]
pub struct TomlConfig {
    pub display: DisplayConfig,
    pub roster: RosterConfig,
    /// New-format slot entries. When non-empty, these take precedence over
    /// `roster.creatures`.
    pub slot: Vec<SlotEntry>,
}

/// The mathematical content of a [`TomlConfig`].
pub struct TomlConfigView {
    pub scale: u32,
    pub creatures: Seq<Seq<char>>,
    pub slots: Seq<SlotEntryView>,
}

impl View for TomlConfig {
    type V = TomlConfigView;

    open spec fn view(&self) -> TomlConfigView {
        TomlConfigView {
            scale: self.display.scale,
            creatures: string_views(self.roster.creatures@),
            slots: self.slot@.map_values(|e: SlotEntry| e@),
        }
    }
}

impl Default for TomlConfig {
    fn default() -> (t: Self)
        ensures
            t@.scale == 3,
            t@.creatures == seq!["bulbasaur"@, "charmander"@, "squirtle"@],
            t@.slots.len() == 0,
    {
        let t = TomlConfig { display: DisplayConfig::default(), roster: RosterConfig::default(), slot: Vec::new() };
        assert(t@.slots =~= Seq::<SlotEntryView>::empty());
        t
    }
}

// ───────────────────────── the resolved configuration ─────────────────────────

/// A slot in the resolved game roster, carrying persistence fields.
#[derive(Debug)]
pub struct RosterSlot {
    pub creature_id: u32,
    pub name: String,
    pub slot_id: u64,
    pub level: u32,
    pub xp: u32,
}

impl Clone for RosterSlot {
    fn clone(&self) -> (r: Self)
        ensures
            r.creature_id == self.creature_id,
            r.name@ == self.name@,
            r.slot_id == self.slot_id,
            r.level == self.level,
            r.xp == self.xp,
    {
        RosterSlot {
            creature_id: self.creature_id,
            name: self.name.clone(),
            slot_id: self.slot_id,
            level: self.level,
            xp: self.xp,
        }
    }
}

/// Resolved game config with validated creature IDs.
#[derive(Debug)]
pub struct GameConfig {
    pub scale: u32,
    /// Active roster entries.
    pub roster: Vec<RosterSlot>,
}

/// What the configuration says of one roster slot. A `slot_id` of 0 stands
/// for an identifier drawn at random when the configuration is built.
pub struct ResolvedSlot {
    pub creature_id: u32,
    pub name: Seq<char>,
    pub slot_id: u64,
    pub level: u32,
    pub xp: u32,
}

/// Whether a built roster slot is what the configuration resolved.
pub open spec fn slot_matches(s: RosterSlot, r: ResolvedSlot) -> bool {
    &&& s.creature_id == r.creature_id
    &&& s.name@ == r.name
    &&& s.level == r.level
    &&& s.xp == r.xp
    &&& r.slot_id != 0 ==> s.slot_id == r.slot_id
}

/// Whether a built roster is what the configuration resolved, slot by slot.
pub open spec fn roster_matches(roster: Seq<RosterSlot>, resolved: Seq<ResolvedSlot>) -> bool {
    &&& roster.len() == resolved.len()
    &&& forall|i: int| 0 <= i < roster.len() ==> slot_matches(#[trigger] roster[i], resolved[i])
}

pub open spec fn max_roster_message() -> Seq<char> {
    "Maximum 6 creatures allowed in roster"@
}

pub open spec fn empty_roster_message() -> Seq<char> {
    "Roster must contain at least one creature"@
}

pub open spec fn unknown_id_message(id: u32) -> Seq<char> {
    "Unknown creature ID: "@ + decimal(id as nat)
}

pub open spec fn unknown_name_message(entry: Seq<char>) -> Seq<char> {
    "Unknown creature: '"@ + entry + "'"@
}

/// A fresh slot (level 1, no XP, random ID) for a roster entry.
pub open spec fn fresh_slot(c: (u32, Seq<char>)) -> ResolvedSlot {
    ResolvedSlot { creature_id: c.0, name: c.1, slot_id: 0, level: 1, xp: 0 }
}

/// One `[[slot]]` entry: its creature must exist; a zero level reads as 1.
pub open spec fn resolve_slot_entry(e: SlotEntryView) -> Result<ResolvedSlot, Seq<char>> {
    match roster_lookup_id(e.id) {
        Some(c) => Ok(ResolvedSlot {
            creature_id: c.0,
            name: c.1,
            slot_id: e.slot_id,
            level: if e.level == 0 { 1 } else { e.level },
            xp: e.xp,
        }),
        None => Err(unknown_id_message(e.id)),
    }
}

/// One legacy roster entry: a number names a Dex ID, anything else a name.
pub open spec fn resolve_name_entry(s: Seq<char>) -> Result<ResolvedSlot, Seq<char>> {
    match parse_u32(s) {
        Some(id) => match roster_lookup_id(id) {
            Some(c) => Ok(fresh_slot(c)),
            None => Err(unknown_id_message(id)),
        },
        None => match roster_lookup_name(s) {
            Some(c) => Ok(fresh_slot(c)),
            None => Err(unknown_name_message(s)),
        },
    }
}

/// All `[[slot]]` entries resolved in order, or the first entry's error.
pub open spec fn resolve_slot_entries(s: Seq<SlotEntryView>) -> Result<Seq<ResolvedSlot>, Seq<char>>
    decreases s.len(),
{
    if s.len() == 0 {
        Ok(seq![])
    } else {
        match resolve_slot_entries(s.drop_last()) {
            Err(m) => Err(m),
            Ok(prefix) => match resolve_slot_entry(s.last()) {
                Ok(x) => Ok(prefix.push(x)),
                Err(m) => Err(m),
            },
        }
    }
}

/// All legacy roster entries resolved in order, or the first entry's error.
pub open spec fn resolve_name_entries(s: Seq<Seq<char>>) -> Result<Seq<ResolvedSlot>, Seq<char>>
    decreases s.len(),
{
    if s.len() == 0 {
        Ok(seq![])
    } else {
        match resolve_name_entries(s.drop_last()) {
            Err(m) => Err(m),
            Ok(prefix) => match resolve_name_entry(s.last()) {
                Ok(x) => Ok(prefix.push(x)),
                Err(m) => Err(m),
            },
        }
    }
}

/// The roster a document describes, or the validation message it fails with.
/// `[[slot]]` entries, when present, take precedence over `[roster]`.
pub open spec fn resolve_toml(t: TomlConfigView) -> Result<Seq<ResolvedSlot>, Seq<char>> {
    if t.slots.len() > 0 {
        if t.slots.len() > 6 {
            Err(max_roster_message())
        } else {
            resolve_slot_entries(t.slots)
        }
    } else if t.creatures.len() > 6 {
        Err(max_roster_message())
    } else if t.creatures.len() == 0 {
        Err(empty_roster_message())
    } else {
        resolve_name_entries(t.creatures)
    }
}

/// Calls `rand::random::<u64>()`; the value comes from the thread-local
/// generator, so nothing is promised of it.
#[verifier::external_body]
fn random_slot_id() -> u64 {
    rand::random::<u64>()
}

fn unknown_id_error(id: u32) -> (e: ConfigError)
    ensures
        e matches ConfigError::Validation(m) && m@ == unknown_id_message(id),
{
    let digits = string_from_chars(&decimal_chars(id as u64));
    ConfigError::Validation(prefixed("Unknown creature ID: ", digits))
}

fn unknown_name_error(entry: &str) -> (e: ConfigError)
    ensures
        e matches ConfigError::Validation(m) && m@ == unknown_name_message(entry@),
{
    let mut m = String::from_str("Unknown creature: '");
    m.append(entry);
    m.append("'");
    ConfigError::Validation(m)
}

fn max_roster_error() -> (e: ConfigError)
    ensures
        e matches ConfigError::Validation(m) && m@ == max_roster_message(),
{
    ConfigError::Validation(String::from_str("Maximum 6 creatures allowed in roster"))
}

fn fresh_roster_slot(creature_id: u32, name: &'static str) -> (s: RosterSlot)
    ensures
        s.creature_id == creature_id,
        s.name@ == name@,
        s.level == 1,
        s.xp == 0,
{
    RosterSlot { creature_id, name: String::from_str(name), slot_id: random_slot_id(), level: 1, xp: 0 }
}

impl Default for GameConfig {
    /// Scale 3 and the five starter creatures, each at level 1 with no XP.
    fn default() -> (c: Self)
        ensures
            c.scale == 3,
            roster_matches(c.roster@, seq![
                fresh_slot((1u32, "Bulbasaur"@)),
                fresh_slot((4u32, "Charmander"@)),
                fresh_slot((7u32, "Squirtle"@)),
                fresh_slot((25u32, "Pikachu"@)),
                fresh_slot((133u32, "Eevee"@)),
            ]),
    {
        let mut roster: Vec<RosterSlot> = Vec::new();
        roster.push(fresh_roster_slot(1, "Bulbasaur"));
        roster.push(fresh_roster_slot(4, "Charmander"));
        roster.push(fresh_roster_slot(7, "Squirtle"));
        roster.push(fresh_roster_slot(25, "Pikachu"));
        roster.push(fresh_roster_slot(133, "Eevee"));
        GameConfig { scale: 3, roster }
    }
}

impl Clone for GameConfig {
    fn clone(&self) -> (r: Self)
        ensures
            r.scale == self.scale,
            r.roster@.len() == self.roster@.len(),
            forall|i: int| 0 <= i < r.roster@.len() ==> {
                let a = #[trigger] r.roster@[i];
                let b = self.roster@[i];
                a.creature_id == b.creature_id && a.name@ == b.name@ && a.slot_id == b.slot_id
                    && a.level == b.level && a.xp == b.xp
            },
    {
        let mut roster: Vec<RosterSlot> = Vec::new();
        let mut i: usize = 0;
        while i < self.roster.len()
            invariant
                i <= self.roster@.len(),
                roster@.len() == i,
                forall|k: int| 0 <= k < i ==> {
                    let a = #[trigger] roster@[k];
                    let b = self.roster@[k];
                    a.creature_id == b.creature_id && a.name@ == b.name@ && a.slot_id == b.slot_id
                        && a.level == b.level && a.xp == b.xp
                },
            decreases self.roster.len() - i,
        {
            roster.push(self.roster[i].clone());
            i = i + 1;
        }
        GameConfig { scale: self.scale, roster }
    }
}

impl GameConfig {
    /// Create a GameConfig from a single creature name (CLI override).
    pub fn from_creature_name(name: &str) -> (r: Result<Self, ConfigError>)
        ensures
            match r {
                Ok(c) => c.scale == 3 && (roster_lookup_name(name@) matches Some(d)
                    && roster_matches(c.roster@, seq![fresh_slot(d)])),
                Err(e) => roster_lookup_name(name@) is None
                    && (e matches ConfigError::Validation(m) && m@ == unknown_name_message(name@)),
            },
    {
        match find_by_name(name) {
            None => Err(unknown_name_error(name)),
            Some(c) => {
                let mut roster: Vec<RosterSlot> = Vec::new();
                roster.push(fresh_roster_slot(c.id, c.name));
                Ok(GameConfig { scale: 3, roster })
            },
        }
    }

    /// Convert a parsed TOML config into a validated GameConfig.
    ///
    /// `[[slot]]` entries take precedence; each must name a known Dex ID, a
    /// level of 0 reads as 1, and a slot ID of 0 is replaced by a random one.
    /// Otherwise `[roster].creatures` lists names or IDs, each getting a fresh
    /// random slot ID at level 1. Either list may hold at most six creatures,
    /// and the legacy list at least one.
    pub fn from_toml(toml: TomlConfig) -> (r: Result<Self, ConfigError>)
        ensures
            match r {
                Ok(c) => c.scale == toml@.scale && (resolve_toml(toml@) matches Ok(slots)
                    && roster_matches(c.roster@, slots)),
                Err(e) => resolve_toml(toml@) matches Err(msg)
                    && e matches ConfigError::Validation(m) && m@ == msg,
            },
    {
        let ghost tv = toml@;
        let scale = toml.display.scale;
        let mut roster: Vec<RosterSlot> = Vec::new();
        if toml.slot.len() > 0 {
            if toml.slot.len() > MAX_ACTIVE_CREATURES {
                return Err(max_roster_error());
            }
            let mut i: usize = 0;
            while i < toml.slot.len()
                invariant
                    tv == toml@,
                    0 < tv.slots.len() <= 6,
                    i <= tv.slots.len(),
                    resolve_slot_entries(tv.slots.take(i as int)) matches Ok(slots)
                        && roster_matches(roster@, slots),
                decreases toml.slot.len() - i,
            {
                let entry = &toml.slot[i];
                let ghost prefix = resolve_slot_entries(tv.slots.take(i as int))->Ok_0;
                assert(tv.slots.take(i as int + 1).drop_last() =~= tv.slots.take(i as int));
                assert(tv.slots.take(i as int + 1).last() == entry@);
                match find_by_id(entry.id) {
                    None => {
                        proof {
                            lemma_slot_entries_error_persists(tv.slots, i as int + 1);
                            assert(tv.slots.take(tv.slots.len() as int) =~= tv.slots);
                        }
                        return Err(unknown_id_error(entry.id));
                    },
                    Some(c) => {
                        let slot_id = if entry.slot_id == 0 { random_slot_id() } else { entry.slot_id };
                        let level = if entry.level == 0 { 1 } else { entry.level };
                        let ghost before = roster@;
                        roster.push(RosterSlot {
                            creature_id: c.id,
                            name: String::from_str(c.name),
                            slot_id,
                            level,
                            xp: entry.xp,
                        });
                        proof {
                            let now = resolve_slot_entries(tv.slots.take(i as int + 1))->Ok_0;
                            assert(now == prefix.push(resolve_slot_entry(entry@)->Ok_0));
                            assert forall|k: int| 0 <= k < roster@.len() implies slot_matches(
                                #[trigger] roster@[k],
                                now[k],
                            ) by {
                                if k < before.len() {
                                    assert(roster@[k] == before[k]);
                                }
                            }
                        }
                    },
                }
                i = i + 1;
            }
            assert(tv.slots.take(tv.slots.len() as int) =~= tv.slots);
            return Ok(GameConfig { scale, roster });
        }
        let creatures = &toml.roster.creatures;
        if creatures.len() > MAX_ACTIVE_CREATURES {
            return Err(max_roster_error());
        }
        if creatures.len() == 0 {
            return Err(ConfigError::Validation(String::from_str("Roster must contain at least one creature")));
        }
        let mut i: usize = 0;
        while i < creatures.len()
            invariant
                tv == toml@,
                tv.slots.len() == 0,
                creatures == &toml.roster.creatures,
                0 < tv.creatures.len() <= 6,
                i <= tv.creatures.len(),
                resolve_name_entries(tv.creatures.take(i as int)) matches Ok(slots)
                    && roster_matches(roster@, slots),
            decreases creatures.len() - i,
        {
            let entry: &String = &creatures[i];
            let ghost prefix = resolve_name_entries(tv.creatures.take(i as int))->Ok_0;
            assert(tv.creatures.take(i as int + 1).drop_last() =~= tv.creatures.take(i as int));
            assert(tv.creatures.take(i as int + 1).last() == entry@);
            let chars = chars_of(entry.as_str());
            assert(chars@.subrange(0, chars@.len() as int) =~= entry@);
            let found = match parse_u32_range(&chars, 0, chars.len()) {
                Some(id) => match find_by_id(id) {
                    Some(c) => c,
                    None => {
                        proof {
                            lemma_name_entries_error_persists(tv.creatures, i as int + 1);
                            assert(tv.creatures.take(tv.creatures.len() as int) =~= tv.creatures);
                        }
                        return Err(unknown_id_error(id));
                    },
                },
                None => match find_by_name(entry.as_str()) {
                    Some(c) => c,
                    None => {
                        proof {
                            lemma_name_entries_error_persists(tv.creatures, i as int + 1);
                            assert(tv.creatures.take(tv.creatures.len() as int) =~= tv.creatures);
                        }
                        return Err(unknown_name_error(entry.as_str()));
                    },
                },
            };
            let ghost before = roster@;
            roster.push(fresh_roster_slot(found.id, found.name));
            proof {
                let now = resolve_name_entries(tv.creatures.take(i as int + 1))->Ok_0;
                assert(now == prefix.push(resolve_name_entry(entry@)->Ok_0));
                assert forall|k: int| 0 <= k < roster@.len() implies slot_matches(#[trigger] roster@[k], now[k]) by {
                    if k < before.len() {
                        assert(roster@[k] == before[k]);
                    }
                }
            }
            i = i + 1;
        }
        assert(tv.creatures.take(tv.creatures.len() as int) =~= tv.creatures);
        Ok(GameConfig { scale, roster })
    }
}

proof fn lemma_slot_entries_error_persists(s: Seq<SlotEntryView>, i: int)
    requires
        0 <= i <= s.len(),
        resolve_slot_entries(s.take(i)) is Err,
    ensures
        resolve_slot_entries(s.take(s.len() as int)) == resolve_slot_entries(s.take(i)),
    decreases s.len() - i,
{
    if i < s.len() {
        assert(s.take(i + 1).drop_last() =~= s.take(i));
        lemma_slot_entries_error_persists(s, i + 1);
    }
}

proof fn lemma_name_entries_error_persists(s: Seq<Seq<char>>, i: int)
    requires
        0 <= i <= s.len(),
        resolve_name_entries(s.take(i)) is Err,
    ensures
        resolve_name_entries(s.take(s.len() as int)) == resolve_name_entries(s.take(i)),
    decreases s.len() - i,
{
    if i < s.len() {
        assert(s.take(i + 1).drop_last() =~= s.take(i));
        lemma_name_entries_error_persists(s, i + 1);
    }
}


// ───────────────────────── laws of resolution ─────────────────────────

proof fn lemma_slot_entries_len(s: Seq<SlotEntryView>)
    ensures
        resolve_slot_entries(s) matches Ok(r) ==> r.len() == s.len(),
    decreases s.len(),
{
    if s.len() > 0 {
        lemma_slot_entries_len(s.drop_last());
    }
}

proof fn lemma_name_entries_len(s: Seq<Seq<char>>)
    ensures
        resolve_name_entries(s) matches Ok(r) ==> r.len() == s.len(),
    decreases s.len(),
{
    if s.len() > 0 {
        lemma_name_entries_len(s.drop_last());
    }
}

/// A document that validates describes between one and six creatures.
pub proof fn law_resolved_roster_size(t: TomlConfigView)
    ensures
        resolve_toml(t) matches Ok(slots) ==> 1 <= slots.len() <= MAX_ACTIVE_CREATURES,
{
    lemma_slot_entries_len(t.slots);
    lemma_name_entries_len(t.creatures);
}

proof fn lemma_lookup_id_from_in_roster(id: u32, i: nat)
    ensures
        lookup_id_from(id, i) matches Some(c) ==> exists|k: int|
            0 <= k < roster_spec().len() && #[trigger] roster_spec()[k] == c,
    decreases roster_spec().len() - i,
{
    if i < roster_spec().len() && roster_spec()[i as int].0 != id {
        lemma_lookup_id_from_in_roster(id, i + 1);
    }
}

proof fn lemma_lookup_name_from_in_roster(name: Seq<char>, i: nat)
    ensures
        lookup_name_from(name, i) matches Some(c) ==> exists|k: int|
            0 <= k < roster_spec().len() && #[trigger] roster_spec()[k] == c,
    decreases roster_spec().len() - i,
{
    if i < roster_spec().len() && !roster_name_matches(i as int, name) {
        lemma_lookup_name_from_in_roster(name, i + 1);
    }
}

/// Whether a resolved slot names a built-in creature by its own ID and name.
pub open spec fn is_roster_creature(r: ResolvedSlot) -> bool {
    exists|k: int| 0 <= k < roster_spec().len() && #[trigger] roster_spec()[k] == (r.creature_id, r.name)
}

proof fn lemma_slot_entries_in_roster(s: Seq<SlotEntryView>)
    ensures
        resolve_slot_entries(s) matches Ok(r) ==> forall|i: int| 0 <= i < r.len() ==> is_roster_creature(#[trigger] r[i]),
    decreases s.len(),
{
    if s.len() > 0 {
        lemma_slot_entries_in_roster(s.drop_last());
        lemma_lookup_id_from_in_roster(s.last().id, 0);
    }
}

proof fn lemma_name_entries_in_roster(s: Seq<Seq<char>>)
    ensures
        resolve_name_entries(s) matches Ok(r) ==> forall|i: int| 0 <= i < r.len() ==> is_roster_creature(#[trigger] r[i]),
    decreases s.len(),
{
    if s.len() > 0 {
        lemma_name_entries_in_roster(s.drop_last());
        let last = s.last();
        if let Some(id) = parse_u32(last) {
            lemma_lookup_id_from_in_roster(id, 0);
        } else {
            lemma_lookup_name_from_in_roster(last, 0);
        }
    }
}

/// Every creature of a validated document is a built-in creature, carrying
/// the roster's own ID and display name.
pub proof fn law_resolved_creatures_known(t: TomlConfigView)
    ensures
        resolve_toml(t) matches Ok(slots) ==> forall|i: int| 0 <= i < slots.len() ==> is_roster_creature(#[trigger] slots[i]),
{
    lemma_slot_entries_in_roster(t.slots);
    lemma_name_entries_in_roster(t.creatures);
}


// ───────────────────────── saving and reading back ─────────────────────────

/// The `[[slot]]` entry that saving writes for a roster slot.
pub open spec fn saved_entry(r: ResolvedSlot) -> SlotEntryView {
    SlotEntryView { id: r.creature_id, slot_id: r.slot_id, name: r.name, level: r.level, xp: r.xp }
}

proof fn lemma_saved_entries_resolve(r: Seq<ResolvedSlot>)
    requires
        forall|i: int| 0 <= i < r.len() ==> is_roster_creature(#[trigger] r[i]) && r[i].level >= 1,
    ensures
        resolve_slot_entries(r.map_values(|x: ResolvedSlot| saved_entry(x))) == Ok::<Seq<ResolvedSlot>, Seq<char>>(r),
    decreases r.len(),
{
    let entries = r.map_values(|x: ResolvedSlot| saved_entry(x));
    if r.len() > 0 {
        let p = r.drop_last();
        assert(entries.drop_last() =~= p.map_values(|x: ResolvedSlot| saved_entry(x)));
        lemma_saved_entries_resolve(p);
        let last = r.last();
        assert(is_roster_creature(r[r.len() - 1]));
        let k = choose|k: int| 0 <= k < roster_spec().len() && #[trigger] roster_spec()[k] == (last.creature_id, last.name);
        law_lookup_id_of_roster_entry(k);
        assert(entries.last() == saved_entry(last));
        assert(p.push(last) =~= r);
    } else {
        assert(r =~= Seq::<ResolvedSlot>::empty());
    }
}

/// A roster that validated reads back as itself once saved: the
/// `[[slot]]` entries written for its slots resolve to the same creatures,
/// names, slot IDs, levels and experience, whatever the rest of the
/// document holds.
pub proof fn law_saved_roster_reads_back(r: Seq<ResolvedSlot>, scale: u32, creatures: Seq<Seq<char>>)
    requires
        1 <= r.len() <= MAX_ACTIVE_CREATURES,
        forall|i: int| 0 <= i < r.len() ==> is_roster_creature(#[trigger] r[i]) && r[i].level >= 1,
    ensures
        resolve_toml(
            TomlConfigView { scale, creatures, slots: r.map_values(|x: ResolvedSlot| saved_entry(x)) },
        ) == Ok::<Seq<ResolvedSlot>, Seq<char>>(r),
{
    lemma_saved_entries_resolve(r);
}

/// Every slot of a validated document has a level of at least 1.
pub proof fn law_resolved_levels_positive(t: TomlConfigView)
    ensures
        resolve_toml(t) matches Ok(slots) ==> forall|i: int| 0 <= i < slots.len() ==> (#[trigger] slots[i]).level >= 1,
{
    lemma_slot_entries_levels(t.slots);
    lemma_name_entries_levels(t.creatures);
}

proof fn lemma_slot_entries_levels(s: Seq<SlotEntryView>)
    ensures
        resolve_slot_entries(s) matches Ok(r) ==> forall|i: int| 0 <= i < r.len() ==> (#[trigger] r[i]).level >= 1,
    decreases s.len(),
{
    if s.len() > 0 {
        lemma_slot_entries_levels(s.drop_last());
    }
}

proof fn lemma_name_entries_levels(s: Seq<Seq<char>>)
    ensures
        resolve_name_entries(s) matches Ok(r) ==> forall|i: int| 0 <= i < r.len() ==> (#[trigger] r[i]).level >= 1,
    decreases s.len(),
{
    if s.len() > 0 {
        lemma_name_entries_levels(s.drop_last());
    }
}

/// Whether a legacy roster entry names a creature of the roster: by Dex ID
/// when it reads as a number, by name otherwise.
pub open spec fn name_entry_known(s: Seq<char>) -> bool {
    match parse_u32(s) {
        Some(id) => roster_lookup_id(id) is Some,
        None => roster_lookup_name(s) is Some,
    }
}

proof fn lemma_slot_entries_ok(s: Seq<SlotEntryView>)
    ensures
        resolve_slot_entries(s) is Ok <==> forall|i: int| 0 <= i < s.len() ==> roster_lookup_id(
            (#[trigger] s[i]).id,
        ) is Some,
    decreases s.len(),
{
    if s.len() > 0 {
        let init = s.drop_last();
        lemma_slot_entries_ok(init);
        if forall|i: int| 0 <= i < s.len() ==> roster_lookup_id((#[trigger] s[i]).id) is Some {
            assert forall|i: int| 0 <= i < init.len() implies roster_lookup_id((#[trigger] init[i]).id) is Some by {
                assert(init[i] == s[i]);
            }
            assert(roster_lookup_id(s[s.len() - 1].id) is Some);
        }
        if resolve_slot_entries(s) is Ok {
            assert forall|i: int| 0 <= i < s.len() implies roster_lookup_id((#[trigger] s[i]).id) is Some by {
                if i < init.len() {
                    assert(init[i] == s[i]);
                }
            }
        }
    }
}

proof fn lemma_name_entries_ok(s: Seq<Seq<char>>)
    ensures
        resolve_name_entries(s) is Ok <==> forall|i: int| 0 <= i < s.len() ==> name_entry_known(#[trigger] s[i]),
    decreases s.len(),
{
    if s.len() > 0 {
        let init = s.drop_last();
        lemma_name_entries_ok(init);
        if forall|i: int| 0 <= i < s.len() ==> name_entry_known(#[trigger] s[i]) {
            assert forall|i: int| 0 <= i < init.len() implies name_entry_known(#[trigger] init[i]) by {
                assert(init[i] == s[i]);
            }
            assert(name_entry_known(s[s.len() - 1]));
        }
        if resolve_name_entries(s) is Ok {
            assert forall|i: int| 0 <= i < s.len() implies name_entry_known(#[trigger] s[i]) by {
                if i < init.len() {
                    assert(init[i] == s[i]);
                }
            }
        }
    }
}

/// A document is accepted exactly when either its `[[slot]]` entries number
/// one to six and each names a Dex ID of the roster, or it has no
/// `[[slot]]` entry and its legacy roster lists one to six creatures, each
/// a Dex ID or a name of the roster.
pub proof fn law_accepted_documents(t: TomlConfigView)
    ensures
        resolve_toml(t) is Ok <==> {
            ||| {
                &&& 1 <= t.slots.len() <= MAX_ACTIVE_CREATURES
                &&& forall|i: int| 0 <= i < t.slots.len() ==> roster_lookup_id((#[trigger] t.slots[i]).id) is Some
            }
            ||| {
                &&& t.slots.len() == 0
                &&& 1 <= t.creatures.len() <= MAX_ACTIVE_CREATURES
                &&& forall|i: int| 0 <= i < t.creatures.len() ==> name_entry_known(#[trigger] t.creatures[i])
            }
        },
{
    lemma_slot_entries_ok(t.slots);
    lemma_name_entries_ok(t.creatures);
}

// ───────────────────────── saving ─────────────────────────

/// The `[[slot]]` section written for one entry.
pub open spec fn slot_section(e: SlotEntryView) -> Seq<char> {
    "\n[[slot]]\nid = "@ + decimal(e.id as nat) + "\nslot_id = "@ + decimal(e.slot_id as nat) + "\nname = \""@
        + e.name + "\"\nlevel = "@ + decimal(e.level as nat) + "\nxp = "@ + decimal(e.xp as nat) + "\n"@
}

pub open spec fn slot_sections(s: Seq<SlotEntryView>) -> Seq<char>
    decreases s.len(),
{
    if s.len() == 0 {
        seq![]
    } else {
        slot_sections(s.drop_last()) + slot_section(s.last())
    }
}

/// The saved document: the `[display]` table, then one `[[slot]]` per entry.
pub open spec fn save_text_spec(scale: u32, s: Seq<SlotEntryView>) -> Seq<char> {
    "[display]\nscale = "@ + decimal(scale as nat) + "\n"@ + slot_sections(s)
}

fn append_decimal(out: &mut String, n: u64)
    ensures
        final(out)@ == old(out)@ + decimal(n as nat),
{
    let digits = string_from_chars(&decimal_chars(n));
    out.append(digits.as_str());
}

impl GameConfig {
    /// The TOML text that saving the roster writes: a `[display]` table with
    /// the scale, then one `[[slot]]` table per entry, in order.
    /// Names are written between double quotes as they are.
    pub fn save_text(scale: u32, entries: &[SlotEntry]) -> (s: String)
        ensures
            s@ == save_text_spec(scale, entries@.map_values(|e: SlotEntry| e@)),
    {
        let ghost views = entries@.map_values(|e: SlotEntry| e@);
        let mut out = String::from_str("[display]\nscale = ");
        append_decimal(&mut out, scale as u64);
        out.append("\n");
        let ghost head = out@;
        assert(head == "[display]\nscale = "@ + decimal(scale as nat) + "\n"@);
        let mut i: usize = 0;
        while i < entries.len()
            invariant
                i <= entries@.len(),
                views == entries@.map_values(|e: SlotEntry| e@),
                out@ == head + slot_sections(views.take(i as int)),
            decreases entries.len() - i,
        {
            let e = &entries[i];
            let ghost before = out@;
            out.append("\n[[slot]]\nid = ");
            append_decimal(&mut out, e.id as u64);
            out.append("\nslot_id = ");
            append_decimal(&mut out, e.slot_id);
            out.append("\nname = \"");
            out.append(e.name.as_str());
            out.append("\"\nlevel = ");
            append_decimal(&mut out, e.level as u64);
            out.append("\nxp = ");
            append_decimal(&mut out, e.xp as u64);
            out.append("\n");
            proof {
                assert(views.take(i as int + 1).drop_last() =~= views.take(i as int));
                assert(views.take(i as int + 1).last() == e@);
                assert(out@ =~= before + slot_section(e@));
            }
            i = i + 1;
        }
        assert(views.take(entries@.len() as int) =~= views);
        out
    }
}

} // verus!
