//! A simple animated pet drawn with text art, the earliest form of the
//! game: a named animal of some kind that cycles through its frames and
//! occasionally changes what it is doing.
use vstd::prelude::*;

verus! {

/// What an animal is doing.
#[derive(Debug, Clone, Copy, PartialEq, Eq, Structural)]
pub enum AnimalState {
    Idle,
    Sleeping,
    Playing,
    Walking,
}

/// A text-art pet.
#[derive(Debug)]
pub struct Animal {
    pub name: String,
    pub kind: String,
    pub position: (u16, u16),
    pub frame: usize,
    pub state: AnimalState,
    pub animation_timer: u8,
}

impl Clone for Animal {
    fn clone(&self) -> (r: Self)
        ensures
            r.name@ == self.name@,
            r.kind@ == self.kind@,
            r.position == self.position,
            r.frame == self.frame,
            r.state == self.state,
            r.animation_timer == self.animation_timer,
    {
        Animal {
            name: self.name.clone(),
            kind: self.kind.clone(),
            position: self.position,
            frame: self.frame,
            state: self.state,
            animation_timer: self.animation_timer,
        }
    }
}

/// The kind code of a kind name: 0 cat, 1 dog, 2 bird, 3 anything else.
pub open spec fn kind_code(kind: Seq<char>) -> nat {
    if kind == "cat"@ { 0 } else if kind == "dog"@ { 1 } else if kind == "bird"@ { 2 } else { 3 }
}

/// Frames per animation of a kind: two for known kinds, one otherwise.
pub open spec fn frame_count(kind: nat) -> nat {
    if kind < 3 { 2 } else { 1 }
}

/// The text lines of each frame.
pub open spec fn art_view(v: Seq<Vec<&'static str>>) -> Seq<Seq<Seq<char>>> {
    v.map_values(|f: Vec<&'static str>| f@.map_values(|l: &'static str| l@))
}

/// The art of each (kind, state): frames, each a list of text lines.
/// Kind codes are 0 cat, 1 dog, 2 bird, 3 anything else.
pub open spec fn sprite_art(kind: nat, state: AnimalState) -> Seq<Seq<Seq<char>>> {
    if kind == 0 && state == AnimalState::Idle {
        seq![
            seq![" ▄▄█▄▄ "@, "▐█⚬⚬█▌"@, " ▀▀▀▀▀ "@],
            seq![" ▄▄█▄▄ "@, "▐█⚬ᴥ⚬█▌"@, " ▀▀▀▀▀ "@],
        ]
    } else if kind == 0 && state == AnimalState::Sleeping {
        seq![
            seq!["  zzz   "@, " ▄▄█▄▄ "@, "▐█- -█▌"@, " ▀▀▀▀▀ "@],
            seq!["   zz   "@, " ▄▄█▄▄ "@, "▐█- -█▌"@, " ▀▀▀▀▀ "@],
        ]
    } else if kind == 0 && state == AnimalState::Playing {
        seq![
            seq![" ▄▄█▄▄ "@, "▐█⚬⚬█▌"@, "▐█▄▄▄█▌"@, " ▀▀▀▀▀ "@],
            seq![" ▄▄█▄▄ "@, "▐█ᴥᴥ█▌"@, "▐█▄▄▄█▌"@, " ▀▀▀▀▀ "@],
        ]
    } else if kind == 0 && state == AnimalState::Walking {
        seq![
            seq![" ▄▄█▄▄ "@, "▐█⚬⚬█▌"@, " ▀▀█▀▀ "@, "  ▀▀   "@],
            seq![" ▄▄█▄▄ "@, "▐█⚬⚬█▌"@, " ▀▀▀▀▀ "@, "  ▀▀   "@],
        ]
    } else if kind == 1 && state == AnimalState::Idle {
        seq![
            seq![" ▄▄▄█▄▄"@, "▐█⚬⚬⚬█▌"@, "▐█████▌"@, " ▀▀▀▀▀ "@],
            seq![" ▄▄▄█▄▄"@, "▐█⚬ᴥ⚬█▌"@, "▐█████▌"@, " ▀▀▀▀▀ "@],
        ]
    } else if kind == 1 && state == AnimalState::Sleeping {
        seq![
            seq!["  zzz   "@, " ▄▄▄█▄▄"@, "▐█- -█▌"@, "▐█████▌"@, " ▀▀▀▀▀ "@],
            seq!["   zz   "@, " ▄▄▄█▄▄"@, "▐█- -█▌"@, "▐█████▌"@, " ▀▀▀▀▀ "@],
        ]
    } else if kind == 1 && state == AnimalState::Playing {
        seq![
            seq![" ▄▄▄█▄▄"@, "▐█⚬⚬⚬█▌"@, "▐█▄▄▄█▌"@, " ▀▀▀▀▀ "@],
            seq![" ▄▄▄█▄▄"@, "▐█ᴥᴥᴥ█▌"@, "▐█▄▄▄█▌"@, " ▀▀▀▀▀ "@],
        ]
    } else if kind == 1 && state == AnimalState::Walking {
        seq![
            seq![" ▄▄▄█▄▄"@, "▐█⚬⚬⚬█▌"@, " ▀▀█▀▀ "@, "  ▀▀   "@],
            seq![" ▄▄▄█▄▄"@, "▐█⚬⚬⚬█▌"@, " ▀▀▀▀▀ "@, "  ▀▀   "@],
        ]
    } else if kind == 2 && state == AnimalState::Idle {
        seq![
            seq!["  ▄▄▄  "@, " ▐█⚬█▌"@, "▐█⚬⚬█▌"@, " ▀▀▀▀▀ "@],
            seq!["  ▄▄▄  "@, " ▐█⚬█▌"@, "▐█⚬⚬█▌"@, " ▀▀▀▀▀ "@],
        ]
    } else if kind == 2 && state == AnimalState::Sleeping {
        seq![
            seq!["   zz  "@, "  ▄▄▄  "@, " ▐█-█▌"@, "▐█- -█▌"@, " ▀▀▀▀▀ "@],
            seq!["    z  "@, "  ▄▄▄  "@, " ▐█-█▌"@, "▐█- -█▌"@, " ▀▀▀▀▀ "@],
        ]
    } else if kind == 2 && state == AnimalState::Playing {
        seq![
            seq!["  ▄▄▄  "@, " ▐█⚬█▌"@, "▐█⚬⚬█▌"@, "▐█▄▄▄█▌"@, " ▀▀▀▀▀ "@],
            seq!["  ▄▄▄  "@, " ▐█ᴥ█▌"@, "▐█ᴥᴥ█▌"@, "▐█▄▄▄█▌"@, " ▀▀▀▀▀ "@],
        ]
    } else if kind == 2 && state == AnimalState::Walking {
        seq![
            seq!["  ▄▄▄  "@, " ▐█⚬█▌"@, "▐█⚬⚬█▌"@, " ▀▀█▀▀ "@, "  ▀▀   "@],
            seq!["  ▄▄▄  "@, " ▐█⚬█▌"@, "▐█⚬⚬█▌"@, " ▀▀▀▀▀ "@, "  ▀▀   "@],
        ]
    } else {
        seq![
            seq![" ▄▄▄▄▄ "@, "▐█???█▌"@, "▐█???█▌"@, " ▀▀▀▀▀ "@],
        ]
    }
}

/// Every animation of a kind has `frame_count(kind)` frames, whatever the state.
pub proof fn law_art_frame_count(kind: nat, state: AnimalState)
    ensures
        sprite_art(kind, state).len() == frame_count(if kind < 3 { kind } else { 3 }),
{
}

/// The frames of a kind code and state, as text lines.
fn art(kind: u8, state: AnimalState) -> (r: Vec<Vec<&'static str>>)
    ensures
        art_view(r@) == sprite_art(kind as nat, state),
{
    let r = match (kind, state) {
        (0, AnimalState::Idle) => vec![
                vec![" ▄▄█▄▄ ", "▐█⚬⚬█▌", " ▀▀▀▀▀ "],
                vec![" ▄▄█▄▄ ", "▐█⚬ᴥ⚬█▌", " ▀▀▀▀▀ "],
            ],
        (0, AnimalState::Sleeping) => vec![
                vec!["  zzz   ", " ▄▄█▄▄ ", "▐█- -█▌", " ▀▀▀▀▀ "],
                vec!["   zz   ", " ▄▄█▄▄ ", "▐█- -█▌", " ▀▀▀▀▀ "],
            ],
        (0, AnimalState::Playing) => vec![
                vec![" ▄▄█▄▄ ", "▐█⚬⚬█▌", "▐█▄▄▄█▌", " ▀▀▀▀▀ "],
                vec![" ▄▄█▄▄ ", "▐█ᴥᴥ█▌", "▐█▄▄▄█▌", " ▀▀▀▀▀ "],
            ],
        (0, AnimalState::Walking) => vec![
                vec![" ▄▄█▄▄ ", "▐█⚬⚬█▌", " ▀▀█▀▀ ", "  ▀▀   "],
                vec![" ▄▄█▄▄ ", "▐█⚬⚬█▌", " ▀▀▀▀▀ ", "  ▀▀   "],
            ],
        (1, AnimalState::Idle) => vec![
                vec![" ▄▄▄█▄▄", "▐█⚬⚬⚬█▌", "▐█████▌", " ▀▀▀▀▀ "],
                vec![" ▄▄▄█▄▄", "▐█⚬ᴥ⚬█▌", "▐█████▌", " ▀▀▀▀▀ "],
            ],
        (1, AnimalState::Sleeping) => vec![
                vec!["  zzz   ", " ▄▄▄█▄▄", "▐█- -█▌", "▐█████▌", " ▀▀▀▀▀ "],
                vec!["   zz   ", " ▄▄▄█▄▄", "▐█- -█▌", "▐█████▌", " ▀▀▀▀▀ "],
            ],
        (1, AnimalState::Playing) => vec![
                vec![" ▄▄▄█▄▄", "▐█⚬⚬⚬█▌", "▐█▄▄▄█▌", " ▀▀▀▀▀ "],
                vec![" ▄▄▄█▄▄", "▐█ᴥᴥᴥ█▌", "▐█▄▄▄█▌", " ▀▀▀▀▀ "],
            ],
        (1, AnimalState::Walking) => vec![
                vec![" ▄▄▄█▄▄", "▐█⚬⚬⚬█▌", " ▀▀█▀▀ ", "  ▀▀   "],
                vec![" ▄▄▄█▄▄", "▐█⚬⚬⚬█▌", " ▀▀▀▀▀ ", "  ▀▀   "],
            ],
        (2, AnimalState::Idle) => vec![
                vec!["  ▄▄▄  ", " ▐█⚬█▌", "▐█⚬⚬█▌", " ▀▀▀▀▀ "],
                vec!["  ▄▄▄  ", " ▐█⚬█▌", "▐█⚬⚬█▌", " ▀▀▀▀▀ "],
            ],
        (2, AnimalState::Sleeping) => vec![
                vec!["   zz  ", "  ▄▄▄  ", " ▐█-█▌", "▐█- -█▌", " ▀▀▀▀▀ "],
                vec!["    z  ", "  ▄▄▄  ", " ▐█-█▌", "▐█- -█▌", " ▀▀▀▀▀ "],
            ],
        (2, AnimalState::Playing) => vec![
                vec!["  ▄▄▄  ", " ▐█⚬█▌", "▐█⚬⚬█▌", "▐█▄▄▄█▌", " ▀▀▀▀▀ "],
                vec!["  ▄▄▄  ", " ▐█ᴥ█▌", "▐█ᴥᴥ█▌", "▐█▄▄▄█▌", " ▀▀▀▀▀ "],
            ],
        (2, AnimalState::Walking) => vec![
                vec!["  ▄▄▄  ", " ▐█⚬█▌", "▐█⚬⚬█▌", " ▀▀█▀▀ ", "  ▀▀   "],
                vec!["  ▄▄▄  ", " ▐█⚬█▌", "▐█⚬⚬█▌", " ▀▀▀▀▀ ", "  ▀▀   "],
            ],
        _ => vec![
                vec![" ▄▄▄▄▄ ", "▐█???█▌", "▐█???█▌", " ▀▀▀▀▀ "],
            ],
    };
    assert(art_view(r@) =~~= sprite_art(kind as nat, state));
    r
}

fn kind_of(kind: &String) -> (k: u8)
    ensures
        k == kind_code(kind@),
{
    if *kind == String::from_str("cat") {
        0
    } else if *kind == String::from_str("dog") {
        1
    } else if *kind == String::from_str("bird") {
        2
    } else {
        3
    }
}

/// Calls `rand::random::<u8>()`; the value comes from the thread-local
/// generator, so nothing is promised of it.
#[verifier::external_body]
fn random_u8() -> u8 {
    rand::random::<u8>()
}

/// The state an animal picks from a random byte: its value modulo 4.
pub open spec fn state_for_roll(roll: u8) -> AnimalState {
    if roll % 4 == 0 {
        AnimalState::Idle
    } else if roll % 4 == 1 {
        AnimalState::Sleeping
    } else if roll % 4 == 2 {
        AnimalState::Playing
    } else {
        AnimalState::Walking
    }
}

/// The color a kind is drawn in.
pub open spec fn color_spec(kind: nat) -> (u8, u8, u8) {
    if kind == 0 {
        (255, 200, 100)
    } else if kind == 1 {
        (100, 150, 255)
    } else if kind == 2 {
        (255, 255, 100)
    } else {
        (200, 200, 200)
    }
}

impl Animal {
    /// A new animal, idle, on its first frame.
    pub fn new(name: String, kind: String, position: (u16, u16)) -> (a: Self)
        ensures
            a.name@ == name@,
            a.kind@ == kind@,
            a.position == position,
            a.frame == 0,
            a.state == AnimalState::Idle,
            a.animation_timer == 0,
    {
        Animal { name, kind, position, frame: 0, state: AnimalState::Idle, animation_timer: 0 }
    }

    /// Advance one tick: every 10th tick shows the next frame, and every
    /// 100th tick the animal picks a new state from a random byte
    /// (see `update_with_roll`).
    pub fn update(&mut self)
        requires
            ((old(self).animation_timer + 1) % 256) % 10 == 0 ==> old(self).frame < usize::MAX,
        ensures
            final(self).animation_timer % 100 != 0 ==> final(self).state == old(self).state,
            final(self).animation_timer == (old(self).animation_timer + 1) % 256,
            final(self).animation_timer % 10 == 0 ==> final(self).frame == (old(self).frame + 1) % (
            frame_count(kind_code(old(self).kind@)) as int),
            final(self).animation_timer % 10 != 0 ==> final(self).frame == old(self).frame,
            final(self).name@ == old(self).name@,
            final(self).kind@ == old(self).kind@,
            final(self).position == old(self).position,
            old(self).frame < frame_count(kind_code(old(self).kind@)) ==> final(self).frame < frame_count(
                kind_code(final(self).kind@),
            ),
    {
        let roll = random_u8();
        self.update_with_roll(roll);
    }

    /// Advance one tick with `roll` as the random byte: the timer counts up
    /// (wrapping at 256); every 10th tick shows the next frame of the current
    /// animation; every 100th tick the state becomes `state_for_roll(roll)`.
    pub fn update_with_roll(&mut self, roll: u8)
        requires
            ((old(self).animation_timer + 1) % 256) % 10 == 0 ==> old(self).frame < usize::MAX,
        ensures
            final(self).animation_timer == (old(self).animation_timer + 1) % 256,
            final(self).animation_timer % 10 == 0 ==> final(self).frame == (old(self).frame + 1) % (
            frame_count(kind_code(old(self).kind@)) as int),
            final(self).animation_timer % 10 != 0 ==> final(self).frame == old(self).frame,
            final(self).animation_timer % 100 == 0 ==> final(self).state == state_for_roll(roll),
            final(self).animation_timer % 100 != 0 ==> final(self).state == old(self).state,
            final(self).name@ == old(self).name@,
            final(self).kind@ == old(self).kind@,
            final(self).position == old(self).position,
            old(self).frame < frame_count(kind_code(old(self).kind@)) ==> final(self).frame < frame_count(
                kind_code(final(self).kind@),
            ),
    {
        self.animation_timer = self.animation_timer.wrapping_add(1);
        if self.animation_timer % 10 == 0 {
            let frames = self.get_sprite_frames();
            proof {
                law_art_frame_count(kind_code(self.kind@), self.state);
                assert(frames@.len() == art_view(frames@).len());
            }
            self.frame = (self.frame + 1) % frames.len();
        }
        if self.animation_timer % 100 == 0 {
            self.state = if roll % 4 == 0 {
                AnimalState::Idle
            } else if roll % 4 == 1 {
                AnimalState::Sleeping
            } else if roll % 4 == 2 {
                AnimalState::Playing
            } else {
                AnimalState::Walking
            };
        }
    }

    /// The text lines of the current frame.
    pub fn get_sprite(&self) -> (r: Vec<&'static str>)
        requires
            self.frame < frame_count(kind_code(self.kind@)),
        ensures
            r@.map_values(|l: &'static str| l@) == sprite_art(kind_code(self.kind@), self.state)[self.frame as int],
    {
        let mut frames = self.get_sprite_frames();
        proof {
            law_art_frame_count(kind_code(self.kind@), self.state);
            assert(frames@.len() == art_view(frames@).len());
            assert(art_view(frames@)[self.frame as int] == frames@[self.frame as int]@.map_values(|l: &'static str| l@));
        }
        frames.swap_remove(self.frame)
    }

    /// All frames of the animal's current animation.
    pub fn get_sprite_frames(&self) -> (r: Vec<Vec<&'static str>>)
        ensures
            art_view(r@) == sprite_art(kind_code(self.kind@), self.state),
    {
        art(kind_of(&self.kind), self.state)
    }

    /// The color the animal is drawn in.
    pub fn get_color(&self) -> (c: (u8, u8, u8))
        ensures
            c == color_spec(kind_code(self.kind@)),
    {
        match kind_of(&self.kind) {
            0 => (255, 200, 100),
            1 => (100, 150, 255),
            2 => (255, 255, 100),
            _ => (200, 200, 200),
        }
    }
}

} // verus!
