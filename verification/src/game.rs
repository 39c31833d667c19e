//! The text-art pet game's state: its animals, and the decisions of each
//! key press and tick. Drawing and the frame loop belong to the terminal side.
use crate::animal::{frame_count, kind_code, Animal, AnimalState};
use vstd::prelude::*;

verus! {

/// How one animal starts: its name, kind and screen position.
#[derive(Debug)]
pub struct AnimalConfig {
    pub name: String,
    pub kind: String,
    pub position: (u16, u16),
}

/// The game's state.
pub struct Game {
    configs: Vec<AnimalConfig>,
    animals: Vec<Animal>,
    running: bool,
    paused: bool,
}

/// Whether `a` is the animal that `c` starts as.
pub open spec fn fresh_from(a: Animal, c: AnimalConfig) -> bool {
    &&& a.name@ == c.name@
    &&& a.kind@ == c.kind@
    &&& a.position == c.position
    &&& a.frame == 0
    &&& a.state == AnimalState::Idle
    &&& a.animation_timer == 0
}

/// Every animal shows a frame that its animation has.
pub open spec fn frames_valid(animals: Seq<Animal>) -> bool {
    forall|i: int| 0 <= i < animals.len() ==> (#[trigger] animals[i]).frame < frame_count(kind_code(animals[i].kind@))
}

impl Game {
    pub closed spec fn spec_configs(&self) -> Seq<AnimalConfig> {
        self.configs@
    }

    pub closed spec fn spec_animals(&self) -> Seq<Animal> {
        self.animals@
    }

    pub closed spec fn is_running(&self) -> bool {
        self.running
    }

    pub closed spec fn is_paused(&self) -> bool {
        self.paused
    }

    #[verifier::type_invariant]
    closed spec fn frames_in_range(&self) -> bool {
        frames_valid(self.animals@)
    }

    fn fresh_animals(configs: &Vec<AnimalConfig>) -> (r: Vec<Animal>)
        ensures
            r@.len() == configs@.len(),
            forall|i: int| 0 <= i < r@.len() ==> fresh_from(#[trigger] r@[i], configs@[i]),
            frames_valid(r@),
    {
        let mut r: Vec<Animal> = Vec::new();
        let mut i: usize = 0;
        while i < configs.len()
            invariant
                i <= configs@.len(),
                r@.len() == i,
                forall|k: int| 0 <= k < i ==> fresh_from(#[trigger] r@[k], configs@[k]),
            decreases configs.len() - i,
        {
            let c = &configs[i];
            r.push(Animal::new(c.name.clone(), c.kind.clone(), c.position));
            i = i + 1;
        }
        r
    }

    /// A running, unpaused game with one fresh animal per configuration.
    pub fn new(configs: Vec<AnimalConfig>) -> (g: Self)
        ensures
            g.spec_configs() == configs@,
            g.spec_animals().len() == configs@.len(),
            forall|i: int| 0 <= i < g.spec_animals().len() ==> fresh_from(#[trigger] g.spec_animals()[i], configs@[i]),
            g.is_running(),
            !g.is_paused(),
    {
        let animals = Self::fresh_animals(&configs);
        Game { configs, animals, running: true, paused: false }
    }

    /// The animals, in configuration order.
    pub fn animals(&self) -> (a: &Vec<Animal>)
        ensures
            a@ == self.spec_animals(),
    {
        &self.animals
    }

    pub fn running(&self) -> (b: bool)
        ensures
            b == self.is_running(),
    {
        self.running
    }

    pub fn paused(&self) -> (b: bool)
        ensures
            b == self.is_paused(),
    {
        self.paused
    }

    /// React to a key: Q quits, P toggles the pause, R resets the animals;
    /// other keys change nothing.
    pub fn handle_key(&mut self, key: char)
        ensures
            (key == 'q' || key == 'Q') ==> !final(self).is_running() && final(self).is_paused() == old(self).is_paused()
                && final(self).spec_animals() == old(self).spec_animals(),
            (key == 'p' || key == 'P') ==> final(self).is_paused() == !old(self).is_paused()
                && final(self).is_running() == old(self).is_running()
                && final(self).spec_animals() == old(self).spec_animals(),
            (key == 'r' || key == 'R') ==> final(self).is_paused() == old(self).is_paused()
                && final(self).is_running() == old(self).is_running()
                && final(self).spec_animals().len() == old(self).spec_configs().len()
                && forall|i: int| 0 <= i < final(self).spec_animals().len() ==> fresh_from(
                    #[trigger] final(self).spec_animals()[i],
                    old(self).spec_configs()[i],
                ),
            !(key == 'q' || key == 'Q' || key == 'p' || key == 'P' || key == 'r' || key == 'R') ==> final(self).is_paused()
                == old(self).is_paused() && final(self).is_running() == old(self).is_running()
                && final(self).spec_animals() == old(self).spec_animals(),
            final(self).spec_configs() == old(self).spec_configs(),
    {
        proof {
            use_type_invariant(&*self);
        }
        if key == 'q' || key == 'Q' {
            self.running = false;
        } else if key == 'p' || key == 'P' {
            self.paused = !self.paused;
        } else if key == 'r' || key == 'R' {
            self.reset();
        }
    }

    /// Advance every animal one tick.
    pub fn update(&mut self)
        ensures
            final(self).spec_animals().len() == old(self).spec_animals().len(),
            forall|i: int| 0 <= i < final(self).spec_animals().len() ==> {
                let a = #[trigger] final(self).spec_animals()[i];
                let b = old(self).spec_animals()[i];
                &&& a.animation_timer == (b.animation_timer + 1) % 256
                &&& a.animation_timer % 10 == 0 ==> a.frame == (b.frame + 1) % (frame_count(kind_code(b.kind@)) as int)
                &&& a.animation_timer % 10 != 0 ==> a.frame == b.frame
                &&& a.animation_timer % 100 != 0 ==> a.state == b.state
                &&& a.name@ == b.name@ && a.kind@ == b.kind@ && a.position == b.position
            },
            final(self).spec_configs() == old(self).spec_configs(),
            final(self).is_running() == old(self).is_running(),
            final(self).is_paused() == old(self).is_paused(),
    {
        proof {
            use_type_invariant(&*self);
        }
        let mut animals: Vec<Animal> = Vec::new();
        std::mem::swap(&mut animals, &mut self.animals);
        let ghost before = animals@;
        let mut i: usize = 0;
        while i < animals.len()
            invariant
                i <= animals@.len(),
                animals@.len() == before.len(),
                frames_valid(animals@),
                forall|k: int| i <= k < animals@.len() ==> #[trigger] animals@[k] == before[k],
                forall|k: int| 0 <= k < i ==> {
                    let a = #[trigger] animals@[k];
                    let b = before[k];
                    &&& a.animation_timer == (b.animation_timer + 1) % 256
                    &&& a.animation_timer % 10 == 0 ==> a.frame == (b.frame + 1) % (frame_count(kind_code(b.kind@)) as int)
                    &&& a.animation_timer % 10 != 0 ==> a.frame == b.frame
                    &&& a.animation_timer % 100 != 0 ==> a.state == b.state
                    &&& a.name@ == b.name@ && a.kind@ == b.kind@ && a.position == b.position
                },
            decreases animals.len() - i,
        {
            let ghost prev = animals@;
            assert(prev[i as int].frame < frame_count(kind_code(prev[i as int].kind@)));
            animals[i].update();
            proof {
                assert forall|k: int| 0 <= k < animals@.len() && k != i implies #[trigger] animals@[k] == prev[k] by {}
                assert forall|k: int| 0 <= k < animals@.len() implies (#[trigger] animals@[k]).frame < frame_count(
                    kind_code(animals@[k].kind@),
                ) by {
                    if k != i {
                        assert(animals@[k] == prev[k]);
                    }
                }
            }
            i = i + 1;
        }
        self.animals = animals;
    }

    /// Put every animal back to how its configuration starts it.
    pub fn reset(&mut self)
        ensures
            final(self).spec_animals().len() == old(self).spec_configs().len(),
            forall|i: int| 0 <= i < final(self).spec_animals().len() ==> fresh_from(
                #[trigger] final(self).spec_animals()[i],
                old(self).spec_configs()[i],
            ),
            final(self).spec_configs() == old(self).spec_configs(),
            final(self).is_running() == old(self).is_running(),
            final(self).is_paused() == old(self).is_paused(),
    {
        let fresh = Self::fresh_animals(&self.configs);
        self.animals = fresh;
    }
}

} // verus!
