//! Known eye positions of roster creatures, used by the closed-eye effect.
use vstd::prelude::*;

verus! {

/// A detected/known eye region.
#[derive(Debug, Clone, Copy)]
pub struct EyeRegion {
    pub cx: u32,
    pub cy: u32,
    pub radius: u32,
}

impl EyeRegion {
    pub open spec fn view(self) -> (u32, u32, u32) {
        (self.cx, self.cy, self.radius)
    }
}

/// Calibrated `(cx, cy, radius)` eye regions per National Dex ID.
pub open spec fn eye_regions_spec(creature_id: u32) -> Seq<(u32, u32, u32)> {
    if creature_id == 1 {
        seq![(188u32, 258u32, 14u32), (268u32, 248u32, 14u32)]
    } else if creature_id == 4 {
        seq![(168u32, 128u32, 12u32), (228u32, 118u32, 12u32)]
    } else if creature_id == 7 {
        seq![(170u32, 100u32, 15u32), (230u32, 100u32, 15u32)]
    } else if creature_id == 25 {
        seq![(140u32, 165u32, 10u32), (194u32, 158u32, 10u32)]
    } else if creature_id == 133 {
        seq![(128u32, 200u32, 14u32), (212u32, 212u32, 14u32)]
    } else {
        seq![]
    }
}

fn pair(a: EyeRegion, b: EyeRegion) -> (v: Vec<EyeRegion>)
    ensures
        v@ == seq![a, b],
{
    let mut v: Vec<EyeRegion> = Vec::new();
    v.push(a);
    v.push(b);
    assert(v@ =~= seq![a, b]);
    v
}

/// Get eye positions for a creature by ID.
///
/// For the five starter creatures, eye positions are manually calibrated against
/// the PokeAPI official-artwork sprites (475x475). Programmatic detection
/// on stylized artwork is unreliable (shading, ears, markings all create
/// false positives), so we use known positions for supported creatures.
///
/// Returns an empty vec for other creatures (the sleeping animation still
/// works, just without the closed-eye effect).
pub fn get_eye_regions(creature_id: u32) -> (r: Vec<EyeRegion>)
    ensures
        r@.len() == eye_regions_spec(creature_id).len(),
        forall|i: int| 0 <= i < r@.len() ==> (#[trigger] r@[i]).view() == eye_regions_spec(creature_id)[i],
{
    match creature_id {
        // Bulbasaur: large red eyes, slight head tilt
        1 => pair(EyeRegion { cx: 188, cy: 258, radius: 14 }, EyeRegion { cx: 268, cy: 248, radius: 14 }),
        // Charmander: rounded eyes, slight head tilt
        4 => pair(EyeRegion { cx: 168, cy: 128, radius: 12 }, EyeRegion { cx: 228, cy: 118, radius: 12 }),
        // Squirtle: large reddish-brown eyes, three-quarter view
        7 => pair(EyeRegion { cx: 170, cy: 100, radius: 15 }, EyeRegion { cx: 230, cy: 100, radius: 15 }),
        // Pikachu: small dark oval eyes
        25 => pair(EyeRegion { cx: 140, cy: 165, radius: 10 }, EyeRegion { cx: 194, cy: 158, radius: 10 }),
        // Eevee: large round brown eyes
        133 => pair(EyeRegion { cx: 128, cy: 200, radius: 14 }, EyeRegion { cx: 212, cy: 212, radius: 14 }),
        _ => Vec::new(),
    }
}

} // verus!
