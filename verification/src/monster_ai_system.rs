use vstd::prelude::*;
use crate::components::Position;
use crate::world::World;

verus! {

/// True when entity `e` reacts to the player this pass: it has a viewshed,
/// the monster tag and a name, and the published player position lies in
/// its currently visible set.
pub open spec fn sees_player(w: World, e: int, player_pos: Position) -> bool {
    &&& w.viewsheds@[e] matches Some(vs) && vs.visible_tiles@.contains(player_pos)
    &&& w.monsters@[e]
    &&& w.names@[e] is Some
}

/// The actor pass. It runs after the visibility pass, so it observes this
/// frame's visibility, and it is a pure observation: it creates, destroys
/// and moves nothing, and only reports which monsters currently see the
/// player so the caller can emit their taunts.
pub struct MonsterAI {}

impl MonsterAI {
    /// Returns the identifiers, in ascending order, of exactly those
    /// entities that see the player.
    pub fn run(world: &World, player_pos: Position) -> (shouts: Vec<usize>)
        requires
            world.wf(),
        ensures
            forall|k: int| 0 <= k < shouts@.len()
                ==> (#[trigger] shouts@[k]) < world.n_entities(),
            forall|e: int| 0 <= e < world.n_entities()
                ==> (shouts@.contains(e as usize) <==> sees_player(*world, e, player_pos)),
            forall|k1: int, k2: int| 0 <= k1 < k2 < shouts@.len()
                ==> #[trigger] shouts@[k1] < #[trigger] shouts@[k2],
    {
        let mut shouts: Vec<usize> = Vec::new();
        let n = world.len();
        let mut e: usize = 0;
        while e < n
            invariant
                world.wf(),
                n == world.n_entities(),
                e <= n,
                forall|k: int| 0 <= k < shouts@.len() ==> (#[trigger] shouts@[k]) < e,
                forall|e2: int| 0 <= e2 < e
                    ==> (shouts@.contains(e2 as usize) <==> sees_player(*world, e2, player_pos)),
                forall|k1: int, k2: int| 0 <= k1 < k2 < shouts@.len()
                    ==> #[trigger] shouts@[k1] < #[trigger] shouts@[k2],
            decreases n - e,
        {
            let ghost shouts0 = shouts@;
            let sees = match &world.viewsheds[e] {
                Some(vs) => world.monsters[e] && world.names[e].is_some()
                    && contains_position(&vs.visible_tiles, player_pos),
                None => false,
            };
            if sees {
                shouts.push(e);
            }
            e += 1;
            proof {
                assert forall|e2: int| 0 <= e2 < e
                    implies (shouts@.contains(e2 as usize)
                        <==> sees_player(*world, e2, player_pos)) by {
                    if e2 == e - 1 {
                        if sees {
                            assert(shouts@[shouts@.len() - 1] == e2 as usize);
                            assert(shouts@.contains(e2 as usize));
                        } else {
                            if shouts@.contains(e2 as usize) {
                                let k = choose|k: int| 0 <= k < shouts@.len()
                                    && shouts@[k] == e2 as usize;
                                assert(shouts0[k] == e2 as usize);
                                assert(shouts0.contains(e2 as usize));
                            }
                        }
                    } else {
                        if shouts0.contains(e2 as usize) {
                            let k = choose|k: int| 0 <= k < shouts0.len()
                                && shouts0[k] == e2 as usize;
                            assert(shouts@[k] == e2 as usize);
                            assert(shouts@.contains(e2 as usize));
                        }
                        if shouts@.contains(e2 as usize) {
                            let k = choose|k: int| 0 <= k < shouts@.len()
                                && shouts@[k] == e2 as usize;
                            if k < shouts0.len() {
                                assert(shouts0.contains(e2 as usize));
                            }
                        }
                    }
                }
            }
        }
        shouts
    }
}

/// Linear membership test over a stored visible set.
fn contains_position(v: &Vec<Position>, p: Position) -> (r: bool)
    ensures
        r == v@.contains(p),
{
    let mut j: usize = 0;
    let mut found = false;
    while j < v.len()
        invariant
            j <= v@.len(),
            found <==> exists|k: int| 0 <= k < j && v@[k] == p,
        decreases v@.len() - j,
    {
        if v[j].x == p.x && v[j].y == p.y {
            proof {
                assert(v@[j as int] == p);
            }
            found = true;
        }
        j += 1;
    }
    found
}

} // verus!
