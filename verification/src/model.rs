//! What the state is and what a tick does to it, as mathematics.
//!
//! A tick runs four phases in a fixed order: movement, reload, spawn, flight.
//! Each phase is a function of the state before it and of the tick's inputs,
//! so replaying the same inputs from the same state gives the same state.
//! The executable state and its contracts speak of these functions.

use vstd::prelude::*;
use crate::arena::lemma_in_reach_within;
use crate::arena::Vec2;
use crate::arena::ARENA_LIMIT;
use crate::arena::BULLET_STEP;
use crate::arena::BULLET_STEP_DIAGONAL;
use crate::arena::PLAYER_STEP;
use crate::arena::PLAYER_STEP_DIAGONAL;
use crate::input::Direction;
use crate::input::InputFrame;
use crate::input::Sign;

verus! {

/// Peers in a session. A peer's handle is its index, from zero.
pub const PEER_COUNT: usize = 2;

/// How far from the vertical axis the two players start, in units.
pub const START_OFFSET: i64 = 120_000;

/// A player as the contracts see it.
pub struct PlayerModel {
    pub position: Vec2,
    pub direction: Direction,
    pub bullet_ready: bool,
}

/// A bullet as the contracts see it.
pub struct BulletModel {
    pub position: Vec2,
    pub direction: Direction,
}

/// The whole state as the contracts see it: the players by handle, and the
/// live bullets, oldest first.
#[verifier::ext_equal]
pub struct WorldModel {
    pub players: Seq<PlayerModel>,
    pub bullets: Seq<BulletModel>,
}

impl PlayerModel {
    /// Inside the arena and facing somewhere.
    pub open spec fn valid(self) -> bool {
        self.position.in_arena() && !self.direction.is_zero()
    }

    /// Movement: the player takes the decoded heading where there is one and
    /// keeps its last heading otherwise, and moves one step along the decoded
    /// heading, stopped by the walls of the arena.
    pub open spec fn moved(self, frame: InputFrame) -> PlayerModel {
        let heading = frame.direction();
        PlayerModel {
            position: self.position.stepped(
                heading,
                PLAYER_STEP as int,
                PLAYER_STEP_DIAGONAL as int,
            ).clamped(),
            direction: if heading.is_zero() {
                self.direction
            } else {
                heading
            },
            bullet_ready: self.bullet_ready,
        }
    }

    /// Reload: a player that does not hold fire is ready to shoot.
    pub open spec fn reloaded(self, frame: InputFrame) -> PlayerModel {
        PlayerModel { bullet_ready: self.bullet_ready || !frame.fire(), ..self }
    }

    /// Whether the player shoots: it holds fire and is ready.
    pub open spec fn shoots(self, frame: InputFrame) -> bool {
        frame.fire() && self.bullet_ready
    }

    /// Spawn, the player's side: shooting uses up the readiness.
    pub open spec fn fired(self, frame: InputFrame) -> PlayerModel {
        if self.shoots(frame) {
            PlayerModel { bullet_ready: false, ..self }
        } else {
            self
        }
    }

    /// The bullet that the player shoots: at its place, along its heading.
    pub open spec fn muzzle(self) -> BulletModel {
        BulletModel { position: self.position, direction: self.direction }
    }
}

impl BulletModel {
    /// Flight: one step along the bullet's heading.
    pub open spec fn flown(self) -> BulletModel {
        BulletModel {
            position: self.position.stepped(
                self.direction,
                BULLET_STEP as int,
                BULLET_STEP_DIAGONAL as int,
            ),
            direction: self.direction,
        }
    }
}

/// The bullets that the peers with a handle below `upto` shoot, in handle
/// order.
pub open spec fn spawned(players: Seq<PlayerModel>, inputs: Seq<InputFrame>, upto: int) -> Seq<
    BulletModel,
>
    decreases upto,
{
    if upto <= 0 {
        Seq::empty()
    } else {
        let earlier = spawned(players, inputs, upto - 1);
        if players[upto - 1].shoots(inputs[upto - 1]) {
            earlier.push(players[upto - 1].muzzle())
        } else {
            earlier
        }
    }
}

impl WorldModel {
    /// One player for each peer, each inside the arena and facing somewhere,
    /// and no bullet without a heading.
    pub open spec fn wf(self) -> bool {
        &&& self.players.len() == PEER_COUNT
        &&& forall|i: int| 0 <= i < self.players.len() ==> (#[trigger] self.players[i]).valid()
        &&& forall|i: int|
            0 <= i < self.bullets.len() ==> !(#[trigger] self.bullets[i]).direction.is_zero()
    }

    /// Every bullet has both coordinates no further than `bound` from zero.
    pub open spec fn bullets_within(self, bound: int) -> bool {
        forall|i: int|
            0 <= i < self.bullets.len() ==> (#[trigger] self.bullets[i]).position.within(bound)
    }

    /// Every bullet that flies, and every bullet that is shot meanwhile, can
    /// fly `ticks` more steps within the range of its coordinates.
    pub open spec fn can_fly(self, ticks: int) -> bool {
        ticks <= 0 || {
            &&& i64::MAX - ticks * BULLET_STEP >= ARENA_LIMIT
            &&& self.bullets_within(i64::MAX - ticks * BULLET_STEP)
        }
    }

    /// Clean-up: the bullets that are further from the origin than the
    /// clean-up distance are gone, the others stay in their order.
    pub open spec fn despawned(self) -> WorldModel {
        WorldModel {
            players: self.players,
            bullets: self.bullets.filter(|b: BulletModel| b.position.in_reach()),
        }
    }

    /// No bullet is further from the origin than the clean-up distance.
    pub open spec fn settled(self) -> bool {
        forall|i: int|
            0 <= i < self.bullets.len() ==> (#[trigger] self.bullets[i]).position.in_reach()
    }

    /// The state at the start of a session: the players two cells left and
    /// right of the origin, facing away from each other, ready to shoot, and
    /// no bullet.
    pub open spec fn start() -> WorldModel {
        WorldModel {
            players: seq![
                PlayerModel {
                    position: Vec2 { x: -START_OFFSET as int, y: 0 },
                    direction: Direction { x: Sign::Minus, y: Sign::Zero },
                    bullet_ready: true,
                },
                PlayerModel {
                    position: Vec2 { x: START_OFFSET as int, y: 0 },
                    direction: Direction { x: Sign::Plus, y: Sign::Zero },
                    bullet_ready: true,
                },
            ],
            bullets: Seq::empty(),
        }
    }

    /// First phase: every player moves by its own frame.
    pub open spec fn move_players(self, inputs: Seq<InputFrame>) -> WorldModel {
        WorldModel {
            players: Seq::new(self.players.len(), |i: int| self.players[i].moved(inputs[i])),
            bullets: self.bullets,
        }
    }

    /// Second phase: every player that does not hold fire becomes ready.
    pub open spec fn reload_bullets(self, inputs: Seq<InputFrame>) -> WorldModel {
        WorldModel {
            players: Seq::new(self.players.len(), |i: int| self.players[i].reloaded(inputs[i])),
            bullets: self.bullets,
        }
    }

    /// Third phase: every player that holds fire and is ready shoots one
    /// bullet; the new bullets come after the old ones, in handle order.
    pub open spec fn fire_bullets(self, inputs: Seq<InputFrame>) -> WorldModel {
        WorldModel {
            players: Seq::new(self.players.len(), |i: int| self.players[i].fired(inputs[i])),
            bullets: self.bullets + spawned(self.players, inputs, self.players.len() as int),
        }
    }

    /// Fourth phase: every bullet flies one step, the new ones too.
    pub open spec fn move_bullets(self) -> WorldModel {
        WorldModel {
            players: self.players,
            bullets: Seq::new(self.bullets.len(), |i: int| self.bullets[i].flown()),
        }
    }

    /// One tick: the four phases in their order.
    pub open spec fn step(self, inputs: Seq<InputFrame>) -> WorldModel {
        self.move_players(inputs).reload_bullets(inputs).fire_bullets(inputs).move_bullets()
    }

    /// The bullets that are shot in a tick on these inputs, in handle order,
    /// as they leave the players.
    pub open spec fn shots(self, inputs: Seq<InputFrame>) -> Seq<BulletModel> {
        let aimed = self.move_players(inputs).reload_bullets(inputs);
        spawned(aimed.players, inputs, aimed.players.len() as int)
    }

    /// Whether the peer shoots in a tick on these inputs.
    pub open spec fn shoots_in_step(self, inputs: Seq<InputFrame>, peer: int) -> bool {
        self.move_players(inputs).reload_bullets(inputs).players[peer].shoots(inputs[peer])
    }

    /// The state after the ticks of `frames`, first to last.
    pub open spec fn replay(self, frames: Seq<Seq<InputFrame>>) -> WorldModel
        decreases frames.len(),
    {
        if frames.len() == 0 {
            self
        } else {
            self.replay(frames.drop_last()).step(frames.last())
        }
    }
}

/// Bullets within the clean-up distance can fly one more step.
pub proof fn lemma_settled_can_fly(w: WorldModel)
    requires
        w.settled(),
    ensures
        w.can_fly(1),
{
    assert forall|i: int| 0 <= i < w.bullets.len() implies (
    #[trigger] w.bullets[i]).position.within(i64::MAX - BULLET_STEP) by {
        lemma_in_reach_within(w.bullets[i].position);
    }
}

/// A tick keeps the state well formed.
pub proof fn lemma_step_wf(w: WorldModel, inputs: Seq<InputFrame>)
    requires
        w.wf(),
    ensures
        w.move_players(inputs).wf(),
        w.move_players(inputs).reload_bullets(inputs).wf(),
        w.move_players(inputs).reload_bullets(inputs).fire_bullets(inputs).wf(),
        w.step(inputs).wf(),
{
    let a = w.move_players(inputs);
    assert forall|i: int| 0 <= i < a.players.len() implies (#[trigger] a.players[i]).valid() by {
        assert(w.players[i].valid());
    }
    assert(a.wf());
    let b = a.reload_bullets(inputs);
    assert forall|i: int| 0 <= i < b.players.len() implies (#[trigger] b.players[i]).valid() by {
        assert(a.players[i].valid());
    }
    assert(b.wf());
    let c = b.fire_bullets(inputs);
    lemma_spawned_valid(b.players, inputs, b.players.len() as int);
    let shots = spawned(b.players, inputs, b.players.len() as int);
    assert forall|i: int| 0 <= i < c.players.len() implies (#[trigger] c.players[i]).valid() by {
        assert(b.players[i].valid());
    }
    assert forall|i: int| 0 <= i < c.bullets.len() implies !(
    #[trigger] c.bullets[i]).direction.is_zero() by {
        if i < b.bullets.len() {
            assert(!b.bullets[i].direction.is_zero());
        } else {
            assert(!shots[i - b.bullets.len()].direction.is_zero());
        }
    }
    assert(c.wf());
    let d = c.move_bullets();
    assert forall|i: int| 0 <= i < d.bullets.len() implies !(
    #[trigger] d.bullets[i]).direction.is_zero() by {
        assert(!c.bullets[i].direction.is_zero());
    }
}

/// A tick uses up one of the steps that the bullets can still fly.
pub proof fn lemma_step_keeps_flight(w: WorldModel, inputs: Seq<InputFrame>, ticks: int)
    requires
        w.wf(),
        w.can_fly(ticks),
        ticks >= 1,
    ensures
        w.can_fly(1),
        w.step(inputs).can_fly(ticks - 1),
{
    let bound = i64::MAX - ticks * BULLET_STEP;
    assert forall|i: int| 0 <= i < w.bullets.len() implies (
    #[trigger] w.bullets[i]).position.within(i64::MAX - BULLET_STEP) by {
        assert(w.bullets[i].position.within(bound));
    }
    lemma_step_wf(w, inputs);
    let b = w.move_players(inputs).reload_bullets(inputs);
    assert(b.bullets == w.bullets);
    lemma_fire_keeps_bullets_within(b, inputs, bound);
    let c = b.fire_bullets(inputs);
    let d = c.move_bullets();
    assert forall|i: int| 0 <= i < d.bullets.len() implies (
    #[trigger] d.bullets[i]).position.within(bound + BULLET_STEP) by {
        assert(c.bullets[i].position.within(bound));
    }
}

/// The bullets that valid players shoot start inside the arena and have a
/// heading, and there is at most one for each peer.
pub proof fn lemma_spawned_valid(players: Seq<PlayerModel>, inputs: Seq<InputFrame>, upto: int)
    requires
        0 <= upto <= players.len(),
        forall|h: int| 0 <= h < upto ==> (#[trigger] players[h]).valid(),
    ensures
        spawned(players, inputs, upto).len() <= upto,
        forall|k: int|
            0 <= k < spawned(players, inputs, upto).len() ==> {
                &&& (#[trigger] spawned(players, inputs, upto)[k]).position.in_arena()
                &&& !spawned(players, inputs, upto)[k].direction.is_zero()
            },
    decreases upto,
{
    if upto > 0 {
        lemma_spawned_valid(players, inputs, upto - 1);
        assert(players[upto - 1].valid());
    }
}

/// Spawning keeps the bullets within any bound that encloses the arena.
pub proof fn lemma_fire_keeps_bullets_within(w: WorldModel, inputs: Seq<InputFrame>, bound: int)
    requires
        w.wf(),
        w.bullets_within(bound),
        bound >= ARENA_LIMIT,
    ensures
        w.fire_bullets(inputs).bullets_within(bound),
{
    let shots = spawned(w.players, inputs, w.players.len() as int);
    lemma_spawned_valid(w.players, inputs, w.players.len() as int);
    let after = w.fire_bullets(inputs);
    assert forall|i: int| 0 <= i < after.bullets.len() implies (
    #[trigger] after.bullets[i]).position.within(bound) by {
        if i < w.bullets.len() {
            assert(w.bullets[i].position.within(bound));
        } else {
            assert(shots[i - w.bullets.len()].position.in_arena());
        }
    }
}

} // verus!
