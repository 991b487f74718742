//! The state that the simulation owns, and the step that advances it by one
//! tick.

use vstd::prelude::*;
use crate::arena::clamp_i64;
use crate::arena::step_i64;
use crate::arena::Point;
use crate::arena::ARENA_LIMIT;
use crate::arena::BULLET_STEP;
use crate::arena::BULLET_STEP_DIAGONAL;
use crate::arena::PLAYER_STEP;
use crate::arena::PLAYER_STEP_DIAGONAL;
use crate::input::Direction;
use crate::input::InputFrame;
use crate::input::Sign;
use crate::model::lemma_fire_keeps_bullets_within;
use crate::model::lemma_settled_can_fly;
use crate::model::lemma_step_keeps_flight;
use crate::model::spawned;
use crate::model::BulletModel;
use crate::model::PlayerModel;
use crate::model::WorldModel;
use crate::model::PEER_COUNT;
use crate::model::START_OFFSET;

verus! {

/// The inputs of one tick: one frame for each peer, at the peer's handle.
pub type TickInputs = [InputFrame; PEER_COUNT];

/// A player: where it is, where it faces, and whether it may shoot.
#[derive(Clone, Copy, Debug, PartialEq, Eq, Structural)]
pub struct PlayerState {
    pub position: Point,
    pub direction: Direction,
    pub bullet_ready: bool,
}

impl View for PlayerState {
    type V = PlayerModel;

    open spec fn view(&self) -> PlayerModel {
        PlayerModel {
            position: self.position@,
            direction: self.direction,
            bullet_ready: self.bullet_ready,
        }
    }
}

/// A bullet in flight: where it is and where it heads.
#[derive(Clone, Copy, Debug, PartialEq, Eq, Structural)]
pub struct BulletState {
    pub position: Point,
    pub direction: Direction,
}

impl View for BulletState {
    type V = BulletModel;

    open spec fn view(&self) -> BulletModel {
        BulletModel { position: self.position@, direction: self.direction }
    }
}

impl PlayerState {
    /// Movement of one player. Wherever the player was, it ends up inside the
    /// arena; it only has to be able to take the step within the range of its
    /// coordinates.
    pub fn moved(self, frame: InputFrame) -> (r: PlayerState)
        requires
            self@.position.within(i64::MAX - PLAYER_STEP),
        ensures
            r@ == self@.moved(frame),
            r@.position.in_arena(),
    {
        let heading = frame.direction();
        let dx: i64 = step_i64(heading.x, heading.y, PLAYER_STEP, PLAYER_STEP_DIAGONAL);
        let dy: i64 = step_i64(heading.y, heading.x, PLAYER_STEP, PLAYER_STEP_DIAGONAL);
        let x: i64 = clamp_i64(self.position.x + dx, -ARENA_LIMIT, ARENA_LIMIT);
        let y: i64 = clamp_i64(self.position.y + dy, -ARENA_LIMIT, ARENA_LIMIT);
        let keep: bool = heading.x == Sign::Zero && heading.y == Sign::Zero;
        PlayerState {
            position: Point { x, y },
            direction: if keep {
                self.direction
            } else {
                heading
            },
            bullet_ready: self.bullet_ready,
        }
    }

    /// Reload of one player.
    pub fn reloaded(self, frame: InputFrame) -> (r: PlayerState)
        ensures
            r@ == self@.reloaded(frame),
    {
        PlayerState {
            position: self.position,
            direction: self.direction,
            bullet_ready: self.bullet_ready || !frame.fire(),
        }
    }

    /// Whether the player shoots on this frame.
    pub fn shoots(self, frame: InputFrame) -> (r: bool)
        ensures
            r == self@.shoots(frame),
    {
        frame.fire() && self.bullet_ready
    }

    /// The player after the spawn phase.
    pub fn fired(self, frame: InputFrame) -> (r: PlayerState)
        ensures
            r@ == self@.fired(frame),
    {
        if self.shoots(frame) {
            PlayerState { position: self.position, direction: self.direction, bullet_ready: false }
        } else {
            self
        }
    }

    /// The bullet that the player shoots.
    pub fn muzzle(self) -> (b: BulletState)
        ensures
            b@ == self@.muzzle(),
    {
        BulletState { position: self.position, direction: self.direction }
    }
}

impl BulletState {
    /// Flight of one bullet.
    pub fn flown(self) -> (r: BulletState)
        requires
            self@.position.within(i64::MAX - BULLET_STEP),
        ensures
            r@ == self@.flown(),
    {
        let heading = self.direction;
        let dx: i64 = step_i64(heading.x, heading.y, BULLET_STEP, BULLET_STEP_DIAGONAL);
        let dy: i64 = step_i64(heading.y, heading.x, BULLET_STEP, BULLET_STEP_DIAGONAL);
        BulletState {
            position: Point { x: self.position.x + dx, y: self.position.y + dy },
            direction: self.direction,
        }
    }
}

/// The players by handle and the live bullets, oldest first.
#[derive(Debug)]
pub struct World {
    players: Vec<PlayerState>,
    bullets: Vec<BulletState>,
}

/// The models of a run of players.
pub open spec fn player_models(players: Seq<PlayerState>) -> Seq<PlayerModel> {
    Seq::new(players.len(), |i: int| players[i]@)
}

/// The inputs of a run of ticks, each as the sequence of its frames.
pub open spec fn tick_models(frames: Seq<TickInputs>) -> Seq<Seq<InputFrame>> {
    Seq::new(frames.len(), |t: int| frames[t]@)
}

/// The models of a run of bullets.
pub open spec fn bullet_models(bullets: Seq<BulletState>) -> Seq<BulletModel> {
    Seq::new(bullets.len(), |i: int| bullets[i]@)
}

impl View for World {
    type V = WorldModel;

    closed spec fn view(&self) -> WorldModel {
        WorldModel {
            players: player_models(self.players@),
            bullets: bullet_models(self.bullets@),
        }
    }
}

impl World {
    /// The invariant of the state: see [`WorldModel::wf`].
    pub open spec fn wf(&self) -> bool {
        self@.wf()
    }

    /// The state at the start of a session.
    pub fn new() -> (w: World)
        ensures
            w.wf(),
            w@ == WorldModel::start(),
    {
        let mut players: Vec<PlayerState> = Vec::new();
        players.push(
            PlayerState {
                position: Point { x: -START_OFFSET, y: 0 },
                direction: Direction { x: Sign::Minus, y: Sign::Zero },
                bullet_ready: true,
            },
        );
        players.push(
            PlayerState {
                position: Point { x: START_OFFSET, y: 0 },
                direction: Direction { x: Sign::Plus, y: Sign::Zero },
                bullet_ready: true,
            },
        );
        let w = World { players, bullets: Vec::new() };
        assert(w@ =~= WorldModel::start());
        w
    }

    /// The player of the peer with this handle.
    pub fn player(&self, handle: usize) -> (p: PlayerState)
        requires
            self.wf(),
            handle < PEER_COUNT,
        ensures
            p@ == self@.players[handle as int],
            p@.valid(),
    {
        self.players[handle]
    }

    /// The players, by handle.
    pub fn players(&self) -> (r: &Vec<PlayerState>)
        ensures
            player_models(r@) == self@.players,
    {
        &self.players
    }

    /// The live bullets, oldest first.
    pub fn bullets(&self) -> (r: &Vec<BulletState>)
        ensures
            bullet_models(r@) == self@.bullets,
    {
        &self.bullets
    }

    /// First phase of a tick: movement.
    pub fn move_players(&mut self, inputs: &TickInputs)
        requires
            old(self).wf(),
        ensures
            final(self).wf(),
            final(self)@ == old(self)@.move_players(inputs@),
    {
        let ghost before = self.players@;
        assert forall|j: int| 0 <= j < before.len() implies (#[trigger] before[j])@.valid() by {
            assert(self@.players[j].valid());
        }
        let mut i: usize = 0;
        while i < self.players.len()
            invariant
                i <= self.players@.len(),
                self.players@.len() == before.len(),
                before.len() == PEER_COUNT,
                self.bullets@ == old(self).bullets@,
                forall|j: int| 0 <= j < before.len() ==> (#[trigger] before[j])@.valid(),
                forall|j: int| 0 <= j < i ==> self.players@[j]@ == before[j]@.moved(inputs@[j]),
                forall|j: int| i <= j < before.len() ==> self.players@[j] == before[j],
            decreases self.players@.len() - i,
        {
            let p = self.players[i];
            self.players.set(i, p.moved(inputs[i]));
            i += 1;
        }
        assert(self@ =~= old(self)@.move_players(inputs@));
    }

    /// Second phase of a tick: reload.
    pub fn reload_bullets(&mut self, inputs: &TickInputs)
        requires
            old(self).wf(),
        ensures
            final(self).wf(),
            final(self)@ == old(self)@.reload_bullets(inputs@),
    {
        let ghost before = self.players@;
        assert forall|j: int| 0 <= j < before.len() implies (#[trigger] before[j])@.valid() by {
            assert(self@.players[j].valid());
        }
        let mut i: usize = 0;
        while i < self.players.len()
            invariant
                i <= self.players@.len(),
                self.players@.len() == before.len(),
                before.len() == PEER_COUNT,
                self.bullets@ == old(self).bullets@,
                forall|j: int| 0 <= j < before.len() ==> (#[trigger] before[j])@.valid(),
                forall|j: int|
                    0 <= j < i ==> self.players@[j]@ == before[j]@.reloaded(inputs@[j]),
                forall|j: int| i <= j < before.len() ==> self.players@[j] == before[j],
            decreases self.players@.len() - i,
        {
            let p = self.players[i];
            self.players.set(i, p.reloaded(inputs[i]));
            i += 1;
        }
        assert(self@ =~= old(self)@.reload_bullets(inputs@));
    }

    /// Third phase of a tick: spawn. At most one bullet for each peer.
    pub fn fire_bullets(&mut self, inputs: &TickInputs)
        requires
            old(self).wf(),
        ensures
            final(self).wf(),
            final(self)@ == old(self)@.fire_bullets(inputs@),
    {
        let ghost before = self.players@;
        let ghost flying = self.bullets@;
        assert forall|j: int| 0 <= j < before.len() implies (#[trigger] before[j])@.valid() by {
            assert(self@.players[j].valid());
        }
        assert forall|k: int| 0 <= k < flying.len() implies !(
        #[trigger] flying[k])@.direction.is_zero() by {
            assert(!self@.bullets[k].direction.is_zero());
        }
        let mut i: usize = 0;
        while i < self.players.len()
            invariant
                i <= self.players@.len(),
                self.players@.len() == before.len(),
                before.len() == PEER_COUNT,
                forall|j: int| 0 <= j < before.len() ==> (#[trigger] before[j])@.valid(),
                forall|j: int| 0 <= j < i ==> self.players@[j]@ == before[j]@.fired(inputs@[j]),
                forall|j: int| i <= j < before.len() ==> self.players@[j] == before[j],
                bullet_models(self.bullets@) == bullet_models(flying) + spawned(
                    player_models(before),
                    inputs@,
                    i as int,
                ),
                forall|k: int|
                    0 <= k < self.bullets@.len() ==> !(
                    #[trigger] self.bullets@[k])@.direction.is_zero(),
            decreases self.players@.len() - i,
        {
            let p = self.players[i];
            let ghost shots = spawned(player_models(before), inputs@, i as int);
            if p.shoots(inputs[i]) {
                let ghost held = self.bullets@;
                self.bullets.push(p.muzzle());
                assert(bullet_models(self.bullets@) =~= bullet_models(held).push(p@.muzzle()));
                assert(bullet_models(self.bullets@) =~= bullet_models(flying) + shots.push(
                    p@.muzzle(),
                ));
            }
            self.players.set(i, p.fired(inputs[i]));
            i += 1;
        }
        assert(self@ =~= old(self)@.fire_bullets(inputs@));
    }

    /// Fourth phase of a tick: flight.
    pub fn move_bullets(&mut self)
        requires
            old(self).wf(),
            old(self)@.can_fly(1),
        ensures
            final(self).wf(),
            final(self)@ == old(self)@.move_bullets(),
    {
        let ghost before = self.bullets@;
        assert forall|k: int| 0 <= k < before.len() implies {
            &&& !(#[trigger] before[k])@.direction.is_zero()
            &&& before[k]@.position.within(i64::MAX - BULLET_STEP)
        } by {
            assert(!self@.bullets[k].direction.is_zero());
            assert(self@.bullets[k].position.within(i64::MAX - BULLET_STEP));
        }
        let mut i: usize = 0;
        while i < self.bullets.len()
            invariant
                i <= self.bullets@.len(),
                self.bullets@.len() == before.len(),
                self.players@ == old(self).players@,
                forall|k: int|
                    0 <= k < before.len() ==> {
                        &&& !(#[trigger] before[k])@.direction.is_zero()
                        &&& before[k]@.position.within(i64::MAX - BULLET_STEP)
                    },
                forall|k: int| 0 <= k < i ==> self.bullets@[k]@ == before[k]@.flown(),
                forall|k: int| i <= k < before.len() ==> self.bullets@[k] == before[k],
            decreases self.bullets@.len() - i,
        {
            let b = self.bullets[i];
            self.bullets.set(i, b.flown());
            i += 1;
        }
        assert(self@ =~= old(self)@.move_bullets());
    }

    /// Advances the state by one tick: movement, reload, spawn and flight, in
    /// this order. The bullets have to be able to fly one step within the range
    /// of their coordinates, as they are after every clean-up.
    pub fn advance(&mut self, inputs: &TickInputs)
        requires
            old(self).wf(),
            old(self)@.can_fly(1),
        ensures
            final(self).wf(),
            final(self)@ == old(self)@.step(inputs@),
    {
        self.move_players(inputs);
        self.reload_bullets(inputs);
        proof {
            lemma_fire_keeps_bullets_within(self@, inputs@, i64::MAX - BULLET_STEP);
        }
        self.fire_bullets(inputs);
        self.move_bullets();
    }

    /// Clean-up after a tick: removes the bullets that are further from the
    /// origin than the clean-up distance and keeps the order of the others.
    /// No player can be that far away, so the players stay as they are.
    pub fn despawn(&mut self)
        requires
            old(self).wf(),
        ensures
            final(self).wf(),
            final(self)@ == old(self)@.despawned(),
            final(self)@.settled(),
    {
        let ghost before = bullet_models(self.bullets@);
        let ghost in_reach = |b: BulletModel| b.position.in_reach();
        assert forall|k: int| 0 <= k < before.len() implies !(
        #[trigger] before[k]).direction.is_zero() by {
            assert(!self@.bullets[k].direction.is_zero());
        }
        let mut kept: Vec<BulletState> = Vec::new();
        let mut i: usize = 0;
        assert(before.take(0) =~= Seq::<BulletModel>::empty());
        assert(bullet_models(kept@) =~= before.take(0).filter(in_reach)) by {
            reveal(Seq::filter);
        }
        while i < self.bullets.len()
            invariant
                i <= self.bullets@.len(),
                before == bullet_models(self.bullets@),
                self.bullets@ == old(self).bullets@,
                self.players@ == old(self).players@,
                in_reach == |b: BulletModel| b.position.in_reach(),
                bullet_models(kept@) == before.take(i as int).filter(in_reach),
                forall|k: int|
                    0 <= k < before.len() ==> !(#[trigger] before[k]).direction.is_zero(),
                forall|k: int|
                    0 <= k < kept@.len() ==> {
                        &&& (#[trigger] kept@[k])@.position.in_reach()
                        &&& !kept@[k]@.direction.is_zero()
                    },
            decreases self.bullets@.len() - i,
        {
            let b = self.bullets[i];
            let ghost held = kept@;
            let ghost upto = before.take(i as int + 1);
            assert(upto.drop_last() =~= before.take(i as int));
            assert(upto.last() == b@);
            assert(upto.filter(in_reach) == if in_reach(b@) {
                before.take(i as int).filter(in_reach).push(b@)
            } else {
                before.take(i as int).filter(in_reach)
            }) by {
                reveal(Seq::filter);
            }
            if b.position.in_reach() {
                kept.push(b);
                assert(bullet_models(kept@) =~= bullet_models(held).push(b@));
            }
            i += 1;
        }
        assert(before.take(i as int) =~= before);
        self.bullets = kept;
        assert(self@ =~= old(self)@.despawned());
    }

    /// One tick with its clean-up: the four phases of [`World::advance`], then
    /// [`World::despawn`]. It keeps the bullets within the clean-up distance,
    /// so it can be called tick after tick without end.
    pub fn tick(&mut self, inputs: &TickInputs)
        requires
            old(self).wf(),
            old(self)@.settled(),
        ensures
            final(self).wf(),
            final(self)@.settled(),
            final(self)@ == old(self)@.step(inputs@).despawned(),
    {
        proof {
            lemma_settled_can_fly(self@);
        }
        self.advance(inputs);
        self.despawn();
    }

    /// Replays the ticks of `frames` in their order. This is what a rollback
    /// does after restoring an earlier state.
    pub fn replay(&mut self, frames: &Vec<TickInputs>)
        requires
            old(self).wf(),
            old(self)@.can_fly(frames@.len() as int),
        ensures
            final(self).wf(),
            final(self)@ == old(self)@.replay(tick_models(frames@)),
    {
        let ghost ticks = tick_models(frames@);
        let mut t: usize = 0;
        assert(ticks.take(0) =~= Seq::<Seq<InputFrame>>::empty());
        while t < frames.len()
            invariant
                t <= frames@.len(),
                ticks == tick_models(frames@),
                self.wf(),
                self@.can_fly(frames@.len() - t),
                self@ == old(self)@.replay(ticks.take(t as int)),
            decreases frames@.len() - t,
        {
            proof {
                lemma_step_keeps_flight(self@, ticks[t as int], frames@.len() - t);
                assert(ticks.take(t as int + 1).drop_last() =~= ticks.take(t as int));
                assert(ticks.take(t as int + 1).last() == frames@[t as int]@);
            }
            let inputs = frames[t];
            self.advance(&inputs);
            t += 1;
        }
        assert(ticks.take(t as int) =~= ticks);
    }

    /// Puts a state together from its parts, as when a stored snapshot is
    /// read back. There is a state exactly if the parts are well formed.
    pub fn from_parts(players: Vec<PlayerState>, bullets: Vec<BulletState>) -> (r: Option<World>)
        ensures
            r is Some <==> (WorldModel {
                players: player_models(players@),
                bullets: bullet_models(bullets@),
            }).wf(),
            r matches Some(w) ==> w.wf() && w@ == (WorldModel {
                players: player_models(players@),
                bullets: bullet_models(bullets@),
            }),
    {
        let ghost model = WorldModel {
            players: player_models(players@),
            bullets: bullet_models(bullets@),
        };
        if players.len() != PEER_COUNT {
            return None;
        }
        let mut i: usize = 0;
        while i < players.len()
            invariant
                i <= players@.len(),
                model.players == player_models(players@),
                forall|j: int| 0 <= j < i ==> (#[trigger] model.players[j]).valid(),
            decreases players@.len() - i,
        {
            let p = players[i];
            let facing: bool = p.direction.x != Sign::Zero || p.direction.y != Sign::Zero;
            if !p.position.in_arena() || !facing {
                assert(!model.players[i as int].valid());
                return None;
            }
            i += 1;
        }
        let mut k: usize = 0;
        while k < bullets.len()
            invariant
                k <= bullets@.len(),
                model.bullets == bullet_models(bullets@),
                forall|j: int| 0 <= j < k ==> !(#[trigger] model.bullets[j]).direction.is_zero(),
            decreases bullets@.len() - k,
        {
            let b = bullets[k];
            if b.direction.x == Sign::Zero && b.direction.y == Sign::Zero {
                assert(model.bullets[k as int].direction.is_zero());
                return None;
            }
            k += 1;
        }
        Some(World { players, bullets })
    }
}

impl Clone for World {
    /// A snapshot of the state, for a rollback to restore later.
    fn clone(&self) -> (w: World)
        ensures
            w@ == self@,
    {
        let mut players: Vec<PlayerState> = Vec::new();
        let mut i: usize = 0;
        while i < self.players.len()
            invariant
                i <= self.players@.len(),
                players@ == self.players@.take(i as int),
            decreases self.players@.len() - i,
        {
            players.push(self.players[i]);
            assert(players@ =~= self.players@.take(i as int + 1));
            i += 1;
        }
        let mut bullets: Vec<BulletState> = Vec::new();
        let mut k: usize = 0;
        while k < self.bullets.len()
            invariant
                k <= self.bullets@.len(),
                bullets@ == self.bullets@.take(k as int),
            decreases self.bullets@.len() - k,
        {
            bullets.push(self.bullets[k]);
            assert(bullets@ =~= self.bullets@.take(k as int + 1));
            k += 1;
        }
        assert(players@ =~= self.players@);
        assert(bullets@ =~= self.bullets@);
        World { players, bullets }
    }
}

impl PartialEq for World {
    /// Two states are equal where their players and their bullets are, one
    /// by one.
    fn eq(&self, other: &World) -> (r: bool) {
        if self.players.len() != other.players.len() || self.bullets.len() != other.bullets.len() {
            assert(self@.players.len() != other@.players.len() || self@.bullets.len()
                != other@.bullets.len());
            return false;
        }
        let mut i: usize = 0;
        while i < self.players.len()
            invariant
                i <= self.players@.len(),
                self.players@.len() == other.players@.len(),
                forall|j: int| 0 <= j < i ==> self.players@[j] == other.players@[j],
            decreases self.players@.len() - i,
        {
            if self.players[i] != other.players[i] {
                assert(self@.players[i as int] != other@.players[i as int]);
                return false;
            }
            i += 1;
        }
        let mut k: usize = 0;
        while k < self.bullets.len()
            invariant
                k <= self.bullets@.len(),
                self.bullets@.len() == other.bullets@.len(),
                forall|j: int| 0 <= j < k ==> self.bullets@[j] == other.bullets@[j],
            decreases self.bullets@.len() - k,
        {
            if self.bullets[k] != other.bullets[k] {
                assert(self@.bullets[k as int] != other@.bullets[k as int]);
                return false;
            }
            k += 1;
        }
        assert(self@ =~= other@);
        true
    }
}

impl vstd::std_specs::cmp::PartialEqSpecImpl for World {
    open spec fn obeys_eq_spec() -> bool {
        true
    }

    open spec fn eq_spec(&self, other: &World) -> bool {
        self@ == other@
    }
}

impl Eq for World {}

} // verus!
