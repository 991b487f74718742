//! What holds of the simulation whatever the inputs are: the walls hold, an
//! idle tick changes nobody's place, a held trigger shoots once, equal runs
//! stay equal, and input comes out of the delay line when it is due.

use vstd::prelude::*;
use crate::input::InputFrame;
use crate::session::SessionModel;
use crate::model::lemma_step_wf;
use crate::model::spawned;
use crate::model::PlayerModel;
use crate::model::WorldModel;
use crate::model::PEER_COUNT;

verus! {

/// What a tick does to one player: movement, then reload, then its side of the
/// spawn, each by the player's own frame. No other peer's frame matters.
pub proof fn lemma_step_player(w: WorldModel, inputs: Seq<InputFrame>, peer: int)
    requires
        0 <= peer < w.players.len(),
    ensures
        w.step(inputs).players.len() == w.players.len(),
        w.step(inputs).players[peer] == w.players[peer].moved(inputs[peer]).reloaded(
            inputs[peer],
        ).fired(inputs[peer]),
{
}

/// What a tick does to the bullets: the old ones come first, then the ones
/// that the reloaded players shoot, in handle order, and all of them have
/// flown one step.
pub proof fn lemma_step_bullets(w: WorldModel, inputs: Seq<InputFrame>)
    ensures
        w.step(inputs).bullets.len() == w.bullets.len() + w.shots(inputs).len(),
        w.shots(inputs).len() <= w.players.len(),
        forall|k: int|
            0 <= k < w.bullets.len() ==> #[trigger] w.step(inputs).bullets[k]
                == w.bullets[k].flown(),
        forall|k: int|
            0 <= k < w.shots(inputs).len() ==> #[trigger] w.step(inputs).bullets[w.bullets.len()
                + k] == w.shots(inputs)[k].flown(),
{
    let aimed = w.move_players(inputs).reload_bullets(inputs);
    lemma_spawned_len(aimed.players, inputs, aimed.players.len() as int);
}

/// Each peer shoots at most one bullet in a tick.
pub proof fn lemma_spawned_len(players: Seq<PlayerModel>, inputs: Seq<InputFrame>, upto: int)
    requires
        0 <= upto,
    ensures
        spawned(players, inputs, upto).len() <= upto,
    decreases upto,
{
    if upto > 0 {
        lemma_spawned_len(players, inputs, upto - 1);
    }
}

/// Replaying keeps the number of players, and a well-formed state well
/// formed.
pub proof fn lemma_replay_wf(w: WorldModel, frames: Seq<Seq<InputFrame>>)
    ensures
        w.replay(frames).players.len() == w.players.len(),
        w.wf() ==> w.replay(frames).wf(),
    decreases frames.len(),
{
    if frames.len() > 0 {
        lemma_replay_wf(w, frames.drop_last());
        if w.wf() {
            lemma_step_wf(w.replay(frames.drop_last()), frames.last());
        }
    }
}

/// Replaying a run of ticks in two parts gives what replaying it whole gives.
/// So a state that was saved on the way can take the place of the start.
pub proof fn lemma_replay_concat(
    w: WorldModel,
    first: Seq<Seq<InputFrame>>,
    second: Seq<Seq<InputFrame>>,
)
    ensures
        w.replay(first + second) == w.replay(first).replay(second),
    decreases second.len(),
{
    if second.len() == 0 {
        assert(first + second =~= first);
    } else {
        lemma_replay_concat(w, first, second.drop_last());
        assert((first + second).drop_last() =~= first + second.drop_last());
        assert((first + second).last() == second.last());
    }
}

/// The walls hold: after a tick every player is inside the arena on both
/// axes, whatever the inputs were and wherever the player was.
pub proof fn lemma_players_stay_in_arena(w: WorldModel, inputs: Seq<InputFrame>)
    ensures
        forall|peer: int|
            0 <= peer < w.players.len() ==> (#[trigger] w.step(
                inputs,
            ).players[peer]).position.in_arena(),
{
    assert forall|peer: int| 0 <= peer < w.players.len() implies (#[trigger] w.step(
        inputs,
    ).players[peer]).position.in_arena() by {
        lemma_step_player(w, inputs, peer);
    }
}

/// A tick on which a peer neither steers nor fires leaves that peer's player
/// where it is and as it faces, makes it ready, and shoots no bullet for it.
pub proof fn lemma_idle_peer(w: WorldModel, inputs: Seq<InputFrame>, peer: int)
    requires
        w.wf(),
        0 <= peer < PEER_COUNT,
        inputs[peer].direction().is_zero(),
        !inputs[peer].fire(),
    ensures
        w.step(inputs).players[peer].position == w.players[peer].position,
        w.step(inputs).players[peer].direction == w.players[peer].direction,
        w.step(inputs).players[peer].bullet_ready,
        !w.shoots_in_step(inputs, peer),
{
    lemma_step_player(w, inputs, peer);
    assert(w.players[peer].valid());
}

/// A tick on which every frame is all zeros leaves every player's position
/// unchanged and adds no bullet.
pub proof fn lemma_neutral_tick(w: WorldModel, inputs: Seq<InputFrame>)
    requires
        w.wf(),
        inputs.len() == PEER_COUNT,
        forall|peer: int| 0 <= peer < PEER_COUNT ==> (#[trigger] inputs[peer]).0 == 0,
    ensures
        forall|peer: int|
            0 <= peer < PEER_COUNT ==> (#[trigger] w.step(inputs).players[peer]).position
                == w.players[peer].position,
        w.step(inputs).bullets.len() == w.bullets.len(),
{
    assert(0u8 & 1 == 0 && 0u8 & 2 == 0 && 0u8 & 4 == 0 && 0u8 & 8 == 0 && 0u8 & 16 == 0)
        by (bit_vector);
    assert forall|peer: int| 0 <= peer < PEER_COUNT implies (#[trigger] w.step(
        inputs,
    ).players[peer]).position == w.players[peer].position by {
        assert(inputs[peer].0 == 0);
        lemma_idle_peer(w, inputs, peer);
    }
    let aimed = w.move_players(inputs).reload_bullets(inputs);
    assert forall|h: int| 0 <= h < aimed.players.len() implies !(
    #[trigger] aimed.players[h]).shoots(inputs[h]) by {
        assert(inputs[h].0 == 0);
    }
    lemma_no_shooter_no_shot(aimed.players, inputs, aimed.players.len() as int);
    lemma_step_bullets(w, inputs);
}

/// Where no peer shoots, no bullet is spawned.
pub proof fn lemma_no_shooter_no_shot(players: Seq<PlayerModel>, inputs: Seq<InputFrame>, upto: int)
    requires
        0 <= upto <= players.len(),
        forall|h: int| 0 <= h < upto ==> !(#[trigger] players[h]).shoots(inputs[h]),
    ensures
        spawned(players, inputs, upto).len() == 0,
    decreases upto,
{
    if upto > 0 {
        lemma_no_shooter_no_shot(players, inputs, upto - 1);
        assert(!players[upto - 1].shoots(inputs[upto - 1]));
    }
}

/// A peer shoots in a tick exactly if it holds fire and was ready before the
/// tick; and after the tick it is ready exactly if it did not hold fire.
pub proof fn lemma_trigger(w: WorldModel, inputs: Seq<InputFrame>, peer: int)
    requires
        0 <= peer < w.players.len(),
    ensures
        w.shoots_in_step(inputs, peer) == (inputs[peer].fire() && w.players[peer].bullet_ready),
        w.step(inputs).players[peer].bullet_ready == !inputs[peer].fire(),
{
    lemma_step_player(w, inputs, peer);
}

/// Cooldown: a peer that shot in tick `shot` and has held fire in every tick
/// since does not shoot in tick `later`. It takes a tick without fire to shoot
/// again.
pub proof fn lemma_cooldown(
    w: WorldModel,
    frames: Seq<Seq<InputFrame>>,
    peer: int,
    shot: int,
    later: int,
)
    requires
        0 <= peer < w.players.len(),
        0 <= shot < later < frames.len(),
        w.replay(frames.take(shot)).shoots_in_step(frames[shot], peer),
        forall|u: int| shot < u < later ==> (#[trigger] frames[u])[peer].fire(),
    ensures
        !w.replay(frames.take(later)).shoots_in_step(frames[later], peer),
{
    let last = later - 1;
    let before_last = w.replay(frames.take(last));
    lemma_replay_wf(w, frames.take(last));
    lemma_replay_wf(w, frames.take(later));
    assert(frames.take(later).drop_last() =~= frames.take(last));
    assert(frames.take(later).last() == frames[last]);
    assert(w.replay(frames.take(later)) == before_last.step(frames[last]));
    lemma_trigger(before_last, frames[last], peer);
    if last == shot {
    } else {
        assert(frames[last][peer].fire());
    }
    lemma_trigger(w.replay(frames.take(later)), frames[later], peer);
}

/// The state is a function of the log: a world that is the replay of a
/// session's log from the start still is after the session has consumed
/// another tick with it.
pub proof fn lemma_log_replays(s: SessionModel, w: WorldModel, inputs: Seq<InputFrame>)
    requires
        w == WorldModel::start().replay(s.log),
    ensures
        w.step(inputs) == WorldModel::start().replay(s.logged(inputs).log),
{
    assert(s.logged(inputs).log.drop_last() =~= s.log);
}

/// Determinism: two runs that start from equal states and consume equal
/// frames, tick by tick and peer by peer, are in equal states after every
/// tick.
pub proof fn lemma_deterministic(
    a: WorldModel,
    b: WorldModel,
    xs: Seq<Seq<InputFrame>>,
    ys: Seq<Seq<InputFrame>>,
)
    requires
        a == b,
        xs.len() == ys.len(),
        forall|t: int| 0 <= t < xs.len() ==> (#[trigger] xs[t]).len() == ys[t].len(),
        forall|t: int, peer: int|
            0 <= t < xs.len() && 0 <= peer < xs[t].len() ==> #[trigger] xs[t][peer] == ys[t][peer],
    ensures
        forall|t: int|
            0 <= t <= xs.len() ==> #[trigger] a.replay(xs.take(t)) == b.replay(ys.take(t)),
{
    assert forall|t: int| 0 <= t < xs.len() implies #[trigger] xs[t] == ys[t] by {
        assert(xs[t] =~= ys[t]);
    }
    assert(xs =~= ys);
}

/// The delay line: after the local controls gave the frames of `given`, one
/// for each tick, the frame that comes out next is the one that went in
/// `input_delay` ticks before, and as long as the session is younger than
/// that, one of the frames that it started with.
pub proof fn lemma_delay_line(s: SessionModel, given: Seq<InputFrame>, next: InputFrame)
    requires
        s.wf(),
    ensures
        delayed_all(s, given).wf(),
        delayed_all(s, given).due(next) == (s.pending + given).push(next)[given.len() as int],
        given.len() >= s.input_delay ==> delayed_all(s, given).due(next) == given.push(
            next,
        )[given.len() - s.input_delay],
{
    lemma_delayed_all(s, given);
}

/// The session after the local controls gave the frames of `given`, in their
/// order.
pub open spec fn delayed_all(s: SessionModel, given: Seq<InputFrame>) -> SessionModel
    decreases given.len(),
{
    if given.len() == 0 {
        s
    } else {
        delayed_all(s, given.drop_last()).delayed(given.last())
    }
}

/// What the delay line holds after a run of frames: the last `input_delay` of
/// all that it ever held or was given.
pub proof fn lemma_delayed_all(s: SessionModel, given: Seq<InputFrame>)
    requires
        s.wf(),
    ensures
        delayed_all(s, given).wf(),
        delayed_all(s, given).peers == s.peers,
        delayed_all(s, given).input_delay == s.input_delay,
        delayed_all(s, given).log == s.log,
        delayed_all(s, given).pending == (s.pending + given).subrange(
            given.len() as int,
            (given.len() + s.input_delay) as int,
        ),
    decreases given.len(),
{
    if given.len() == 0 {
        assert(s.pending + given =~= s.pending);
        assert(s.pending.subrange(0, s.input_delay as int) =~= s.pending);
    } else {
        let earlier = given.drop_last();
        lemma_delayed_all(s, earlier);
        let held = delayed_all(s, earlier).pending;
        assert(held.push(given.last()).drop_first() =~= (s.pending + given).subrange(
            given.len() as int,
            (given.len() + s.input_delay) as int,
        ));
    }
}

} // verus!
