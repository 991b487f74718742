//! Matchmaking and the session that it leads to.
//!
//! The signalling channel and the transport are the host's business. What is
//! decided here is when a session starts, which handle each peer gets, how
//! long local input waits before it counts, and whether a tick has the frames
//! that it needs.

use vstd::prelude::*;
use crate::input::InputFrame;
use crate::model::PEER_COUNT;
use crate::world::tick_models;
use crate::world::TickInputs;
use crate::world::World;

verus! {

/// Ticks by which local input is held back before it reaches the simulation.
pub const INPUT_DELAY: usize = 2;

/// The network identity of a peer. Nothing is read out of it; two peers are
/// the same exactly if their identities are.
#[derive(Clone, Copy, Debug, PartialEq, Eq, Structural)]
pub struct Peer(pub u128);

/// Where the game stands on its way into a match.
#[derive(Clone, Copy, Debug, PartialEq, Eq, Structural)]
pub enum GameState {
    AssetLoading,
    Matchmaking,
    InGame,
}

impl GameState {
    /// How far along the one-way road the state lies.
    pub open spec fn rank(self) -> int {
        match self {
            GameState::AssetLoading => 0,
            GameState::Matchmaking => 1,
            GameState::InGame => 2,
        }
    }
}

/// What can go wrong around a session.
#[derive(Clone, Copy, Debug, PartialEq, Eq, Structural)]
pub enum SessionError {
    /// The signalling channel gave an error. Polling again later may work.
    SignalingUnavailable,
    /// The session cannot start: the match has begun already and the channel
    /// is gone, matchmaking has not begun yet, or a peer is listed twice.
    SessionStartError,
    /// A tick was asked for before every peer's frame was there.
    MissingInputFrame,
}

/// A session as the contracts see it.
#[verifier::ext_equal]
pub struct SessionModel {
    /// The peers; a peer's handle is its place in this sequence.
    pub peers: Seq<Peer>,
    /// Ticks by which local input is held back.
    pub input_delay: nat,
    /// The local frames that are not due yet, oldest first.
    pub pending: Seq<InputFrame>,
    /// The inputs of the ticks that the simulation has consumed, first to
    /// last, each with one frame for each peer, by handle.
    pub log: Seq<Seq<InputFrame>>,
}

impl SessionModel {
    /// The right number of peers, none of them twice, and as many local frames
    /// held back as the delay says.
    pub open spec fn wf(self) -> bool {
        &&& self.peers.len() == PEER_COUNT
        &&& self.peers.no_duplicates()
        &&& self.pending.len() == self.input_delay
    }

    /// The session that starts with these peers: handles in the order of
    /// joining, the fixed delay, neutral frames held back, nothing consumed.
    pub open spec fn fresh(peers: Seq<Peer>) -> SessionModel {
        SessionModel {
            peers,
            input_delay: INPUT_DELAY as nat,
            pending: Seq::new(INPUT_DELAY as nat, |i: int| InputFrame(0)),
            log: Seq::empty(),
        }
    }

    /// The frame that reaches the simulation when the local controls give
    /// `frame`: the oldest one held back, or `frame` itself without a delay.
    pub open spec fn due(self, frame: InputFrame) -> InputFrame {
        self.pending.push(frame)[0]
    }

    /// The session after the local controls gave `frame`.
    pub open spec fn delayed(self, frame: InputFrame) -> SessionModel {
        SessionModel { pending: self.pending.push(frame).drop_first(), ..self }
    }

    /// The session after a tick with these inputs was consumed.
    pub open spec fn logged(self, inputs: Seq<InputFrame>) -> SessionModel {
        SessionModel { log: self.log.push(inputs), ..self }
    }
}

/// Whether every peer's frame is there: one slot for each peer, none empty.
pub open spec fn complete(slots: Seq<Option<InputFrame>>) -> bool {
    &&& slots.len() == PEER_COUNT
    &&& forall|i: int| 0 <= i < slots.len() ==> (#[trigger] slots[i]) is Some
}

/// The frames that the slots hold, in their order.
pub open spec fn frames_of(slots: Seq<Option<InputFrame>>) -> Seq<InputFrame> {
    Seq::new(slots.len(), |i: int| slots[i].unwrap())
}

/// A running session: its peers, its input delay and the log of what the
/// simulation has consumed.
#[derive(Debug)]
pub struct Session {
    peers: Vec<Peer>,
    input_delay: usize,
    pending: Vec<InputFrame>,
    log: Vec<TickInputs>,
}

impl View for Session {
    type V = SessionModel;

    closed spec fn view(&self) -> SessionModel {
        SessionModel {
            peers: self.peers@,
            input_delay: self.input_delay as nat,
            pending: self.pending@,
            log: tick_models(self.log@),
        }
    }
}

impl Session {
    /// The invariant of a session: see [`SessionModel::wf`].
    pub open spec fn wf(&self) -> bool {
        self@.wf()
    }

    /// The peers, by handle.
    pub fn peers(&self) -> (r: &Vec<Peer>)
        ensures
            r@ == self@.peers,
    {
        &self.peers
    }

    /// The peer with this handle, if the handle is one of the session.
    pub fn peer(&self, handle: usize) -> (r: Option<Peer>)
        ensures
            r == if handle < self@.peers.len() {
                Some(self@.peers[handle as int])
            } else {
                None
            },
    {
        if handle < self.peers.len() {
            Some(self.peers[handle])
        } else {
            None
        }
    }

    /// The handle of a peer: its place in the order of joining. A stranger
    /// has none.
    pub fn handle_of(&self, peer: Peer) -> (r: Option<usize>)
        requires
            self.wf(),
        ensures
            r matches Some(h) ==> h < self@.peers.len() && self@.peers[h as int] == peer,
            r is None ==> !self@.peers.contains(peer),
            forall|h: int|
                0 <= h < self@.peers.len() && self@.peers[h] == peer ==> r == Some(h as usize),
    {
        let mut h: usize = 0;
        while h < self.peers.len()
            invariant
                h <= self.peers@.len(),
                self.wf(),
                forall|j: int| 0 <= j < h ==> self.peers@[j] != peer,
            decreases self.peers@.len() - h,
        {
            if self.peers[h] == peer {
                return Some(h);
            }
            h += 1;
        }
        None
    }

    /// Ticks by which local input is held back.
    pub fn input_delay(&self) -> (r: usize)
        ensures
            r == self@.input_delay,
    {
        self.input_delay
    }

    /// Ticks that the simulation has consumed.
    pub fn ticks(&self) -> (r: usize)
        ensures
            r == self@.log.len(),
    {
        self.log.len()
    }

    /// The inputs of the consumed ticks, first to last: what a rollback
    /// replays.
    pub fn log(&self) -> (r: &Vec<TickInputs>)
        ensures
            tick_models(r@) == self@.log,
    {
        &self.log
    }

    /// Takes the frame that the local controls give now and hands out the
    /// frame that is due now: the one given `input_delay` ticks ago, and a
    /// neutral frame while the session is younger than that.
    pub fn delay_local(&mut self, frame: InputFrame) -> (due: InputFrame)
        requires
            old(self).wf(),
        ensures
            final(self).wf(),
            due == old(self)@.due(frame),
            final(self)@ == old(self)@.delayed(frame),
    {
        self.pending.push(frame);
        let due = self.pending.remove(0);
        assert(self.pending@ =~= old(self).pending@.push(frame).drop_first());
        due
    }

    /// Puts the frames of one tick in handle order, provided each peer's frame
    /// is there.
    pub fn gather(slots: &[Option<InputFrame>]) -> (r: Result<TickInputs, SessionError>)
        ensures
            r is Ok <==> complete(slots@),
            r matches Ok(inputs) ==> inputs@ == frames_of(slots@),
            r matches Err(e) ==> e == SessionError::MissingInputFrame,
    {
        if slots.len() != PEER_COUNT {
            return Err(SessionError::MissingInputFrame);
        }
        match (slots[0], slots[1]) {
            (Some(first), Some(second)) => {
                let inputs: TickInputs = [first, second];
                assert forall|i: int| 0 <= i < slots@.len() implies (
                #[trigger] slots@[i]) is Some by {
                    if i == 0 {
                    } else {
                        assert(i == 1);
                    }
                }
                assert(inputs@ =~= frames_of(slots@));
                Ok(inputs)
            },
            _ => Err(SessionError::MissingInputFrame),
        }
    }

    /// Consumes one tick: where every peer's frame is there, the frames go to
    /// the log and the world advances by them. Where one is missing, nothing
    /// changes.
    pub fn advance(&mut self, world: &mut World, slots: &[Option<InputFrame>]) -> (r: Result<
        (),
        SessionError,
    >)
        requires
            old(self).wf(),
            old(world).wf(),
            old(world)@.can_fly(1),
        ensures
            final(self).wf(),
            final(world).wf(),
            r is Ok <==> complete(slots@),
            r is Ok ==> {
                &&& final(self)@ == old(self)@.logged(frames_of(slots@))
                &&& final(world)@ == old(world)@.step(frames_of(slots@))
            },
            r matches Err(e) ==> {
                &&& e == SessionError::MissingInputFrame
                &&& final(self)@ == old(self)@
                &&& final(world)@ == old(world)@
            },
    {
        match Session::gather(slots) {
            Ok(inputs) => {
                self.log.push(inputs);
                world.advance(&inputs);
                assert(tick_models(self.log@) =~= tick_models(old(self).log@).push(inputs@));
                Ok(())
            },
            Err(e) => Err(e),
        }
    }
}

/// Leads the game from loading through matchmaking into the match. The road
/// has one direction: no operation ever takes the state back.
#[derive(Debug)]
pub struct SessionManager {
    state: GameState,
}

impl View for SessionManager {
    type V = GameState;

    closed spec fn view(&self) -> GameState {
        self.state
    }
}

impl SessionManager {
    /// A manager at the start of the road: the assets are still loading.
    pub fn new() -> (m: SessionManager)
        ensures
            m@ == GameState::AssetLoading,
    {
        SessionManager { state: GameState::AssetLoading }
    }

    /// Where the game stands.
    pub fn state(&self) -> (s: GameState)
        ensures
            s == self@,
    {
        self.state
    }

    /// The assets are loaded: matchmaking begins. Later on this changes
    /// nothing.
    pub fn assets_loaded(&mut self)
        ensures
            final(self)@ == if old(self)@ == GameState::AssetLoading {
                GameState::Matchmaking
            } else {
                old(self)@
            },
            old(self)@.rank() <= final(self)@.rank(),
    {
        if self.state == GameState::AssetLoading {
            self.state = GameState::Matchmaking;
        }
    }

    /// Reads one report of the signalling channel: the peers that it knows, or
    /// nothing where the channel gave an error. Returns how many peers are
    /// known. It never waits and changes nothing.
    pub fn poll_peers(&self, report: &Option<Vec<Peer>>) -> (r: Result<usize, SessionError>)
        ensures
            r == match *report {
                Some(peers) => Ok::<usize, SessionError>(peers@.len() as usize),
                None => Err::<usize, SessionError>(SessionError::SignalingUnavailable),
            },
    {
        match report {
            Some(peers) => Ok(peers.len()),
            None => Err(SessionError::SignalingUnavailable),
        }
    }

    /// Starts the session with these peers, each at the handle of its place.
    /// This works once, during matchmaking, and with peers that all differ;
    /// the game is then in the match for good. Otherwise the state stays.
    pub fn start_session(&mut self, peers: Vec<Peer>) -> (r: Result<Session, SessionError>)
        requires
            peers@.len() == PEER_COUNT,
        ensures
            r is Ok <==> old(self)@ == GameState::Matchmaking && peers@.no_duplicates(),
            r matches Ok(session) ==> {
                &&& session.wf()
                &&& session@ == SessionModel::fresh(peers@)
                &&& final(self)@ == GameState::InGame
            },
            r matches Err(e) ==> {
                &&& e == SessionError::SessionStartError
                &&& final(self)@ == old(self)@
            },
            old(self)@.rank() <= final(self)@.rank(),
    {
        if self.state != GameState::Matchmaking {
            return Err(SessionError::SessionStartError);
        }
        if !all_differ(&peers) {
            return Err(SessionError::SessionStartError);
        }
        let mut pending: Vec<InputFrame> = Vec::new();
        let mut i: usize = 0;
        while i < INPUT_DELAY
            invariant
                i <= INPUT_DELAY,
                pending@.len() == i,
                forall|j: int| 0 <= j < i ==> pending@[j] == InputFrame(0),
            decreases INPUT_DELAY - i,
        {
            pending.push(InputFrame(0));
            i += 1;
        }
        self.state = GameState::InGame;
        let session = Session { peers, input_delay: INPUT_DELAY, pending, log: Vec::new() };
        assert(session@ =~= SessionModel::fresh(peers@));
        Ok(session)
    }

    /// One round of matchmaking on one report of the signalling channel.
    ///
    /// Outside matchmaking there is nothing to do. During it, an error of the
    /// channel is handed on for the caller to poll again; any number of peers
    /// but the required one means waiting; with exactly the required number
    /// the session starts, or fails to where a peer is listed twice.
    pub fn wait_for_players(&mut self, report: Option<Vec<Peer>>) -> (r: Result<
        Option<Session>,
        SessionError,
    >)
        ensures
            old(self)@ != GameState::Matchmaking ==> r == Ok::<Option<Session>, SessionError>(None),
            old(self)@ == GameState::Matchmaking ==> match report {
                None => r == Err::<Option<Session>, SessionError>(
                    SessionError::SignalingUnavailable,
                ),
                Some(peers) => if peers@.len() != PEER_COUNT {
                    r == Ok::<Option<Session>, SessionError>(None)
                } else if peers@.no_duplicates() {
                    r matches Ok(Some(session)) && session.wf() && session@ == SessionModel::fresh(
                        peers@,
                    )
                } else {
                    r == Err::<Option<Session>, SessionError>(SessionError::SessionStartError)
                },
            },
            final(self)@ == if r matches Ok(Some(_)) {
                GameState::InGame
            } else {
                old(self)@
            },
            old(self)@.rank() <= final(self)@.rank(),
    {
        if self.state != GameState::Matchmaking {
            return Ok(None);
        }
        match report {
            None => Err(SessionError::SignalingUnavailable),
            Some(peers) => {
                if peers.len() != PEER_COUNT {
                    return Ok(None);
                }
                match self.start_session(peers) {
                    Ok(session) => Ok(Some(session)),
                    Err(e) => Err(e),
                }
            },
        }
    }
}

/// Whether no peer is listed twice.
pub fn all_differ(peers: &Vec<Peer>) -> (r: bool)
    ensures
        r == peers@.no_duplicates(),
{
    let mut i: usize = 0;
    while i < peers.len()
        invariant
            i <= peers@.len(),
            forall|a: int, b: int| 0 <= a < i && 0 <= b < a ==> peers@[a] != peers@[b],
        decreases peers@.len() - i,
    {
        let mut k: usize = 0;
        while k < i
            invariant
                k <= i,
                i < peers@.len(),
                forall|b: int| 0 <= b < k ==> peers@[i as int] != peers@[b],
            decreases i - k,
        {
            if peers[i] == peers[k] {
                return false;
            }
            k += 1;
        }
        i += 1;
    }
    assert forall|a: int, b: int|
        0 <= a < peers@.len() && 0 <= b < peers@.len() && a != b implies peers@[a] != peers@[b] by {
        if b < a {
        } else {
            assert(peers@[b] != peers@[a]);
        }
    }
    true
}

} // verus!
