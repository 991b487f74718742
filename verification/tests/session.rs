use rollback_core::input::{InputFrame, INPUT_FIRE, INPUT_LEFT, INPUT_RIGHT, INPUT_UP};
use rollback_core::rendezvous::{decimal_text, room_url};
use rollback_core::session::{
    all_differ, GameState, Peer, Session, SessionError, SessionManager, INPUT_DELAY,
};
use rollback_core::model::PEER_COUNT;
use rollback_core::world::World;

fn matchmaking() -> SessionManager {
    let mut manager = SessionManager::new();
    manager.assets_loaded();
    manager
}

fn started() -> (SessionManager, Session) {
    let mut manager = matchmaking();
    let session = manager.start_session(vec![Peer(40), Peer(30)]).unwrap();
    (manager, session)
}

#[test]
fn the_road_into_the_match_has_one_direction() {
    let mut manager = SessionManager::new();
    assert_eq!(manager.state(), GameState::AssetLoading);
    manager.assets_loaded();
    assert_eq!(manager.state(), GameState::Matchmaking);
    manager.assets_loaded();
    assert_eq!(manager.state(), GameState::Matchmaking);
    manager.start_session(vec![Peer(1), Peer(2)]).unwrap();
    assert_eq!(manager.state(), GameState::InGame);
    manager.assets_loaded();
    assert_eq!(manager.state(), GameState::InGame);
}

#[test]
fn polling_counts_the_known_peers() {
    let manager = matchmaking();
    assert_eq!(manager.poll_peers(&Some(vec![])), Ok(0));
    assert_eq!(manager.poll_peers(&Some(vec![Peer(5)])), Ok(1));
    assert_eq!(manager.poll_peers(&Some(vec![Peer(5), Peer(6), Peer(7)])), Ok(3));
    assert_eq!(manager.poll_peers(&None), Err(SessionError::SignalingUnavailable));
    assert_eq!(manager.state(), GameState::Matchmaking);
}

#[test]
fn a_session_starts_once() {
    let (mut manager, session) = started();
    assert_eq!(session.peers(), &vec![Peer(40), Peer(30)]);
    assert_eq!(session.input_delay(), 2);
    assert_eq!(INPUT_DELAY, 2);
    assert_eq!(session.ticks(), 0);
    assert!(session.log().is_empty());
    let again = manager.start_session(vec![Peer(40), Peer(30)]);
    assert_eq!(again.err(), Some(SessionError::SessionStartError));
    assert_eq!(manager.state(), GameState::InGame);
}

#[test]
fn a_session_does_not_start_before_matchmaking() {
    let mut manager = SessionManager::new();
    let early = manager.start_session(vec![Peer(1), Peer(2)]);
    assert_eq!(early.err(), Some(SessionError::SessionStartError));
    assert_eq!(manager.state(), GameState::AssetLoading);
}

#[test]
fn a_peer_listed_twice_fails_the_start() {
    let mut manager = matchmaking();
    let twice = manager.start_session(vec![Peer(9), Peer(9)]);
    assert_eq!(twice.err(), Some(SessionError::SessionStartError));
    assert_eq!(manager.state(), GameState::Matchmaking);
    assert!(manager.start_session(vec![Peer(9), Peer(8)]).is_ok());
}

#[test]
fn waiting_for_players_round_by_round() {
    let mut manager = SessionManager::new();
    // Nothing happens while the assets load.
    assert!(matches!(manager.wait_for_players(Some(vec![Peer(1), Peer(2)])), Ok(None)));
    assert!(matches!(manager.wait_for_players(None), Ok(None)));
    assert_eq!(manager.state(), GameState::AssetLoading);
    manager.assets_loaded();

    assert_eq!(manager.wait_for_players(None).err(), Some(SessionError::SignalingUnavailable));
    assert!(matches!(manager.wait_for_players(Some(vec![])), Ok(None)));
    assert!(matches!(manager.wait_for_players(Some(vec![Peer(1)])), Ok(None)));
    assert!(matches!(manager.wait_for_players(Some(vec![Peer(1), Peer(2), Peer(3)])), Ok(None)));
    assert_eq!(
        manager.wait_for_players(Some(vec![Peer(1), Peer(1)])).err(),
        Some(SessionError::SessionStartError)
    );
    assert_eq!(manager.state(), GameState::Matchmaking);

    let session = manager.wait_for_players(Some(vec![Peer(2), Peer(1)])).unwrap().unwrap();
    assert_eq!(manager.state(), GameState::InGame);
    assert_eq!(session.peers(), &vec![Peer(2), Peer(1)]);
    assert_eq!(session.handle_of(Peer(2)), Some(0));

    // The match has begun: later rounds change nothing.
    assert!(matches!(manager.wait_for_players(Some(vec![Peer(3), Peer(4)])), Ok(None)));
    assert!(matches!(manager.wait_for_players(None), Ok(None)));
    assert_eq!(manager.state(), GameState::InGame);
}

#[test]
fn handles_follow_the_order_of_joining() {
    let (_, session) = started();
    assert_eq!(session.handle_of(Peer(40)), Some(0));
    assert_eq!(session.handle_of(Peer(30)), Some(1));
    assert_eq!(session.handle_of(Peer(50)), None);
    assert_eq!(session.peer(0), Some(Peer(40)));
    assert_eq!(session.peer(1), Some(Peer(30)));
    assert_eq!(session.peer(PEER_COUNT), None);
}

#[test]
fn distinct_peers() {
    assert!(all_differ(&vec![]));
    assert!(all_differ(&vec![Peer(1)]));
    assert!(all_differ(&vec![Peer(1), Peer(2), Peer(3)]));
    assert!(!all_differ(&vec![Peer(1), Peer(2), Peer(1)]));
    assert!(!all_differ(&vec![Peer(2), Peer(2)]));
    assert!(!all_differ(&vec![Peer(u128::MAX), Peer(0), Peer(7), Peer(u128::MAX)]));
}

#[test]
fn local_input_is_due_two_ticks_later() {
    let (_, mut session) = started();
    let given = [INPUT_UP, INPUT_LEFT, INPUT_FIRE, INPUT_RIGHT, 0, 31];
    let mut due = Vec::new();
    for bits in given {
        due.push(session.delay_local(InputFrame(bits)).0);
    }
    assert_eq!(due, vec![0, 0, INPUT_UP, INPUT_LEFT, INPUT_FIRE, INPUT_RIGHT]);
    assert_eq!(session.ticks(), 0);
    assert_eq!(session.peers(), &vec![Peer(40), Peer(30)]);
}

#[test]
fn a_tick_needs_every_frame() {
    let both = [Some(InputFrame(3)), Some(InputFrame(16))];
    assert_eq!(Session::gather(&both), Ok([InputFrame(3), InputFrame(16)]));
    let missing = SessionError::MissingInputFrame;
    assert_eq!(Session::gather(&[Some(InputFrame(3)), None]), Err(missing));
    assert_eq!(Session::gather(&[None, Some(InputFrame(3))]), Err(missing));
    assert_eq!(Session::gather(&[None, None]), Err(missing));
    assert_eq!(Session::gather(&[]), Err(missing));
    assert_eq!(Session::gather(&[Some(InputFrame(3))]), Err(missing));
    assert_eq!(
        Session::gather(&[Some(InputFrame(1)), Some(InputFrame(2)), Some(InputFrame(3))]),
        Err(missing)
    );
}

#[test]
fn consuming_a_tick_logs_it_and_moves_the_world() {
    let (_, mut session) = started();
    let mut world = World::new();
    let slots = [Some(InputFrame(INPUT_LEFT)), Some(InputFrame(INPUT_FIRE))];
    assert_eq!(session.advance(&mut world, &slots), Ok(()));
    assert_eq!(session.ticks(), 1);
    assert_eq!(session.log(), &vec![[InputFrame(INPUT_LEFT), InputFrame(INPUT_FIRE)]]);
    let mut expected = World::new();
    expected.advance(&[InputFrame(INPUT_LEFT), InputFrame(INPUT_FIRE)]);
    assert_eq!(world, expected);
}

#[test]
fn a_missing_frame_changes_nothing() {
    let (_, mut session) = started();
    let mut world = World::new();
    session.advance(&mut world, &[Some(InputFrame(INPUT_UP)), Some(InputFrame(0))]).unwrap();
    let before = world.clone();
    let outcome = session.advance(&mut world, &[Some(InputFrame(INPUT_UP)), None]);
    assert_eq!(outcome, Err(SessionError::MissingInputFrame));
    assert_eq!(world, before);
    assert_eq!(session.ticks(), 1);
    let outcome = session.advance(&mut world, &[Some(InputFrame(INPUT_UP))]);
    assert_eq!(outcome, Err(SessionError::MissingInputFrame));
    assert_eq!(world, before);
    assert_eq!(session.ticks(), 1);
}

#[test]
fn the_log_replays_to_the_same_world() {
    let (_, mut session) = started();
    let mut world = World::new();
    for t in 0u8..90 {
        let slots = [Some(InputFrame(t % 32)), Some(InputFrame((t / 3) % 32))];
        session.advance(&mut world, &slots).unwrap();
    }
    assert_eq!(session.ticks(), 90);
    let mut replayed = World::new();
    replayed.replay(session.log());
    assert_eq!(replayed, world);
}

#[test]
fn the_room_address() {
    assert_eq!(
        room_url("localhost", 3536, "extreme_bevy"),
        "ws://localhost:3536/extreme_bevy?next=2"
    );
    assert_eq!(room_url("10.0.0.7", 80, ""), "ws://10.0.0.7:80/?next=2");
    assert_eq!(room_url("", 0, "r"), "ws://:0/r?next=2");
    assert_eq!(room_url("h", u16::MAX, "a/b"), "ws://h:65535/a/b?next=2");
}

#[test]
fn numbers_in_decimal() {
    assert_eq!(decimal_text(0), "0");
    assert_eq!(decimal_text(7), "7");
    assert_eq!(decimal_text(10), "10");
    assert_eq!(decimal_text(109), "109");
    assert_eq!(decimal_text(1_234_567_890), "1234567890");
    assert_eq!(decimal_text(u64::MAX), "18446744073709551615");
}
