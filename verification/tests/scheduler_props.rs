use flywheel::data::ChunkPos;
use flywheel::event::{decode, Event};
use flywheel::registry::EventKind;
use flywheel::scheduler::{Action, App};

fn join_args(session: u64) -> Vec<u8> {
    session.to_le_bytes().to_vec()
}

fn chunk_args(session: u64, x: i32, z: i32) -> Vec<u8> {
    let mut v = session.to_le_bytes().to_vec();
    v.extend_from_slice(&x.to_le_bytes());
    v.extend_from_slice(&z.to_le_bytes());
    v
}

#[test]
fn decode_player_joined() {
    let ev = decode(&"flywheel_player_joined".to_string(), &join_args(7)).unwrap();
    assert!(matches!(ev, Event::PlayerJoined { session: 7 }));
}

#[test]
fn decode_player_left() {
    let ev = decode(&"flywheel_player_left".to_string(), &join_args(u64::MAX)).unwrap();
    assert!(matches!(ev, Event::PlayerLeft { session: u64::MAX }));
}

#[test]
fn decode_chunk_events() {
    let ev = decode(&"flywheel_world_chunk_loading".to_string(), &chunk_args(3, -4, 17)).unwrap();
    match ev {
        Event::ChunkLoading { session, chunk } => {
            assert_eq!(session, 3);
            assert_eq!(chunk, ChunkPos::new(-4, 17));
        }
        _ => panic!("wrong event"),
    }
    let ev = decode(&"flywheel_world_chunk_unloaded".to_string(), &chunk_args(3, 1, -1)).unwrap();
    assert!(matches!(ev, Event::ChunkUnloaded { session: 3, .. }));
}

#[test]
fn decode_rejects_short_buffers() {
    assert!(decode(&"flywheel_player_joined".to_string(), &vec![0u8; 7]).is_none());
    assert!(decode(&"flywheel_world_chunk_loading".to_string(), &join_args(1)).is_none());
}

#[test]
fn decode_unknown_kind_keeps_it() {
    let ev = decode(&"flywheel_weather_changed".to_string(), &Vec::new()).unwrap();
    match ev {
        Event::Unknown { kind } => assert_eq!(kind, "flywheel_weather_changed"),
        _ => panic!("wrong event"),
    }
}

#[test]
fn start_fires_started_handlers_in_order() {
    let mut app = App::new();
    app.register(EventKind::Started, 100);
    app.register(EventKind::Started, 101);
    assert!(!app.is_running());
    let actions = app.start();
    assert!(app.is_running());
    assert_eq!(actions.len(), 2);
    match (&actions[0], &actions[1]) {
        (
            Action::Spawn { task: t0, handler: h0, event: Event::Started },
            Action::Spawn { task: t1, handler: h1, event: Event::Started },
        ) => {
            assert_eq!(*h0, 100);
            assert_eq!(*h1, 101);
            assert_ne!(*t0, *t1);
        }
        _ => panic!("expected two spawns"),
    }
    assert_eq!(app.pending().len(), 2);
}

#[test]
fn one_envelope_spawns_each_registered_handler() {
    let mut app = App::new();
    app.register(EventKind::PlayerJoined, 1);
    app.register(EventKind::PlayerJoined, 2);
    let _ = app.start();
    assert_eq!(app.pending().len(), 0);

    // the activation pulls its single envelope before any spawned unit is
    // advanced: the two new units are polled only from the next activation
    let plan = app.pending();
    let completed: Vec<bool> = plan.iter().map(|_| false).collect();
    app.advance(&completed);
    let actions = app.handle_envelope(&"flywheel_player_joined".to_string(), &join_args(7));
    assert_eq!(actions.len(), 2);
    match (&actions[0], &actions[1]) {
        (
            Action::Spawn { handler: h0, event: Event::PlayerJoined { session: s0 }, .. },
            Action::Spawn { handler: h1, event: Event::PlayerJoined { session: s1 }, .. },
        ) => {
            assert_eq!((*h0, *s0), (1, 7));
            assert_eq!((*h1, *s1), (2, 7));
        }
        _ => panic!("expected two spawns with session 7"),
    }
    assert_eq!(app.pending().len(), 2);
}

#[test]
fn chunk_loading_without_handlers_marks_ready() {
    let mut app = App::new();
    let _ = app.start();
    let actions =
        app.handle_envelope(&"flywheel_world_chunk_loading".to_string(), &chunk_args(9, 2, -3));
    assert_eq!(actions.len(), 1);
    match &actions[0] {
        Action::MarkReady { session, chunk } => {
            assert_eq!(*session, 9);
            assert_eq!(*chunk, ChunkPos::new(2, -3));
        }
        _ => panic!("expected the default mark-ready action"),
    }
    assert_eq!(app.pending().len(), 0);
}

#[test]
fn chunk_loading_with_handler_spawns_it() {
    let mut app = App::new();
    app.register(EventKind::ChunkLoading, 5);
    let _ = app.start();
    let actions =
        app.handle_envelope(&"flywheel_world_chunk_loading".to_string(), &chunk_args(9, 2, -3));
    assert_eq!(actions.len(), 1);
    assert!(matches!(actions[0], Action::Spawn { handler: 5, .. }));
}

#[test]
fn chunk_unloaded_without_handlers_does_nothing() {
    let mut app = App::new();
    let _ = app.start();
    let actions =
        app.handle_envelope(&"flywheel_world_chunk_unloaded".to_string(), &chunk_args(9, 2, -3));
    assert!(actions.is_empty());
}

#[test]
fn unknown_envelope_never_stops_the_loop() {
    let mut app = App::new();
    app.register(EventKind::PlayerJoined, 1);
    let _ = app.start();
    let actions = app.handle_envelope(&"flywheel_eclipse".to_string(), &Vec::new());
    assert!(actions.is_empty());
    // the loop still works afterwards
    let actions = app.handle_envelope(&"flywheel_player_joined".to_string(), &join_args(4));
    assert_eq!(actions.len(), 1);
}

#[test]
fn advance_removes_completed_tasks_in_order() {
    let mut app = App::new();
    app.register(EventKind::Started, 10);
    app.register(EventKind::Started, 11);
    app.register(EventKind::Started, 12);
    let _ = app.start();
    let plan = app.pending();
    assert_eq!(plan.len(), 3);
    app.advance(&vec![false, true, false]);
    let rest = app.pending();
    assert_eq!(rest, vec![plan[0], plan[2]]);
    app.advance(&vec![true, true]);
    assert!(app.pending().is_empty());
}

#[test]
fn task_ids_stay_distinct_across_dispatches() {
    let mut app = App::new();
    app.register(EventKind::PlayerJoined, 1);
    app.register(EventKind::PlayerLeft, 2);
    let _ = app.start();
    let a = app.handle_envelope(&"flywheel_player_joined".to_string(), &join_args(1));
    let b = app.handle_envelope(&"flywheel_player_left".to_string(), &join_args(1));
    let (ta, tb) = match (&a[0], &b[0]) {
        (Action::Spawn { task: ta, .. }, Action::Spawn { task: tb, .. }) => (*ta, *tb),
        _ => panic!("expected spawns"),
    };
    assert_ne!(ta, tb);
    assert_eq!(app.pending(), vec![ta, tb]);
}
