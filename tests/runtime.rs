use game_launcher::api::{routes, RuntimeEndpoint};
use game_launcher::runtime::GameRuntime;

#[test]
fn new_runtime_is_idle() {
    let rt = GameRuntime::new();
    let s = rt.status();
    assert!(!s.game_running);
    assert_eq!(s.current_game, None);
    assert_eq!(s.running_since, None);
    assert_eq!(s.pid, None);
}

#[test]
fn admission_admits_one_of_two_different_games() {
    let mut rt = GameRuntime::new();
    let first = rt.try_begin_session(7);
    let second = rt.try_begin_session(8);
    assert!(first.is_some());
    assert_eq!(second, None);
    let s = rt.status();
    assert!(s.game_running);
    assert_eq!(s.current_game, Some(7));
}

#[test]
fn admission_admits_one_of_two_same_games() {
    let mut rt = GameRuntime::new();
    let first = rt.try_begin_session(3);
    let before = rt;
    let second = rt.try_begin_session(3);
    assert!(first.is_some());
    assert_eq!(second, None);
    assert_eq!(rt, before);
    assert_eq!(rt.status().current_game, Some(3));
}

#[test]
fn exited_session_frees_runtime() {
    let mut rt = GameRuntime::new();
    let token = rt.try_begin_session(5).unwrap();
    rt.set_running_since(token, 1_700_000_000);
    rt.set_pid(token, 4242);
    let s = rt.status();
    assert!(s.game_running);
    assert_eq!(s.running_since, Some(1_700_000_000));
    assert_eq!(s.pid, Some(4242));
    assert!(rt.end_session(token));
    assert!(!rt.status().game_running);
    let next = rt.try_begin_session(9);
    assert!(next.is_some());
    assert_eq!(rt.status().current_game, Some(9));
    assert_eq!(rt.status().pid, None);
}

#[test]
fn terminate_on_idle_changes_nothing() {
    let mut rt = GameRuntime::new();
    let before = rt;
    assert_eq!(rt.terminate(), None);
    assert_eq!(rt, before);
}

#[test]
fn terminate_signals_recorded_pid() {
    let mut rt = GameRuntime::new();
    let token = rt.try_begin_session(1).unwrap();
    rt.set_pid(token, 31337);
    assert_eq!(rt.terminate(), Some(31337));
    assert!(!rt.status().game_running);
}

#[test]
fn terminate_before_pid_signals_nothing() {
    let mut rt = GameRuntime::new();
    rt.try_begin_session(1).unwrap();
    assert_eq!(rt.terminate(), None);
    assert!(!rt.status().game_running);
}

#[test]
fn terminate_skips_pid_outside_i32() {
    let mut rt = GameRuntime::new();
    let token = rt.try_begin_session(1).unwrap();
    rt.set_pid(token, u32::MAX);
    assert_eq!(rt.terminate(), None);
    assert!(!rt.status().game_running);
}

#[test]
fn stale_session_end_leaves_new_session_running() {
    let mut rt = GameRuntime::new();
    let old_token = rt.try_begin_session(1).unwrap();
    rt.terminate();
    let new_token = rt.try_begin_session(2).unwrap();
    assert_ne!(old_token, new_token);
    assert!(!rt.end_session(old_token));
    rt.set_pid(old_token, 11);
    let s = rt.status();
    assert!(s.game_running);
    assert_eq!(s.current_game, Some(2));
    assert_eq!(s.pid, None);
}

#[test]
fn generation_wraps_at_top() {
    let mut rt = GameRuntime::new();
    rt.generation = u64::MAX;
    assert_eq!(rt.try_begin_session(4), Some(0));
}

#[test]
fn routes_list_runtime_operations() {
    assert_eq!(
        routes(),
        vec![
            RuntimeEndpoint::Status,
            RuntimeEndpoint::Terminate,
            RuntimeEndpoint::Launch,
            RuntimeEndpoint::History,
        ]
    );
}
