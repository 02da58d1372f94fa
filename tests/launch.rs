use std::collections::HashMap;

use game_launcher::launch::{
    compose_launch, merge_environment, prepare_launch, record_spawn, CompatTool, GameConfig,
    LaunchError, SpawnOutcome,
};
use game_launcher::runtime::GameRuntime;

fn pairs(entries: &[(&str, &str)]) -> Vec<(String, String)> {
    entries.iter().map(|(k, v)| (k.to_string(), v.to_string())).collect()
}

fn tool(env: &[(&str, &str)]) -> CompatTool {
    CompatTool {
        id: 1,
        name: "proton".to_string(),
        executable: "/opt/proton/proton".to_string(),
        environment: pairs(env),
    }
}

fn config(env: &[(&str, &str)]) -> GameConfig {
    GameConfig {
        arguments: vec!["-windowed".to_string(), "-nointro".to_string()],
        working_directory: "/games/demo".to_string(),
        game_prefix: "/prefixes/demo".to_string(),
        executable: "/games/demo/demo.exe".to_string(),
        environment: pairs(env),
        archive_file: String::new(),
    }
}

fn as_map(env: &[(String, String)]) -> HashMap<String, String> {
    let map: HashMap<String, String> = env.iter().cloned().collect();
    assert_eq!(map.len(), env.len(), "keys must be distinct");
    map
}

#[test]
fn environment_precedence() {
    let env = merge_environment(&tool(&[("A", "1"), ("B", "2")]), &config(&[("B", "9"), ("C", "3")]));
    let map = as_map(&env);
    let mut expected: HashMap<String, String> = HashMap::new();
    expected.insert("A".to_string(), "1".to_string());
    expected.insert("B".to_string(), "9".to_string());
    expected.insert("C".to_string(), "3".to_string());
    expected.insert("STEAM_COMPAT_DATA_PATH".to_string(), "/prefixes/demo".to_string());
    expected.insert("STEAM_COMPAT_CLIENT_INSTALL_PATH".to_string(), "/prefixes/demo".to_string());
    assert_eq!(map, expected);
}

#[test]
fn prefix_variables_override_both_maps() {
    let env = merge_environment(
        &tool(&[("STEAM_COMPAT_DATA_PATH", "tool"), ("STEAM_COMPAT_CLIENT_INSTALL_PATH", "tool")]),
        &config(&[("STEAM_COMPAT_DATA_PATH", "game")]),
    );
    let map = as_map(&env);
    assert_eq!(map.len(), 2);
    assert_eq!(map["STEAM_COMPAT_DATA_PATH"], "/prefixes/demo");
    assert_eq!(map["STEAM_COMPAT_CLIENT_INSTALL_PATH"], "/prefixes/demo");
}

#[test]
fn duplicate_keys_keep_last_value() {
    let env = merge_environment(&tool(&[("A", "1"), ("A", "2")]), &config(&[]));
    let map = as_map(&env);
    assert_eq!(map["A"], "2");
    assert_eq!(map.len(), 3);
}

#[test]
fn command_runs_game_through_tool() {
    let cmd = compose_launch(&tool(&[]), &config(&[]));
    assert_eq!(cmd.program, "/opt/proton/proton");
    assert_eq!(
        cmd.arguments,
        vec!["run", "/games/demo/demo.exe", "-windowed", "-nointro"]
    );
    assert_eq!(cmd.working_directory, "/games/demo");
}

#[test]
fn missing_config_ends_session() {
    let mut rt = GameRuntime::new();
    let token = rt.try_begin_session(2).unwrap();
    let r = prepare_launch(&mut rt, token, Some(tool(&[])), None, 50);
    assert_eq!(r.unwrap_err(), LaunchError::ConfigNotFound);
    assert!(!rt.status().game_running);
    let mut rt = GameRuntime::new();
    let token = rt.try_begin_session(2).unwrap();
    let r = prepare_launch(&mut rt, token, None, Some(config(&[])), 50);
    assert_eq!(r.unwrap_err(), LaunchError::ConfigNotFound);
    assert!(!rt.status().game_running);
}

#[test]
fn prepared_launch_records_start() {
    let mut rt = GameRuntime::new();
    let token = rt.try_begin_session(2).unwrap();
    let cmd = prepare_launch(&mut rt, token, Some(tool(&[])), Some(config(&[])), 1234).unwrap();
    assert_eq!(cmd.program, "/opt/proton/proton");
    let s = rt.status();
    assert!(s.game_running);
    assert_eq!(s.running_since, Some(1234));
}

#[test]
fn failed_spawn_ends_session() {
    let mut rt = GameRuntime::new();
    let token = rt.try_begin_session(2).unwrap();
    assert_eq!(record_spawn(&mut rt, token, SpawnOutcome::Failed), Err(LaunchError::LaunchFailed));
    assert!(!rt.status().game_running);
    assert!(rt.try_begin_session(3).is_some());
}

#[test]
fn started_spawn_records_pid() {
    let mut rt = GameRuntime::new();
    let token = rt.try_begin_session(2).unwrap();
    assert_eq!(record_spawn(&mut rt, token, SpawnOutcome::Started(Some(77))), Ok(()));
    assert_eq!(rt.status().pid, Some(77));
    assert_eq!(record_spawn(&mut rt, token, SpawnOutcome::Started(None)), Ok(()));
    assert_eq!(rt.status().pid, Some(77));
    assert!(rt.status().game_running);
}
