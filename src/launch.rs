//! Composition of the command that starts a game through its compatibility
//! tool, and the launch steps that move the runtime along.
use vstd::prelude::*;
use crate::runtime::GameRuntime;

verus! {

/// Environment variable that receives the game prefix.
pub const COMPAT_DATA_PATH: &'static str = "STEAM_COMPAT_DATA_PATH";

/// Second environment variable that receives the game prefix.
pub const COMPAT_CLIENT_INSTALL_PATH: &'static str = "STEAM_COMPAT_CLIENT_INSTALL_PATH";

/// First argument handed to every compatibility tool.
pub const RUN_VERB: &'static str = "run";

/// An external wrapper executable that runs games, with its environment.
#[derive(Clone, Debug, PartialEq, Eq)]
pub struct CompatTool {
    pub id: i64,
    pub name: String,
    pub executable: String,
    pub environment: Vec<(String, String)>,
}

/// How one game is started.
#[derive(Clone, Debug, PartialEq, Eq)]
pub struct GameConfig {
    pub arguments: Vec<String>,
    pub working_directory: String,
    pub game_prefix: String,
    pub executable: String,
    pub environment: Vec<(String, String)>,
    pub archive_file: String,
}

/// A process to spawn: program, arguments after the program, working
/// directory, and environment entries with distinct keys.
#[derive(Clone, Debug, PartialEq, Eq)]
pub struct LaunchCommand {
    pub program: String,
    pub arguments: Vec<String>,
    pub working_directory: String,
    pub environment: Vec<(String, String)>,
}

/// Why a launch did not start a game.
#[derive(Clone, Copy, Debug, PartialEq, Eq, Structural)]
pub enum LaunchError {
    /// Another session is running; nothing was changed.
    AlreadyRunning,
    /// The game's compatibility tool or launch configuration is missing.
    ConfigNotFound,
    /// The operating system could not start the process.
    LaunchFailed,
}

/// The outcome of asking the operating system to start a process.
#[derive(Clone, Copy, Debug, PartialEq, Eq, Structural)]
pub enum SpawnOutcome {
    /// No process was started.
    Failed,
    /// A process was started; its id, where the system reported one.
    Started(Option<u32>),
}

/// The texts of a sequence of strings.
pub open spec fn texts(v: Seq<String>) -> Seq<Seq<char>> {
    v.map_values(|s: String| s@)
}

/// The map that a list of environment entries sets, later entries overriding
/// earlier ones of the same key.
pub open spec fn env_map(env: Seq<(String, String)>) -> Map<Seq<char>, Seq<char>>
    decreases env.len(),
{
    if env.len() == 0 {
        Map::empty()
    } else {
        env_map(env.drop_last()).insert(env.last().0@, env.last().1@)
    }
}

/// No two entries share a key.
pub open spec fn keys_unique(env: Seq<(String, String)>) -> bool {
    forall|i: int, j: int|
        0 <= i < j < env.len() ==> #[trigger] env[i].0@ != #[trigger] env[j].0@
}

/// The environment of a launch: the tool's variables, overridden by the
/// game's where both set a key, then both prefix variables set to the game
/// prefix whatever either map held for them.
pub open spec fn launch_environment(
    tool_env: Seq<(String, String)>,
    game_env: Seq<(String, String)>,
    prefix: Seq<char>,
) -> Map<Seq<char>, Seq<char>> {
    env_map(tool_env).union_prefer_right(env_map(game_env)).insert(COMPAT_DATA_PATH@, prefix).insert(
        COMPAT_CLIENT_INSTALL_PATH@,
        prefix,
    )
}

/// The arguments a compatibility tool receives: the run verb, the game's
/// executable, then the game's own arguments.
pub open spec fn launch_arguments(config: GameConfig) -> Seq<Seq<char>> {
    seq![RUN_VERB@, config.executable@] + texts(config.arguments@)
}

/// `cmd` starts the game of `config` through `tool`.
pub open spec fn composes(cmd: LaunchCommand, tool: CompatTool, config: GameConfig) -> bool {
    &&& cmd.program@ == tool.executable@
    &&& texts(cmd.arguments@) == launch_arguments(config)
    &&& cmd.working_directory@ == config.working_directory@
    &&& keys_unique(cmd.environment@)
    &&& env_map(cmd.environment@) == launch_environment(
        tool.environment@,
        config.environment@,
        config.game_prefix@,
    )
}

/// The prefix variables always hold the game prefix; any other variable takes
/// the game's value where the game sets it, else the tool's value, and is
/// unset where neither sets it.
pub proof fn lemma_environment_precedence(
    tool_env: Seq<(String, String)>,
    game_env: Seq<(String, String)>,
    prefix: Seq<char>,
    key: Seq<char>,
)
    ensures
        ({
            let env = launch_environment(tool_env, game_env, prefix);
            let tool = env_map(tool_env);
            let game = env_map(game_env);
            if key == COMPAT_DATA_PATH@ || key == COMPAT_CLIENT_INSTALL_PATH@ {
                env.contains_key(key) && env[key] == prefix
            } else if game.contains_key(key) {
                env.contains_key(key) && env[key] == game[key]
            } else if tool.contains_key(key) {
                env.contains_key(key) && env[key] == tool[key]
            } else {
                !env.contains_key(key)
            }
        }),
{
}

/// Replacing the value of an existing key overrides it in the map.
proof fn lemma_env_map_update(env: Seq<(String, String)>, i: int, entry: (String, String))
    requires
        keys_unique(env),
        0 <= i < env.len(),
        env[i].0@ == entry.0@,
    ensures
        env_map(env.update(i, entry)) == env_map(env).insert(entry.0@, entry.1@),
    decreases env.len(),
{
    let last = env.len() - 1;
    let init = env.drop_last();
    if i == last {
        assert(env.update(i, entry).drop_last() == init);
        assert(env_map(env.update(i, entry)) =~= env_map(env).insert(entry.0@, entry.1@));
    } else {
        assert forall|a: int, b: int| 0 <= a < b < init.len() implies init[a].0@ != init[b].0@ by {
            assert(init[a] == env[a] && init[b] == env[b]);
        }
        assert(init[i] == env[i]);
        lemma_env_map_update(init, i, entry);
        assert(env.update(i, entry).drop_last() == init.update(i, entry));
        assert(env[i].0@ != env[last].0@);
        assert(env_map(env.update(i, entry)) =~= env_map(env).insert(entry.0@, entry.1@));
    }
}

/// Sets `key` to `value`, replacing the entry of that key where there is one.
fn env_set(env: &mut Vec<(String, String)>, key: String, value: String)
    requires
        keys_unique(old(env)@),
    ensures
        keys_unique(final(env)@),
        env_map(final(env)@) == env_map(old(env)@).insert(key@, value@),
{
    let mut i: usize = 0;
    while i < env.len()
        invariant
            env@ == old(env)@,
            keys_unique(env@),
            i <= env@.len(),
            forall|j: int| 0 <= j < i ==> env@[j].0@ != key@,
        decreases env@.len() - i,
    {
        if env[i].0 == key {
            proof {
                lemma_env_map_update(env@, i as int, (key, value));
            }
            let ghost before = env@;
            env.set(i, (key, value));
            assert forall|a: int, b: int|
                0 <= a < b < env@.len() implies #[trigger] env@[a].0@ != #[trigger] env@[b].0@ by {
                assert(env@[a].0@ == before[a].0@);
                assert(env@[b].0@ == before[b].0@);
            }
            return;
        }
        i = i + 1;
    }
    let ghost before = env@;
    env.push((key, value));
    assert(env@.drop_last() == before);
    assert forall|a: int, b: int|
        0 <= a < b < env@.len() implies #[trigger] env@[a].0@ != #[trigger] env@[b].0@ by {
        assert(env@[a] == before[a]);
        if b < before.len() {
            assert(env@[b] == before[b]);
        }
    }
}

/// Sets every entry of `more` in order, later entries overriding earlier ones.
fn env_extend(env: &mut Vec<(String, String)>, more: &Vec<(String, String)>)
    requires
        keys_unique(old(env)@),
    ensures
        keys_unique(final(env)@),
        env_map(final(env)@) == env_map(old(env)@).union_prefer_right(env_map(more@)),
{
    let ghost start = env@;
    let mut i: usize = 0;
    assert(more@.take(0) == Seq::<(String, String)>::empty());
    assert(env_map(start).union_prefer_right(env_map(more@.take(0))) =~= env_map(start));
    while i < more.len()
        invariant
            i <= more@.len(),
            keys_unique(env@),
            env_map(env@) == env_map(start).union_prefer_right(env_map(more@.take(i as int))),
        decreases more@.len() - i,
    {
        let key = more[i].0.clone();
        let value = more[i].1.clone();
        env_set(env, key, value);
        assert(more@.take(i as int + 1).drop_last() == more@.take(i as int));
        assert(env_map(env@) =~= env_map(start).union_prefer_right(
            env_map(more@.take(i as int + 1)),
        ));
        i = i + 1;
    }
    assert(more@.take(more@.len() as int) == more@);
}

/// The environment of a launch, as entries with distinct keys: the tool's
/// variables, the game's variables overriding them, and both prefix
/// variables set to the game prefix.
pub fn merge_environment(tool: &CompatTool, config: &GameConfig) -> (env: Vec<(String, String)>)
    ensures
        keys_unique(env@),
        env_map(env@) == launch_environment(
            tool.environment@,
            config.environment@,
            config.game_prefix@,
        ),
{
    let mut env: Vec<(String, String)> = Vec::new();
    assert(env_map(env@) =~= Map::empty());
    env_extend(&mut env, &tool.environment);
    assert(Map::<Seq<char>, Seq<char>>::empty().union_prefer_right(env_map(tool.environment@))
        =~= env_map(tool.environment@));
    env_extend(&mut env, &config.environment);
    env_set(&mut env, COMPAT_DATA_PATH.to_string(), config.game_prefix.clone());
    env_set(&mut env, COMPAT_CLIENT_INSTALL_PATH.to_string(), config.game_prefix.clone());
    env
}

/// The command that starts the game of `config` through `tool`:
/// `<tool executable> run <game executable> <game arguments...>`, in the
/// game's working directory, with the merged environment.
pub fn compose_launch(tool: &CompatTool, config: &GameConfig) -> (cmd: LaunchCommand)
    ensures
        composes(cmd, *tool, *config),
{
    let mut arguments: Vec<String> = Vec::new();
    arguments.push(RUN_VERB.to_string());
    arguments.push(config.executable.clone());
    let mut i: usize = 0;
    while i < config.arguments.len()
        invariant
            i <= config.arguments@.len(),
            texts(arguments@) == seq![RUN_VERB@, config.executable@] + texts(
                config.arguments@.take(i as int),
            ),
        decreases config.arguments@.len() - i,
    {
        let ghost before = arguments@;
        arguments.push(config.arguments[i].clone());
        assert(texts(arguments@) =~= texts(before).push(config.arguments@[i as int]@));
        assert(texts(config.arguments@.take(i as int + 1)) =~= texts(
            config.arguments@.take(i as int),
        ).push(config.arguments@[i as int]@));
        i = i + 1;
    }
    assert(config.arguments@.take(config.arguments@.len() as int) == config.arguments@);
    LaunchCommand {
        program: tool.executable.clone(),
        arguments,
        working_directory: config.working_directory.clone(),
        environment: merge_environment(tool, config),
    }
}

/// The launch step after admission of session `token`, once the game's
/// compatibility tool and configuration have been looked up. Where either is
/// missing the session ends and the launch fails with `ConfigNotFound`;
/// otherwise the session's start time is recorded and the command to spawn is
/// returned.
pub fn prepare_launch(
    runtime: &mut GameRuntime,
    token: u64,
    tool: Option<CompatTool>,
    config: Option<GameConfig>,
    started_at: i64,
) -> (r: Result<LaunchCommand, LaunchError>)
    ensures
        match (tool, config) {
            (Some(t), Some(c)) => {
                &&& r matches Ok(cmd) && composes(cmd, t, c)
                &&& *final(runtime) == old(runtime).after_running_since(token, started_at)
            },
            _ => {
                &&& r == Err::<LaunchCommand, LaunchError>(LaunchError::ConfigNotFound)
                &&& *final(runtime) == old(runtime).after_end(token)
            },
        },
{
    match (tool, config) {
        (Some(t), Some(c)) => {
            runtime.set_running_since(token, started_at);
            Ok(compose_launch(&t, &c))
        },
        _ => {
            runtime.end_session(token);
            Err(LaunchError::ConfigNotFound)
        },
    }
}

/// The launch step after the spawn attempt of session `token`: a failed spawn
/// ends the session and fails with `LaunchFailed`; a started process has its
/// id recorded where the system reported one.
pub fn record_spawn(runtime: &mut GameRuntime, token: u64, outcome: SpawnOutcome) -> (r: Result<(), LaunchError>)
    ensures
        match outcome {
            SpawnOutcome::Failed => {
                &&& r == Err::<(), LaunchError>(LaunchError::LaunchFailed)
                &&& *final(runtime) == old(runtime).after_end(token)
            },
            SpawnOutcome::Started(Some(pid)) => {
                &&& r == Ok::<(), LaunchError>(())
                &&& *final(runtime) == old(runtime).after_pid(token, pid)
            },
            SpawnOutcome::Started(None) => {
                &&& r == Ok::<(), LaunchError>(())
                &&& *final(runtime) == *old(runtime)
            },
        },
{
    match outcome {
        SpawnOutcome::Failed => {
            runtime.end_session(token);
            Err(LaunchError::LaunchFailed)
        },
        SpawnOutcome::Started(Some(pid)) => {
            runtime.set_pid(token, pid);
            Ok(())
        },
        SpawnOutcome::Started(None) => Ok(()),
    }
}

} // verus!
