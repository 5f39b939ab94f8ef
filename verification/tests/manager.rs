//! End-to-end checks of the manager: templates, token resolution, launch
//! plans, the registry, and the screen state machine.

use mcp_manager::config::{ArgDefinition, ArgType, McpConfig, McpTemplate, McpType};
use mcp_manager::controller::{Effect, InputField, Key, KeyEvent, Screen, State, next_field,
    prev_field};
use mcp_manager::launcher::{build_launch_env, derive_session_name, env_string, prepare_launch,
    resolve_port};
use mcp_manager::resolver::build_command_tokens;
use mcp_manager::template::{apply_template_defaults, template_from_input, type_from_input};

fn plain(key: Key) -> KeyEvent {
    KeyEvent { key, ctrl: false, shift: false, alt: false }
}

fn ctrl(key: Key) -> KeyEvent {
    KeyEvent { key, ctrl: true, shift: false, alt: false }
}

fn fresh_state() -> State {
    State::new("/home/user".to_string())
}

fn config_with_template(name: &str, template: McpTemplate) -> McpConfig {
    let mut config = McpConfig::default();
    config.name = name.to_string();
    config.template = template;
    apply_template_defaults(&mut config);
    config
}

fn token_strings(config: &McpConfig) -> Vec<String> {
    build_command_tokens(config).expect("tokens should resolve")
}

#[test]
fn agent_template_declares_port_and_project_dir() {
    let config = config_with_template("A", McpTemplate::AgentMcp);
    let names: Vec<&str> = config.dynamic_args.iter().map(|a| a.name.as_str()).collect();
    assert_eq!(names, vec!["port", "project_dir"]);
    assert!(config.dynamic_args.iter().all(|a| a.required));
    assert_eq!(config.arg_values.get("port"), Some("8080".to_string()));
    assert_eq!(config.arg_values.get("project_dir"), None);
    assert_eq!(config.command, "uv".to_string());
    assert!(matches!(config.mcp_type, McpType::Http));
}

#[test]
fn filesystem_template_declares_one_positional_path() {
    let config = config_with_template("F", McpTemplate::FileSystem);
    assert_eq!(config.dynamic_args.len(), 1);
    assert_eq!(config.dynamic_args[0].name, "allowed_paths".to_string());
    assert_eq!(config.dynamic_args[0].flag, "".to_string());
    assert!(config.dynamic_args[0].required);
    assert_eq!(config.arg_values.get("allowed_paths"), Some("/home".to_string()));
}

#[test]
fn template_switch_discards_entered_values() {
    let mut config = config_with_template("S", McpTemplate::AgentMcp);
    config.arg_values.insert("project_dir".to_string(), "/tmp/x".to_string());
    config.template = McpTemplate::GitMcp;
    apply_template_defaults(&mut config);
    assert_eq!(config.arg_values.get("project_dir"), None);
    assert_eq!(config.arg_values.get("port"), None);
    assert_eq!(config.dynamic_args.len(), 1);
    assert_eq!(config.dynamic_args[0].name, "repo_path".to_string());
}

#[test]
fn boolean_flag_argument_omits_its_value_token() {
    let mut config = McpConfig::default();
    config.command = "run".to_string();
    config.dynamic_args.push(ArgDefinition {
        name: "verbose".to_string(),
        flag: "--verbose".to_string(),
        value_type: ArgType::Boolean,
        default: None,
        required: false,
        description: "chatty".to_string(),
    });
    config.arg_values.insert("verbose".to_string(), "yes".to_string());
    let tokens = token_strings(&config);
    assert_eq!(tokens, vec!["run".to_string(), "--verbose".to_string()]);
}

#[test]
fn non_boolean_flag_argument_keeps_flag_and_value() {
    let mut config = McpConfig::default();
    config.command = "run".to_string();
    config.dynamic_args.push(ArgDefinition {
        name: "level".to_string(),
        flag: "--level".to_string(),
        value_type: ArgType::Number,
        default: None,
        required: false,
        description: "how chatty".to_string(),
    });
    config.arg_values.insert("level".to_string(), "3".to_string());
    let tokens = token_strings(&config);
    assert_eq!(tokens, vec!["run".to_string(), "--level".to_string(), "3".to_string()]);
}

#[test]
fn empty_value_contributes_no_token() {
    let mut config = McpConfig::default();
    config.command = "run".to_string();
    config.dynamic_args.push(ArgDefinition {
        name: "path".to_string(),
        flag: "".to_string(),
        value_type: ArgType::Directory,
        default: None,
        required: false,
        description: "where".to_string(),
    });
    config.arg_values.insert("path".to_string(), "".to_string());
    assert_eq!(token_strings(&config), vec!["run".to_string()]);
}

#[test]
fn missing_required_argument_fails_resolution() {
    let config = config_with_template("M", McpTemplate::AgentMcp);
    let err = build_command_tokens(&config).err().expect("project_dir is missing");
    assert_eq!(err.name, "project_dir".to_string());
    let plan = prepare_launch(&config);
    assert!(plan.is_err());
}

#[test]
fn filesystem_scenario_resolves_default_tokens_and_session_name() {
    let config = config_with_template("Docs FS", McpTemplate::FileSystem);
    let tokens = token_strings(&config);
    assert_eq!(
        tokens,
        vec![
            "npx".to_string(),
            "-y".to_string(),
            "@modelcontextprotocol/server-filesystem".to_string(),
            "/home".to_string(),
        ]
    );
    let port = resolve_port(&config);
    assert_eq!(port, 0);
    let session = derive_session_name(config.name.as_str(), port);
    assert_eq!(session, "mcp-docs_fs".to_string());
}

#[test]
fn agent_scenario_resolves_tokens_env_and_session_name() {
    let mut config = config_with_template("Agent One", McpTemplate::AgentMcp);
    config.arg_values.insert("port".to_string(), "9090".to_string());
    config.arg_values.insert("project_dir".to_string(), "/srv/proj".to_string());
    let tokens = token_strings(&config);
    assert_eq!(
        tokens,
        vec![
            "uv".to_string(),
            "run".to_string(),
            "-m".to_string(),
            "agent_mcp.cli".to_string(),
            "--port".to_string(),
            "9090".to_string(),
            "--project-dir".to_string(),
            "/srv/proj".to_string(),
        ]
    );
    let port = resolve_port(&config);
    assert_eq!(port, 9090);
    let env = build_launch_env(&config, port);
    assert_eq!(env.get("PORT"), Some("9090".to_string()));
    assert!(env_string(&env).contains("PORT=9090"));
    let session = derive_session_name(config.name.as_str(), port);
    assert_eq!(session, "mcp-agent_one-9090".to_string());
}

#[test]
fn explicit_port_env_is_not_overwritten() {
    let mut config = config_with_template("E", McpTemplate::AgentMcp);
    config.env_vars.insert("PORT".to_string(), "7".to_string());
    let env = build_launch_env(&config, 9090);
    assert_eq!(env.get("PORT"), Some("7".to_string()));
}

#[test]
fn launch_plan_wraps_command_in_detached_session() {
    let mut config = config_with_template("Agent One", McpTemplate::AgentMcp);
    config.arg_values.insert("project_dir".to_string(), "/srv/proj".to_string());
    config.working_dir = Some("/srv".to_string());
    let plan = prepare_launch(&config).expect("all required values present");
    assert_eq!(plan.session_name, "mcp-agent_one-8080".to_string());
    assert_eq!(
        plan.shell_command,
        "tmux new-session -d -s mcp-agent_one-8080 -c '/srv' \
         'PORT=8080 uv run -m agent_mcp.cli --port 8080 --project-dir /srv/proj'"
            .to_string()
    );
    assert_eq!(plan.actual_port, Some(8080));
}

#[test]
fn activation_script_is_sourced_before_the_command() {
    let mut config = McpConfig::default();
    config.name = "Py".to_string();
    config.command = "python".to_string();
    config.activation_script = Some("/venv/bin/activate".to_string());
    let plan = prepare_launch(&config).expect("no required arguments");
    assert_eq!(
        plan.shell_command,
        "tmux new-session -d -s mcp-py 'source /venv/bin/activate && python'".to_string()
    );
}

#[test]
fn session_name_is_a_pure_function_of_name_and_port() {
    let a = derive_session_name("My Server", 80);
    let b = derive_session_name("My Server", 80);
    assert_eq!(a, b);
    assert_eq!(a, "mcp-my_server-80".to_string());
    assert_eq!(derive_session_name("My Server", 0), "mcp-my_server".to_string());
}

#[test]
fn relaunch_overwrites_the_registry_entry() {
    let mut state = fresh_state();
    let mut config = config_with_template("Same Name", McpTemplate::FileSystem);
    config.command = "npx".to_string();
    let eff = state.attempt_launch(config.duplicate());
    assert!(matches!(eff[0], Effect::SpawnSession(_)));
    state.handle_spawn_result(Ok(()), "10:00:00".to_string());
    assert_eq!(state.instances.len(), 1);
    let eff2 = state.attempt_launch(config);
    assert!(matches!(eff2[0], Effect::SpawnSession(_)));
    state.handle_spawn_result(Ok(()), "10:05:00".to_string());
    assert_eq!(state.instances.len(), 1);
    assert_eq!(state.instances.get_at(0).started_at, "10:05:00".to_string());
}

#[test]
fn template_words_select_templates() {
    assert!(matches!(template_from_input("Agent-MCP"), McpTemplate::AgentMcp));
    assert!(matches!(template_from_input("FS"), McpTemplate::FileSystem));
    assert!(matches!(template_from_input("nodejs"), McpTemplate::NodeProject));
    assert!(matches!(template_from_input("global"), McpTemplate::GlobalNpx));
    assert!(matches!(template_from_input("GIT"), McpTemplate::GitMcp));
    assert!(matches!(template_from_input("anything else"), McpTemplate::Custom));
    assert!(matches!(type_from_input("HTTP"), McpType::Http));
    assert!(matches!(type_from_input("sse"), McpType::Sse));
    assert!(matches!(type_from_input("weird"), McpType::Stdio));
}

#[test]
fn field_cycle_returns_to_start_for_every_template() {
    let fields = [
        InputField::Name,
        InputField::Template,
        InputField::Type,
        InputField::Command,
        InputField::Args,
        InputField::WorkingDir,
        InputField::EnvVars,
    ];
    let templates = [
        McpTemplate::Custom,
        McpTemplate::AgentMcp,
        McpTemplate::PythonProject,
        McpTemplate::NodeProject,
        McpTemplate::GlobalNpx,
        McpTemplate::FileSystem,
        McpTemplate::GitMcp,
    ];
    for t in templates {
        for f in fields {
            assert_eq!(prev_field(next_field(f, t), t), f);
            assert_eq!(next_field(prev_field(f, t), t), f);
        }
        if matches!(t, McpTemplate::PythonProject) {
            let f = InputField::ActivationScript;
            assert_eq!(prev_field(next_field(f, t), t), f);
            assert_eq!(next_field(prev_field(f, t), t), f);
        }
    }
}

#[test]
fn main_menu_keys_open_the_screens() {
    let mut state = fresh_state();
    let (render, _) = state.handle_key(plain(Key::Char('1')));
    assert!(render);
    assert!(matches!(state.screen, Screen::CurrentMcps));
    state.screen = Screen::MainMenu;
    state.handle_key(plain(Key::Char('2')));
    assert!(matches!(state.screen, Screen::LaunchMcp));
    state.screen = Screen::MainMenu;
    state.handle_key(plain(Key::Char('3')));
    assert!(matches!(state.screen, Screen::AddMcp));
    assert!(matches!(state.input_field, InputField::Name));
    state.screen = Screen::MainMenu;
    let (render, eff) = state.handle_key(plain(Key::Char('q')));
    assert!(!render);
    assert_eq!(eff.len(), 1);
    assert!(matches!(eff[0], Effect::Hide));
}

#[test]
fn unrecognized_keys_change_nothing() {
    let mut state = fresh_state();
    let (render, eff) = state.handle_key(plain(Key::Char('z')));
    assert!(!render);
    assert!(eff.is_empty());
    assert!(matches!(state.screen, Screen::MainMenu));
}

#[test]
fn missing_project_dir_aborts_launch_and_stays_on_configure_screen() {
    let mut state = fresh_state();
    state.load(Some("launch".to_string()));
    // The second seeded configuration is the agent example, which has no
    // project directory value yet.
    state.handle_key(plain(Key::Down));
    state.handle_key(plain(Key::Enter));
    assert!(matches!(state.screen, Screen::ConfigureArgs(_)));
    let (_, eff) = state.handle_key(plain(Key::Enter));
    assert!(eff.is_empty());
    assert!(matches!(state.screen, Screen::ConfigureArgs(_)));
    assert_eq!(
        state.error_message,
        Some("Required argument 'project_dir' is missing".to_string())
    );
    assert_eq!(state.instances.len(), 0);
}

#[test]
fn deleting_the_only_config_leaves_selection_at_zero_and_empty_state_message() {
    let mut state = fresh_state();
    let mut config = McpConfig::default();
    config.name = "Only".to_string();
    config.command = "run".to_string();
    state.configs.push(config);
    state.screen = Screen::LaunchMcp;
    state.selected_index = 0;
    let (_, eff) = state.handle_key(plain(Key::Char('d')));
    assert!(state.configs.is_empty());
    assert_eq!(state.selected_index, 0);
    assert!(matches!(eff[0], Effect::SaveConfigs));
    assert_eq!(state.success_message, Some("Configuration deleted".to_string()));
    let lines = state.render_launch_mcp();
    assert!(lines.iter().any(
        |l| l.as_str() == "No MCP servers configured. Press 'b' to go back and add one.",
    ));
}

#[test]
fn successful_spawn_registers_the_instance_and_opens_current_screen() {
    let mut state = fresh_state();
    let config = config_with_template("Docs FS", McpTemplate::FileSystem);
    state.screen = Screen::ConfigureArgs(config.duplicate());
    state.configs.push(config);
    state.selected_index = 0;
    let (_, eff) = state.handle_key(plain(Key::Enter));
    assert_eq!(eff.len(), 1);
    match &eff[0] {
        Effect::SpawnSession(cmd) => {
            assert_eq!(
                cmd,
                "tmux new-session -d -s mcp-docs_fs \
                 'npx -y @modelcontextprotocol/server-filesystem /home'"
            );
        },
        _ => panic!("a spawn was expected"),
    }
    state.handle_spawn_result(Ok(()), "12:00:00".to_string());
    assert!(matches!(state.screen, Screen::CurrentMcps));
    assert_eq!(state.instances.len(), 1);
    assert_eq!(state.instances.get_at(0).session_name, "mcp-docs_fs".to_string());
    assert_eq!(
        state.success_message,
        Some("Launched MCP: Docs FS in tmux session: mcp-docs_fs".to_string())
    );
}

#[test]
fn failed_spawn_reports_the_system_words_and_keeps_the_registry() {
    let mut state = fresh_state();
    let config = config_with_template("Docs FS", McpTemplate::FileSystem);
    state.screen = Screen::ConfigureArgs(config);
    state.handle_key(plain(Key::Enter));
    state.handle_spawn_result(Err("no such file".to_string()), "12:00:00".to_string());
    assert!(matches!(state.screen, Screen::ConfigureArgs(_)));
    assert_eq!(state.instances.len(), 0);
    assert_eq!(
        state.error_message,
        Some("Failed to launch MCP: no such file".to_string())
    );
}

#[test]
fn stop_kills_the_session_and_drops_the_record() {
    let mut state = fresh_state();
    let config = config_with_template("Docs FS", McpTemplate::FileSystem);
    state.attempt_launch(config);
    state.handle_spawn_result(Ok(()), "09:00:00".to_string());
    state.selected_index = 0;
    let (_, eff) = state.handle_key(plain(Key::Char('s')));
    assert_eq!(eff.len(), 1);
    match &eff[0] {
        Effect::KillSession(session) => assert_eq!(session, "mcp-docs_fs"),
        _ => panic!("a kill was expected"),
    }
    assert_eq!(state.instances.len(), 0);
    assert_eq!(state.success_message, Some("Stopped MCP: Docs FS".to_string()));
}

#[test]
fn restart_kills_and_spawns_the_snapshot_again() {
    let mut state = fresh_state();
    let config = config_with_template("Docs FS", McpTemplate::FileSystem);
    state.attempt_launch(config);
    state.handle_spawn_result(Ok(()), "09:00:00".to_string());
    state.selected_index = 0;
    let (_, eff) = state.handle_key(plain(Key::Char('r')));
    assert_eq!(eff.len(), 2);
    assert!(matches!(eff[0], Effect::KillSession(_)));
    assert!(matches!(eff[1], Effect::SpawnSession(_)));
    assert_eq!(state.instances.len(), 0);
    state.handle_spawn_result(Ok(()), "09:01:00".to_string());
    assert_eq!(state.instances.len(), 1);
    assert_eq!(state.instances.get_at(0).started_at, "09:01:00".to_string());
}

#[test]
fn editing_saves_back_under_the_old_name() {
    let mut state = fresh_state();
    state.load(None);
    state.screen = Screen::LaunchMcp;
    state.selected_index = 0;
    state.handle_key(plain(Key::Char('e')));
    assert!(matches!(state.screen, Screen::EditMcp(_)));
    assert_eq!(state.input_buffer, "File System MCP".to_string());
    // Rename the configuration, then walk to the last field and save.
    state.input_buffer = "Renamed FS".to_string();
    for _ in 0..8 {
        if matches!(state.input_field, InputField::EnvVars) {
            break;
        }
        state.handle_key(plain(Key::Tab));
    }
    assert!(matches!(state.input_field, InputField::EnvVars));
    let (_, eff) = state.handle_key(plain(Key::Enter));
    assert!(matches!(state.screen, Screen::LaunchMcp));
    assert!(eff.iter().any(|e| matches!(e, Effect::SaveConfigs)));
    assert_eq!(state.configs[0].name, "Renamed FS".to_string());
    assert_eq!(state.success_message, Some("Configuration saved".to_string()));
}

#[test]
fn saving_without_a_name_is_rejected() {
    let mut state = fresh_state();
    state.screen = Screen::AddMcp;
    state.input_field = InputField::EnvVars;
    let (_, eff) = state.handle_key(plain(Key::Enter));
    assert!(eff.is_empty());
    assert_eq!(state.error_message, Some("Name cannot be empty".to_string()));
    assert!(state.configs.is_empty());
    state.editing_config.name = "N".to_string();
    state.handle_key(plain(Key::Enter));
    assert_eq!(state.error_message, Some("Command cannot be empty".to_string()));
}

#[test]
fn typing_into_a_field_edits_the_buffer() {
    let mut state = fresh_state();
    state.screen = Screen::AddMcp;
    state.handle_key(plain(Key::Char('h')));
    state.handle_key(plain(Key::Char('i')));
    assert_eq!(state.input_buffer, "hi".to_string());
    state.handle_key(plain(Key::Backspace));
    assert_eq!(state.input_buffer, "h".to_string());
}

#[test]
fn committing_the_args_field_splits_words() {
    let mut state = fresh_state();
    state.screen = Screen::AddMcp;
    state.input_field = InputField::Args;
    state.input_buffer = "  -y   serve  ".to_string();
    state.save_current_field();
    assert_eq!(
        state.editing_config.base_args,
        vec!["-y".to_string(), "serve".to_string()]
    );
}

#[test]
fn committing_env_vars_parses_and_trims_assignments() {
    let mut state = fresh_state();
    state.screen = Screen::AddMcp;
    state.input_field = InputField::EnvVars;
    state.input_buffer = "A = 1\nnot an assignment\nB=2\nA=3".to_string();
    state.save_current_field();
    assert_eq!(state.editing_config.env_vars.get("A"), Some("3".to_string()));
    assert_eq!(state.editing_config.env_vars.get("B"), Some("2".to_string()));
    assert_eq!(state.editing_config.env_vars.len(), 2);
}

#[test]
fn browse_enter_descends_and_parent_ascends() {
    let mut state = fresh_state();
    state.screen = Screen::BrowseDirectory {
        return_field: InputField::WorkingDir,
        return_arg: None,
        current_path: "/srv".to_string(),
        entries: vec!["..".to_string(), "logs".to_string()],
        selected_index: 1,
    };
    let (_, eff) = state.handle_key(plain(Key::Enter));
    match &state.screen {
        Screen::BrowseDirectory { current_path, selected_index, .. } => {
            assert_eq!(current_path, "/srv/logs");
            assert_eq!(*selected_index, 0);
        },
        _ => panic!("still browsing"),
    }
    match &eff[0] {
        Effect::ReadDir(path) => assert_eq!(path, "/srv/logs"),
        _ => panic!("a listing was requested"),
    }
    state.provide_dir_listing(vec![]);
    state.handle_key(plain(Key::Enter));
    match &state.screen {
        Screen::BrowseDirectory { current_path, .. } => assert_eq!(current_path, "/srv"),
        _ => panic!("still browsing"),
    }
}

#[test]
fn browse_select_writes_the_path_into_the_working_dir_buffer() {
    let mut state = fresh_state();
    state.editing_config.name = "Editing".to_string();
    state.input_field = InputField::WorkingDir;
    state.screen = Screen::BrowseDirectory {
        return_field: InputField::WorkingDir,
        return_arg: None,
        current_path: "/data".to_string(),
        entries: vec!["..".to_string()],
        selected_index: 0,
    };
    state.handle_key(plain(Key::Char('s')));
    assert_eq!(state.input_buffer, "/data".to_string());
    match &state.screen {
        Screen::EditMcp(name) => assert_eq!(name, "Editing"),
        _ => panic!("editing should resume"),
    }
}

#[test]
fn browse_select_writes_the_path_into_the_requesting_argument() {
    let mut state = fresh_state();
    state.load(Some("launch".to_string()));
    state.selected_index = 1;
    state.editing_arg_index = 1;
    state.screen = Screen::BrowseDirectory {
        return_field: InputField::WorkingDir,
        return_arg: Some("project_dir".to_string()),
        current_path: "/srv/proj".to_string(),
        entries: vec!["..".to_string()],
        selected_index: 0,
    };
    state.handle_key(plain(Key::Char('s')));
    match &state.screen {
        Screen::ConfigureArgs(config) => {
            assert_eq!(config.arg_values.get("project_dir"), Some("/srv/proj".to_string()));
        },
        _ => panic!("configuring should resume"),
    }
    assert_eq!(state.input_buffer, "/srv/proj".to_string());
}

#[test]
fn ctrl_d_on_working_dir_opens_the_browser() {
    let mut state = fresh_state();
    state.screen = Screen::AddMcp;
    state.input_field = InputField::WorkingDir;
    let (_, eff) = state.handle_key(ctrl(Key::Char('d')));
    assert!(matches!(state.screen, Screen::BrowseDirectory { .. }));
    match &eff[0] {
        Effect::ReadDir(path) => assert_eq!(path, "/home/user"),
        _ => panic!("a listing was requested"),
    }
}

#[test]
fn provide_dir_listing_sorts_and_keeps_the_parent_first() {
    let mut state = fresh_state();
    state.screen = Screen::BrowseDirectory {
        return_field: InputField::WorkingDir,
        return_arg: None,
        current_path: "/".to_string(),
        entries: vec!["..".to_string()],
        selected_index: 0,
    };
    state.provide_dir_listing(vec!["zoo".to_string(), "alpha".to_string(), "midway".to_string()]);
    match &state.screen {
        Screen::BrowseDirectory { entries, selected_index, .. } => {
            assert_eq!(
                entries,
                &vec![
                    "..".to_string(),
                    "alpha".to_string(),
                    "midway".to_string(),
                    "zoo".to_string(),
                ]
            );
            assert_eq!(*selected_index, 0);
        },
        _ => panic!("still browsing"),
    }
}

#[test]
fn tab_updates_never_alter_the_registry() {
    let mut state = fresh_state();
    let config = config_with_template("Docs FS", McpTemplate::FileSystem);
    state.attempt_launch(config);
    state.handle_spawn_result(Ok(()), "08:00:00".to_string());
    let tabs = vec!["MCP: Docs FS".to_string(), "shell".to_string()];
    state.update_instance_status(&tabs);
    assert_eq!(state.instances.len(), 1);
    assert!(matches!(state.instances.get_at(0).status, mcp_manager::config::McpStatus::Running));
}

#[test]
fn load_seeds_the_two_example_configs() {
    let mut state = fresh_state();
    state.load(Some("current".to_string()));
    assert!(matches!(state.screen, Screen::CurrentMcps));
    assert_eq!(state.configs.len(), 2);
    assert_eq!(state.configs[0].name, "File System MCP".to_string());
    assert_eq!(state.configs[1].name, "Agent MCP".to_string());
    assert_eq!(state.configs[1].working_dir, Some("/home/alejandro/Code/MCP/agent-mcp".to_string()));
}

#[test]
fn render_current_mcps_marks_the_selected_row() {
    let mut state = fresh_state();
    let config = config_with_template("Docs FS", McpTemplate::FileSystem);
    state.attempt_launch(config);
    state.handle_spawn_result(Ok(()), "07:00:00".to_string());
    state.selected_index = 0;
    let lines = state.render_current_mcps();
    assert_eq!(lines[0], "Current MCP Servers".to_string());
    assert!(lines[3].starts_with("> Docs FS"));
    assert!(lines[3].contains("Running"));
    assert!(lines[3].contains("07:00:00"));
}

#[test]
fn render_configure_args_marks_required_arguments() {
    let mut state = fresh_state();
    let config = config_with_template("Agent MCP", McpTemplate::AgentMcp);
    state.input_buffer = "8080".to_string();
    state.editing_arg_index = 0;
    state.screen = Screen::ConfigureArgs(config);
    let lines = state.render_configure_args();
    assert_eq!(lines[0], "Configure Arguments for: Agent MCP".to_string());
    assert_eq!(lines[2], "Command: uv run -m agent_mcp.cli".to_string());
    assert!(lines[4].starts_with(">            port: 8080_"));
    assert!(lines[4].contains("[required]"));
    assert!(lines[5].contains("project_dir"));
}

#[test]
fn render_header_centres_the_title() {
    let lines = mcp_manager::render::render_header(21);
    assert_eq!(lines[0], " === MCP Manager ===".to_string());
    assert_eq!(lines[1], "=====================".to_string());
    assert_eq!(lines[2], "".to_string());
}

#[test]
fn render_messages_shows_both_one_shot_messages() {
    let mut state = fresh_state();
    state.error_message = Some("boom".to_string());
    state.success_message = Some("done".to_string());
    let lines = state.render_messages();
    assert_eq!(lines, vec!["Error: boom".to_string(), "OK: done".to_string()]);
}

#[test]
fn escape_leaves_editing_without_saving() {
    let mut state = fresh_state();
    state.load(None);
    state.screen = Screen::AddMcp;
    state.input_buffer = "half-typed".to_string();
    state.handle_key(plain(Key::Esc));
    assert!(matches!(state.screen, Screen::LaunchMcp));
    assert_eq!(state.configs.len(), 2);
}

#[test]
fn long_names_are_truncated_in_the_instance_table() {
    let mut state = fresh_state();
    let mut config = config_with_template(
        "A very long configuration name indeed",
        McpTemplate::FileSystem,
    );
    config.command = "npx".to_string();
    state.attempt_launch(config);
    state.handle_spawn_result(Ok(()), "06:00:00".to_string());
    let lines = state.render_current_mcps();
    assert!(lines[3].starts_with("> A very long configuration "));
    assert!(!lines[3].contains("name indeed"));
}

#[test]
fn empty_registry_renders_its_empty_state() {
    let state = fresh_state();
    let lines = state.render_current_mcps();
    assert_eq!(
        lines,
        vec![
            "Current MCP Servers".to_string(),
            "".to_string(),
            "No MCP servers are currently running".to_string(),
        ]
    );
}

#[test]
fn browse_parent_at_root_keeps_the_path_but_still_refreshes() {
    let mut state = fresh_state();
    state.screen = Screen::BrowseDirectory {
        return_field: InputField::WorkingDir,
        return_arg: None,
        current_path: "/".to_string(),
        entries: vec!["..".to_string(), "stale".to_string()],
        selected_index: 0,
    };
    let (_, eff) = state.handle_key(plain(Key::Enter));
    assert_eq!(eff.len(), 1);
    match &eff[0] {
        Effect::ReadDir(path) => assert_eq!(path, "/"),
        _ => panic!("a fresh listing was requested"),
    }
    match &state.screen {
        Screen::BrowseDirectory { current_path, entries, selected_index, .. } => {
            assert_eq!(current_path, "/");
            assert_eq!(entries, &vec!["..".to_string()]);
            assert_eq!(*selected_index, 0);
        },
        _ => panic!("still browsing"),
    }
}
