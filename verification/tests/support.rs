//! Checks of the supporting pieces: text utilities, the ordered map, the
//! directory browser's arithmetic, the clock, paths, the intro surfaces,
//! banner fitting and the status-bar tip.

use mcp_manager::banner::{BannerSize, banner_fits, pick_banner, unusual_width_positions};
use mcp_manager::browser::{browse_entries, child_path, is_parent_entry, parent_path,
    sort_strings};
use mcp_manager::clock::{DateTime, Local, two_digits};
use mcp_manager::config::{McpConfig, McpInstance, McpStatus};
use mcp_manager::intro::{IntroAction, IntroApp, IntroKey, banner_start_row, centered_col,
    welcome_menu_items};
use mcp_manager::intro_screen::{GuideApp, GuideEffect, GuideKey, GuideScreen};
use mcp_manager::launcher::join_strings;
use mcp_manager::plugin_ids::{PluginIds, ProtobufPluginIds, plugin_ids_from_protobuf,
    plugin_ids_to_protobuf, swarm_version_to_protobuf};
use mcp_manager::registry::InstanceRegistry;
use mcp_manager::session_paths::{session_info_cache_file_name, session_info_folder_in,
    session_info_folder_for_session, session_layout_cache_file_name};
use mcp_manager::strmap::StrMap;
use mcp_manager::text::{pad_left, pad_right, parse_u16, repeat_char, replace_spaces, split_lines,
    split_ws, str_lt, trim, truncate_chars, u64_to_dec};
use mcp_manager::tips::{TipColor, swarm_setup_check_full, swarm_setup_check_medium,
    swarm_setup_check_short};

#[test]
fn parse_u16_accepts_what_std_accepts() {
    assert_eq!(parse_u16("9090"), Some(9090));
    assert_eq!(parse_u16("0"), Some(0));
    assert_eq!(parse_u16("+7"), Some(7));
    assert_eq!(parse_u16("65535"), Some(65535));
    assert_eq!(parse_u16("65536"), None);
    assert_eq!(parse_u16("99999"), None);
    assert_eq!(parse_u16(""), None);
    assert_eq!(parse_u16("+"), None);
    assert_eq!(parse_u16("12a"), None);
    assert_eq!(parse_u16("-1"), None);
    assert_eq!(parse_u16(" 8"), None);
}

#[test]
fn decimal_rendering_matches_the_number() {
    assert_eq!(u64_to_dec(0), "0".to_string());
    assert_eq!(u64_to_dec(8080), "8080".to_string());
    assert_eq!(u64_to_dec(65535), "65535".to_string());
    assert_eq!(u64_to_dec(1000000), "1000000".to_string());
}

#[test]
fn replace_spaces_touches_only_spaces() {
    assert_eq!(replace_spaces("My Server Two"), "My_Server_Two".to_string());
    assert_eq!(replace_spaces("none"), "none".to_string());
    assert_eq!(replace_spaces(""), "".to_string());
}

#[test]
fn trim_strips_both_ends_only() {
    assert_eq!(trim("  a b  "), "a b".to_string());
    assert_eq!(trim("\t x\r\n"), "x".to_string());
    assert_eq!(trim(""), "".to_string());
    assert_eq!(trim("   "), "".to_string());
}

#[test]
fn split_ws_finds_the_words() {
    assert_eq!(split_ws("  -y   serve  "), vec!["-y".to_string(), "serve".to_string()]);
    assert_eq!(split_ws(""), Vec::<String>::new());
    assert_eq!(split_ws("one"), vec!["one".to_string()]);
}

#[test]
fn split_lines_drops_only_a_trailing_empty_line() {
    assert_eq!(split_lines("a\nb"), vec!["a".to_string(), "b".to_string()]);
    assert_eq!(split_lines("a\n"), vec!["a".to_string()]);
    assert_eq!(
        split_lines("a\n\nb"),
        vec!["a".to_string(), "".to_string(), "b".to_string()]
    );
    assert_eq!(split_lines(""), Vec::<String>::new());
}

#[test]
fn lexicographic_order_is_case_sensitive() {
    assert!(str_lt("Beta", "alpha"));
    assert!(str_lt("alpha", "beta"));
    assert!(str_lt("alp", "alpha"));
    assert!(!str_lt("alpha", "alpha"));
    assert!(!str_lt("beta", "alpha"));
}

#[test]
fn padding_and_truncation_have_exact_widths() {
    assert_eq!(pad_right("ab", 4), "ab  ".to_string());
    assert_eq!(pad_right("abcde", 4), "abcde".to_string());
    assert_eq!(pad_left("ab", 4), "  ab".to_string());
    assert_eq!(repeat_char('=', 3), "===".to_string());
    assert_eq!(truncate_chars("abcdef", 4), "abcd".to_string());
    assert_eq!(truncate_chars("ab", 4), "ab".to_string());
}

#[test]
fn join_strings_separates_neighbours() {
    let parts = vec!["a".to_string(), "b".to_string(), "c".to_string()];
    assert_eq!(join_strings(&parts, " "), "a b c".to_string());
    assert_eq!(join_strings(&Vec::new(), " "), "".to_string());
    assert_eq!(join_strings(&vec!["one".to_string()], ", "), "one".to_string());
}

#[test]
fn strmap_keeps_keys_unique_and_sorted() {
    let mut map = StrMap::new();
    map.insert("zoo".to_string(), "1".to_string());
    map.insert("alpha".to_string(), "2".to_string());
    map.insert("midway".to_string(), "3".to_string());
    map.insert("alpha".to_string(), "4".to_string());
    assert_eq!(map.len(), 3);
    assert_eq!(map.key_at(0).as_str(), "alpha");
    assert_eq!(map.key_at(1).as_str(), "midway");
    assert_eq!(map.key_at(2).as_str(), "zoo");
    assert_eq!(map.get("alpha"), Some("4".to_string()));
    assert_eq!(map.get("absent"), None);
    assert!(map.contains_key("zoo"));
}

#[test]
fn registry_orders_and_replaces_by_name() {
    fn instance(name: &str) -> McpInstance {
        let mut config = McpConfig::default();
        config.name = name.to_string();
        McpInstance {
            config,
            session_name: format!("mcp-{}", name),
            status: McpStatus::Running,
            started_at: "00:00:00".to_string(),
            actual_port: None,
        }
    }
    let mut registry = InstanceRegistry::new();
    registry.insert(instance("bb"));
    registry.insert(instance("aa"));
    registry.insert(instance("bb"));
    assert_eq!(registry.len(), 2);
    assert_eq!(registry.get_at(0).config.name, "aa".to_string());
    assert_eq!(registry.get_at(1).config.name, "bb".to_string());
    registry.remove_name("aa");
    assert_eq!(registry.len(), 1);
    assert_eq!(registry.get_at(0).config.name, "bb".to_string());
    registry.remove_name("absent");
    assert_eq!(registry.len(), 1);
}

#[test]
fn sorting_strings_keeps_duplicates() {
    let sorted = sort_strings(vec![
        "pear".to_string(),
        "apple".to_string(),
        "pear".to_string(),
        "fig".to_string(),
    ]);
    assert_eq!(
        sorted,
        vec![
            "apple".to_string(),
            "fig".to_string(),
            "pear".to_string(),
            "pear".to_string(),
        ]
    );
}

#[test]
fn browse_entries_puts_the_parent_first() {
    let entries = browse_entries(vec!["zz".to_string(), "aa".to_string()]);
    assert_eq!(entries, vec!["..".to_string(), "aa".to_string(), "zz".to_string()]);
    assert!(is_parent_entry(entries[0].as_str()));
    assert!(!is_parent_entry("aa"));
}

#[test]
fn parent_path_walks_one_component_up() {
    assert_eq!(parent_path("/a/b"), "/a".to_string());
    assert_eq!(parent_path("/a"), "/".to_string());
    assert_eq!(parent_path("/"), "/".to_string());
    assert_eq!(parent_path("rel"), "".to_string());
    assert_eq!(parent_path(""), "".to_string());
}

#[test]
fn child_path_joins_with_one_slash() {
    assert_eq!(child_path("/srv", "logs"), "/srv/logs".to_string());
    assert_eq!(child_path("", "x"), "/x".to_string());
}

#[test]
fn clock_face_text_has_two_digits_each() {
    assert_eq!(two_digits(7), "07".to_string());
    assert_eq!(two_digits(42), "42".to_string());
    let moment = DateTime { secs: 3661 };
    assert_eq!(moment.format("%Y-%m-%d %H:%M:%S"), "01:01:01".to_string());
    let midnight = DateTime { secs: 0 };
    assert_eq!(midnight.format(""), "00:00:00".to_string());
    let wrapped = DateTime { secs: 24 * 3600 + 59 };
    assert_eq!(wrapped.format(""), "00:00:59".to_string());
    // The reading itself only needs to exist; its value is the clock's.
    let _ = Local::now();
}

#[test]
fn session_paths_end_with_their_components() {
    assert_eq!(
        session_info_folder_in("/cache", "work"),
        "/cache/0.1.0/session_info/work".to_string()
    );
    let folder = session_info_folder_for_session("work");
    assert!(folder.ends_with("/session_info/work"));
    let info = session_info_cache_file_name("work");
    assert!(info.ends_with("/session_info/work/session-metadata.kdl"));
    let layout = session_layout_cache_file_name("work");
    assert!(layout.ends_with("/session_info/work/session-layout.kdl"));
}

#[test]
fn intro_keys_choose_actions() {
    let mut app = IntroApp::new();
    assert!(matches!(app.handle_key(IntroKey::Up), None));
    assert_eq!(app.selected_option, 0);
    assert!(matches!(app.handle_key(IntroKey::Down), None));
    assert_eq!(app.selected_option, 1);
    assert!(matches!(
        app.handle_key(IntroKey::Enter),
        Some(IntroAction::StartTerminal)
    ));
    app.handle_key(IntroKey::Down);
    assert_eq!(app.selected_option, 2);
    app.handle_key(IntroKey::Down);
    assert_eq!(app.selected_option, 2);
    assert!(matches!(app.handle_key(IntroKey::Enter), Some(IntroAction::Settings)));
    assert!(matches!(
        app.handle_key(IntroKey::Char('1')),
        Some(IntroAction::LaunchProject)
    ));
    assert!(matches!(app.handle_key(IntroKey::Char('x')), None));
    assert!(matches!(app.handle_key(IntroKey::Esc), Some(IntroAction::StartTerminal)));
}

#[test]
fn intro_centering_arithmetic_is_exact() {
    assert_eq!(centered_col(10, 30), 10);
    assert_eq!(centered_col(31, 30), 0);
    assert_eq!(banner_start_row(30), 5);
    assert_eq!(banner_start_row(10), 1);
    assert_eq!(
        welcome_menu_items(),
        vec![
            "1. Launch a Project".to_string(),
            "2. Launch Terminal Session".to_string(),
            "3. Settings".to_string(),
        ]
    );
}

#[test]
fn guide_screen_walks_between_its_pages() {
    let mut app = GuideApp::new();
    app.handle_key(GuideKey::Down);
    let (_, eff) = app.handle_key(GuideKey::Enter);
    assert!(eff.is_empty());
    assert!(matches!(app.current_screen, GuideScreen::KeyBindings));
    app.handle_key(GuideKey::Up);
    app.handle_key(GuideKey::Enter);
    assert!(matches!(app.current_screen, GuideScreen::Welcome));
    assert_eq!(app.selected_option, 0);
    let (_, eff) = app.handle_key(GuideKey::Esc);
    assert_eq!(eff, vec![GuideEffect::NewTab, GuideEffect::CloseSelf]);
    app.handle_key(GuideKey::Char('3'));
    assert!(matches!(app.current_screen, GuideScreen::SessionManager));
    app.handle_key(GuideKey::Esc);
    assert!(matches!(app.current_screen, GuideScreen::Welcome));
}

#[test]
fn banner_choice_follows_the_size_thresholds() {
    assert_eq!(pick_banner(80, 24), (BannerSize::Wide, 2));
    assert_eq!(pick_banner(30, 15), (BannerSize::Medium, 3));
    assert_eq!(pick_banner(20, 10), (BannerSize::Compact, 4));
    assert!(banner_fits(40, 80));
    assert!(!banner_fits(90, 80));
}

#[test]
fn wide_characters_are_flagged_by_position() {
    assert_eq!(unusual_width_positions("abc"), Vec::<usize>::new());
    let positions = unusual_width_positions("a\u{6708}b\u{0007}");
    assert_eq!(positions, vec![1, 3]);
}

#[test]
fn tips_carry_the_emphasised_command_and_its_visible_width() {
    let short = swarm_setup_check_short(TipColor::Fixed(3));
    assert_eq!(
        short.part,
        " Run \u{1b}[1;38;5;3mswarm setup --check\u{1b}[0m to find issues".to_string()
    );
    assert_eq!(short.len, " Run swarm setup --check to find issues".len());
    let medium = swarm_setup_check_medium(TipColor::Rgb(1, 2, 3));
    assert_eq!(
        medium.part,
        " Tip: Run \u{1b}[1;38;2;1;2;3mswarm setup --check\u{1b}[0m to find issues".to_string()
    );
    assert_eq!(medium.len, " Tip: Run swarm setup --check to find issues".len());
    let full = swarm_setup_check_full(TipColor::Fixed(208));
    assert!(full.part.starts_with(" Tip: Having issues with Swarm? Try running "));
    assert!(full.part.contains("\u{1b}[1;38;5;208mswarm setup --check\u{1b}[0m"));
    assert_eq!(full.len, 63);
}

#[test]
fn plugin_identity_survives_the_wire_roundtrip() {
    let wire = ProtobufPluginIds {
        plugin_id: -1,
        swarm_pid: 42,
        initial_cwd: "/work".to_string(),
        client_id: 70000,
    };
    let ids = plugin_ids_from_protobuf(wire);
    assert_eq!(ids.plugin_id, u32::MAX);
    assert_eq!(ids.swarm_pid, 42);
    assert_eq!(ids.initial_cwd, "/work".to_string());
    assert_eq!(ids.client_id, (70000 % 65536) as u16);
    let back = plugin_ids_to_protobuf(PluginIds {
        plugin_id: 7,
        swarm_pid: 8,
        initial_cwd: "/w".to_string(),
        client_id: 9,
    });
    assert_eq!(back.plugin_id, 7);
    assert_eq!(back.client_id, 9);
    let version = swarm_version_to_protobuf("0.1.0");
    assert_eq!(version.version, "0.1.0".to_string());
}

#[test]
fn guide_digit_keys_follow_the_welcome_options() {
    let mut app = GuideApp::new();
    let (render, eff) = app.handle_key(GuideKey::Char('1'));
    assert!(render && eff.is_empty());
    assert!(matches!(app.current_screen, GuideScreen::GettingStarted));
    let (render, _) = app.handle_key(GuideKey::Char('2'));
    assert!(!render);
    assert!(matches!(app.current_screen, GuideScreen::GettingStarted));
    app.handle_key(GuideKey::Esc);
    app.handle_key(GuideKey::Char('2'));
    assert!(matches!(app.current_screen, GuideScreen::KeyBindings));
    app.handle_key(GuideKey::Esc);
    let (render, eff) = app.handle_key(GuideKey::Char('4'));
    assert!(render);
    assert_eq!(eff, vec![GuideEffect::NewTab, GuideEffect::CloseSelf]);
    assert!(matches!(app.current_screen, GuideScreen::Welcome));
    let (render, eff) = app.handle_key(GuideKey::Char('x'));
    assert!(!render && eff.is_empty());
}
