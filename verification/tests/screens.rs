use ncd::host::adapter_loader::list::DeviceInfo;
use ncd::host::config::{get_option, set_option, DeviceEntry, HostConfig};
use ncd::host::key::KeyCode;
use ncd::host::tui;
use ncd::host::tui_lines::{list_lines, list_scroll, status_color, TextColor};
use ncd::host::ui::render::{is_drawable, render, DrawOp};
use ncd::host::ui::state::{sanitize_option_value, Mode, TuiState};

fn pair(k: &str, v: &str) -> (String, String) {
    (k.to_string(), v.to_string())
}

fn device(id: &str, port: u16) -> DeviceInfo {
    DeviceInfo {
        identifier: id.to_string(),
        name: format!("Device {id}"),
        description: String::new(),
        options: vec![pair("file_path", ""), pair("fps", "30")],
        adapter_name: "cam".to_string(),
        default_port: port,
    }
}

fn keys(state: &mut TuiState, text: &[KeyCode]) {
    for k in text {
        state.handle_key(*k);
    }
}

#[test]
fn options_are_set_and_found() {
    let mut o = vec![pair("a", "1")];
    set_option(&mut o, "b", "2");
    set_option(&mut o, "a", "3");
    assert_eq!(o, vec![pair("a", "3"), pair("b", "2")]);
    assert_eq!(get_option(&o, "b"), Some("2"));
    assert_eq!(get_option(&o, "c"), None);
}

#[test]
fn screen_starts_with_the_devices() {
    let state = TuiState::new(vec![device("0", 9000), device("1", 9001)], None);
    assert_eq!(state.rows.len(), 2);
    assert_eq!(state.rows[1].port_str, "9001");
    assert_eq!(state.rows[1].option_keys, vec!["file_path", "fps"]);
    assert_eq!(state.rows[1].field_values, vec!["", "30"]);
    assert!(!state.rows[0].enabled);
    assert_eq!(state.selected_row().info.identifier, "0");
}

#[test]
fn saved_configuration_is_merged() {
    let saved = HostConfig {
        device: vec![
            DeviceEntry {
                driver: "cam".to_string(),
                device_identifier: "1".to_string(),
                device_name: "x".to_string(),
                port: 7777,
                options: vec![pair("fps", "60"), pair("extra", "yes")],
            },
            DeviceEntry {
                driver: "gone".to_string(),
                device_identifier: "1".to_string(),
                device_name: "x".to_string(),
                port: 1,
                options: vec![],
            },
        ],
    };
    let state = TuiState::new(vec![device("0", 9000), device("1", 9001)], Some(&saved));
    assert!(!state.rows[0].enabled);
    let row = &state.rows[1];
    assert!(row.enabled);
    assert_eq!(row.port_str, "7777");
    assert_eq!(row.option_keys, vec!["file_path", "fps", "extra"]);
    assert_eq!(row.field_values, vec!["", "60", "yes"]);
    let config = state.build_config();
    assert_eq!(config.device.len(), 1);
    assert_eq!(config.device[0].port, 7777);
    assert_eq!(config.device[0].device_name, "Device 1");
}

#[test]
fn keys_in_the_list() {
    let mut s = TuiState::new(vec![device("0", 9000), device("1", 9001)], None);
    keys(&mut s, &[KeyCode::Up, KeyCode::Char('j'), KeyCode::Down, KeyCode::Char(' ')]);
    assert_eq!(s.selected, 1);
    assert!(s.rows[1].enabled);
    keys(&mut s, &[KeyCode::Enter]);
    assert_eq!(s.editing_field(), Some(0));
    let mut s = TuiState::new(vec![device("0", 9000)], None);
    keys(&mut s, &[KeyCode::Tab]);
    assert_eq!(s.mode, Mode::Normal); // a device that is off is not edited
    keys(&mut s, &[KeyCode::Char('s')]);
    assert!(s.should_quit && s.wants_save);
    let mut s = TuiState::new(vec![], None);
    keys(&mut s, &[KeyCode::Char(' '), KeyCode::Enter, KeyCode::Down, KeyCode::Esc]);
    assert!(s.should_quit && !s.wants_save);
}

#[test]
fn what_keys_change_in_the_list() {
    let all = [
        KeyCode::Up,
        KeyCode::Down,
        KeyCode::Char('j'),
        KeyCode::Char('k'),
        KeyCode::Char(' '),
        KeyCode::Enter,
        KeyCode::Tab,
        KeyCode::Esc,
        KeyCode::Backspace,
        KeyCode::Char('s'),
        KeyCode::Char('q'),
        KeyCode::Char('x'),
    ];
    for key in all {
        for enabled in [false, true] {
            let mut s = TuiState::new(vec![device("0", 9000), device("1", 9001)], None);
            s.rows[0].enabled = enabled;
            s.handle_key(key);
            let down = key == KeyCode::Down || key == KeyCode::Char('j');
            assert_eq!(s.selected, if down { 1 } else { 0 });
            assert_eq!(s.rows[0].enabled, enabled != (key == KeyCode::Char(' ')));
            assert!(!s.rows[1].enabled);
            let edits = enabled && (key == KeyCode::Enter || key == KeyCode::Tab);
            assert_eq!(s.mode == Mode::Editing(0), edits);
            assert_eq!(s.wants_save, key == KeyCode::Char('s'));
            let leaves = matches!(key, KeyCode::Char('s') | KeyCode::Char('q') | KeyCode::Esc);
            assert_eq!(s.should_quit, leaves);
        }
    }
}

#[test]
fn keys_in_a_field() {
    let mut s = TuiState::new(vec![device("0", 9000)], None);
    keys(&mut s, &[KeyCode::Char(' '), KeyCode::Enter]);
    keys(&mut s, &[KeyCode::Backspace, KeyCode::Char('5')]);
    assert_eq!(s.field_value(0), "9005");
    assert_eq!(s.field_label(0), "Port");
    keys(&mut s, &[KeyCode::Down]);
    s.handle_paste("\"C:\\x y\" ");
    assert_eq!((s.field_label(1), s.field_value(1)), ("file_path", "\"C:\\x y\" "));
    keys(&mut s, &[KeyCode::Tab, KeyCode::Up, KeyCode::Enter, KeyCode::Enter]);
    assert_eq!(s.mode, Mode::Normal);
    assert_eq!(s.field_label(9), "Unknown");
    assert_eq!(s.field_value(9), "");
    let config = s.build_config();
    assert_eq!(config.device[0].port, 9005);
    assert_eq!(config.device[0].options, vec![pair("file_path", "C:\\x y"), pair("fps", "30")]);
}

#[test]
fn backspace_undoes_typing() {
    let mut s = TuiState::new(vec![device("0", 9000)], None);
    keys(&mut s, &[KeyCode::Char(' '), KeyCode::Enter, KeyCode::Char('x'), KeyCode::Backspace]);
    assert_eq!(s.field_value(0), "9000");
}

#[test]
fn bad_ports_fall_back() {
    let mut s = TuiState::new(vec![device("0", 9000)], None);
    keys(&mut s, &[KeyCode::Char(' '), KeyCode::Enter, KeyCode::Char('0')]);
    assert_eq!(s.field_value(0), "90000");
    assert_eq!(s.build_config().device[0].port, 9000);
}

#[test]
fn values_are_sanitized() {
    assert_eq!(sanitize_option_value("fps", " \"x\" "), " \"x\" ");
    assert_eq!(sanitize_option_value("file_path", " \"x\" "), "x");
    assert_eq!(sanitize_option_value("file_path", "'a b'"), "a b");
    assert_eq!(sanitize_option_value("file_path", "'a b\""), "'a b\"");
    assert_eq!(sanitize_option_value("file_path", "\""), "\"");
    assert_eq!(sanitize_option_value("file_path", "\"\""), "");
}

fn printed(ops: &[DrawOp]) -> Vec<String> {
    ops.iter()
        .filter_map(|o| match o {
            DrawOp::Print(s) => Some(s.trim_end().to_string()),
            _ => None,
        })
        .collect()
}

#[test]
fn screen_without_devices() {
    let s = TuiState::new(vec![], None);
    assert!(is_drawable(&s, 40));
    let ops = render(&s, 40, 10);
    assert_eq!(
        printed(&ops),
        vec![
            "NCD Configuration".to_string(),
            "─".repeat(40),
            "No devices found.".to_string(),
            " q/ESC:quit".to_string()
        ]
    );
    assert!(matches!(ops[3], DrawOp::MoveTo(11, 0)));
    assert!(matches!(ops.last(), Some(DrawOp::HideCursor)));
}

#[test]
fn screen_with_an_edited_field() {
    let mut s = TuiState::new(vec![device("0", 9000), device("1", 9001)], None);
    keys(&mut s, &[KeyCode::Char(' '), KeyCode::Enter, KeyCode::Down]);
    s.handle_paste("é");
    let ops = render(&s, 100, 30);
    assert_eq!(
        printed(&ops)[2..7],
        [
            "  [x] Device 0".to_string(),
            "Port: 9000".to_string(),
            "file_path: é▌".to_string(),
            "fps: 30".to_string(),
            "  [ ] Device 1".to_string()
        ]
    );
    // Column: indentation 4, label 9 bytes, two more, value 2 bytes.
    let n = ops.len();
    assert!(matches!(ops[n - 2], DrawOp::MoveTo(17, 4)));
    assert!(matches!(ops[n - 1], DrawOp::ShowCursor));
}

#[test]
fn help_is_cut_where_the_screen_ends() {
    let s = TuiState::new(vec![device("0", 9000)], None);
    assert!(is_drawable(&s, 20));
    assert_eq!(printed(&render(&s, 20, 5)).last().unwrap(), " s:save  q/ESC:quit");
    // The arrows take three bytes each; a cut through one is not possible.
    let help = " s:save  q/ESC:quit  Space:toggle  Enter/Tab:edit  ↑↓/jk:navigate";
    for cols in 0..100u16 {
        let clean = help.len() <= cols as usize || help.is_char_boundary(cols as usize);
        assert_eq!(is_drawable(&s, cols), clean, "{cols}");
    }
}

#[test]
fn built_in_drivers_screen() {
    let mut s = tui::TuiState::new();
    assert_eq!(s.rows[0].port_str, "8080");
    assert_eq!(s.rows[1].port_str, "8082");
    s.handle_key(KeyCode::Enter);
    assert_eq!(s.status, "Enabled 'serial'. Press Enter to edit fields.");
    s.handle_key(KeyCode::Enter);
    assert_eq!(s.mode, tui::Mode::Editing(0));
    s.handle_key(KeyCode::Up);
    assert_eq!(s.mode, tui::Mode::Editing(2));
    assert_eq!(s.status, "Editing: Baud Rate");
    s.handle_key(KeyCode::Tab);
    assert_eq!(s.status, "Editing: Port");
    s.handle_key(KeyCode::Down);
    s.handle_key(KeyCode::Char('!'));
    s.handle_key(KeyCode::Esc);
    s.handle_key(KeyCode::Down);
    s.handle_key(KeyCode::Char(' '));
    assert_eq!(s.status, "Enabled 'keyboard'");
    s.handle_key(KeyCode::Char(' '));
    assert_eq!(s.status, "Disabled 'keyboard'");
    s.handle_key(KeyCode::F(1));
    assert!(s.should_quit);
    let config = s.outcome().unwrap();
    assert_eq!(config.device.len(), 1);
    assert_eq!(config.device[0].driver, "serial");
    assert_eq!(
        config.device[0].options,
        vec![pair("device", "/dev/ttyUSB0!"), pair("baud", "115200")]
    );
}

#[test]
fn built_in_drivers_screen_left_without_saving() {
    let mut s = tui::TuiState::new();
    s.handle_key(KeyCode::Char('q'));
    assert!(s.should_quit);
    assert!(s.outcome().is_none());
}

#[test]
fn built_in_drivers_lines() {
    let mut s = tui::TuiState::new();
    s.handle_key(KeyCode::Enter);
    s.handle_key(KeyCode::Tab);
    let lines: Vec<String> = list_lines(&s, 5)
        .iter()
        .map(|l| l.iter().map(|span| span.text.as_str()).collect())
        .collect();
    assert_eq!(
        lines,
        vec![
            "[x] serial  Serial port (RS-232/USB via pyserial)",
            "    Port: [8080]",
            "    Device Path: [/dev/ttyUSB0]",
            "    Baud Rate: [115200]",
            "─────",
            "[ ] keyboard  Keyboard input capture (via pynput)",
        ]
    );
    let port = &list_lines(&s, 5)[1][1];
    assert_eq!(port.style.background, Some(TextColor::DarkGray));
    assert_eq!(status_color(&s), TextColor::DarkGray);
    assert_eq!(list_scroll(&s, 30), 0);
}

#[test]
fn toggling_twice_and_pasting() {
    let mut s = TuiState::new(vec![device("0", 9000)], None);
    keys(&mut s, &[KeyCode::Char(' '), KeyCode::Char(' ')]);
    assert!(!s.rows[0].enabled);
    s.handle_paste("ignored");
    assert_eq!(s.field_value(0), "9000");
    keys(&mut s, &[KeyCode::Char(' '), KeyCode::Tab]);
    s.handle_paste("12");
    let pasted = s.field_value(0).to_string();
    keys(&mut s, &[KeyCode::Backspace, KeyCode::Backspace]);
    keys(&mut s, &[KeyCode::Char('1'), KeyCode::Char('2')]);
    assert_eq!(s.field_value(0), pasted);
}

#[test]
fn down_then_up_is_the_same_field() {
    let mut s = tui::TuiState::new();
    s.handle_key(KeyCode::Enter);
    s.handle_key(KeyCode::Enter);
    for _ in 0..3 {
        let before = s.mode;
        s.handle_key(KeyCode::Down);
        s.handle_key(KeyCode::Up);
        assert_eq!(s.mode, before);
        s.handle_key(KeyCode::Down);
    }
    assert_eq!(s.mode, tui::Mode::Editing(0));
}

#[test]
fn what_is_saved_is_shown_again() {
    let mut s = TuiState::new(vec![device("0", 9000), device("1", 9001)], None);
    keys(&mut s, &[KeyCode::Down, KeyCode::Char(' '), KeyCode::Tab, KeyCode::Char('9')]);
    keys(&mut s, &[KeyCode::Backspace, KeyCode::Backspace, KeyCode::Tab]);
    s.handle_paste(" '/tmp/x' ");
    let saved = s.build_config();
    let again = TuiState::new(vec![device("0", 9000), device("1", 9001)], Some(&saved));
    assert!(again.rows[1].enabled && !again.rows[0].enabled);
    assert_eq!(again.rows[1].port_str, "900");
    assert_eq!(again.rows[1].field_values, vec!["/tmp/x", "30"]);
    let twice = again.build_config();
    assert_eq!(twice.device[0].port, saved.device[0].port);
    assert_eq!(twice.device[0].options, saved.device[0].options);
}
