use mdns_scanner::cfg_picker::{CfgPickerState, ConfigItem};
use mdns_scanner::config_edit::ConfigValue;
use mdns_scanner::format::host_popup_lines;
use mdns_scanner::error_box::{save_config_result, SaveAttempt};
use mdns_scanner::keybindings::key_hint_footer;
use mdns_scanner::theme::{theme_from_lowercase, Theme};

#[test]
fn themes_are_named_in_any_case() {
    assert_eq!(Theme::parse("Dark"), Ok(Theme::Dark));
    assert_eq!(Theme::parse("GRUVBOX DARK"), Ok(Theme::Gruvbox));
    assert_eq!(Theme::parse("Tokyo Night"), Ok(Theme::TokyoNight));
    assert_eq!(Theme::parse("pitch"), Ok(Theme::Pitch));
    assert_eq!(Theme::parse("gruvbox"), Err("Unknown theme: gruvbox".to_string()));
    assert_eq!(Theme::default(), Theme::Dark);
}

#[test]
fn lowercase_theme_names() {
    assert_eq!(theme_from_lowercase("light"), Some(Theme::Light));
    assert_eq!(theme_from_lowercase("nord"), Some(Theme::Nord));
    assert_eq!(theme_from_lowercase("solarized"), Some(Theme::Solarized));
    assert_eq!(theme_from_lowercase("Nord"), None);
    assert_eq!(theme_from_lowercase(""), None);
}

#[test]
fn key_hints_are_joined_with_bars() {
    let hints = vec![
        ("Enter".to_string(), "back".to_string()),
        ("r".to_string(), "rescan".to_string()),
    ];
    assert_eq!(key_hint_footer(&hints), "<Enter>: back | <r>: rescan");
    assert_eq!(key_hint_footer(&vec![("Esc".to_string(), "cancel".to_string())]), "<Esc>: cancel");
    assert_eq!(key_hint_footer(&vec![]), "");
}

#[test]
fn save_results_tell_what_to_show() {
    let (r, waiting) = save_config_result(SaveAttempt::Saved);
    assert!(r.is_ok() && !waiting);
    let (r, waiting) = save_config_result(SaveAttempt::NoConfigPath);
    let b = r.unwrap_err();
    assert_eq!(b.msg, "Could not determine user config path");
    assert!(b.prompt.is_none() && !waiting);
    let (r, waiting) = save_config_result(SaveAttempt::SaveFailed("disk full".to_string()));
    assert_eq!(r.unwrap_err().msg, "disk full");
    assert!(!waiting);
    let (r, waiting) = save_config_result(SaveAttempt::LoadFailed {
        error: "not found".to_string(),
        path: "/home/u/.config/mds/config.toml".to_string(),
    });
    let b = r.unwrap_err();
    assert!(waiting);
    assert_eq!(b.msg, "not found");
    assert_eq!(
        b.prompt,
        Some(vec![
            "Failed retrieving the config from:".to_string(),
            "/home/u/.config/mds/config.toml".to_string(),
            String::new(),
            "Would you like to create it?".to_string(),
        ])
    );
}

use mdns_scanner::ip_address::IpAddress;
use mdns_scanner::table_pane::{flashed_cell_text, picker_cell_text, row_shade, RowShade, SubLineSelector};

#[test]
fn rows_are_shaded_by_status_then_age() {
    assert_eq!(row_shade(true, true), RowShade::Offline);
    assert_eq!(row_shade(false, true), RowShade::RecentlyUpdated);
    assert_eq!(row_shade(false, false), RowShade::Normal);
}

#[test]
fn picker_cell_marks_the_cursor() {
    let lines = vec!["a.local".to_string(), "b.local".to_string()];
    let mut sel = SubLineSelector::new(IpAddress::V4(1), 1, lines);
    sel.next();
    assert_eq!(
        picker_cell_text(&sel),
        vec!["", "  a.local", "▶ b.local", "  [ copy all ]", ""]
    );
    sel.next();
    assert_eq!(
        picker_cell_text(&sel),
        vec!["", "  a.local", "  b.local", "▶ [ copy all ]", ""]
    );
}

#[test]
fn flashed_cell_marks_the_copied_line() {
    let r = flashed_cell_text("  a.local \n\n b.local\n", "b.local");
    assert_eq!(
        r,
        vec![
            (String::new(), false),
            ("a.local".to_string(), false),
            ("b.local".to_string(), true),
            (String::new(), false),
        ]
    );
}

use mdns_scanner::error_box::{text_lines, ErrorBox};
use mdns_scanner::keybindings::{clamp_scroll_offset, keybindings_popup_size, keys_cell_text, PopupSize};

#[test]
fn lines_split_like_str_lines() {
    assert_eq!(text_lines("a\r\nb\n"), vec!["a", "b"]);
    assert_eq!(text_lines("a\rb"), vec!["a\rb"]);
    assert_eq!(text_lines("x\r"), vec!["x\r"]);
    assert_eq!(text_lines(""), Vec::<String>::new());
    assert_eq!(text_lines("\n"), vec![""]);
    assert_eq!(text_lines("one\n\ntwo"), vec!["one", "", "two"]);
}

#[test]
fn error_box_lines_and_size() {
    let plain = ErrorBox::new("bad value\nhint");
    assert_eq!(plain.lines(), vec!["bad value", "hint"]);
    assert_eq!(plain.size(), (9, 2));
    let mut asking = ErrorBox::new("missing").with_prompt(vec!["Create it?".to_string()]);
    assert_eq!(asking.lines(), vec!["missing", "", "Create it?", "", " OK    CANCEL "]);
    asking.navigate_left();
    assert_eq!(asking.lines()[4], "<OK>   CANCEL ");
    asking.navigate_toggle();
    assert_eq!(asking.lines()[4], " OK   <CANCEL>");
    assert_eq!(asking.size(), (14, 5));
}

#[test]
fn keybindings_popup_geometry() {
    assert_eq!(keys_cell_text(&vec!["q".to_string(), "ctrl+c".to_string()]), "q, ctrl+c");
    assert_eq!(keys_cell_text(&vec![]), "");
    assert_eq!(
        keybindings_popup_size(12, 20, 30, 50),
        PopupSize { action_column: 16, desired_width: 42, height: 34 }
    );
    assert_eq!(keybindings_popup_size(12, 20, 30, 20).height, 18);
    assert_eq!(keybindings_popup_size(12, 20, 30, 1).height, 0);
    assert_eq!(clamp_scroll_offset(10, 30, 12), 10);
    assert_eq!(clamp_scroll_offset(25, 30, 12), 20);
    assert_eq!(clamp_scroll_offset(5, 3, 12), 0);
}

use mdns_scanner::log::LogLevel;
use mdns_scanner::log_scroll::log_pane_title;
use mdns_scanner::option_selector::{OptionSelector, ScreenRect};

#[test]
fn log_pane_title_text() {
    assert_eq!(log_pane_title(LogLevel::Debug, 12, 1000), "Log Level: Debug, showing 12 msgs (max: 1000)");
    assert_eq!(log_pane_title(LogLevel::Error, 0, 5), "Log Level: Error, showing 0 msgs (max: 5)");
}

#[test]
fn option_popup_is_placed_beside_its_item() {
    let options: Vec<String> = vec!["Dark", "Gruvbox Dark", "Nord"].into_iter().map(String::from).collect();
    let sel = OptionSelector::new("theme", options, "Nord");
    let area = ScreenRect { x: 2, y: 3, width: 80, height: 30 };
    assert_eq!(
        sel.popup_rect(1, 20, 2, area),
        Some(ScreenRect { x: 22, y: 6, width: 18, height: 5 })
    );
    // Too close to the right edge: no room.
    assert_eq!(sel.popup_rect(1, 76, 2, area), None);
    // Near the bottom: cut to the rows left.
    assert_eq!(
        sel.popup_rect(20, 20, 6, area),
        Some(ScreenRect { x: 22, y: 29, width: 18, height: 4 })
    );
    let empty = OptionSelector::new("x", vec![], "");
    assert_eq!(empty.popup_rect(0, 0, 0, area), None);
    let short = OptionSelector::new("x", vec!["a".to_string()], "a");
    assert_eq!(short.popup_rect(0, 0, 0, area).map(|r| r.width), Some(10));
}

use mdns_scanner::ip_info::IpInfo;
use mdns_scanner::table_pane::TableNav;

#[test]
fn selection_follows_the_picked_host() {
    let a = IpInfo::from_ip(IpAddress::V4(10));
    let b = IpInfo::from_ip(IpAddress::V4(20));
    let c = IpInfo::from_ip(IpAddress::V4(30));
    let rows = vec![&a, &b, &c];
    let sel = SubLineSelector::new(IpAddress::V4(30), 1, vec!["x".to_string()]);
    let mut nav = TableNav::new();
    nav.next_column();
    nav.follow_picked_row(&rows, &sel);
    assert_eq!(nav.selected, Some(2));
    assert_eq!(nav.scroll_position, 2);
    assert_eq!(nav.selected_column, Some(0));
    let gone = SubLineSelector::new(IpAddress::V4(40), 1, vec![]);
    let before = nav;
    nav.follow_picked_row(&rows, &gone);
    assert_eq!(nav, before);
}

use mdns_scanner::config_doc::{doc_anchor, item_start_row, overlay_row, DocItem};

#[test]
fn config_overlays_and_doc_placement() {
    let items = vec![
        DocItem { row_height: 1, width: 20 },
        DocItem { row_height: 2, width: 30 },
        DocItem { row_height: 1, width: 10 },
    ];
    assert_eq!(item_start_row(&items, 2), 3);
    assert_eq!(overlay_row(&items, 1), 4);
    assert_eq!(overlay_row(&items, 3), 6);
    assert_eq!(doc_anchor(&items, 0, false, 20, 5, "one line"), (31, 1));
    assert_eq!(doc_anchor(&items, 0, false, 10, 5, "one line"), (21, 4));
    assert_eq!(doc_anchor(&items, 0, true, 20, 5, "one line"), (31, 3));
}

use mdns_scanner::config_edit::{config_tab_input, TabInput};
use mdns_scanner::option_selector::editor_rect;
use mdns_scanner::tui_model::Action;

#[test]
fn config_tab_keys() {
    assert_eq!(config_tab_input(true, false, Some(Action::NavigateUp)), TabInput::SelectorUp);
    assert_eq!(config_tab_input(true, true, Some(Action::NavigateDown)), TabInput::SelectorDown);
    assert_eq!(config_tab_input(true, false, Some(Action::NavigateSelect)), TabInput::SelectorConfirm);
    assert_eq!(config_tab_input(true, false, Some(Action::Close)), TabInput::SelectorCancel);
    assert_eq!(config_tab_input(true, false, Some(Action::Quit)), TabInput::Nothing);
    assert_eq!(config_tab_input(false, false, Some(Action::NavigateSelect)), TabInput::Select);
    assert_eq!(config_tab_input(false, false, Some(Action::NavigateUp)), TabInput::Up);
    assert_eq!(config_tab_input(false, true, Some(Action::NavigateUp)), TabInput::EditText);
    assert_eq!(config_tab_input(false, false, Some(Action::NavigateDown)), TabInput::Down);
    assert_eq!(config_tab_input(false, true, Some(Action::Close)), TabInput::CloseEditor);
    assert_eq!(config_tab_input(false, false, Some(Action::Close)), TabInput::CloseWindow);
    assert_eq!(config_tab_input(false, true, None), TabInput::EditText);
    assert_eq!(config_tab_input(false, false, None), TabInput::Nothing);
}

#[test]
fn text_editor_placement() {
    let area = ScreenRect { x: 1, y: 2, width: 60, height: 20 };
    assert_eq!(editor_rect(10, 24, 5, area), Some(ScreenRect { x: 24, y: 7, width: 14, height: 2 }));
    assert_eq!(editor_rect(0, 24, 5, area), Some(ScreenRect { x: 24, y: 7, width: 5, height: 2 }));
    assert_eq!(editor_rect(100, 24, 5, area), Some(ScreenRect { x: 24, y: 7, width: 37, height: 2 }));
    assert_eq!(editor_rect(10, 58, 5, area), None);
}

use mdns_scanner::table_pane::search_box_rect;

#[test]
fn search_box_is_centred_on_top() {
    assert_eq!(search_box_rect(0, 101, 40), ScreenRect { x: 43, y: 0, width: 15, height: 3 });
    assert_eq!(search_box_rect(20, 101, 40), ScreenRect { x: 39, y: 0, width: 23, height: 3 });
    assert_eq!(search_box_rect(200, 101, 2), ScreenRect { x: 0, y: 0, width: 100, height: 1 });
}

use mdns_scanner::table_pane::{sub_line_confirm, CopiedCell};

#[test]
fn confirming_a_picked_line() {
    let lines = vec!["a.local".to_string(), "b.local".to_string()];
    let mut sel = SubLineSelector::new(IpAddress::V4(7), 1, lines.clone());
    sel.next();
    let (text, cell) = sub_line_confirm(&sel, &lines).unwrap();
    assert_eq!(text, "b.local");
    assert_eq!(cell.line_text(), Some("b.local"));
    assert!(cell.copied_recently());
    let info = IpInfo::from_ip(IpAddress::V4(7));
    assert!(cell.matches_ip_and_col(&info, 1));
    assert!(!cell.matches_ip_and_col(&info, 2));
    // The cell lost a line since picking started: the cursor moves up.
    let live = vec!["c.local".to_string()];
    let (text, _) = sub_line_confirm(&sel, &live).unwrap();
    assert_eq!(text, "c.local");
    assert!(sub_line_confirm(&sel, &vec![]).is_none());
    sel.next();
    let (text, cell) = sub_line_confirm(&sel, &lines).unwrap();
    assert_eq!(text, "a.local\nb.local");
    assert_eq!(cell.line_text(), None);
    let grown = vec!["a.local".to_string(), "b.local".to_string(), "d.local".to_string()];
    assert_eq!(sub_line_confirm(&sel, &grown).unwrap().0, "a.local\nb.local\nd.local");
    let whole = CopiedCell::new(IpAddress::V4(8), 0);
    assert_eq!(whole.col, 0);
    assert!(!whole.matches_ip_and_col(&info, 0));
}

fn theme_item(value: &str) -> ConfigItem {
    ConfigItem {
        key: "theme".to_string(),
        value: ConfigValue::StringSelect(value.to_string()),
        options: vec!["dark".to_string(), "light".to_string(), "solarized".to_string()],
    }
}

fn select_value(state: &CfgPickerState, row: usize) -> String {
    match &state.items[row].value {
        ConfigValue::StringSelect(v) => v.clone(),
        _ => panic!("not a select"),
    }
}

#[test]
fn cancelling_the_picker_restores_the_opened_value() {
    let mut state = CfgPickerState::new(vec![theme_item("light"), ConfigItem {
        key: "emojis".to_string(),
        value: ConfigValue::Toggle(true),
        options: Vec::new(),
    }]);
    assert!(state.try_open_selector());
    state.navigate_selector_down();
    assert_eq!(select_value(&state, 0), "solarized");
    state.navigate_selector_down();
    assert_eq!(select_value(&state, 0), "dark");
    state.navigate_selector_up();
    assert_eq!(select_value(&state, 0), "solarized");
    state.cancel_selector();
    assert!(!state.selector_open());
    assert_eq!(select_value(&state, 0), "light");
    state.cancel_selector();
    assert_eq!(select_value(&state, 0), "light");
}

#[test]
fn confirming_the_picker_keeps_the_preview() {
    let mut state = CfgPickerState::new(vec![theme_item("dark")]);
    assert!(state.try_open_selector());
    state.navigate_selector_up();
    assert_eq!(select_value(&state, 0), "solarized");
    state.confirm_selector();
    assert!(!state.selector_open());
    assert_eq!(select_value(&state, 0), "solarized");
}

#[test]
fn picker_opens_only_on_a_select() {
    let mut state = CfgPickerState::new(vec![ConfigItem {
        key: "emojis".to_string(),
        value: ConfigValue::Toggle(false),
        options: Vec::new(),
    }]);
    assert!(!state.try_open_selector());
    assert!(!state.selector_open());
}

#[test]
fn host_popup_lists_names_then_age() {
    assert_eq!(
        host_popup_lines(&vec!["nas.local".to_string(), "files.local".to_string()], 190),
        vec!["nas.local".to_string(), "files.local".to_string(), "Updated 3m ago".to_string()]
    );
    assert_eq!(host_popup_lines(&Vec::new(), 12), vec!["Updated 12s ago".to_string()]);
}

#[test]
fn confirming_the_selected_row_acts_on_its_item() {
    let mut state = CfgPickerState::new(vec![
        ConfigItem { key: "emojis".to_string(), value: ConfigValue::Toggle(true), options: Vec::new() },
        ConfigItem { key: "port".to_string(), value: ConfigValue::NumberNonZeroU16(5), options: Vec::new() },
    ]);
    assert!(state.handle_selected_item("true").is_ok());
    assert!(matches!(state.items[0].value, ConfigValue::Toggle(false)));
    state.selected = Some(1);
    assert!(state.handle_selected_item("5").is_ok());
    assert_eq!(state.txt_edit, Some("5".to_string()));
    assert!(matches!(state.items[1].value, ConfigValue::NumberNonZeroU16(5)));
    state.txt_edit = Some(" 0 ".to_string());
    let err = state.handle_selected_item("5").unwrap_err();
    assert_eq!(err.msg, "Expected Non-zero u16, got '0'");
    assert!(matches!(state.items[1].value, ConfigValue::NumberNonZeroU16(5)));
    state.txt_edit = Some("42".to_string());
    assert!(state.handle_selected_item("5").is_ok());
    assert!(matches!(state.items[1].value, ConfigValue::NumberNonZeroU16(42)));
    state.selected = None;
    assert!(state.handle_selected_item("5").is_ok());
    assert!(matches!(state.items[1].value, ConfigValue::NumberNonZeroU16(42)));
}

#[test]
fn unicode_white_space_is_trimmed_from_cells() {
    assert_eq!(
        mdns_scanner::table_pane::cell_lines("\u{3000} nas.local\u{a0}\n\u{2003}\n\tfiles.local\u{205f}"),
        vec!["nas.local".to_string(), "files.local".to_string()]
    );
}
