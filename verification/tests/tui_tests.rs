use mdns_scanner::config_doc::{compute_doc_y, count_lines, doc_popup_height, DocItem};
use mdns_scanner::error_box::{ErrorBox, PromptResponse};
use mdns_scanner::format::{format_age, format_duration};
use mdns_scanner::ip_address::IpAddress;
use mdns_scanner::ip_info::IpInfo;
use mdns_scanner::log_scroll::LogScroll;
use mdns_scanner::option_selector::{OptionSelector, TabKind};
use mdns_scanner::table_pane::{
    calc_row_height, cell_lines, row_height_for, copy_plan, pane_title, ColumnConstraints, CopyPlan,
    SubLineSelector, TableNav,
};
use mdns_scanner::tui_model::{Action, Effect, KeyRoute, Message, Model, Popup, TuiPane};

fn make_ip() -> IpAddress {
    IpAddress::V4(u32::from_be_bytes([192, 168, 1, 1]))
}

fn make_selector(lines: Vec<&str>) -> SubLineSelector {
    SubLineSelector::new(make_ip(), 1, lines.into_iter().map(str::to_owned).collect())
}

#[test]
fn test_snapshot_is_frozen() {
    let lines = vec!["alpha.local", "beta.local"];
    let sel = make_selector(lines.clone());
    let expected: Vec<String> = lines.into_iter().map(str::to_owned).collect();
    assert_eq!(sel.lines(), expected.as_slice());
}

#[test]
fn test_navigation_within_snapshot() {
    let mut sel = make_selector(vec!["a", "b", "c"]);

    assert_eq!(sel.selected_index(), 0);
    assert_eq!(sel.selected_line(), Some("a"));
    assert!(!sel.is_copy_all());

    sel.next();
    assert_eq!(sel.selected_index(), 1);
    assert_eq!(sel.selected_line(), Some("b"));

    sel.next();
    assert_eq!(sel.selected_index(), 2);
    assert_eq!(sel.selected_line(), Some("c"));
    assert!(!sel.is_copy_all());

    sel.next();
    assert_eq!(sel.selected_index(), 3);
    assert!(sel.is_copy_all());
    assert_eq!(sel.selected_line(), None);
}

#[test]
fn test_next_stops_at_copy_all() {
    let mut sel = make_selector(vec!["a", "b"]);
    sel.next();
    sel.next();
    sel.next();
    assert_eq!(sel.selected_index(), 2);
    assert!(sel.is_copy_all());
}

#[test]
fn test_prev_from_copy_all() {
    let mut sel = make_selector(vec!["a", "b"]);
    sel.next();
    sel.next();
    sel.prev();
    assert!(!sel.is_copy_all());
    assert_eq!(sel.selected_line(), Some("b"));
}

#[test]
fn test_prev_stops_at_zero() {
    let mut sel = make_selector(vec!["a", "b"]);
    sel.prev();
    assert_eq!(sel.selected_index(), 0);
}

#[test]
fn test_cursor_bounded_by_snapshot_not_live_data() {
    let mut sel = make_selector(vec!["alpha.local", "beta.local"]);
    sel.next();
    sel.next();
    assert!(sel.is_copy_all());
    sel.next();
    assert!(sel.is_copy_all());
    assert_eq!(sel.selected_index(), 2);
}

#[test]
fn selector_confirms_line_or_all() {
    let mut sel = make_selector(vec!["a", "b"]);
    sel.next();
    assert_eq!(sel.confirmed_text(), "b");
    sel.next();
    assert_eq!(sel.confirmed_text(), "a\nb");
    assert_eq!(sel.max_line_width(), 1);
}

#[test]
fn duration_formatting() {
    assert_eq!(format_duration(0, 420_000_000), "420ms");
    assert_eq!(format_duration(4, 200_000_000), "4.2s");
    assert_eq!(format_duration(100, 0), "1m 40s");
    assert_eq!(format_duration(7380, 0), "2h 3m");
}

#[test]
fn age_formatting() {
    assert_eq!(format_age(12), "12s");
    assert_eq!(format_age(190), "3m");
    assert_eq!(format_age(7380), "2h");
}

#[test]
fn table_rows_clamp_at_both_ends() {
    let mut nav = TableNav::new();
    nav.next_row(3);
    nav.next_row(3);
    nav.next_row(3);
    assert_eq!(nav.selected, Some(2));
    nav.previous_row();
    assert_eq!(nav.selected, Some(1));
    nav.scroll_to_start();
    nav.previous_row();
    assert_eq!(nav.selected, Some(0));
    nav.scroll_to_end(5);
    assert_eq!(nav.selected, Some(4));
    assert_eq!(nav.scroll_position, 4);
    nav.next_row(0);
    assert_eq!(nav.selected, Some(4));
    nav.clamp_to(3);
    assert_eq!(nav.selected, None);
    nav.next_column();
    nav.next_column();
    assert_eq!(nav.selected_cell_coords(), None);
    nav.next_row(2);
    assert_eq!(nav.selected_cell_coords(), Some((0, 1)));
}

#[test]
fn cell_lines_trim_and_drop_empty() {
    assert_eq!(cell_lines("\n a.local \n\n b.local\n"), vec!["a.local".to_string(), "b.local".to_string()]);
    assert_eq!(cell_lines("   "), Vec::<String>::new());
    assert_eq!(cell_lines("one"), vec!["one".to_string()]);
}

#[test]
fn copy_plan_picks_from_multiline_cells() {
    let mut info = IpInfo::from_ip(make_ip());
    info.names.push("a.local".to_string());
    info.names.push("b.local".to_string());
    let rows = vec![&info];
    match copy_plan(&rows, Some((0, 0))) {
        CopyPlan::CopyText { text, col, .. } => {
            assert_eq!(text, "192.168.1.1");
            assert_eq!(col, 0);
        }
        _ => panic!("expected a single line"),
    }
    match copy_plan(&rows, Some((0, 1))) {
        CopyPlan::PickLine { lines, .. } => assert_eq!(lines, vec!["a.local".to_string(), "b.local".to_string()]),
        _ => panic!("expected lines to pick from"),
    }
    assert!(matches!(copy_plan(&rows, Some((0, 3))), CopyPlan::CopyText { ref text, .. } if text.is_empty()));
    assert!(matches!(copy_plan(&rows, Some((1, 0))), CopyPlan::Nothing));
    assert!(matches!(copy_plan(&rows, None), CopyPlan::Nothing));
}

#[test]
fn row_height_and_title() {
    let mut info = IpInfo::from_ip(make_ip());
    assert_eq!(calc_row_height(&info), 2);
    info.names.push("a".to_string());
    info.names.push("b".to_string());
    info.names.push("c".to_string());
    assert_eq!(calc_row_height(&info), 4);
    assert_eq!(pane_title(7), "7 IPs discovered");
    let widths = ColumnConstraints::new(&[&info]);
    assert_eq!(widths.max_ip_len, 11);
    assert_eq!(widths.max_hostname_len, 1);
    assert_eq!(widths.max_packets_count_len, 1);
    assert_eq!(ColumnConstraints::default().max_ip_len, 10);
}

#[test]
fn model_opens_and_closes_popups() {
    let mut m = Model::new();
    let r = m.update(Message::Action(Action::Search));
    assert_eq!(r.reply, Some(Message::Open(Popup::SearchBox)));
    let r = m.update(Message::Open(Popup::SearchBox));
    assert_eq!(r.effect, Effect::OpenSearch);
    assert_eq!(m.selected_pane(), TuiPane::IpInfoWithSearch);
    assert_eq!(m.top_popup(), Some(Popup::SearchBox));
    assert_eq!(m.route_key(true, false, false, false), KeyRoute::BoxInput);
    let r = m.update(Message::Action(Action::Close));
    assert_eq!(r.effect, Effect::CloseSearch);
    assert_eq!(m.top_popup(), None);
    assert_eq!(m.selected_pane(), TuiPane::IpInfo);
}

#[test]
fn model_quits_and_stays_done() {
    let mut m = Model::new();
    assert!(!m.is_done());
    let r = m.update(Message::Action(Action::Quit));
    assert_eq!(r.effect, Effect::Stop);
    assert!(m.is_done());
    m.update(Message::Action(Action::Refresh));
    assert!(m.is_done());
}

#[test]
fn model_layout_fill_stays_in_bounds() {
    let mut m = Model::new();
    for _ in 0..30 {
        m.update(Message::Action(Action::IncreaseLayoutFill));
    }
    assert_eq!(m.pane_constraints(), (100, 2));
    m.update(Message::Action(Action::DecreaseLayoutFill));
    assert_eq!(m.pane_constraints(), (95, 7));
    m.update(Message::Action(Action::ToggleFocus));
    assert_eq!(m.selected_pane(), TuiPane::Logs);
    m.update(Message::Action(Action::IncreaseLayoutFill));
    assert_eq!(m.pane_constraints(), (90, 12));
}

#[test]
fn model_keybindings_popup_rows() {
    let mut m = Model::new();
    m.update(Message::Action(Action::Keybindings));
    m.update(Message::Action(Action::Keybindings));
    assert_eq!(m.top_popup(), Some(Popup::Keybindings));
    assert_eq!(m.keybinding_row(), Some(0));
    m.update(Message::Action(Action::NavigateUp));
    assert_eq!(m.keybinding_row(), Some(0));
    for _ in 0..40 {
        m.update(Message::Action(Action::NavigateDown));
    }
    assert_eq!(m.keybinding_row(), Some(21));
    m.update(Message::Action(Action::Close));
    assert_eq!(m.top_popup(), None);
}

#[test]
fn model_error_prompt_answers() {
    let mut m = Model::new();
    let e = ErrorBox::new("disk full").with_prompt(vec!["Create it?".to_string()]);
    let next = m.config_input_failed(e);
    assert_eq!(next, Message::Open(Popup::ErrorBox));
    m.update(next);
    m.update(Message::Action(Action::NavigateRight));
    let r = m.update(Message::Action(Action::NavigateSelect));
    assert_eq!(r.reply, Some(Message::PromptResponse(PromptResponse::Cancel)));
    let r = m.update(r.reply.unwrap());
    assert_eq!(r.effect, Effect::ConfigCancel);
    assert_eq!(m.top_popup(), None);
}

#[test]
fn model_select_toggles_host_popup() {
    let mut m = Model::new();
    let r = m.update(Message::Action(Action::NavigateSelect));
    assert_eq!(r.reply, Some(Message::Open(Popup::IpInfoPopUp)));
    m.update(r.reply.unwrap());
    assert!(m.ip_info_popup_open());
    let r = m.update(Message::Action(Action::NavigateSelect));
    assert_eq!(r.reply, Some(Message::Action(Action::Close)));
    m.update(r.reply.unwrap());
    assert!(!m.ip_info_popup_open());
}

#[test]
fn log_scroll_stays_within_logs() {
    let mut s = LogScroll::new();
    s.set_frame_height(12);
    assert_eq!(s.lines_in_window(), 10);
    assert_eq!(s.end_position(25), 15);
    s.scroll_page_down(25);
    assert_eq!(s.vertical, 10);
    assert!(s.frozen);
    s.scroll_page_down(25);
    assert_eq!(s.vertical, 16);
    s.scroll_page_up();
    assert_eq!(s.vertical, 6);
    s.scroll_to_start();
    assert_eq!(s.vertical, 0);
    assert!(!s.frozen);
    s.scroll_left();
    assert_eq!(s.horizontal, 0);
    s.scroll_right();
    assert_eq!(s.horizontal, 1);
    s.scroll_to_end(25);
    assert_eq!(s.vertical, 15);
}

#[test]
fn option_selector_wraps() {
    let opts = vec!["dark".to_string(), "light".to_string(), "nord".to_string()];
    let mut sel = OptionSelector::new("Theme", opts, "light");
    assert_eq!(sel.current_value(), "light");
    sel.navigate_down();
    sel.navigate_down();
    assert_eq!(sel.current_value(), "dark");
    sel.navigate_up();
    assert_eq!(sel.current_value(), "nord");
    assert_eq!(sel.original_value(), "light");
    let missing = OptionSelector::new("Theme", vec!["a".to_string()], "zzz");
    assert_eq!(missing.current_value(), "a");
}

#[test]
fn tabs_move_and_wrap() {
    assert_eq!(TabKind::Interfaces.next(), Some(TabKind::Scan));
    assert_eq!(TabKind::Ui.next(), None);
    assert_eq!(TabKind::Interfaces.previous(), TabKind::Interfaces);
    assert_eq!(TabKind::Timeouts.previous(), TabKind::Scan);
    assert_eq!(TabKind::Ui.toggle(), TabKind::Interfaces);
}

#[test]
fn doc_popup_sizes() {
    assert_eq!(count_lines(""), 0);
    assert_eq!(count_lines("a\nb\n"), 2);
    assert_eq!(doc_popup_height("one line"), 2);
    assert_eq!(doc_popup_height("1\n2\n3"), 5);
    assert_eq!(doc_popup_height("1\n2\n3\n4\n5\n6"), 9);
}

#[test]
fn doc_popup_moves_below_wide_items() {
    let items = vec![
        DocItem { row_height: 1, width: 10 },
        DocItem { row_height: 1, width: 50 },
        DocItem { row_height: 2, width: 50 },
        DocItem { row_height: 1, width: 5 },
    ];
    assert_eq!(compute_doc_y(&items, 0, 20, 1, 3), 5);
    assert_eq!(compute_doc_y(&items, 0, 60, 1, 3), 1);
}

#[test]
fn row_height_follows_an_open_picker_on_the_row() {
    let mut info = IpInfo::from_ip(make_ip());
    info.names.push("a".to_string());
    let sel = SubLineSelector::new(make_ip(), 1, vec!["a".to_string(), "b".to_string(), "c".to_string()]);
    assert_eq!(row_height_for(None, &info), 2);
    assert_eq!(row_height_for(Some(&sel), &info), 6);
    let elsewhere = SubLineSelector::new(IpAddress::V4(7), 1, vec!["x".to_string()]);
    assert_eq!(row_height_for(Some(&elsewhere), &info), 2);
}
