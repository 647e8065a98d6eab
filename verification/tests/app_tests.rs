use port_finder::app::keys::{Command, Key};
use port_finder::app::layout::RowKind;
use port_finder::app::{
    tally_kills, App, ClipboardOutcome, KillOutcome, PendingKill, ProtocolFilter, SortColumn,
    SortDirection, StateFilter,
};
use port_finder::port::PortInfo;

fn entry(port: u16, protocol: &str, state: &str, pid: Option<u32>, name: &str, memory: u64) -> PortInfo {
    PortInfo {
        port,
        protocol: protocol.to_string(),
        state: state.to_string(),
        pid,
        process_name: name.to_string(),
        local_addr: format!("127.0.0.1:{}", port),
        duration_secs: 10,
        cpu_usage_bits: 0,
        memory,
        user: "dev".to_string(),
        command: name.to_string(),
        parent_pid: None,
    }
}

fn sample() -> Vec<PortInfo> {
    vec![
        entry(8080, "TCP", "Listen", Some(20), "nginx", 300),
        entry(3000, "TCP", "Listen", Some(10), "node", 100),
        entry(53, "UDP", "-", None, "-", 0),
        entry(3001, "TCP", "Established", Some(10), "node", 100),
        entry(5432, "TCP", "Listen", Some(30), "postgres", 900),
    ]
}

fn ports_of(app: &App) -> Vec<u16> {
    app.ports().iter().map(|p| p.port).collect()
}

fn selected_port(app: &App) -> Option<u16> {
    app.selected_port().map(|p| p.port)
}

#[test]
fn new_orders_by_port_and_selects_first() {
    let app = App::new(sample());
    assert_eq!(ports_of(&app), vec![53, 3000, 3001, 5432, 8080]);
    assert_eq!(app.visible_indices(), &vec![0, 1, 2, 3, 4]);
    assert_eq!(app.selected(), Some(0));
    assert_eq!(app.auto_refresh_interval_ms(), 1000);
    assert!(!app.has_pending_kill());
    let empty = App::new(vec![]);
    assert_eq!(empty.selected(), None);
}

#[test]
fn navigation_wraps_and_clamps() {
    let mut app = App::new(sample());
    app.prev();
    assert_eq!(app.selected(), Some(4));
    app.next();
    assert_eq!(app.selected(), Some(0));
    app.next();
    app.prev();
    assert_eq!(app.selected(), Some(0));
    app.page_down(10);
    assert_eq!(app.selected(), Some(4));
    app.page_up(3);
    assert_eq!(app.selected(), Some(1));
    app.page_up(3);
    assert_eq!(app.selected(), Some(0));
    app.last();
    assert_eq!(app.selected(), Some(4));
    app.first();
    assert_eq!(app.selected(), Some(0));
    app.toggle_inspect();
    app.next();
    assert_eq!(app.selected(), Some(0));
}

#[test]
fn marks_and_jumps() {
    let mut app = App::new(sample());
    app.next_selected_row();
    assert_eq!(app.message(), Some("No selected rows to jump to"));
    app.next();
    app.toggle_select_selected();
    assert_eq!(app.message(), Some("Selected 1 row(s)"));
    app.last();
    app.toggle_select_selected();
    app.first();
    app.next_selected_row();
    assert_eq!(app.selected(), Some(1));
    assert_eq!(app.message(), Some("Jumped to next selected row"));
    app.next_selected_row();
    assert_eq!(app.selected(), Some(4));
    app.next_selected_row();
    assert_eq!(app.selected(), Some(1));
    app.prev_selected_row();
    assert_eq!(app.selected(), Some(4));
    assert_eq!(app.message(), Some("Jumped to previous selected row"));
    app.clear_selection();
    assert_eq!(app.marked_count(), 0);
    assert_eq!(app.message(), Some("Selection cleared"));
}

#[test]
fn visible_marks_toggle_and_invert() {
    let mut app = App::new(sample());
    app.next();
    app.toggle_select_selected();
    app.toggle_select_visible();
    assert_eq!(app.marked_count(), 5);
    assert_eq!(app.message(), Some("Visible rows selected (5 total selected)"));
    app.toggle_select_visible();
    assert_eq!(app.marked_count(), 0);
    assert_eq!(app.message(), Some("Visible rows unselected (0 total selected)"));
    app.toggle_select_selected();
    app.invert_select_visible();
    assert_eq!(app.marked_count(), 4);
    assert!(!app.is_marked(1));
    app.invert_select_visible();
    assert_eq!(app.marked_count(), 1);
    assert!(app.is_marked(1));
    assert_eq!(app.message(), Some("Visible selection inverted (1 total selected)"));
}

#[test]
fn same_pid_marking() {
    let mut app = App::new(sample());
    app.toggle_select_same_pid();
    assert_eq!(app.message(), Some("Selected row has no PID"));
    app.next();
    app.toggle_select_same_pid();
    assert!(app.is_marked(1) && app.is_marked(2));
    assert_eq!(app.message(), Some("Selected rows for PID 10 (2 total selected)"));
    app.toggle_select_same_pid();
    assert_eq!(app.marked_count(), 0);
    assert_eq!(app.message(), Some("Unselected rows for PID 10 (0 total selected)"));
}

#[test]
fn refresh_keeps_marks_and_cursor_by_identity() {
    let mut app = App::new(sample());
    app.next();
    app.next();
    app.toggle_select_selected();
    assert_eq!(selected_port(&app), Some(3001));
    let mut fresh = sample();
    fresh.push(entry(1, "TCP", "Listen", Some(5), "init", 1));
    fresh.remove(0);
    app.refresh(fresh);
    assert_eq!(ports_of(&app), vec![1, 53, 3000, 3001, 5432]);
    assert_eq!(selected_port(&app), Some(3001));
    assert!(app.is_marked(3));
    assert_eq!(app.marked_count(), 1);
    app.refresh(vec![entry(9999, "TCP", "Listen", None, "x", 0)]);
    assert_eq!(app.marked_count(), 0);
    assert_eq!(app.selected(), Some(0));
    app.refresh(vec![]);
    assert_eq!(app.selected(), None);
}

#[test]
fn sorting_by_columns_and_direction() {
    let mut app = App::new(sample());
    app.cycle_sort(Some(sample()));
    assert_eq!(app.sort_column(), SortColumn::Pid);
    assert_eq!(app.message(), Some("Sorted by Pid"));
    let pids: Vec<Option<u32>> = app.ports().iter().map(|p| p.pid).collect();
    assert_eq!(pids, vec![None, Some(10), Some(10), Some(20), Some(30)]);
    app.cycle_sort(Some(sample()));
    assert_eq!(app.message(), Some("Sorted by Memory"));
    app.toggle_sort_direction(Some(sample()));
    assert_eq!(app.sort_direction(), SortDirection::Desc);
    assert_eq!(app.message(), Some("Sort direction: Desc"));
    assert_eq!(ports_of(&app), vec![5432, 8080, 3001, 3000, 53]);
    app.cycle_sort(None);
    assert_eq!(app.sort_column(), SortColumn::Cpu);
    assert_eq!(ports_of(&app), vec![5432, 8080, 3001, 3000, 53]);
    app.cycle_sort(None);
    assert_eq!(app.sort_column(), SortColumn::Port);
}

#[test]
fn quick_filters_and_text_filter_in_layout() {
    let mut app = App::new(sample());
    app.cycle_protocol_filter();
    assert_eq!(app.protocol_filter(), ProtocolFilter::Tcp);
    assert_eq!(app.message(), Some("Protocol filter: Tcp"));
    let rows = app.layout();
    assert_eq!(rows.len(), 4);
    app.cycle_state_filter();
    assert_eq!(app.state_filter(), StateFilter::Listen);
    let rows = app.layout();
    let shown: Vec<u16> = rows.iter().map(|r| app.ports()[r.port_index].port).collect();
    assert_eq!(shown, vec![3000, 5432, 8080]);
    app.reset_all_filters();
    assert_eq!(app.message(), Some("All filters reset"));
    app.begin_filter();
    assert!(app.filter_mode());
    app.push_filter_char('N');
    app.push_filter_char('O');
    app.push_filter_char('x');
    app.pop_filter_char();
    assert_eq!(app.filter_text(), "NO");
    app.apply_filter();
    assert_eq!(app.message(), Some("Filter applied: 'NO'"));
    let rows = app.layout();
    let shown: Vec<u16> = rows.iter().map(|r| app.ports()[r.port_index].port).collect();
    assert_eq!(shown, vec![3000, 3001]);
    assert_eq!(rows[0].kind, RowKind::Entry);
    assert_eq!(rows[0].ports_label, "3000");
    app.cancel_filter();
    app.begin_filter();
    app.push_filter_char('5');
    app.push_filter_char('3');
    let rows = app.layout();
    let shown: Vec<u16> = rows.iter().map(|r| app.ports()[r.port_index].port).collect();
    assert_eq!(shown, vec![53]);
    app.cancel_filter();
    assert_eq!(app.filter_text(), "");
}

#[test]
fn group_layout_by_process() {
    let mut app = App::new(sample());
    app.toggle_group();
    assert_eq!(app.message(), Some("Group Mode: ON"));
    let rows = app.layout();
    let labels: Vec<&str> = rows.iter().map(|r| r.ports_label.as_str()).collect();
    assert_eq!(labels, vec!["3000, 3001 (2)", "5432", "8080", "53"]);
    assert_eq!(rows[0].kind, RowKind::Process);
    assert_eq!(rows[3].kind, RowKind::Unowned);
    assert_eq!(app.visible_indices(), &vec![1, 3, 4, 0]);
    app.cycle_sort(Some(sample()));
    app.cycle_sort(Some(sample()));
    let rows = app.layout();
    let labels: Vec<&str> = rows.iter().map(|r| r.ports_label.as_str()).collect();
    assert_eq!(labels, vec!["5432", "8080", "3000, 3001 (2)", "53"]);
}

#[test]
fn layout_clamps_cursor() {
    let mut app = App::new(sample());
    app.last();
    app.begin_filter();
    app.push_filter_char('n');
    app.push_filter_char('o');
    app.push_filter_char('d');
    let rows = app.layout();
    assert_eq!(rows.len(), 2);
    assert_eq!(app.selected(), Some(1));
    app.push_filter_char('z');
    let rows = app.layout();
    assert_eq!(rows.len(), 0);
    assert_eq!(app.selected(), None);
}

#[test]
fn interval_steps_and_bounds() {
    let mut app = App::new(sample());
    app.toggle_auto_refresh();
    assert_eq!(app.message(), Some("Auto-refresh: ON (1.0s)"));
    app.increase_refresh_interval();
    assert_eq!(app.auto_refresh_interval_ms(), 1500);
    assert_eq!(app.message(), Some("Auto-refresh interval: 1.5s"));
    for _ in 0..30 {
        app.increase_refresh_interval();
    }
    assert_eq!(app.auto_refresh_interval_ms(), 10_000);
    assert_eq!(app.message(), Some("Auto-refresh interval: 10.0s"));
    for _ in 0..30 {
        app.decrease_refresh_interval();
    }
    assert_eq!(app.auto_refresh_interval_ms(), 500);
    assert_eq!(app.message(), Some("Auto-refresh interval: 0.5s"));
    assert!(app.refresh_due(500));
    assert!(!app.refresh_due(499));
    app.toggle_auto_refresh();
    assert_eq!(app.message(), Some("Auto-refresh: OFF (0.5s)"));
    assert!(!app.refresh_due(100_000));
}

#[test]
fn single_kill_flow() {
    let mut app = App::new(sample());
    app.request_kill_selected();
    assert_eq!(app.message(), Some("Selected row has no killable PID"));
    app.next();
    app.request_kill_selected();
    assert_eq!(app.message(), Some("Kill pending confirmation"));
    assert_eq!(
        app.pending_kill_prompt(),
        Some("Kill PID 10 (node) on port 3000? [y/Enter=yes, n/Esc=no]".to_string())
    );
    assert_eq!(app.pending_kill_pids(), vec![10]);
    app.cancel_pending_kill();
    assert_eq!(app.message(), Some("Kill canceled"));
    assert!(!app.has_pending_kill());
    app.request_kill_selected();
    app.confirm_pending_kill(&vec![KillOutcome::Killed], None);
    assert_eq!(app.message(), Some("Killed PID 10"));
    assert!(!app.has_pending_kill());
    app.request_kill_selected();
    app.confirm_pending_kill(&vec![KillOutcome::SignalFailed], None);
    assert_eq!(app.message(), Some("Failed to kill PID 10 (permission denied or protected)"));
    app.request_kill_selected();
    app.confirm_pending_kill(&vec![KillOutcome::Missing], Some(vec![]));
    assert_eq!(app.message(), Some("PID 10 was not running"));
    assert_eq!(app.ports().len(), 0);
}

#[test]
fn batch_kill_flow() {
    let mut app = App::new(sample());
    app.request_kill_selected_batch();
    assert_eq!(app.message(), Some("No selected rows"));
    app.toggle_select_selected();
    app.request_kill_selected_batch();
    assert_eq!(app.message(), Some("No killable PID in selected rows"));
    app.toggle_select_visible();
    app.request_kill_selected_batch();
    assert_eq!(app.message(), Some("Batch kill pending confirmation"));
    match app.pending_kill() {
        Some(PendingKill::Batch { pids }) => assert_eq!(pids, &vec![10, 20, 30]),
        other => panic!("unexpected {:?}", other),
    }
    assert_eq!(
        app.pending_kill_prompt(),
        Some("Kill 3 selected process(es)? [y/Enter=yes, n/Esc=no]".to_string())
    );
    app.confirm_pending_kill(&vec![KillOutcome::Killed, KillOutcome::SignalFailed, KillOutcome::Missing], None);
    assert_eq!(
        app.message(),
        Some("Batch kill: 1/3 killed, 1 failed, 1 missing (try elevated privileges)")
    );
    app.request_kill_selected_batch();
    app.confirm_pending_kill(&vec![KillOutcome::Killed, KillOutcome::Killed, KillOutcome::Missing], None);
    assert_eq!(app.message(), Some("Batch kill: 2/3 killed, 1 missing"));
}

#[test]
fn tally_counts_outcomes() {
    assert_eq!(
        tally_kills(&vec![KillOutcome::Killed, KillOutcome::Missing, KillOutcome::Killed]),
        (2, 0, 1)
    );
    assert_eq!(tally_kills(&vec![]), (0, 0, 0));
}

#[test]
fn copy_messages() {
    let mut app = App::new(sample());
    app.copy_selected(ClipboardOutcome::Copied);
    assert_eq!(app.message(), Some("Copied 127.0.0.1:53"));
    app.copy_selected(ClipboardOutcome::Failed);
    assert_eq!(app.message(), Some("Clipboard error"));
    app.copy_selected(ClipboardOutcome::Unavailable);
    assert_eq!(app.message(), Some("Clipboard unavailable"));
    app.clear_message();
    assert_eq!(app.message(), None);
    let mut empty = App::new(vec![]);
    empty.copy_selected(ClipboardOutcome::Copied);
    assert_eq!(empty.message(), None);
}

#[test]
fn key_commands_by_mode() {
    let mut app = App::new(sample());
    assert_eq!(app.command_for_key(Key::Char('q')), Command::Quit);
    assert_eq!(app.command_for_key(Key::Esc), Command::Quit);
    assert_eq!(app.command_for_key(Key::Char('j')), Command::Next);
    assert_eq!(app.command_for_key(Key::Char('n')), Command::NextMarked);
    assert_eq!(app.command_for_key(Key::Char('K')), Command::RequestKill);
    assert_eq!(app.command_for_key(Key::Char('Q')), Command::Nothing);
    app.begin_filter();
    assert_eq!(app.command_for_key(Key::Char('q')), Command::PushFilterChar('q'));
    assert_eq!(app.command_for_key(Key::Enter), Command::ApplyFilter);
    app.apply_filter();
    app.next();
    app.request_kill_selected();
    assert_eq!(app.command_for_key(Key::Char('y')), Command::ConfirmKill);
    assert_eq!(app.command_for_key(Key::Char('n')), Command::CancelKill);
    assert_eq!(app.command_for_key(Key::Char('q')), Command::Nothing);
    app.cancel_pending_kill();
    app.toggle_help();
    assert_eq!(app.command_for_key(Key::Char('?')), Command::ToggleHelp);
    assert_eq!(app.command_for_key(Key::Down), Command::Nothing);
    app.toggle_help();
    app.toggle_inspect();
    assert_eq!(app.command_for_key(Key::Enter), Command::ToggleInspect);
    assert_eq!(app.command_for_key(Key::Char('q')), Command::Nothing);
}

#[test]
fn toggle_all_switches_listing_mode() {
    let mut app = App::new(sample());
    app.toggle_all(None);
    assert!(app.show_all());
    assert_eq!(app.ports().len(), 5);
    app.toggle_all(Some(vec![entry(1, "TCP", "Listen", None, "x", 0)]));
    assert!(!app.show_all());
    assert_eq!(ports_of(&app), vec![1]);
}

fn with_cpu(port: u16, pid: Option<u32>, cpu: f32) -> PortInfo {
    let mut p = entry(port, "TCP", "Listen", pid, "svc", 0);
    p.cpu_usage_bits = cpu.to_bits();
    p
}

fn cpu_listing() -> Vec<PortInfo> {
    vec![
        with_cpu(1, Some(1), 2.0),
        with_cpu(2, Some(2), -1.0),
        with_cpu(3, Some(3), 0.0),
        with_cpu(4, Some(4), -0.0),
        with_cpu(5, Some(5), 0.5),
        with_cpu(6, Some(6), -3.5),
    ]
}

fn cpu_table(direction_desc: bool) -> App {
    let mut app = App::new(cpu_listing());
    app.cycle_sort(None);
    app.cycle_sort(None);
    app.cycle_sort(Some(cpu_listing()));
    assert_eq!(app.sort_column(), SortColumn::Cpu);
    if direction_desc {
        app.toggle_sort_direction(Some(cpu_listing()));
    }
    app
}

#[test]
fn cpu_sort_follows_the_float_values() {
    let app = cpu_table(false);
    // Both zeros compare equal, so they keep their listing order.
    assert_eq!(ports_of(&app), vec![6, 2, 3, 4, 5, 1]);
    let app = cpu_table(true);
    assert_eq!(ports_of(&app), vec![1, 5, 4, 3, 2, 6]);
}

#[test]
fn cpu_grouping_orders_processes_by_descending_usage() {
    let mut app = cpu_table(false);
    app.toggle_group();
    let rows = app.layout();
    let labels: Vec<&str> = rows.iter().map(|r| r.ports_label.as_str()).collect();
    assert_eq!(labels, vec!["1", "5", "3", "4", "2", "6"]);
}
