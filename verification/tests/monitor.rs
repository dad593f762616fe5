use sysmon::history::{latest, record, sparkline_max, zero_history, HISTORY_LEN};
use sysmon::monitor::{
    network_totals, percent_of, poll_timeout_ms, tick_due, App, Key, KeyOutcome, NetworkCounters,
    Sample,
};

fn sample(cpu: u64, used: u64, total: u64, nets: &[(u64, u64)]) -> Sample {
    Sample {
        uptime_secs: 42,
        cpu_usage: cpu,
        used_memory: used,
        total_memory: total,
        networks: nets
            .iter()
            .map(|&(r, t)| NetworkCounters { received: r, transmitted: t })
            .collect(),
    }
}

#[test]
fn new_app_starts_with_zero_histories_on_first_tab() {
    let app = App::new();
    assert_eq!(app.cpu_history, vec![0u64; 60]);
    assert_eq!(app.mem_history, vec![0u64; 60]);
    assert_eq!(app.net_recv_history, vec![0u64; 60]);
    assert_eq!(app.net_sent_history, vec![0u64; 60]);
    assert_eq!(app.selected_tab, 0);
    assert_eq!(app.scroll_offset, 0);
    assert_eq!(app.uptime_secs, 0);
    assert_eq!((app.prev_recv, app.prev_sent), (0, 0));
}

#[test]
fn tick_records_newest_samples() {
    let mut app = App::new();
    app.on_tick(&sample(37, 3 * 1024, 8 * 1024, &[(4096, 2048), (1024, 1024)]));
    assert_eq!(app.uptime_secs, 42);
    assert_eq!(app.cpu_history.len(), HISTORY_LEN);
    assert_eq!(*app.cpu_history.last().unwrap(), 37);
    assert_eq!(*app.mem_history.last().unwrap(), 37);
    assert_eq!(app.prev_recv, 5120);
    assert_eq!(app.prev_sent, 3072);
    assert_eq!(*app.net_recv_history.last().unwrap(), 5);
    assert_eq!(*app.net_sent_history.last().unwrap(), 3);
    assert_eq!(app.cpu_history[..59], vec![0u64; 59][..]);
}

#[test]
fn traffic_rate_is_difference_from_previous_tick() {
    let mut app = App::new();
    app.on_tick(&sample(0, 0, 0, &[(10_240, 0)]));
    app.on_tick(&sample(0, 0, 0, &[(30_720, 0)]));
    assert_eq!(*app.net_recv_history.last().unwrap(), 20);
    // counters that went down give a rate of 0
    app.on_tick(&sample(0, 0, 0, &[(1_024, 0)]));
    assert_eq!(*app.net_recv_history.last().unwrap(), 0);
    assert_eq!(app.prev_recv, 1024);
}

#[test]
fn memory_percent_is_zero_without_total() {
    let mut app = App::new();
    app.on_tick(&sample(5, 123, 0, &[]));
    assert_eq!(*app.mem_history.last().unwrap(), 0);
    assert_eq!(percent_of(1, 3), 33);
    assert_eq!(percent_of(2, 3), 66);
    assert_eq!(percent_of(7, 0), 0);
}

#[test]
fn history_window_keeps_last_sixty_samples() {
    let mut app = App::new();
    for i in 0..75u64 {
        app.on_tick(&sample(i, 0, 1, &[]));
    }
    let expected: Vec<u64> = (15..75).collect();
    assert_eq!(app.cpu_history, expected);
}

#[test]
fn record_drops_oldest() {
    let mut h = vec![1u64, 2, 3];
    record(&mut h, 9);
    assert_eq!(h, vec![2, 3, 9]);
    assert_eq!(zero_history().len(), 60);
    assert_eq!(latest(&h), 9);
    assert_eq!(latest(&Vec::new()), 0);
}

#[test]
fn sparkline_scale_is_max_and_at_least_one() {
    assert_eq!(sparkline_max(&vec![0, 0, 0]), 1);
    assert_eq!(sparkline_max(&vec![]), 1);
    assert_eq!(sparkline_max(&vec![3, 17, 5]), 17);
    assert_eq!(sparkline_max(&vec![1]), 1);
}

#[test]
fn network_totals_sum_interfaces() {
    let nets = vec![
        NetworkCounters { received: 1, transmitted: 10 },
        NetworkCounters { received: 2, transmitted: 20 },
        NetworkCounters { received: 3, transmitted: 30 },
    ];
    assert_eq!(network_totals(&nets), (6, 60));
    assert_eq!(network_totals(&Vec::new()), (0, 0));
}

#[test]
fn tab_keys_cycle_through_tabs_and_reset_scroll() {
    let mut app = App::new();
    app.scroll_offset = 5;
    assert_eq!(app.handle_key(Key::Tab, false), KeyOutcome::Continue);
    assert_eq!(app.selected_tab, 1);
    assert_eq!(app.scroll_offset, 0);
    app.handle_key(Key::Right, false);
    assert_eq!(app.selected_tab, 2);
    app.handle_key(Key::Tab, false);
    assert_eq!(app.selected_tab, 0);
    app.handle_key(Key::BackTab, false);
    assert_eq!(app.selected_tab, 2);
    app.scroll_offset = 3;
    app.handle_key(Key::Left, false);
    assert_eq!(app.selected_tab, 1);
    assert_eq!(app.scroll_offset, 0);
}

#[test]
fn scroll_keys_move_one_line() {
    let mut app = App::new();
    app.handle_key(Key::Down, false);
    app.handle_key(Key::Char('j'), false);
    assert_eq!(app.scroll_offset, 2);
    app.handle_key(Key::Up, false);
    assert_eq!(app.scroll_offset, 1);
    app.handle_key(Key::Char('k'), true);
    app.handle_key(Key::Char('k'), false);
    assert_eq!(app.scroll_offset, 0);
    app.scroll_offset = usize::MAX;
    app.scroll_down();
    assert_eq!(app.scroll_offset, usize::MAX);
    app.scroll_up();
    assert_eq!(app.scroll_offset, usize::MAX - 1);
}

#[test]
fn quit_keys() {
    let mut app = App::new();
    assert_eq!(app.handle_key(Key::Char('q'), false), KeyOutcome::Quit);
    assert_eq!(app.handle_key(Key::Char('q'), true), KeyOutcome::Quit);
    assert_eq!(app.handle_key(Key::Char('c'), true), KeyOutcome::Quit);
    assert_eq!(app.handle_key(Key::Char('c'), false), KeyOutcome::Continue);
    assert_eq!(app.handle_key(Key::Char('x'), false), KeyOutcome::Continue);
    assert_eq!(app.handle_key(Key::Other, true), KeyOutcome::Continue);
    assert_eq!(app.selected_tab, 0);
    assert_eq!(app.scroll_offset, 0);
}

#[test]
fn tick_timing() {
    assert_eq!(poll_timeout_ms(0), 1000);
    assert_eq!(poll_timeout_ms(250), 750);
    assert_eq!(poll_timeout_ms(1000), 0);
    assert_eq!(poll_timeout_ms(5000), 0);
    assert!(!tick_due(999));
    assert!(tick_due(1000));
    assert!(tick_due(1001));
}

#[test]
fn tick_keeps_history_lengths() {
    let mut app = App::new();
    app.cpu_history = vec![1, 2, 3];
    app.mem_history = vec![4];
    app.on_tick(&sample(9, 1, 2, &[]));
    assert_eq!(app.cpu_history, vec![2, 3, 9]);
    assert_eq!(app.mem_history, vec![50]);
    assert_eq!(app.net_recv_history.len(), 60);
}
