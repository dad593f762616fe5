use sysmon::monitor::{App, NetworkCounters, Sample};
use sysmon::view::{
    core_bars, disk_header, disk_row, disk_rows, gauge_color, header_fields, memory_label,
    overview, percent_label, process_header, process_row, process_rows, process_title,
    shown_processes,
    swap_label, tab_at, tab_bar, text_or, traffic, usage_bar, Color, DiskInfo, ProcessInfo,
    SpanStyle, SystemReadings, Tab,
};

const GIB: u64 = 1_073_741_824;
const MIB: u64 = 1_048_576;

#[test]
fn gauge_colors_follow_thresholds() {
    assert_eq!(gauge_color(0), Color::Green);
    assert_eq!(gauge_color(59), Color::Green);
    assert_eq!(gauge_color(60), Color::Yellow);
    assert_eq!(gauge_color(84), Color::Yellow);
    assert_eq!(gauge_color(85), Color::Red);
    assert_eq!(gauge_color(100), Color::Red);
}

#[test]
fn tabs_by_index() {
    assert_eq!(tab_at(0), Some(Tab::Overview));
    assert_eq!(tab_at(1), Some(Tab::Processes));
    assert_eq!(tab_at(2), Some(Tab::DiskNet));
    assert_eq!(tab_at(3), None);
}

#[test]
fn tab_bar_marks_selected_tab() {
    let bar = tab_bar(1);
    let texts: Vec<&str> = bar.iter().map(|s| s.text.as_str()).collect();
    assert_eq!(texts, vec![" ", "  Overview  ", " ", "  Processes  ", " ", "  Disk & Net  ", " "]);
    let styles: Vec<SpanStyle> = bar.iter().map(|s| s.style).collect();
    assert_eq!(
        styles,
        vec![
            SpanStyle::Plain,
            SpanStyle::Inactive,
            SpanStyle::Plain,
            SpanStyle::Active,
            SpanStyle::Plain,
            SpanStyle::Inactive,
            SpanStyle::Plain
        ]
    );
}

#[test]
fn header_falls_back_to_unknown() {
    let (h, o, u) = header_fields(Some("box".to_string()), None, 12_131);
    assert_eq!(h, "box");
    assert_eq!(o, "unknown");
    assert_eq!(u, "03h 22m 11s");
    assert_eq!(text_or(None, "?"), "?");
}

#[test]
fn labels() {
    assert_eq!(percent_label(42), "42%");
    assert_eq!(memory_label(3 * GIB, 16 * GIB, 18), "3.0 / 16.0 GB  (18%)");
    assert_eq!(swap_label(512 * MIB, 2048 * MIB), "512 / 2048 MB  (25%)");
    assert_eq!(swap_label(0, 0), "0 / 0 MB  (0%)");
}

#[test]
fn core_bar_names() {
    let bars = core_bars(&vec![5, 90, 12]);
    assert_eq!(
        bars,
        vec![("C0".to_string(), 5), ("C1".to_string(), 90), ("C2".to_string(), 12)]
    );
}

#[test]
fn overview_screen() {
    let mut app = App::new();
    app.on_tick(&Sample {
        uptime_secs: 1,
        cpu_usage: 61,
        used_memory: 4 * GIB,
        total_memory: 8 * GIB,
        networks: vec![NetworkCounters { received: 0, transmitted: 0 }],
    });
    let r = SystemReadings {
        used_memory: 4 * GIB,
        total_memory: 8 * GIB,
        used_swap: 900 * MIB,
        total_swap: 1000 * MIB,
        core_usages: vec![10, 20],
        cpu_brand: None,
        kernel_version: Some("6.1.0".to_string()),
        process_count: 321,
    };
    let v = overview(&app, &r);
    assert_eq!(v.cpu.percent, 61);
    assert_eq!(v.cpu.color, Color::Yellow);
    assert_eq!(v.cpu.label, "61%");
    assert_eq!(v.memory.percent, 50);
    assert_eq!(v.memory.color, Color::Green);
    assert_eq!(v.memory.label, "4.0 / 8.0 GB  (50%)");
    assert_eq!(v.cores_title, " Per-Core (2 cores) ");
    assert_eq!(v.cores.len(), 2);
    assert_eq!(v.kernel, "6.1.0");
    assert_eq!(v.cpu_name, "?");
    assert_eq!(v.total_ram, "8.0 GB");
    assert_eq!(v.swap, "900 / 1000 MB  (90%)");
    assert_eq!(v.swap_color, Color::Red);
    assert_eq!(v.processes, "321");
}

fn proc_info(pid: &str, name: &str, cpu: f32, mem: u64) -> ProcessInfo {
    ProcessInfo {
        pid: pid.to_string(),
        name: name.to_string(),
        cpu_key: cpu.to_bits(),
        cpu_text: format!("{:.1}", cpu),
        memory: mem,
        status: "Run".to_string(),
    }
}

#[test]
fn process_header_and_title() {
    assert_eq!(
        process_header(),
        format!("{:<8} {:<25} {:>6}  {:>10}  {}", "PID", "NAME", "CPU%", "MEM(MB)", "STATUS")
    );
    assert_eq!(process_title(17), " Processes (17) -- up/down to scroll ");
}

#[test]
fn process_row_layout_and_color() {
    let p = proc_info("1234", "a-very-long-process-name-indeed", 55.25, 300 * MIB + 5);
    let row = process_row(&p);
    assert_eq!(
        row.text,
        format!(
            "{:<8} {:<25} {:>5.1}%  {:>10}  {}",
            "1234", "a-very-long-process-name", 55.25f32, 300, "Run"
        )
    );
    assert_eq!(row.color, Color::Red);
    assert_eq!(process_row(&proc_info("1", "x", 50.0, 0)).color, Color::Yellow);
    assert_eq!(process_row(&proc_info("1", "x", 20.5, 0)).color, Color::Yellow);
    assert_eq!(process_row(&proc_info("1", "x", 20.0, 0)).color, Color::Green);
    assert_eq!(process_row(&proc_info("1", "x", 0.0, 0)).color, Color::Green);
}

#[test]
fn process_list_sorted_by_cpu_descending_and_paged() {
    let procs = vec![
        proc_info("1", "a", 1.0, 0),
        proc_info("2", "b", 30.0, 0),
        proc_info("3", "c", 1.0, 0),
        proc_info("4", "d", 75.5, 0),
        proc_info("5", "e", 0.0, 0),
    ];
    let rows = process_rows(&procs, 0, 100);
    let pids: Vec<String> = rows.iter().map(|r| r.text[..8].trim().to_string()).collect();
    assert_eq!(pids, vec!["4", "2", "1", "3", "5"]);
    let rows = process_rows(&procs, 1, 6);
    let pids: Vec<String> = rows.iter().map(|r| r.text[..8].trim().to_string()).collect();
    assert_eq!(pids, vec!["2", "1"]);
    assert_eq!(process_rows(&procs, 9, 50).len(), 0);
    assert_eq!(process_rows(&procs, 0, 4).len(), 0);
    assert_eq!(shown_processes(&procs, 0, 100), vec![3, 1, 0, 2, 4]);
    assert_eq!(shown_processes(&procs, 1, 6), vec![1, 0]);
    assert_eq!(shown_processes(&procs, 7, 10), Vec::<usize>::new());
}

#[test]
fn off_screen_names_need_no_boundary() {
    // 23 ASCII bytes then a two-byte character across byte 24
    let awkward = format!("{}é-tail", "a".repeat(23));
    let procs = vec![proc_info("1", "busy", 90.0, 0), proc_info("2", &awkward, 1.0, 0)];
    assert_eq!(shown_processes(&procs, 0, 5), vec![0]);
    let rows = process_rows(&procs, 0, 5);
    assert_eq!(rows.len(), 1);
    assert!(rows[0].text.starts_with("1        busy "));
}

#[test]
fn disk_lines() {
    assert_eq!(
        disk_header(),
        format!("{:<30} {:>10} {:>10} {:>6}  Bar", "Mount", "Used", "Total", "%")
    );
    let d = DiskInfo { mount: "/".to_string(), total: 100 * GIB, available: 25 * GIB };
    let row = disk_row(&d);
    assert_eq!(
        row.text,
        format!(
            "{:<30} {:>10} {:>10} {:>5}%  {}",
            "/", "75.0 GB", "100.0 GB", 75, "[###############-----]"
        )
    );
    assert_eq!(row.color, Color::Yellow);
    let empty = DiskInfo { mount: "/mnt/none".to_string(), total: 0, available: 10 };
    let row = disk_row(&empty);
    assert!(row.text.ends_with("    0%  [--------------------]"));
    assert_eq!(row.color, Color::Green);
    let long = DiskInfo {
        mount: "/run/media/someone/a-rather-long-volume-name".to_string(),
        total: 10 * MIB,
        available: 0,
    };
    let row = disk_row(&long);
    assert!(row.text.starts_with("/run/media/someone/a-rather-l  "));
    assert!(row.text.ends_with("  100%  [####################]"));
    assert_eq!(row.color, Color::Red);
    assert_eq!(disk_rows(&vec![d, empty]).len(), 2);
}

#[test]
fn usage_bars() {
    assert_eq!(usage_bar(0), "[--------------------]");
    assert_eq!(usage_bar(4), "[--------------------]");
    assert_eq!(usage_bar(5), "[#-------------------]");
    assert_eq!(usage_bar(50), "[##########----------]");
    assert_eq!(usage_bar(100), "[####################]");
    assert_eq!(usage_bar(150), "[####################]");
}

#[test]
fn traffic_titles() {
    let mut app = App::new();
    app.on_tick(&Sample {
        uptime_secs: 0,
        cpu_usage: 0,
        used_memory: 0,
        total_memory: 0,
        networks: vec![NetworkCounters { received: 7 * 1024, transmitted: 0 }],
    });
    let t = traffic(&app);
    assert_eq!(t.download_title, " Download (now: 7 KB/s) ");
    assert_eq!(t.download_max, 7);
    assert_eq!(t.upload_title, " Upload (now: 0 KB/s) ");
    assert_eq!(t.upload_max, 1);
}
