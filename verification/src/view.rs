//! What each screen of the monitor shows: texts, figures and colours, computed
//! from the state and the latest readings. Drawing them is left to the caller.

use vstd::prelude::*;
use crate::history::{latest, newest, scale_max, sparkline_max};
use crate::monitor::{app_wf, minus_or_zero, percent, percent_of, App, TAB_COUNT};
use crate::ranking::{is_ranking, ranking, ranks_before};
use crate::text::{
    cut_on_boundary, decimal, decimal_string, lemma_decimal_injective, pad_left, pad_right, push_char, push_decimal,
    push_decimal_padded, push_padded_left, push_padded_right, push_repeated, utf8_prefix,
    utf8_truncate,
};
use crate::units::{bytes_text, format_bytes, gib_tenths, mb_to_gb, tenths_text, MIB};

verus! {

/// The colours the monitor picks by rule.
#[derive(PartialEq, Eq, Structural, Debug, Clone, Copy)]
pub enum Color {
    Red,
    Yellow,
    Green,
}

/// The colour of a usage percentage: red from 85, yellow from 60, green below.
pub open spec fn gauge_tint(pct: nat) -> Color {
    if pct >= 85 {
        Color::Red
    } else if pct >= 60 {
        Color::Yellow
    } else {
        Color::Green
    }
}

/// How alarming a colour is: green 0, yellow 1, red 2.
pub open spec fn severity(c: Color) -> nat {
    match c {
        Color::Red => 2,
        Color::Yellow => 1,
        Color::Green => 0,
    }
}

/// The colour of a usage percentage: red from 85, yellow from 60, green below.
pub fn gauge_color(pct: u64) -> (c: Color)
    ensures
        c == gauge_tint(pct as nat),
{
    if pct >= 85 {
        Color::Red
    } else if pct >= 60 {
        Color::Yellow
    } else {
        Color::Green
    }
}

/// A higher usage is never shown in a less alarming colour.
pub proof fn lemma_gauge_tint_monotone(p: nat, q: nat)
    requires
        p <= q,
    ensures
        severity(gauge_tint(p)) <= severity(gauge_tint(q)),
{
}

/// The screens the monitor shows, one per tab.
#[derive(PartialEq, Eq, Structural, Debug, Clone, Copy)]
pub enum Tab {
    Overview,
    Processes,
    DiskNet,
}

/// The screen of the tab at position `i`, if there is one.
pub open spec fn tab_screen(i: nat) -> Option<Tab> {
    if i == 0 {
        Some(Tab::Overview)
    } else if i == 1 {
        Some(Tab::Processes)
    } else if i == 2 {
        Some(Tab::DiskNet)
    } else {
        None
    }
}

/// The screen of the selected tab, if the selection names one.
pub fn tab_at(selected: usize) -> (t: Option<Tab>)
    ensures
        t == tab_screen(selected as nat),
{
    match selected {
        0 => Some(Tab::Overview),
        1 => Some(Tab::Processes),
        2 => Some(Tab::DiskNet),
        _ => None,
    }
}

/// In a well-formed state the selected tab always names a screen.
pub proof fn lemma_selected_tab_has_screen(app: App)
    requires
        app_wf(app),
    ensures
        tab_screen(app.selected_tab as nat) is Some,
{
}

/// How a piece of the tab bar is styled.
#[derive(PartialEq, Eq, Structural, Debug, Clone, Copy)]
pub enum SpanStyle {
    /// A separator.
    Plain,
    /// The title of the selected tab.
    Active,
    /// The title of another tab.
    Inactive,
}

/// A piece of text with its style.
pub struct StyledText {
    pub text: String,
    pub style: SpanStyle,
}

/// The title of the tab at position `i`.
pub open spec fn tab_title(i: nat) -> Seq<char> {
    if i == 0 {
        "  Overview  "@
    } else if i == 1 {
        "  Processes  "@
    } else {
        "  Disk & Net  "@
    }
}

fn styled(text: &str, style: SpanStyle) -> (s: StyledText)
    ensures
        s.text@ == text@,
        s.style == style,
{
    StyledText { text: String::from_str(text), style }
}

/// The tab bar: a space, then each tab's title followed by a space; the
/// selected tab's title is marked active, the others inactive.
pub fn tab_bar(selected: usize) -> (spans: Vec<StyledText>)
    ensures
        spans@.len() == 2 * TAB_COUNT + 1,
        forall|i: int|
            0 <= i < spans@.len() && i % 2 == 0 ==> (#[trigger] spans@[i]).text@ == " "@
                && spans@[i].style == SpanStyle::Plain,
        forall|t: int|
            0 <= t < TAB_COUNT ==> (#[trigger] spans@[2 * t + 1]).text@ == tab_title(t as nat)
                && spans@[2 * t + 1].style == if t == selected {
                SpanStyle::Active
            } else {
                SpanStyle::Inactive
            },
{
    let mut spans: Vec<StyledText> = Vec::new();
    spans.push(styled(" ", SpanStyle::Plain));
    let s0 = if selected == 0 { SpanStyle::Active } else { SpanStyle::Inactive };
    spans.push(styled("  Overview  ", s0));
    spans.push(styled(" ", SpanStyle::Plain));
    let s1 = if selected == 1 { SpanStyle::Active } else { SpanStyle::Inactive };
    spans.push(styled("  Processes  ", s1));
    spans.push(styled(" ", SpanStyle::Plain));
    let s2 = if selected == 2 { SpanStyle::Active } else { SpanStyle::Inactive };
    spans.push(styled("  Disk & Net  ", s2));
    spans.push(styled(" ", SpanStyle::Plain));
    assert forall|t: int| 0 <= t < TAB_COUNT implies (#[trigger] spans@[2 * t + 1]).text@ == tab_title(
        t as nat,
    ) && spans@[2 * t + 1].style == if t == selected {
        SpanStyle::Active
    } else {
        SpanStyle::Inactive
    } by {
        if t == 0 {
        } else if t == 1 {
        } else {
        }
    }
    spans
}

/// A text, or `fallback` when there is none.
pub open spec fn text_or_spec(text: Option<Seq<char>>, fallback: Seq<char>) -> Seq<char> {
    match text {
        Some(t) => t,
        None => fallback,
    }
}

/// The view of an optional text.
pub open spec fn opt_view(text: Option<String>) -> Option<Seq<char>> {
    match text {
        Some(t) => Some(t@),
        None => None,
    }
}

/// A text, or `fallback` when there is none.
pub fn text_or(text: Option<String>, fallback: &str) -> (r: String)
    ensures
        r@ == text_or_spec(opt_view(text), fallback@),
{
    match text {
        Some(t) => t,
        None => String::from_str(fallback),
    }
}

/// The header line's fields: host name and operating system (each "unknown"
/// when not known) and the uptime as `HHh MMm SSs`.
pub fn header_fields(host_name: Option<String>, os_version: Option<String>, uptime_secs: u64) -> (r: (
    String,
    String,
    String,
))
    ensures
        r.0@ == text_or_spec(opt_view(host_name), "unknown"@),
        r.1@ == text_or_spec(opt_view(os_version), "unknown"@),
        r.2@ == crate::units::uptime_text(uptime_secs as nat),
{
    (
        text_or(host_name, "unknown"),
        text_or(os_version, "unknown"),
        crate::units::format_uptime(uptime_secs),
    )
}

/// Readings shown on the overview besides the histories.
pub struct SystemReadings {
    /// Memory in use, in bytes.
    pub used_memory: u64,
    /// Total memory, in bytes.
    pub total_memory: u64,
    /// Swap in use, in bytes.
    pub used_swap: u64,
    /// Total swap, in bytes.
    pub total_swap: u64,
    /// Usage of each core, in whole percent.
    pub core_usages: Vec<u64>,
    /// The brand of the first core, if there is a core.
    pub cpu_brand: Option<String>,
    /// The kernel version, if known.
    pub kernel_version: Option<String>,
    /// The number of processes.
    pub process_count: usize,
}

/// A percentage gauge: its value, colour and label.
pub struct GaugeView {
    pub percent: u64,
    pub color: Color,
    pub label: String,
}

/// Everything the overview shows besides the load average.
pub struct OverviewView {
    pub cpu: GaugeView,
    pub memory: GaugeView,
    pub cores_title: String,
    pub cores: Vec<(String, u64)>,
    pub kernel: String,
    pub cpu_name: String,
    pub total_ram: String,
    pub swap: String,
    pub swap_color: Color,
    pub processes: String,
}

/// `pct` followed by a percent sign.
pub fn percent_label(pct: u64) -> (r: String)
    ensures
        r@ == decimal(pct as nat) + "%"@,
{
    let mut r = decimal_string(pct);
    r.append("%");
    r
}

/// Memory use as `USED / TOTAL GB  (PCT%)`, sizes in gibibytes with one decimal.
pub open spec fn memory_text(used: nat, total: nat, pct: nat) -> Seq<char> {
    tenths_text(gib_tenths(used)) + " / "@ + tenths_text(gib_tenths(total)) + " GB  ("@ + decimal(
        pct,
    ) + "%)"@
}

/// Memory use as `USED / TOTAL GB  (PCT%)`, sizes in gibibytes with one decimal.
pub fn memory_label(used: u64, total: u64, pct: u64) -> (r: String)
    ensures
        r@ == memory_text(used as nat, total as nat, pct as nat),
{
    let mut r = mb_to_gb(used);
    r.append(" / ");
    let t = mb_to_gb(total);
    r.append(t.as_str());
    r.append(" GB  (");
    push_decimal(&mut r, pct);
    r.append("%)");
    r
}

/// Swap use as `USED / TOTAL MB  (PCT%)`, sizes in whole mebibytes rounded down.
pub open spec fn swap_text(used: nat, total: nat) -> Seq<char> {
    decimal(used / (MIB as nat)) + " / "@ + decimal(total / (MIB as nat)) + " MB  ("@ + decimal(
        percent(used, total),
    ) + "%)"@
}

/// Swap use as `USED / TOTAL MB  (PCT%)`, sizes in whole mebibytes rounded down.
pub fn swap_label(used: u64, total: u64) -> (r: String)
    requires
        total > 0 ==> used * 100 <= u64::MAX,
    ensures
        r@ == swap_text(used as nat, total as nat),
{
    let mut r = decimal_string(used / MIB);
    r.append(" / ");
    push_decimal(&mut r, total / MIB);
    r.append(" MB  (");
    push_decimal(&mut r, percent_of(used, total));
    r.append("%)");
    r
}

/// The name of core `i` on the per-core chart.
pub open spec fn core_name(i: nat) -> Seq<char> {
    "C"@ + decimal(i)
}

/// Every core's name starts with `C` followed by its number, and different
/// cores have different names.
pub proof fn lemma_core_names_distinct(i: nat, j: nat)
    ensures
        core_name(i)[0] == 'C',
        core_name(i).drop_first() == decimal(i),
        i != j ==> core_name(i) != core_name(j),
{
    reveal_strlit("C");
    assert(core_name(i).drop_first() =~= decimal(i));
    assert(core_name(j).drop_first() =~= decimal(j));
    if core_name(i) == core_name(j) {
        lemma_decimal_injective(i, j);
    }
}

/// The bars of the per-core chart: core `i` is named `Ci` and shows its usage.
pub fn core_bars(usages: &Vec<u64>) -> (bars: Vec<(String, u64)>)
    ensures
        bars@.len() == usages@.len(),
        forall|i: int|
            0 <= i < bars@.len() ==> (#[trigger] bars@[i]).0@ == core_name(i as nat) && bars@[i].1
                == usages@[i],
        forall|i: int, j: int|
            0 <= i < bars@.len() && 0 <= j < bars@.len() && i != j ==> (#[trigger] bars@[i]).0@
                != (#[trigger] bars@[j]).0@,
{
    let mut bars: Vec<(String, u64)> = Vec::new();
    let mut i: usize = 0;
    while i < usages.len()
        invariant
            i <= usages@.len(),
            bars@.len() == i,
            forall|j: int|
                0 <= j < i ==> (#[trigger] bars@[j]).0@ == core_name(j as nat) && bars@[j].1
                    == usages@[j],
        decreases usages.len() - i,
    {
        let mut name = String::from_str("C");
        push_decimal(&mut name, i as u64);
        bars.push((name, usages[i]));
        i = i + 1;
    }
    assert forall|i: int, j: int|
        0 <= i < bars@.len() && 0 <= j < bars@.len() && i != j implies (#[trigger] bars@[i]).0@
            != (#[trigger] bars@[j]).0@ by {
        lemma_core_names_distinct(i as nat, j as nat);
    }
    bars
}

/// The title of the per-core chart.
pub open spec fn cores_title_text(n: nat) -> Seq<char> {
    " Per-Core ("@ + decimal(n) + " cores) "@
}

/// The overview screen: CPU and memory gauges from the newest samples, the
/// per-core chart, and the system facts ("?" where a fact is not known).
pub fn overview(app: &App, r: &SystemReadings) -> (v: OverviewView)
    requires
        r.total_swap > 0 ==> r.used_swap * 100 <= u64::MAX,
    ensures
        v.cpu.percent == newest(app.cpu_history@),
        v.cpu.color == gauge_tint(newest(app.cpu_history@) as nat),
        v.cpu.label@ == decimal(newest(app.cpu_history@) as nat) + "%"@,
        v.memory.percent == newest(app.mem_history@),
        v.memory.color == gauge_tint(newest(app.mem_history@) as nat),
        v.memory.label@ == memory_text(
            r.used_memory as nat,
            r.total_memory as nat,
            newest(app.mem_history@) as nat,
        ),
        v.cores_title@ == cores_title_text(r.core_usages@.len()),
        v.cores@.len() == r.core_usages@.len(),
        forall|i: int|
            0 <= i < v.cores@.len() ==> (#[trigger] v.cores@[i]).0@ == core_name(i as nat)
                && v.cores@[i].1 == r.core_usages@[i],
        v.kernel@ == text_or_spec(opt_view(r.kernel_version), "?"@),
        v.cpu_name@ == text_or_spec(opt_view(r.cpu_brand), "?"@),
        v.total_ram@ == tenths_text(gib_tenths(r.total_memory as nat)) + " GB"@,
        v.swap@ == swap_text(r.used_swap as nat, r.total_swap as nat),
        v.swap_color == gauge_tint(percent(r.used_swap as nat, r.total_swap as nat)),
        v.processes@ == decimal(r.process_count as nat),
{
    let cpu_pct = latest(&app.cpu_history);
    let mem_pct = latest(&app.mem_history);
    let cpu = GaugeView { percent: cpu_pct, color: gauge_color(cpu_pct), label: percent_label(cpu_pct) };
    let memory = GaugeView {
        percent: mem_pct,
        color: gauge_color(mem_pct),
        label: memory_label(r.used_memory, r.total_memory, mem_pct),
    };
    let mut cores_title = String::from_str(" Per-Core (");
    push_decimal(&mut cores_title, r.core_usages.len() as u64);
    cores_title.append(" cores) ");
    let mut total_ram = mb_to_gb(r.total_memory);
    total_ram.append(" GB");
    let swap_pct = percent_of(r.used_swap, r.total_swap);
    OverviewView {
        cpu,
        memory,
        cores_title,
        cores: core_bars(&r.core_usages),
        kernel: text_or(r.kernel_version.clone(), "?"),
        cpu_name: text_or(r.cpu_brand.clone(), "?"),
        total_ram,
        swap: swap_label(r.used_swap, r.total_swap),
        swap_color: gauge_color(swap_pct),
        processes: decimal_string(r.process_count as u64),
    }
}

/// A process as the process list shows it.
pub struct ProcessInfo {
    /// The process id, as text.
    pub pid: String,
    /// The process name.
    pub name: String,
    /// The bit pattern of the process's CPU usage when it is a positive `f32`
    /// (for positive numbers the bit patterns are ordered as the numbers
    /// are), and 0 otherwise.
    pub cpu_key: u32,
    /// The CPU usage with one decimal.
    pub cpu_text: String,
    /// Resident memory, in bytes.
    pub memory: u64,
    /// The scheduling status, as text.
    pub status: String,
}

/// A line of text with its colour.
pub struct StyledLine {
    pub text: String,
    pub color: Color,
}

/// The bit pattern of the CPU usage 20.0.
pub const CPU_KEY_20: u32 = 0x41A0_0000;

/// The bit pattern of the CPU usage 50.0.
pub const CPU_KEY_50: u32 = 0x4248_0000;

/// The colour of a process line: red above 50% CPU, yellow above 20%, green
/// otherwise.
pub open spec fn cpu_tint(key: u32) -> Color {
    if key > CPU_KEY_50 {
        Color::Red
    } else if key > CPU_KEY_20 {
        Color::Yellow
    } else {
        Color::Green
    }
}

/// A busier process is never shown in a less alarming colour (for positive
/// usages, whose bit patterns order as the numbers do).
pub proof fn lemma_cpu_tint_monotone(k1: u32, k2: u32)
    requires
        k1 <= k2,
    ensures
        severity(cpu_tint(k1)) <= severity(cpu_tint(k2)),
{
}

/// Maximum bytes of a process name shown.
pub const NAME_BYTES: usize = 24;

/// The line of a process: pid, name (cut to 24 bytes), CPU usage, memory in
/// whole mebibytes and status, in columns.
pub open spec fn process_line(p: ProcessInfo) -> Seq<char> {
    pad_right(p.pid@, 8) + " "@ + pad_right(utf8_prefix(p.name@, NAME_BYTES as nat), 25) + " "@
        + pad_left(p.cpu_text@, 5, ' ') + "%  "@ + pad_left(
        decimal(p.memory as nat / (MIB as nat)),
        10,
        ' ',
    ) + "  "@ + p.status@
}

/// The heading line of the process list.
pub open spec fn process_header_text() -> Seq<char> {
    pad_right("PID"@, 8) + " "@ + pad_right("NAME"@, 25) + " "@ + pad_left("CPU%"@, 6, ' ')
        + "  "@ + pad_left("MEM(MB)"@, 10, ' ') + "  "@ + "STATUS"@
}

/// The heading line of the process list.
pub fn process_header() -> (r: String)
    ensures
        r@ == process_header_text(),
{
    let mut r = String::new();
    push_padded_right(&mut r, "PID", 8);
    r.append(" ");
    push_padded_right(&mut r, "NAME", 25);
    r.append(" ");
    push_padded_left(&mut r, "CPU%", 6, ' ');
    r.append("  ");
    push_padded_left(&mut r, "MEM(MB)", 10, ' ');
    r.append("  ");
    r.append("STATUS");
    r
}

/// The title of the process list, with the number of processes.
pub fn process_title(total: usize) -> (r: String)
    ensures
        r@ == " Processes ("@ + decimal(total as nat) + ") -- up/down to scroll "@,
{
    let mut r = String::from_str(" Processes (");
    push_decimal(&mut r, total as u64);
    r.append(") -- up/down to scroll ");
    r
}

/// The line of one process, with its colour.
pub fn process_row(p: &ProcessInfo) -> (row: StyledLine)
    requires
        cut_on_boundary(p.name@, NAME_BYTES as nat),
    ensures
        row.text@ == process_line(*p),
        row.color == cpu_tint(p.cpu_key),
{
    let mut r = String::new();
    push_padded_right(&mut r, p.pid.as_str(), 8);
    r.append(" ");
    let name = utf8_truncate(p.name.as_str(), NAME_BYTES);
    push_padded_right(&mut r, name.as_str(), 25);
    r.append(" ");
    push_padded_left(&mut r, p.cpu_text.as_str(), 5, ' ');
    r.append("%  ");
    push_decimal_padded(&mut r, p.memory / MIB, 10, ' ');
    r.append("  ");
    r.append(p.status.as_str());
    let color = if p.cpu_key > CPU_KEY_50 {
        Color::Red
    } else if p.cpu_key > CPU_KEY_20 {
        Color::Yellow
    } else {
        Color::Green
    };
    StyledLine { text: r, color }
}

/// The CPU keys of a list of processes.
pub open spec fn cpu_keys(procs: Seq<ProcessInfo>) -> Seq<u32> {
    procs.map_values(|p: ProcessInfo| p.cpu_key)
}

/// The keys the process list is ranked by are the processes' own CPU keys,
/// one per process, in listing order.
pub proof fn lemma_cpu_keys_are_own_keys(procs: Seq<ProcessInfo>)
    ensures
        cpu_keys(procs).len() == procs.len(),
        forall|i: int| 0 <= i < procs.len() ==> #[trigger] cpu_keys(procs)[i] == procs[i].cpu_key,
{
}

/// How many processes fit on screen from `offset` on: at most `rows`, and
/// no more than there are past `offset`.
pub open spec fn visible_count(n: nat, offset: nat, rows: nat) -> nat {
    let rest = minus_or_zero(n, offset);
    if rest < rows {
        rest
    } else {
        rows
    }
}

fn cpu_key_list(procs: &Vec<ProcessInfo>) -> (keys: Vec<u32>)
    ensures
        keys@ == cpu_keys(procs@),
{
    let mut keys: Vec<u32> = Vec::new();
    let mut k: usize = 0;
    while k < procs.len()
        invariant
            k <= procs@.len(),
            keys@ =~= cpu_keys(procs@).subrange(0, k as int),
        decreases procs.len() - k,
    {
        keys.push(procs[k].cpu_key);
        k = k + 1;
    }
    assert(keys@ =~= cpu_keys(procs@));
    keys
}

/// The positions, in the ranking by CPU usage, of the processes shown from
/// `offset` on when `rows` lines are free.
pub open spec fn shown_position(offset: nat, rows: nat, n: nat, p: int) -> bool {
    offset <= p < offset + visible_count(n, offset, rows)
}

/// The processes shown on an area `area_height` lines high from
/// `scroll_offset` on have names that can be cut at 24 bytes.
pub open spec fn shown_names_cut(procs: Seq<ProcessInfo>, scroll_offset: nat, area_height: nat) -> bool {
    forall|order: Seq<usize>|
        #[trigger] is_ranking(cpu_keys(procs), order) ==> forall|p: int|
            shown_position(scroll_offset, (area_height - 4) as nat, procs.len(), p) ==> cut_on_boundary(
                procs[#[trigger] order[p] as int].name@,
                NAME_BYTES as nat,
            )
}

/// Which processes the process list shows on a screen area `area_height`
/// lines high: their indices, in the ranking by CPU usage (highest first,
/// ties in the given order), from position `scroll_offset` on, as many as fit
/// in the area less four lines.
pub fn shown_processes(procs: &Vec<ProcessInfo>, scroll_offset: usize, area_height: u16) -> (shown: Vec<
    usize,
>)
    requires
        area_height >= 4,
    ensures
        shown@.len() == visible_count(procs@.len(), scroll_offset as nat, (area_height - 4) as nat),
        exists|order: Seq<usize>|
            #![trigger is_ranking(cpu_keys(procs@), order)]
            is_ranking(cpu_keys(procs@), order) && forall|i: int|
                0 <= i < shown@.len() ==> #[trigger] shown@[i] == order[scroll_offset + i],
        forall|i: int| 0 <= i < shown@.len() ==> #[trigger] shown@[i] < procs@.len(),
        forall|i: int, j: int|
            0 <= i < j < shown@.len() ==> procs@[#[trigger] shown@[i] as int].cpu_key > procs@[
                #[trigger] shown@[j] as int
            ].cpu_key || (procs@[shown@[i] as int].cpu_key == procs@[shown@[j] as int].cpu_key
                && shown@[i] < shown@[j]),
{
    proof {
        lemma_cpu_keys_are_own_keys(procs@);
    }
    let order = ranking(&cpu_key_list(procs));
    let limit = (area_height - 4) as usize;
    let mut shown: Vec<usize> = Vec::new();
    let mut i: usize = 0;
    while i < limit && scroll_offset < order.len() && i < order.len() - scroll_offset
        invariant
            is_ranking(cpu_keys(procs@), order@),
            order@.len() == procs@.len(),
            shown@.len() == i,
            i <= limit,
            limit == area_height - 4,
            i == 0 || (scroll_offset < order@.len() && i <= order@.len() - scroll_offset),
            forall|j: int| 0 <= j < i ==> #[trigger] shown@[j] == order@[scroll_offset + j],
            cpu_keys(procs@).len() == procs@.len(),
            forall|k: int| 0 <= k < procs@.len() ==> #[trigger] cpu_keys(procs@)[k] == procs@[k].cpu_key,
        decreases limit - i,
    {
        shown.push(order[scroll_offset + i]);
        i = i + 1;
    }
    assert forall|a: int, b: int| 0 <= a < b < shown@.len() implies procs@[#[trigger] shown@[a] as int].cpu_key
        > procs@[#[trigger] shown@[b] as int].cpu_key || (procs@[shown@[a] as int].cpu_key
        == procs@[shown@[b] as int].cpu_key && shown@[a] < shown@[b]) by {
        assert(ranks_before(cpu_keys(procs@), order@[scroll_offset + a] as int, order@[scroll_offset + b] as int));
    }
    shown
}

/// The process list on a screen area `area_height` lines high: the processes
/// ranked by CPU usage (highest first, ties in the given order), from
/// position `scroll_offset` on, as many as fit in the area less four lines.
pub fn process_rows(procs: &Vec<ProcessInfo>, scroll_offset: usize, area_height: u16) -> (rows: Vec<
    StyledLine,
>)
    requires
        area_height >= 4,
        shown_names_cut(procs@, scroll_offset as nat, area_height as nat),
    ensures
        rows@.len() == visible_count(procs@.len(), scroll_offset as nat, (area_height - 4) as nat),
        exists|order: Seq<usize>|
            #![trigger is_ranking(cpu_keys(procs@), order)]
            is_ranking(cpu_keys(procs@), order) && forall|i: int|
                0 <= i < rows@.len() ==> (#[trigger] rows@[i]).text@ == process_line(
                    procs@[order[scroll_offset + i] as int],
                ) && rows@[i].color == cpu_tint(procs@[order[scroll_offset + i] as int].cpu_key),
{
    let order = ranking(&cpu_key_list(procs));
    let limit = (area_height - 4) as usize;
    let mut rows: Vec<StyledLine> = Vec::new();
    let mut i: usize = 0;
    while i < limit && scroll_offset < order.len() && i < order.len() - scroll_offset
        invariant
            is_ranking(cpu_keys(procs@), order@),
            order@.len() == procs@.len(),
            rows@.len() == i,
            i <= limit,
            limit == area_height - 4,
            i == 0 || (scroll_offset < order@.len() && i <= order@.len() - scroll_offset),
            forall|j: int|
                0 <= j < i ==> (#[trigger] rows@[j]).text@ == process_line(
                    procs@[order@[scroll_offset + j] as int],
                ) && rows@[j].color == cpu_tint(procs@[order@[scroll_offset + j] as int].cpu_key),
            shown_names_cut(procs@, scroll_offset as nat, area_height as nat),
        decreases limit - i,
    {
        let idx = order[scroll_offset + i];
        assert(order@[scroll_offset + i] < procs@.len());
        assert(shown_position(
            scroll_offset as nat,
            (area_height - 4) as nat,
            procs@.len(),
            scroll_offset + i,
        ));
        rows.push(process_row(&procs[idx]));
        i = i + 1;
    }
    rows
}

/// A mounted disk as the disk list shows it.
pub struct DiskInfo {
    /// Where it is mounted, as text.
    pub mount: String,
    /// Its size, in bytes.
    pub total: u64,
    /// Its free space, in bytes.
    pub available: u64,
}

/// Maximum bytes of a mount point shown.
pub const MOUNT_BYTES: usize = 29;

/// Number of cells of a usage bar.
pub const BAR_CELLS: usize = 20;

/// How many cells of a usage bar are filled at `pct` percent.
pub open spec fn bar_fill(pct: nat) -> nat {
    if pct * 20 / 100 < BAR_CELLS {
        pct * 20 / 100
    } else {
        BAR_CELLS as nat
    }
}

/// A usage bar: `[`, a `#` per filled cell, a `-` per empty one, `]`.
pub open spec fn bar_text(pct: nat) -> Seq<char> {
    seq!['['] + Seq::new(bar_fill(pct), |_i: int| '#') + Seq::new(
        (BAR_CELLS - bar_fill(pct)) as nat,
        |_i: int| '-',
    ) + seq![']']
}

/// A usage bar is always twenty cells between brackets, the filled cells
/// first; it is full exactly from 100% on.
pub proof fn lemma_bar_shape(pct: nat)
    ensures
        bar_text(pct).len() == BAR_CELLS + 2,
        bar_fill(pct) <= BAR_CELLS,
        bar_fill(pct) == BAR_CELLS <==> pct >= 100,
        pct < 5 ==> bar_fill(pct) == 0,
{
}

/// A usage bar of twenty cells for a percentage.
pub fn usage_bar(pct: u64) -> (r: String)
    requires
        pct <= usize::MAX / 20,
    ensures
        r@ == bar_text(pct as nat),
{
    let filled = pct as usize * 20 / 100;
    let filled = if filled < BAR_CELLS { filled } else { BAR_CELLS };
    let mut r = String::new();
    push_char(&mut r, '[');
    push_repeated(&mut r, '#', filled);
    push_repeated(&mut r, '-', BAR_CELLS - filled);
    push_char(&mut r, ']');
    assert(r@ =~= bar_text(pct as nat));
    r
}

/// The used space of a disk: its size less its free space, and 0 when more
/// is free than its size.
pub open spec fn disk_used(d: DiskInfo) -> nat {
    minus_or_zero(d.total as nat, d.available as nat)
}

/// The line of a disk: mount point (cut to 29 bytes), used space, size, use
/// in percent and a usage bar, in columns.
pub open spec fn disk_text(d: DiskInfo) -> Seq<char> {
    let used = disk_used(d);
    let pct = percent(used, d.total as nat);
    pad_right(utf8_prefix(d.mount@, MOUNT_BYTES as nat), 30) + " "@ + pad_left(
        bytes_text(used),
        10,
        ' ',
    ) + " "@ + pad_left(bytes_text(d.total as nat), 10, ' ') + " "@ + pad_left(
        decimal(pct),
        5,
        ' ',
    ) + "%  "@ + bar_text(pct)
}

/// The line of a disk, coloured by its use.
pub fn disk_row(d: &DiskInfo) -> (row: StyledLine)
    requires
        cut_on_boundary(d.mount@, MOUNT_BYTES as nat),
        d.total > 0 ==> disk_used(*d) * 100 <= u64::MAX,
    ensures
        row.text@ == disk_text(*d),
        row.color == gauge_tint(percent(disk_used(*d), d.total as nat)),
        percent(disk_used(*d), d.total as nat) <= 100,
{
    let used = d.total.saturating_sub(d.available);
    let pct = percent_of(used, d.total);
    proof {
        crate::monitor::lemma_percent_at_most_100(used as nat, d.total as nat);
    }
    let mount = utf8_truncate(d.mount.as_str(), MOUNT_BYTES);
    let mut r = String::new();
    push_padded_right(&mut r, mount.as_str(), 30);
    r.append(" ");
    let u = format_bytes(used);
    push_padded_left(&mut r, u.as_str(), 10, ' ');
    r.append(" ");
    let t = format_bytes(d.total);
    push_padded_left(&mut r, t.as_str(), 10, ' ');
    r.append(" ");
    push_decimal_padded(&mut r, pct, 5, ' ');
    r.append("%  ");
    let bar = usage_bar(pct);
    r.append(bar.as_str());
    StyledLine { text: r, color: gauge_color(pct) }
}

/// The heading line of the disk list.
pub open spec fn disk_header_text() -> Seq<char> {
    pad_right("Mount"@, 30) + " "@ + pad_left("Used"@, 10, ' ') + " "@ + pad_left("Total"@, 10, ' ')
        + " "@ + pad_left("%"@, 6, ' ') + "  Bar"@
}

/// The heading line of the disk list.
pub fn disk_header() -> (r: String)
    ensures
        r@ == disk_header_text(),
{
    let mut r = String::new();
    push_padded_right(&mut r, "Mount", 30);
    r.append(" ");
    push_padded_left(&mut r, "Used", 10, ' ');
    r.append(" ");
    push_padded_left(&mut r, "Total", 10, ' ');
    r.append(" ");
    push_padded_left(&mut r, "%", 6, ' ');
    r.append("  Bar");
    r
}

/// The lines of the disk list, one per disk in the given order.
pub fn disk_rows(disks: &Vec<DiskInfo>) -> (rows: Vec<StyledLine>)
    requires
        forall|i: int|
            0 <= i < disks@.len() ==> cut_on_boundary((#[trigger] disks@[i]).mount@, MOUNT_BYTES as nat)
                && (disks@[i].total > 0 ==> disk_used(disks@[i]) * 100 <= u64::MAX),
    ensures
        rows@.len() == disks@.len(),
        forall|i: int|
            0 <= i < rows@.len() ==> (#[trigger] rows@[i]).text@ == disk_text(disks@[i])
                && rows@[i].color == gauge_tint(percent(disk_used(disks@[i]), disks@[i].total as nat)),
{
    let mut rows: Vec<StyledLine> = Vec::new();
    let mut i: usize = 0;
    while i < disks.len()
        invariant
            i <= disks@.len(),
            rows@.len() == i,
            forall|j: int|
                0 <= j < disks@.len() ==> cut_on_boundary((#[trigger] disks@[j]).mount@, MOUNT_BYTES as nat)
                    && (disks@[j].total > 0 ==> disk_used(disks@[j]) * 100 <= u64::MAX),
            forall|j: int|
                0 <= j < i ==> (#[trigger] rows@[j]).text@ == disk_text(disks@[j])
                    && rows@[j].color == gauge_tint(percent(disk_used(disks@[j]), disks@[j].total as nat)),
        decreases disks.len() - i,
    {
        rows.push(disk_row(&disks[i]));
        i = i + 1;
    }
    rows
}

/// The title of a traffic graph: its label and the newest rate.
pub open spec fn traffic_title_text(label: Seq<char>, h: Seq<u64>) -> Seq<char> {
    " "@ + label + " (now: "@ + decimal(newest(h) as nat) + " KB/s) "@
}

/// The traffic graphs: titles with the newest rates and the tops of their scales.
pub struct TrafficView {
    pub download_title: String,
    pub download_max: u64,
    pub upload_title: String,
    pub upload_max: u64,
}

fn traffic_title(label: &str, h: &Vec<u64>) -> (r: String)
    ensures
        r@ == traffic_title_text(label@, h@),
{
    let mut r = String::from_str(" ");
    r.append(label);
    r.append(" (now: ");
    push_decimal(&mut r, latest(h));
    r.append(" KB/s) ");
    r
}

/// The download and upload graphs of the network screen.
pub fn traffic(app: &App) -> (v: TrafficView)
    ensures
        v.download_title@ == traffic_title_text("Download"@, app.net_recv_history@),
        v.download_max == scale_max(app.net_recv_history@),
        v.upload_title@ == traffic_title_text("Upload"@, app.net_sent_history@),
        v.upload_max == scale_max(app.net_sent_history@),
{
    TrafficView {
        download_title: traffic_title("Download", &app.net_recv_history),
        download_max: sparkline_max(&app.net_recv_history),
        upload_title: traffic_title("Upload", &app.net_sent_history),
        upload_max: sparkline_max(&app.net_sent_history),
    }
}

} // verus!
