//! The monitor's state: the sample histories, the selected tab and the scroll
//! position, and how a tick of fresh readings and a key press change them.

use vstd::prelude::*;
use crate::history::{record, shifted, zero_history, HISTORY_LEN};

verus! {

/// Milliseconds between two samples.
pub const TICK_RATE_MS: u64 = 1000;

/// Number of tabs: overview, processes, disks and network.
pub const TAB_COUNT: usize = 3;

/// Traffic counters of one network interface, as read at a tick.
pub struct NetworkCounters {
    pub received: u64,
    pub transmitted: u64,
}

/// The readings taken at one tick.
pub struct Sample {
    /// Seconds since the machine booted.
    pub uptime_secs: u64,
    /// Global CPU usage in whole percent.
    pub cpu_usage: u64,
    /// Memory in use, in bytes.
    pub used_memory: u64,
    /// Total memory, in bytes.
    pub total_memory: u64,
    /// The counters of every network interface.
    pub networks: Vec<NetworkCounters>,
}

/// What the event loop does after a key press.
#[derive(PartialEq, Eq, Structural, Debug, Clone, Copy)]
pub enum KeyOutcome {
    Quit,
    Continue,
}

/// The keys the monitor tells apart.
#[derive(PartialEq, Eq, Structural, Debug, Clone, Copy)]
pub enum Key {
    Char(char),
    Tab,
    BackTab,
    Left,
    Right,
    Up,
    Down,
    Other,
}

/// The monitor's state between ticks.
pub struct App {
    pub cpu_history: Vec<u64>,
    pub mem_history: Vec<u64>,
    pub selected_tab: usize,
    pub scroll_offset: usize,
    pub uptime_secs: u64,
    pub net_recv_history: Vec<u64>,
    pub net_sent_history: Vec<u64>,
    pub prev_recv: u64,
    pub prev_sent: u64,
}

/// `part` as a whole percentage of `whole`, rounded down; 0 when `whole` is 0.
pub open spec fn percent(part: nat, whole: nat) -> nat {
    if whole > 0 {
        part * 100 / whole
    } else {
        0
    }
}

/// The sum of the bytes received over `nets`.
pub open spec fn total_received(nets: Seq<NetworkCounters>) -> nat
    decreases nets.len(),
{
    if nets.len() == 0 {
        0
    } else {
        total_received(nets.drop_last()) + nets.last().received as nat
    }
}

/// The sum of the bytes transmitted over `nets`.
pub open spec fn total_transmitted(nets: Seq<NetworkCounters>) -> nat
    decreases nets.len(),
{
    if nets.len() == 0 {
        0
    } else {
        total_transmitted(nets.drop_last()) + nets.last().transmitted as nat
    }
}

/// The traffic totals add up every interface: an empty list counts
/// nothing, one more interface adds its own counters whatever its position,
/// and the totals of two lists joined are the sums of their totals.
pub proof fn lemma_totals_add_up(a: Seq<NetworkCounters>, b: Seq<NetworkCounters>, n: NetworkCounters)
    ensures
        total_received(Seq::<NetworkCounters>::empty()) == 0,
        total_transmitted(Seq::<NetworkCounters>::empty()) == 0,
        total_received(a.push(n)) == total_received(a) + n.received,
        total_transmitted(a.push(n)) == total_transmitted(a) + n.transmitted,
        total_received(a + b) == total_received(a) + total_received(b),
        total_transmitted(a + b) == total_transmitted(a) + total_transmitted(b),
    decreases b.len(),
{
    assert(a.push(n).drop_last() =~= a);
    if b.len() > 0 {
        lemma_totals_add_up(a, b.drop_last(), n);
        assert((a + b).drop_last() =~= a + b.drop_last());
        assert((a + b).last() == b.last());
    } else {
        assert(a + b =~= a);
    }
}

/// `a - b`, or 0 when `b` exceeds `a`.
pub open spec fn minus_or_zero(a: nat, b: nat) -> nat {
    if a >= b {
        (a - b) as nat
    } else {
        0
    }
}

/// The tab after `t`, wrapping from the last to the first.
pub open spec fn next_tab(t: nat) -> nat {
    (t + 1) % (TAB_COUNT as nat)
}

/// The tab before `t`, wrapping from the first to the last.
pub open spec fn prev_tab(t: nat) -> nat {
    if t == 0 {
        (TAB_COUNT - 1) as nat
    } else {
        (t - 1) as nat
    }
}

/// One line further down, stopping at the largest offset.
pub open spec fn scrolled_down(o: nat) -> nat {
    if o < usize::MAX {
        o + 1
    } else {
        o
    }
}

/// One line further up, stopping at the top.
pub open spec fn scrolled_up(o: nat) -> nat {
    if o > 0 {
        (o - 1) as nat
    } else {
        0
    }
}

/// Whether a key (with exactly the control modifier held when `control` is
/// true) ends the program: `q`, or `c` with control.
pub open spec fn quits(key: Key, control: bool) -> bool {
    key == Key::Char('q') || (key == Key::Char('c') && control)
}

/// Whether the readings of a tick can be taken in without overflow.
pub open spec fn sample_fits(s: Sample) -> bool {
    &&& (s.total_memory > 0 ==> s.used_memory * 100 <= u64::MAX)
    &&& total_received(s.networks@) <= u64::MAX
    &&& total_transmitted(s.networks@) <= u64::MAX
}

/// A state is well formed when every history spans `HISTORY_LEN` samples and
/// a tab is selected.
pub open spec fn app_wf(app: App) -> bool {
    &&& app.cpu_history@.len() == HISTORY_LEN
    &&& app.mem_history@.len() == HISTORY_LEN
    &&& app.net_recv_history@.len() == HISTORY_LEN
    &&& app.net_sent_history@.len() == HISTORY_LEN
    &&& app.selected_tab < TAB_COUNT
}

/// `part` as a whole percentage of `whole`, rounded down; 0 when `whole` is 0.
pub fn percent_of(part: u64, whole: u64) -> (p: u64)
    requires
        whole > 0 ==> part * 100 <= u64::MAX,
    ensures
        p == percent(part as nat, whole as nat),
{
    if whole > 0 {
        part * 100 / whole
    } else {
        0
    }
}

/// A percentage of a part that does not exceed the whole is at most 100.
pub proof fn lemma_percent_at_most_100(part: nat, whole: nat)
    requires
        part <= whole,
    ensures
        percent(part, whole) <= 100,
{
    if whole > 0 {
        assert(part * 100 <= whole * 100) by (nonlinear_arith)
            requires
                part <= whole,
        ;
        assert(part * 100 / whole <= (whole * 100) / whole) by (nonlinear_arith)
            requires
                part * 100 <= whole * 100,
                whole > 0,
        ;
        assert((whole * 100) / whole == 100) by (nonlinear_arith)
            requires
                whole > 0,
        ;
    }
}

/// The bytes received and transmitted over all interfaces.
pub fn network_totals(nets: &Vec<NetworkCounters>) -> (t: (u64, u64))
    requires
        total_received(nets@) <= u64::MAX,
        total_transmitted(nets@) <= u64::MAX,
    ensures
        t.0 == total_received(nets@),
        t.1 == total_transmitted(nets@),
{
    let mut r: u64 = 0;
    let mut s: u64 = 0;
    let mut i: usize = 0;
    while i < nets.len()
        invariant
            i <= nets.len(),
            r == total_received(nets@.subrange(0, i as int)),
            s == total_transmitted(nets@.subrange(0, i as int)),
            total_received(nets@) <= u64::MAX,
            total_transmitted(nets@) <= u64::MAX,
        decreases nets.len() - i,
    {
        assert(nets@.subrange(0, i + 1).drop_last() =~= nets@.subrange(0, i as int));
        proof {
            lemma_totals_prefix_bounded(nets@, i + 1);
        }
        r = r + nets[i].received;
        s = s + nets[i].transmitted;
        i = i + 1;
    }
    assert(nets@.subrange(0, nets.len() as int) =~= nets@);
    (r, s)
}

proof fn lemma_totals_prefix_bounded(nets: Seq<NetworkCounters>, k: int)
    requires
        0 <= k <= nets.len(),
    ensures
        total_received(nets.subrange(0, k)) <= total_received(nets),
        total_transmitted(nets.subrange(0, k)) <= total_transmitted(nets),
    decreases nets.len() - k,
{
    if k < nets.len() {
        lemma_totals_prefix_bounded(nets, k + 1);
        assert(nets.subrange(0, k + 1).drop_last() =~= nets.subrange(0, k));
    } else {
        assert(nets.subrange(0, k) =~= nets);
    }
}

/// Stepping forward through the tabs and back again returns to where one
/// started, three steps in one direction come full circle, and the selection
/// stays on one of the tabs.
pub proof fn lemma_tab_cycle(t: nat)
    requires
        t < TAB_COUNT,
    ensures
        next_tab(t) < TAB_COUNT,
        prev_tab(t) < TAB_COUNT,
        prev_tab(next_tab(t)) == t,
        next_tab(prev_tab(t)) == t,
        next_tab(next_tab(next_tab(t))) == t,
{
}

/// Scrolling down and then up returns to the same line unless the offset was
/// already at its largest; scrolling up and then down does unless it was at
/// the top.
pub proof fn lemma_scroll_round_trip(o: nat)
    requires
        o <= usize::MAX,
    ensures
        o < usize::MAX ==> scrolled_up(scrolled_down(o)) == o,
        o > 0 ==> scrolled_down(scrolled_up(o)) == o,
        scrolled_up(0) == 0,
        scrolled_down(o) <= usize::MAX,
{
}

/// When the traffic counters have not gone down since the previous tick, the
/// rate recorded is the whole kibibytes counted in between; otherwise it is 0.
pub proof fn lemma_traffic_rate(total: nat, prev: nat)
    ensures
        total >= prev ==> minus_or_zero(total, prev) / 1024 == (total - prev) / 1024,
        total < prev ==> minus_or_zero(total, prev) / 1024 == 0,
{
}

/// How long to wait for a key before the next tick is due, given the
/// milliseconds since the last tick.
pub fn poll_timeout_ms(elapsed_ms: u64) -> (t: u64)
    ensures
        t == minus_or_zero(TICK_RATE_MS as nat, elapsed_ms as nat),
{
    TICK_RATE_MS.saturating_sub(elapsed_ms)
}

/// Whether a new sample is due, given the milliseconds since the last tick.
pub fn tick_due(elapsed_ms: u64) -> (due: bool)
    ensures
        due == (elapsed_ms >= TICK_RATE_MS),
{
    elapsed_ms >= TICK_RATE_MS
}

impl App {
    /// The state before the first tick: histories of zeros, the first tab,
    /// no scrolling, no traffic seen.
    pub fn new() -> (app: App)
        ensures
            app_wf(app),
            app.cpu_history@ == Seq::new(HISTORY_LEN as nat, |_i: int| 0u64),
            app.mem_history@ == Seq::new(HISTORY_LEN as nat, |_i: int| 0u64),
            app.net_recv_history@ == Seq::new(HISTORY_LEN as nat, |_i: int| 0u64),
            app.net_sent_history@ == Seq::new(HISTORY_LEN as nat, |_i: int| 0u64),
            app.selected_tab == 0,
            app.scroll_offset == 0,
            app.uptime_secs == 0,
            app.prev_recv == 0,
            app.prev_sent == 0,
    {
        App {
            cpu_history: zero_history(),
            mem_history: zero_history(),
            selected_tab: 0,
            scroll_offset: 0,
            uptime_secs: 0,
            net_recv_history: zero_history(),
            net_sent_history: zero_history(),
            prev_recv: 0,
            prev_sent: 0,
        }
    }

    /// Takes in the readings of a tick: each history (of any non-zero
    /// length) keeps its length, dropping its oldest sample and recording the
    /// new one (CPU usage, memory use in percent, and the
    /// kibibytes of traffic counted beyond what the previous tick counted),
    /// and the traffic totals are kept for the next tick.
    pub fn on_tick(&mut self, sample: &Sample)
        requires
            old(self).cpu_history@.len() > 0,
            old(self).mem_history@.len() > 0,
            old(self).net_recv_history@.len() > 0,
            old(self).net_sent_history@.len() > 0,
            sample_fits(*sample),
        ensures
            final(self).cpu_history@.len() == old(self).cpu_history@.len(),
            final(self).mem_history@.len() == old(self).mem_history@.len(),
            final(self).net_recv_history@.len() == old(self).net_recv_history@.len(),
            final(self).net_sent_history@.len() == old(self).net_sent_history@.len(),
            app_wf(*old(self)) ==> app_wf(*final(self)),
            final(self).uptime_secs == sample.uptime_secs,
            final(self).cpu_history@ == shifted(old(self).cpu_history@, sample.cpu_usage),
            final(self).mem_history@ == shifted(
                old(self).mem_history@,
                percent(sample.used_memory as nat, sample.total_memory as nat) as u64,
            ),
            final(self).net_recv_history@ == shifted(
                old(self).net_recv_history@,
                (minus_or_zero(total_received(sample.networks@), old(self).prev_recv as nat)
                    / 1024) as u64,
            ),
            final(self).net_sent_history@ == shifted(
                old(self).net_sent_history@,
                (minus_or_zero(total_transmitted(sample.networks@), old(self).prev_sent as nat)
                    / 1024) as u64,
            ),
            final(self).prev_recv == total_received(sample.networks@),
            final(self).prev_sent == total_transmitted(sample.networks@),
            final(self).selected_tab == old(self).selected_tab,
            final(self).scroll_offset == old(self).scroll_offset,
    {
        self.uptime_secs = sample.uptime_secs;

        record(&mut self.cpu_history, sample.cpu_usage);

        let mem_pct = percent_of(sample.used_memory, sample.total_memory);
        record(&mut self.mem_history, mem_pct);

        let (recv, sent) = network_totals(&sample.networks);
        let delta_recv = recv.saturating_sub(self.prev_recv);
        let delta_sent = sent.saturating_sub(self.prev_sent);
        self.prev_recv = recv;
        self.prev_sent = sent;

        record(&mut self.net_recv_history, delta_recv / 1024);
        record(&mut self.net_sent_history, delta_sent / 1024);
    }

    /// Scrolls the process list one line down (stopping at the largest offset).
    pub fn scroll_down(&mut self)
        ensures
            final(self).scroll_offset == scrolled_down(old(self).scroll_offset as nat),
            final(self).selected_tab == old(self).selected_tab,
            final(self).cpu_history == old(self).cpu_history,
            final(self).mem_history == old(self).mem_history,
            final(self).net_recv_history == old(self).net_recv_history,
            final(self).net_sent_history == old(self).net_sent_history,
            final(self).uptime_secs == old(self).uptime_secs,
            final(self).prev_recv == old(self).prev_recv,
            final(self).prev_sent == old(self).prev_sent,
    {
        self.scroll_offset = self.scroll_offset.saturating_add(1);
    }

    /// Scrolls the process list one line up (stopping at the top).
    pub fn scroll_up(&mut self)
        ensures
            final(self).scroll_offset == scrolled_up(old(self).scroll_offset as nat),
            final(self).selected_tab == old(self).selected_tab,
            final(self).cpu_history == old(self).cpu_history,
            final(self).mem_history == old(self).mem_history,
            final(self).net_recv_history == old(self).net_recv_history,
            final(self).net_sent_history == old(self).net_sent_history,
            final(self).uptime_secs == old(self).uptime_secs,
            final(self).prev_recv == old(self).prev_recv,
            final(self).prev_sent == old(self).prev_sent,
    {
        self.scroll_offset = self.scroll_offset.saturating_sub(1);
    }

    /// Handles a key press (`control` tells whether exactly the control
    /// modifier was held): `q` and control-`c` quit; Tab and Right select the
    /// next tab, BackTab and Left the previous one, both scrolling back to the
    /// top; Down and `j` scroll down, Up and `k` scroll up; other keys do
    /// nothing.
    pub fn handle_key(&mut self, key: Key, control: bool) -> (outcome: KeyOutcome)
        requires
            old(self).selected_tab < TAB_COUNT,
        ensures
            final(self).selected_tab < TAB_COUNT,
            app_wf(*old(self)) ==> app_wf(*final(self)),
            (outcome == KeyOutcome::Quit) == quits(key, control),
            final(self).selected_tab == if !quits(key, control) && (key == Key::Tab || key
                == Key::Right) {
                next_tab(old(self).selected_tab as nat)
            } else if !quits(key, control) && (key == Key::BackTab || key == Key::Left) {
                prev_tab(old(self).selected_tab as nat)
            } else {
                old(self).selected_tab as nat
            },
            final(self).scroll_offset == if quits(key, control) {
                old(self).scroll_offset as nat
            } else if key == Key::Tab || key == Key::Right || key == Key::BackTab || key
                == Key::Left {
                0
            } else if key == Key::Down || key == Key::Char('j') {
                scrolled_down(old(self).scroll_offset as nat)
            } else if key == Key::Up || key == Key::Char('k') {
                scrolled_up(old(self).scroll_offset as nat)
            } else {
                old(self).scroll_offset as nat
            },
            final(self).cpu_history == old(self).cpu_history,
            final(self).mem_history == old(self).mem_history,
            final(self).net_recv_history == old(self).net_recv_history,
            final(self).net_sent_history == old(self).net_sent_history,
            final(self).uptime_secs == old(self).uptime_secs,
            final(self).prev_recv == old(self).prev_recv,
            final(self).prev_sent == old(self).prev_sent,
    {
        match key {
            Key::Char('q') => KeyOutcome::Quit,
            Key::Char('c') if control => KeyOutcome::Quit,
            Key::Tab | Key::Right => {
                self.selected_tab = (self.selected_tab + 1) % TAB_COUNT;
                self.scroll_offset = 0;
                KeyOutcome::Continue
            },
            Key::BackTab | Key::Left => {
                self.selected_tab = if self.selected_tab >= 1 {
                    self.selected_tab - 1
                } else {
                    TAB_COUNT - 1
                };
                self.scroll_offset = 0;
                KeyOutcome::Continue
            },
            Key::Down | Key::Char('j') => {
                self.scroll_down();
                KeyOutcome::Continue
            },
            Key::Up | Key::Char('k') => {
                self.scroll_up();
                KeyOutcome::Continue
            },
            _ => KeyOutcome::Continue,
        }
    }
}

} // verus!
