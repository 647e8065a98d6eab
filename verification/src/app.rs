//! State of the interactive port table: rows, cursor, filters, sorting,
//! multi-row selection and the kill confirmation, and every operation on it.

use vstd::prelude::*;
use std::collections::BTreeSet;

pub mod access;
pub mod keys;
pub mod layout;
use crate::port::{cpu_rank, cpu_rank_exec, PortInfo, PortView};
use crate::text::{
    decimal, eq_ignore_ascii_case, pop_char, push_char, push_decimal, push_str, str_eq_ignore_ascii_case,
    string_from,
};
use crate::port::{push_tenths, tenths_text};
use crate::sort::{is_stable_sorting, reversed, stable_sort_by_key};

verus! {

broadcast use {
    vstd::string::group_string_axioms,
    vstd::std_specs::btree::group_btree_axioms,
    vstd::laws_cmp::group_laws_cmp,
};

/// Column that orders the table.
#[derive(Debug, Clone, Copy, PartialEq, Eq, Structural)]
pub enum SortColumn {
    Port,
    Pid,
    Memory,
    Cpu,
}

/// Direction of the order.
#[derive(Debug, Clone, Copy, PartialEq, Eq, Structural)]
pub enum SortDirection {
    Asc,
    Desc,
}

/// Which protocols the table shows.
#[derive(Debug, Clone, Copy, PartialEq, Eq, Structural)]
pub enum ProtocolFilter {
    All,
    Tcp,
    Udp,
}

/// Which connection states the table shows.
#[derive(Debug, Clone, Copy, PartialEq, Eq, Structural)]
pub enum StateFilter {
    All,
    Listen,
    Established,
}

/// A kill that waits for the user's confirmation.
#[derive(Debug, Clone, PartialEq)]
pub enum PendingKill {
    Single { pid: u32, port: u16, process_name: String },
    Batch { pids: Vec<u32> },
}

/// The contents of a `PendingKill`.
pub enum PendingKillView {
    Single { pid: u32, port: u16, process_name: Seq<char> },
    Batch { pids: Seq<u32> },
}

impl View for PendingKill {
    type V = PendingKillView;

    open spec fn view(&self) -> PendingKillView {
        match self {
            PendingKill::Single { pid, port, process_name } => PendingKillView::Single {
                pid: *pid,
                port: *port,
                process_name: process_name@,
            },
            PendingKill::Batch { pids } => PendingKillView::Batch { pids: pids@ },
        }
    }
}

/// What came of putting the selected row's local address on the clipboard.
#[derive(Debug, Clone, Copy, PartialEq, Eq, Structural)]
pub enum ClipboardOutcome {
    Copied,
    Failed,
    Unavailable,
}

/// What came of signalling one process.
#[derive(Debug, Clone, Copy, PartialEq, Eq, Structural)]
pub enum KillOutcome {
    Killed,
    SignalFailed,
    Missing,
}

/// The state of the table view.
pub struct App {
    ports: Vec<PortInfo>,
    visible_indices: Vec<usize>,
    selected: Option<usize>,
    show_all: bool,
    filter_mode: bool,
    filter_text: String,
    message: Option<String>,
    sort_column: SortColumn,
    sort_direction: SortDirection,
    protocol_filter: ProtocolFilter,
    state_filter: StateFilter,
    group_mode: bool,
    inspect_mode: bool,
    help_mode: bool,
    auto_refresh: bool,
    auto_refresh_interval_ms: u64,
    selected_ports: BTreeSet<usize>,
    pending_kill: Option<PendingKill>,
}

/// The contents of an `App`.
pub struct AppView {
    /// All entries, in table order.
    pub ports: Seq<PortInfo>,
    /// Indices into `ports` of the rows shown, in display order.
    pub visible: Seq<usize>,
    /// The cursor: a position among the shown rows.
    pub selected: Option<usize>,
    pub show_all: bool,
    pub filter_mode: bool,
    pub filter_text: Seq<char>,
    pub message: Option<Seq<char>>,
    pub sort_column: SortColumn,
    pub sort_direction: SortDirection,
    pub protocol_filter: ProtocolFilter,
    pub state_filter: StateFilter,
    pub group_mode: bool,
    pub inspect_mode: bool,
    pub help_mode: bool,
    pub auto_refresh: bool,
    pub interval_ms: u64,
    /// Indices into `ports` of the rows marked for batch operations.
    pub marked: Set<usize>,
    pub pending_kill: Option<PendingKillView>,
}

impl View for App {
    type V = AppView;

    closed spec fn view(&self) -> AppView {
        AppView {
            ports: self.ports@,
            visible: self.visible_indices@,
            selected: self.selected,
            show_all: self.show_all,
            filter_mode: self.filter_mode,
            filter_text: self.filter_text@,
            message: match self.message {
                Some(m) => Some(m@),
                None => None,
            },
            sort_column: self.sort_column,
            sort_direction: self.sort_direction,
            protocol_filter: self.protocol_filter,
            state_filter: self.state_filter,
            group_mode: self.group_mode,
            inspect_mode: self.inspect_mode,
            help_mode: self.help_mode,
            auto_refresh: self.auto_refresh,
            interval_ms: self.auto_refresh_interval_ms,
            marked: self.selected_ports@,
            pending_kill: match self.pending_kill {
                Some(k) => Some(k@),
                None => None,
            },
        }
    }
}

/// The shortest auto-refresh interval, in milliseconds.
pub const MIN_INTERVAL_MS: u64 = 500;

/// The longest auto-refresh interval, in milliseconds.
pub const MAX_INTERVAL_MS: u64 = 10_000;

/// The step of the auto-refresh interval, in milliseconds.
pub const INTERVAL_STEP_MS: u64 = 500;

impl AppView {
    /// The state is consistent: shown rows and marks point at entries, no row
    /// is shown twice, the cursor is on a shown row (or at the top), and the
    /// refresh interval is a multiple of the step within its bounds.
    pub open spec fn wf(self) -> bool {
        &&& forall|k: int| 0 <= k < self.visible.len() ==> #[trigger] self.visible[k] < self.ports.len()
        &&& self.visible.no_duplicates()
        &&& (self.selected matches Some(s) ==> s < self.visible.len() || s == 0)
        &&& forall|i: usize| #[trigger] self.marked.contains(i) ==> i < self.ports.len()
        &&& MIN_INTERVAL_MS <= self.interval_ms <= MAX_INTERVAL_MS
        &&& self.interval_ms % INTERVAL_STEP_MS == 0
    }

    /// The index into `ports` of the row under the cursor.
    pub open spec fn cursor_port_index(self) -> Option<usize> {
        match self.selected {
            Some(s) => if s < self.visible.len() {
                Some(self.visible[s as int])
            } else {
                None
            },
            None => None,
        }
    }
}

} // verus!

verus! {

/// The column after `c` in the cycle Port, Pid, Memory, Cpu.
pub open spec fn next_sort_column(c: SortColumn) -> SortColumn {
    match c {
        SortColumn::Port => SortColumn::Pid,
        SortColumn::Pid => SortColumn::Memory,
        SortColumn::Memory => SortColumn::Cpu,
        SortColumn::Cpu => SortColumn::Port,
    }
}

/// The other direction.
pub open spec fn flipped_direction(d: SortDirection) -> SortDirection {
    match d {
        SortDirection::Asc => SortDirection::Desc,
        SortDirection::Desc => SortDirection::Asc,
    }
}

/// The protocol filter after `f` in the cycle All, Tcp, Udp.
pub open spec fn next_protocol_filter(f: ProtocolFilter) -> ProtocolFilter {
    match f {
        ProtocolFilter::All => ProtocolFilter::Tcp,
        ProtocolFilter::Tcp => ProtocolFilter::Udp,
        ProtocolFilter::Udp => ProtocolFilter::All,
    }
}

/// The state filter after `f` in the cycle All, Listen, Established.
pub open spec fn next_state_filter(f: StateFilter) -> StateFilter {
    match f {
        StateFilter::All => StateFilter::Listen,
        StateFilter::Listen => StateFilter::Established,
        StateFilter::Established => StateFilter::All,
    }
}

/// The name under which a column is shown.
pub open spec fn sort_column_name(c: SortColumn) -> Seq<char> {
    match c {
        SortColumn::Port => "Port"@,
        SortColumn::Pid => "Pid"@,
        SortColumn::Memory => "Memory"@,
        SortColumn::Cpu => "Cpu"@,
    }
}

/// The name under which a direction is shown.
pub open spec fn sort_direction_name(d: SortDirection) -> Seq<char> {
    match d {
        SortDirection::Asc => "Asc"@,
        SortDirection::Desc => "Desc"@,
    }
}

/// The name under which a protocol filter is shown.
pub open spec fn protocol_filter_name(f: ProtocolFilter) -> Seq<char> {
    match f {
        ProtocolFilter::All => "All"@,
        ProtocolFilter::Tcp => "Tcp"@,
        ProtocolFilter::Udp => "Udp"@,
    }
}

/// The name under which a state filter is shown.
pub open spec fn state_filter_name(f: StateFilter) -> Seq<char> {
    match f {
        StateFilter::All => "All"@,
        StateFilter::Listen => "Listen"@,
        StateFilter::Established => "Established"@,
    }
}

/// `ON` or `OFF`.
pub open spec fn on_off(b: bool) -> Seq<char> {
    if b {
        "ON"@
    } else {
        "OFF"@
    }
}

/// An interval in milliseconds as seconds with one decimal, for intervals
/// that are whole multiples of 100 ms.
pub open spec fn interval_text(ms: u64) -> Seq<char> {
    tenths_text((ms / 100) as nat)
}

/// The ordering key of an entry under a column. CPU usage is ordered by the
/// rank of its value (`cpu_rank`).
pub open spec fn column_key(p: PortInfo, c: SortColumn) -> u64 {
    match c {
        SortColumn::Port => p.port as u64,
        SortColumn::Pid => match p.pid {
            Some(x) => x as u64,
            None => 0,
        },
        SortColumn::Memory => p.memory,
        SortColumn::Cpu => cpu_rank(p.cpu_usage_bits),
    }
}

/// Entries keyed by their ordering key under a column.
pub open spec fn keyed_by_column(s: Seq<PortInfo>, c: SortColumn) -> Seq<(u64, PortInfo)> {
    s.map_values(|p: PortInfo| (column_key(p, c), p))
}

/// The items of keyed entries.
pub open spec fn items_of(s: Seq<(u64, PortInfo)>) -> Seq<PortInfo> {
    s.map_values(|e: (u64, PortInfo)| e.1)
}

/// `out` is `input` in table order: sorted stably by the column's key, and
/// reversed for the descending direction.
pub open spec fn is_table_order(
    input: Seq<PortInfo>,
    c: SortColumn,
    d: SortDirection,
    out: Seq<PortInfo>,
) -> bool {
    exists|sorted: Seq<(u64, PortInfo)>|
        is_stable_sorting(keyed_by_column(input, c), sorted) && out == (if d == SortDirection::Asc {
            items_of(sorted)
        } else {
            items_of(sorted).reverse()
        })
}

/// An entry passes the protocol and state filters (compared without regard to
/// ASCII case).
pub open spec fn passes_quick_filters(p: PortView, pf: ProtocolFilter, sf: StateFilter) -> bool {
    let protocol_match = match pf {
        ProtocolFilter::All => true,
        ProtocolFilter::Tcp => eq_ignore_ascii_case(p.protocol, "tcp"@),
        ProtocolFilter::Udp => eq_ignore_ascii_case(p.protocol, "udp"@),
    };
    let state_match = match sf {
        StateFilter::All => true,
        StateFilter::Listen => eq_ignore_ascii_case(p.state, "listen"@),
        StateFilter::Established => eq_ignore_ascii_case(p.state, "established"@),
    };
    protocol_match && state_match
}

/// The positions `0..n`.
pub open spec fn all_positions(n: nat) -> Seq<usize> {
    Seq::new(n, |i: int| i as usize)
}

fn column_key_exec(p: &PortInfo, c: SortColumn) -> (k: u64)
    ensures
        k == column_key(*p, c),
{
    match c {
        SortColumn::Port => p.port as u64,
        SortColumn::Pid => match p.pid {
            Some(x) => x as u64,
            None => 0,
        },
        SortColumn::Memory => p.memory,
        SortColumn::Cpu => cpu_rank_exec(p.cpu_usage_bits),
    }
}

/// Puts entries in table order for a column and direction.
pub fn sort_for_table(ports: Vec<PortInfo>, c: SortColumn, d: SortDirection) -> (out: Vec<PortInfo>)
    ensures
        is_table_order(ports@, c, d, out@),
{
    let ghost input = ports@;
    let mut rest = ports;
    let mut keyed: Vec<(u64, PortInfo)> = Vec::new();
    let n = rest.len();
    let mut i: usize = 0;
    while i < n
        invariant
            n == input.len(),
            i <= n,
            rest@ == input.skip(i as int),
            keyed@ == keyed_by_column(input.take(i as int), c),
        decreases n - i,
    {
        let p = rest.remove(0);
        assert(p == input[i as int]);
        assert(rest@ =~= input.skip(i + 1));
        let k = column_key_exec(&p, c);
        keyed.push((k, p));
        assert(keyed@ =~= keyed_by_column(input.take(i + 1), c));
        i = i + 1;
    }
    assert(input.take(n as int) =~= input);
    let sorted = stable_sort_by_key(keyed);
    let ghost sorted_v = sorted@;
    let mut rest2 = sorted;
    let mut items: Vec<PortInfo> = Vec::new();
    let m = rest2.len();
    let mut j: usize = 0;
    while j < m
        invariant
            m == sorted_v.len(),
            j <= m,
            rest2@ == sorted_v.skip(j as int),
            items@ == items_of(sorted_v.take(j as int)),
        decreases m - j,
    {
        let e = rest2.remove(0);
        assert(e == sorted_v[j as int]);
        assert(rest2@ =~= sorted_v.skip(j + 1));
        items.push(e.1);
        assert(items@ =~= items_of(sorted_v.take(j + 1)));
        j = j + 1;
    }
    assert(sorted_v.take(m as int) =~= sorted_v);
    if d == SortDirection::Asc {
        items
    } else {
        reversed(items)
    }
}

fn sort_column_text(c: SortColumn) -> (r: String)
    ensures
        r@ == sort_column_name(c),
{
    match c {
        SortColumn::Port => string_from("Port"),
        SortColumn::Pid => string_from("Pid"),
        SortColumn::Memory => string_from("Memory"),
        SortColumn::Cpu => string_from("Cpu"),
    }
}

fn sort_direction_text(d: SortDirection) -> (r: String)
    ensures
        r@ == sort_direction_name(d),
{
    match d {
        SortDirection::Asc => string_from("Asc"),
        SortDirection::Desc => string_from("Desc"),
    }
}

fn protocol_filter_text(f: ProtocolFilter) -> (r: String)
    ensures
        r@ == protocol_filter_name(f),
{
    match f {
        ProtocolFilter::All => string_from("All"),
        ProtocolFilter::Tcp => string_from("Tcp"),
        ProtocolFilter::Udp => string_from("Udp"),
    }
}

fn state_filter_text(f: StateFilter) -> (r: String)
    ensures
        r@ == state_filter_name(f),
{
    match f {
        StateFilter::All => string_from("All"),
        StateFilter::Listen => string_from("Listen"),
        StateFilter::Established => string_from("Established"),
    }
}

fn on_off_text(b: bool) -> (r: String)
    ensures
        r@ == on_off(b),
{
    if b {
        string_from("ON")
    } else {
        string_from("OFF")
    }
}

/// `prefix` followed by `tail`.
fn message_of(prefix: &str, tail: &str) -> (r: String)
    ensures
        r@ == prefix@ + tail@,
{
    let mut r = string_from(prefix);
    push_str(&mut r, tail);
    r
}

} // verus!

verus! {

impl App {
    /// The table for a fresh port listing: entries ordered by port, every
    /// entry shown, the cursor on the first row (if any), no filter, no
    /// marks, no pending kill, auto-refresh off with a one-second interval.
    pub fn new(ports: Vec<PortInfo>) -> (app: App)
        ensures
            app@.wf(),
            is_table_order(ports@, SortColumn::Port, SortDirection::Asc, app@.ports),
            app@.visible == all_positions(app@.ports.len()),
            app@.selected == (if ports@.len() > 0 { Some(0usize) } else { None }),
            !app@.show_all,
            !app@.filter_mode,
            app@.filter_text == Seq::<char>::empty(),
            app@.message is None,
            app@.sort_column == SortColumn::Port,
            app@.sort_direction == SortDirection::Asc,
            app@.protocol_filter == ProtocolFilter::All,
            app@.state_filter == StateFilter::All,
            !app@.group_mode,
            !app@.inspect_mode,
            !app@.help_mode,
            !app@.auto_refresh,
            app@.interval_ms == 1000,
            app@.marked == Set::<usize>::empty(),
            app@.pending_kill is None,
    {
        let ports = sort_for_table(ports, SortColumn::Port, SortDirection::Asc);
        let n = ports.len();
        let visible_indices = positions(n);
        let selected = if n > 0 {
            Some(0)
        } else {
            None
        };
        App {
            ports,
            visible_indices,
            selected,
            show_all: false,
            filter_mode: false,
            filter_text: String::new(),
            message: None,
            sort_column: SortColumn::Port,
            sort_direction: SortDirection::Asc,
            protocol_filter: ProtocolFilter::All,
            state_filter: StateFilter::All,
            group_mode: false,
            inspect_mode: false,
            help_mode: false,
            auto_refresh: false,
            auto_refresh_interval_ms: 1000,
            selected_ports: BTreeSet::new(),
            pending_kill: None,
        }
    }

    /// The state is consistent (see `AppView::wf`).
    pub open spec fn wf(&self) -> bool {
        self@.wf()
    }

    /// Moves to the next protocol filter.
    pub fn cycle_protocol_filter(&mut self)
        requires
            old(self).wf(),
        ensures
            final(self)@ == (AppView {
                protocol_filter: next_protocol_filter(old(self)@.protocol_filter),
                message: Some("Protocol filter: "@ + protocol_filter_name(next_protocol_filter(old(self)@.protocol_filter))),
                ..old(self)@
            }),
            final(self).wf(),
    {
        self.protocol_filter = match self.protocol_filter {
            ProtocolFilter::All => ProtocolFilter::Tcp,
            ProtocolFilter::Tcp => ProtocolFilter::Udp,
            ProtocolFilter::Udp => ProtocolFilter::All,
        };
        let name = protocol_filter_text(self.protocol_filter);
        self.message = Some(message_of("Protocol filter: ", name.as_str()));
    }

    /// Moves to the next state filter.
    pub fn cycle_state_filter(&mut self)
        requires
            old(self).wf(),
        ensures
            final(self)@ == (AppView {
                state_filter: next_state_filter(old(self)@.state_filter),
                message: Some("State filter: "@ + state_filter_name(next_state_filter(old(self)@.state_filter))),
                ..old(self)@
            }),
            final(self).wf(),
    {
        self.state_filter = match self.state_filter {
            StateFilter::All => StateFilter::Listen,
            StateFilter::Listen => StateFilter::Established,
            StateFilter::Established => StateFilter::All,
        };
        let name = state_filter_text(self.state_filter);
        self.message = Some(message_of("State filter: ", name.as_str()));
    }

    /// Whether an entry passes the protocol and state filters.
    pub fn matches_quick_filters(&self, port: &PortInfo) -> (b: bool)
        ensures
            b == passes_quick_filters(port@, self@.protocol_filter, self@.state_filter),
    {
        let protocol_match = match self.protocol_filter {
            ProtocolFilter::All => true,
            ProtocolFilter::Tcp => str_eq_ignore_ascii_case(port.protocol.as_str(), "tcp"),
            ProtocolFilter::Udp => str_eq_ignore_ascii_case(port.protocol.as_str(), "udp"),
        };
        let state_match = match self.state_filter {
            StateFilter::All => true,
            StateFilter::Listen => str_eq_ignore_ascii_case(port.state.as_str(), "listen"),
            StateFilter::Established => str_eq_ignore_ascii_case(
                port.state.as_str(),
                "established",
            ),
        };
        protocol_match && state_match
    }

    /// Turns auto-refresh on or off.
    pub fn toggle_auto_refresh(&mut self)
        requires
            old(self).wf(),
        ensures
            final(self)@ == (AppView {
                auto_refresh: !old(self)@.auto_refresh,
                message: Some(
                    "Auto-refresh: "@ + on_off(!old(self)@.auto_refresh) + " ("@ + interval_text(
                        old(self)@.interval_ms,
                    ) + "s)"@,
                ),
                ..old(self)@
            }),
            final(self).wf(),
    {
        self.auto_refresh = !self.auto_refresh;
        let mut m = string_from("Auto-refresh: ");
        let flag = on_off_text(self.auto_refresh);
        push_str(&mut m, flag.as_str());
        push_str(&mut m, " (");
        push_tenths(&mut m, (self.auto_refresh_interval_ms / 100) as u128);
        push_str(&mut m, "s)");
        self.message = Some(m);
    }

    /// Lengthens the auto-refresh interval by one step, up to the longest.
    pub fn increase_refresh_interval(&mut self)
        requires
            old(self).wf(),
        ensures
            final(self)@ == (AppView {
                interval_ms: increased_interval(old(self)@.interval_ms),
                message: Some(
                    "Auto-refresh interval: "@ + interval_text(increased_interval(old(self)@.interval_ms))
                        + "s"@,
                ),
                ..old(self)@
            }),
            final(self).wf(),
    {
        let next = self.auto_refresh_interval_ms + INTERVAL_STEP_MS;
        self.auto_refresh_interval_ms = if next < MAX_INTERVAL_MS {
            next
        } else {
            MAX_INTERVAL_MS
        };
        self.message = Some(interval_message(self.auto_refresh_interval_ms));
    }

    /// Shortens the auto-refresh interval by one step, down to the shortest.
    pub fn decrease_refresh_interval(&mut self)
        requires
            old(self).wf(),
        ensures
            final(self)@ == (AppView {
                interval_ms: decreased_interval(old(self)@.interval_ms),
                message: Some(
                    "Auto-refresh interval: "@ + interval_text(decreased_interval(old(self)@.interval_ms))
                        + "s"@,
                ),
                ..old(self)@
            }),
            final(self).wf(),
    {
        let ms = self.auto_refresh_interval_ms;
        let lowered = if ms >= INTERVAL_STEP_MS {
            ms - INTERVAL_STEP_MS
        } else {
            0
        };
        self.auto_refresh_interval_ms = if lowered > MIN_INTERVAL_MS {
            lowered
        } else {
            MIN_INTERVAL_MS
        };
        self.message = Some(interval_message(self.auto_refresh_interval_ms));
    }

    /// Enters the text-filter mode.
    pub fn begin_filter(&mut self)
        requires
            old(self).wf(),
        ensures
            final(self)@ == (AppView {
                filter_mode: true,
                message: Some("Filter mode: type text, Enter to apply, Esc to cancel"@),
                ..old(self)@
            }),
            final(self).wf(),
    {
        self.filter_mode = true;
        self.message = Some(string_from("Filter mode: type text, Enter to apply, Esc to cancel"));
    }

    /// Appends a character to the filter text.
    pub fn push_filter_char(&mut self, value: char)
        requires
            old(self).wf(),
        ensures
            final(self)@ == (AppView { filter_text: old(self)@.filter_text.push(value), ..old(self)@ }),
            final(self).wf(),
    {
        push_char(&mut self.filter_text, value);
    }

    /// Removes the last character of the filter text, if any.
    pub fn pop_filter_char(&mut self)
        requires
            old(self).wf(),
        ensures
            final(self)@ == (AppView {
                filter_text: if old(self)@.filter_text.len() == 0 {
                    old(self)@.filter_text
                } else {
                    old(self)@.filter_text.drop_last()
                },
                ..old(self)@
            }),
            final(self).wf(),
    {
        let _ = pop_char(&mut self.filter_text);
    }

    /// Leaves the text-filter mode, keeping the text.
    pub fn apply_filter(&mut self)
        requires
            old(self).wf(),
        ensures
            final(self)@ == (AppView {
                filter_mode: false,
                message: Some("Filter applied: '"@ + old(self)@.filter_text + "'"@),
                ..old(self)@
            }),
            final(self).wf(),
    {
        self.filter_mode = false;
        let mut m = string_from("Filter applied: '");
        push_str(&mut m, self.filter_text.as_str());
        push_str(&mut m, "'");
        self.message = Some(m);
    }

    /// Leaves the text-filter mode and clears the text.
    pub fn cancel_filter(&mut self)
        requires
            old(self).wf(),
        ensures
            final(self)@ == (AppView {
                filter_mode: false,
                filter_text: Seq::<char>::empty(),
                message: Some("Filter cleared"@),
                ..old(self)@
            }),
            final(self).wf(),
    {
        self.filter_mode = false;
        self.filter_text = String::new();
        self.message = Some(string_from("Filter cleared"));
    }

    /// Clears the text filter and sets both quick filters back to `All`.
    pub fn reset_all_filters(&mut self)
        requires
            old(self).wf(),
        ensures
            final(self)@ == (AppView {
                filter_mode: false,
                filter_text: Seq::<char>::empty(),
                protocol_filter: ProtocolFilter::All,
                state_filter: StateFilter::All,
                message: Some("All filters reset"@),
                ..old(self)@
            }),
            final(self).wf(),
    {
        self.filter_mode = false;
        self.filter_text = String::new();
        self.protocol_filter = ProtocolFilter::All;
        self.state_filter = StateFilter::All;
        self.message = Some(string_from("All filters reset"));
    }

    /// Switches between one row per entry and one row per process; the cursor
    /// goes to the first row.
    pub fn toggle_group(&mut self)
        requires
            old(self).wf(),
        ensures
            final(self)@ == (AppView {
                group_mode: !old(self)@.group_mode,
                selected: Some(0usize),
                message: Some("Group Mode: "@ + on_off(!old(self)@.group_mode)),
                ..old(self)@
            }),
            final(self).wf(),
    {
        self.group_mode = !self.group_mode;
        self.selected = Some(0);
        let flag = on_off_text(self.group_mode);
        self.message = Some(message_of("Group Mode: ", flag.as_str()));
    }

    /// Opens or closes the details of the selected process.
    pub fn toggle_inspect(&mut self)
        requires
            old(self).wf(),
        ensures
            final(self)@ == (AppView { inspect_mode: !old(self)@.inspect_mode, ..old(self)@ }),
            final(self).wf(),
    {
        self.inspect_mode = !self.inspect_mode;
    }

    /// Opens or closes the keyboard help.
    pub fn toggle_help(&mut self)
        requires
            old(self).wf(),
        ensures
            final(self)@ == (AppView { help_mode: !old(self)@.help_mode, ..old(self)@ }),
            final(self).wf(),
    {
        self.help_mode = !self.help_mode;
    }

    /// Clears the status message.
    pub fn clear_message(&mut self)
        requires
            old(self).wf(),
        ensures
            final(self)@ == (AppView { message: None, ..old(self)@ }),
            final(self).wf(),
    {
        self.message = None;
    }
}

/// The interval one step longer, at most the longest.
pub open spec fn increased_interval(ms: u64) -> u64 {
    if ms + INTERVAL_STEP_MS < MAX_INTERVAL_MS {
        (ms + INTERVAL_STEP_MS) as u64
    } else {
        MAX_INTERVAL_MS
    }
}

/// The interval one step shorter, at least the shortest.
pub open spec fn decreased_interval(ms: u64) -> u64 {
    let lowered: int = if ms >= INTERVAL_STEP_MS { ms - INTERVAL_STEP_MS } else { 0 };
    if lowered > MIN_INTERVAL_MS {
        lowered as u64
    } else {
        MIN_INTERVAL_MS
    }
}

fn interval_message(ms: u64) -> (m: String)
    ensures
        m@ == "Auto-refresh interval: "@ + interval_text(ms) + "s"@,
{
    let mut m = string_from("Auto-refresh interval: ");
    push_tenths(&mut m, (ms / 100) as u128);
    push_str(&mut m, "s");
    m
}

/// The positions `0..n` as a vector.
fn positions(n: usize) -> (v: Vec<usize>)
    ensures
        v@ == all_positions(n as nat),
{
    let mut v: Vec<usize> = Vec::new();
    let mut i: usize = 0;
    while i < n
        invariant
            i <= n,
            v@ == all_positions(i as nat),
        decreases n - i,
    {
        v.push(i);
        assert(v@ =~= all_positions((i + 1) as nat));
        i = i + 1;
    }
    v
}

} // verus!

verus! {

/// The cursor after moving down one row, wrapping from the last to the first.
pub open spec fn cursor_down(selected: Option<usize>, n: nat) -> Option<usize> {
    match selected {
        Some(i) => if i >= n - 1 {
            Some(0usize)
        } else {
            Some((i + 1) as usize)
        },
        None => Some(0usize),
    }
}

/// The cursor after moving up one row, wrapping from the first to the last.
pub open spec fn cursor_up(selected: Option<usize>, n: nat) -> Option<usize> {
    match selected {
        Some(i) => if i == 0 {
            Some((n - 1) as usize)
        } else {
            Some((i - 1) as usize)
        },
        None => Some(0usize),
    }
}

/// The shown row at position `vi` is marked.
pub open spec fn is_marked_row(v: AppView, vi: int) -> bool {
    0 <= vi < v.visible.len() && v.marked.contains(v.visible[vi])
}

/// Some shown row is marked.
pub open spec fn has_marked_row(v: AppView) -> bool {
    exists|vi: int| is_marked_row(v, vi)
}

/// Where jumping to the next marked row lands from position `cur`: the first
/// marked row after `cur`, else the first marked row.
pub open spec fn is_next_marked_target(v: AppView, cur: int, t: int) -> bool {
    &&& is_marked_row(v, t)
    &&& if exists|vi: int| vi > cur && #[trigger] is_marked_row(v, vi) {
        t > cur && forall|vi: int| cur < vi < t ==> !#[trigger] is_marked_row(v, vi)
    } else {
        forall|vi: int| vi < t ==> !#[trigger] is_marked_row(v, vi)
    }
}

/// Where jumping to the previous marked row lands from position `cur`: the
/// last marked row before `cur`, else the last marked row.
pub open spec fn is_prev_marked_target(v: AppView, cur: int, t: int) -> bool {
    &&& is_marked_row(v, t)
    &&& if exists|vi: int| vi < cur && #[trigger] is_marked_row(v, vi) {
        t < cur && forall|vi: int| t < vi < cur ==> !#[trigger] is_marked_row(v, vi)
    } else {
        forall|vi: int| vi > t ==> !#[trigger] is_marked_row(v, vi)
    }
}

impl App {
    /// Moves the cursor down one row, wrapping around; does nothing while the
    /// details are open or no row is shown.
    pub fn next(&mut self)
        requires
            old(self).wf(),
        ensures
            final(self)@ == (if old(self)@.inspect_mode || old(self)@.visible.len() == 0 {
                old(self)@
            } else {
                AppView {
                    selected: cursor_down(old(self)@.selected, old(self)@.visible.len()),
                    ..old(self)@
                }
            }),
            final(self).wf(),
    {
        if self.inspect_mode {
            return;
        }
        if self.visible_indices.len() == 0 {
            return;
        }
        let n = self.visible_indices.len();
        let i = match self.selected {
            Some(i) => if i >= n - 1 {
                0
            } else {
                i + 1
            },
            None => 0,
        };
        self.selected = Some(i);
    }

    /// Moves the cursor up one row, wrapping around; does nothing while the
    /// details are open or no row is shown.
    pub fn prev(&mut self)
        requires
            old(self).wf(),
        ensures
            final(self)@ == (if old(self)@.inspect_mode || old(self)@.visible.len() == 0 {
                old(self)@
            } else {
                AppView {
                    selected: cursor_up(old(self)@.selected, old(self)@.visible.len()),
                    ..old(self)@
                }
            }),
            final(self).wf(),
    {
        if self.inspect_mode {
            return;
        }
        if self.visible_indices.len() == 0 {
            return;
        }
        let n = self.visible_indices.len();
        let i = match self.selected {
            Some(i) => if i == 0 {
                n - 1
            } else {
                i - 1
            },
            None => 0,
        };
        self.selected = Some(i);
    }

    /// Moves the cursor to the first row, if any is shown.
    pub fn first(&mut self)
        requires
            old(self).wf(),
        ensures
            final(self)@ == (if old(self)@.visible.len() == 0 {
                old(self)@
            } else {
                AppView { selected: Some(0usize), ..old(self)@ }
            }),
            final(self).wf(),
    {
        if self.visible_indices.len() > 0 {
            self.selected = Some(0);
        }
    }

    /// Moves the cursor to the last row, if any is shown.
    pub fn last(&mut self)
        requires
            old(self).wf(),
        ensures
            final(self)@ == (if old(self)@.visible.len() == 0 {
                old(self)@
            } else {
                AppView { selected: Some((old(self)@.visible.len() - 1) as usize), ..old(self)@ }
            }),
            final(self).wf(),
    {
        if self.visible_indices.len() > 0 {
            self.selected = Some(self.visible_indices.len() - 1);
        }
    }

    /// Moves the cursor down `step` rows, stopping at the last.
    pub fn page_down(&mut self, step: usize)
        requires
            old(self).wf(),
            (match old(self)@.selected {
                Some(s) => s,
                None => 0,
            }) + step <= usize::MAX,
        ensures
            final(self)@ == (if old(self)@.visible.len() == 0 {
                old(self)@
            } else {
                AppView {
                    selected: Some(
                        min_usize(
                            (match old(self)@.selected {
                                Some(s) => s,
                                None => 0,
                            }) + step,
                            old(self)@.visible.len() - 1,
                        ),
                    ),
                    ..old(self)@
                }
            }),
            final(self).wf(),
    {
        if self.visible_indices.len() == 0 {
            return;
        }
        let current = match self.selected {
            Some(s) => s,
            None => 0,
        };
        let last = self.visible_indices.len() - 1;
        let target = if current + step < last {
            current + step
        } else {
            last
        };
        self.selected = Some(target);
    }

    /// Moves the cursor up `step` rows, stopping at the first.
    pub fn page_up(&mut self, step: usize)
        requires
            old(self).wf(),
        ensures
            final(self)@ == (if old(self)@.visible.len() == 0 {
                old(self)@
            } else {
                AppView {
                    selected: Some(
                        (if (match old(self)@.selected {
                            Some(s) => s,
                            None => 0,
                        }) >= step {
                            (match old(self)@.selected {
                                Some(s) => s,
                                None => 0,
                            }) - step
                        } else {
                            0
                        }) as usize,
                    ),
                    ..old(self)@
                }
            }),
            final(self).wf(),
    {
        if self.visible_indices.len() == 0 {
            return;
        }
        let current = match self.selected {
            Some(s) => s,
            None => 0,
        };
        let target = if current >= step {
            current - step
        } else {
            0
        };
        self.selected = Some(target);
    }

    /// The index into the entries of the row under the cursor.
    pub fn selected_port_index(&self) -> (r: Option<usize>)
        ensures
            r == self@.cursor_port_index(),
    {
        match self.selected {
            Some(s) => if s < self.visible_indices.len() {
                Some(self.visible_indices[s])
            } else {
                None
            },
            None => None,
        }
    }

    /// The entry under the cursor.
    pub fn selected_port(&self) -> (r: Option<&PortInfo>)
        requires
            self.wf(),
        ensures
            r == (match self@.cursor_port_index() {
                Some(i) => Some(&self@.ports[i as int]),
                None => None,
            }),
    {
        match self.selected_port_index() {
            Some(i) => Some(&self.ports[i]),
            None => None,
        }
    }

    /// Moves the cursor to the next marked row, wrapping to the first.
    pub fn next_selected_row(&mut self)
        requires
            old(self).wf(),
        ensures
            old(self)@.visible.len() == 0 ==> final(self)@ == old(self)@,
            old(self)@.visible.len() > 0 && !has_marked_row(old(self)@) ==> final(self)@ == (AppView {
                message: Some("No selected rows to jump to"@),
                ..old(self)@
            }),
            old(self)@.visible.len() > 0 && has_marked_row(old(self)@) ==> {
                &&& final(self)@.selected matches Some(t) && is_next_marked_target(
                    old(self)@,
                    (match old(self)@.selected {
                        Some(s) => s as int,
                        None => 0,
                    }),
                    t as int,
                )
                &&& final(self)@ == (AppView {
                    selected: final(self)@.selected,
                    message: Some("Jumped to next selected row"@),
                    ..old(self)@
                })
            },
            final(self).wf(),
    {
        if self.visible_indices.len() == 0 {
            return;
        }
        let ghost v = self@;
        let current = match self.selected {
            Some(s) => s,
            None => 0,
        };
        let n = self.visible_indices.len();
        let mut first: Option<usize> = None;
        let mut after: Option<usize> = None;
        let mut vi: usize = 0;
        while vi < n
            invariant
                v == self@,
                n == v.visible.len(),
                vi <= n,
                v.wf(),
                first matches Some(f) ==> f < vi && is_marked_row(v, f as int) && forall|x: int|
                    x < f ==> !#[trigger] is_marked_row(v, x),
                first is None ==> forall|x: int| x < vi ==> !#[trigger] is_marked_row(v, x),
                after matches Some(a) ==> current < a < vi && is_marked_row(v, a as int) && forall|x: int|
                    current < x < a ==> !#[trigger] is_marked_row(v, x),
                after is None ==> forall|x: int| current < x < vi ==> !#[trigger] is_marked_row(v, x),
            decreases n - vi,
        {
            if after.is_none() {
                let marked = self.selected_ports.contains(&self.visible_indices[vi]);
                if marked {
                    if first.is_none() {
                        first = Some(vi);
                    }
                    if vi > current {
                        after = Some(vi);
                    }
                }
            }
            vi = vi + 1;
        }
        proof {
            if after is None {
                assert forall|x: int| x > current implies !#[trigger] is_marked_row(v, x) by {}
            }
        }
        match after {
            Some(a) => {
                self.selected = Some(a);
                self.message = Some(string_from("Jumped to next selected row"));
            },
            None => match first {
                Some(f) => {
                    self.selected = Some(f);
                    self.message = Some(string_from("Jumped to next selected row"));
                },
                None => {
                    assert(!has_marked_row(v));
                    self.message = Some(string_from("No selected rows to jump to"));
                },
            },
        }
    }
}

impl App {
    /// Moves the cursor to the previous marked row, wrapping to the last.
    pub fn prev_selected_row(&mut self)
        requires
            old(self).wf(),
        ensures
            old(self)@.visible.len() == 0 ==> final(self)@ == old(self)@,
            old(self)@.visible.len() > 0 && !has_marked_row(old(self)@) ==> final(self)@ == (AppView {
                message: Some("No selected rows to jump to"@),
                ..old(self)@
            }),
            old(self)@.visible.len() > 0 && has_marked_row(old(self)@) ==> {
                &&& final(self)@.selected matches Some(t) && is_prev_marked_target(
                    old(self)@,
                    (match old(self)@.selected {
                        Some(s) => s as int,
                        None => 0,
                    }),
                    t as int,
                )
                &&& final(self)@ == (AppView {
                    selected: final(self)@.selected,
                    message: Some("Jumped to previous selected row"@),
                    ..old(self)@
                })
            },
            final(self).wf(),
    {
        if self.visible_indices.len() == 0 {
            return;
        }
        let ghost v = self@;
        let current = match self.selected {
            Some(s) => s,
            None => 0,
        };
        let n = self.visible_indices.len();
        let mut last: Option<usize> = None;
        let mut before: Option<usize> = None;
        let mut vi: usize = 0;
        while vi < n
            invariant
                v == self@,
                n == v.visible.len(),
                vi <= n,
                v.wf(),
                last matches Some(l) ==> l < vi && is_marked_row(v, l as int) && forall|x: int|
                    l < x < vi ==> !#[trigger] is_marked_row(v, x),
                last is None ==> forall|x: int| x < vi ==> !#[trigger] is_marked_row(v, x),
                before matches Some(b) ==> b < current && b < vi && is_marked_row(v, b as int) && forall|x: int|
                    b < x < current && x < vi ==> !#[trigger] is_marked_row(v, x),
                before is None ==> forall|x: int| x < current && x < vi ==> !#[trigger] is_marked_row(v, x),
            decreases n - vi,
        {
            let marked = self.selected_ports.contains(&self.visible_indices[vi]);
            if marked {
                last = Some(vi);
                if vi < current {
                    before = Some(vi);
                }
            }
            vi = vi + 1;
        }
        proof {
            assert forall|x: int| x >= n implies !#[trigger] is_marked_row(v, x) by {}
        }
        match before {
            Some(b) => {
                self.selected = Some(b);
                self.message = Some(string_from("Jumped to previous selected row"));
            },
            None => match last {
                Some(l) => {
                    self.selected = Some(l);
                    self.message = Some(string_from("Jumped to previous selected row"));
                },
                None => {
                    assert(!has_marked_row(v));
                    self.message = Some(string_from("No selected rows to jump to"));
                },
            },
        }
    }
}

/// The entries shown, as a set of indices.
pub open spec fn visible_set(v: AppView) -> Set<usize> {
    v.visible.to_set()
}

/// Every shown row is marked.
pub open spec fn all_visible_marked(v: AppView) -> bool {
    forall|k: int| 0 <= k < v.visible.len() ==> v.marked.contains(#[trigger] v.visible[k])
}

/// The marks after toggling the shown rows: all shown rows unmarked when all
/// were marked, else all shown rows marked.
pub open spec fn visible_marks_toggled(v: AppView) -> Set<usize> {
    if all_visible_marked(v) {
        v.marked.difference(visible_set(v))
    } else {
        v.marked.union(visible_set(v))
    }
}

/// The indices of the entries owned by process `pid`.
pub open spec fn rows_with_pid(v: AppView, pid: u32) -> Set<usize> {
    Set::new(|i: usize| i < v.ports.len() && v.ports[i as int].pid == Some(pid))
}

/// `prefix`, the count, then `suffix`.
pub open spec fn count_message(prefix: Seq<char>, n: nat, suffix: Seq<char>) -> Seq<char> {
    prefix + decimal(n) + suffix
}

fn count_message_exec(prefix: &str, n: usize, suffix: &str) -> (m: String)
    ensures
        m@ == count_message(prefix@, n as nat, suffix@),
{
    let mut m = string_from(prefix);
    push_decimal(&mut m, n as u128);
    push_str(&mut m, suffix);
    m
}

impl App {
    /// Marks or unmarks the row under the cursor.
    pub fn toggle_select_selected(&mut self)
        requires
            old(self).wf(),
        ensures
            old(self)@.cursor_port_index() is None ==> final(self)@ == old(self)@,
            old(self)@.cursor_port_index() matches Some(i) ==> {
                let marked = if old(self)@.marked.contains(i) {
                    old(self)@.marked.remove(i)
                } else {
                    old(self)@.marked.insert(i)
                };
                final(self)@ == (AppView {
                    marked,
                    message: Some(count_message("Selected "@, marked.len(), " row(s)"@)),
                    ..old(self)@
                })
            },
            final(self).wf(),
    {
        let index = match self.selected_port_index() {
            Some(i) => i,
            None => return,
        };
        if self.selected_ports.contains(&index) {
            self.selected_ports.remove(&index);
        } else {
            self.selected_ports.insert(index);
        }
        let n = self.selected_ports.len();
        self.message = Some(count_message_exec("Selected ", n, " row(s)"));
    }

    /// Unmarks every row.
    pub fn clear_selection(&mut self)
        requires
            old(self).wf(),
        ensures
            final(self)@ == (AppView {
                marked: Set::<usize>::empty(),
                message: Some("Selection cleared"@),
                ..old(self)@
            }),
            final(self).wf(),
    {
        self.selected_ports.clear();
        self.message = Some(string_from("Selection cleared"));
    }

    /// Unmarks the shown rows when all of them are marked, else marks them all.
    pub fn toggle_select_visible(&mut self)
        requires
            old(self).wf(),
        ensures
            old(self)@.visible.len() == 0 ==> final(self)@ == (AppView {
                message: Some("No visible rows"@),
                ..old(self)@
            }),
            old(self)@.visible.len() > 0 && all_visible_marked(old(self)@) ==> {
                let marked = old(self)@.marked.difference(visible_set(old(self)@));
                final(self)@ == (AppView {
                    marked,
                    message: Some(
                        count_message("Visible rows unselected ("@, marked.len(), " total selected)"@),
                    ),
                    ..old(self)@
                })
            },
            old(self)@.visible.len() > 0 && !all_visible_marked(old(self)@) ==> {
                let marked = old(self)@.marked.union(visible_set(old(self)@));
                final(self)@ == (AppView {
                    marked,
                    message: Some(
                        count_message("Visible rows selected ("@, marked.len(), " total selected)"@),
                    ),
                    ..old(self)@
                })
            },
            old(self)@.visible.len() > 0 ==> final(self)@.marked == visible_marks_toggled(old(self)@),
            final(self).wf(),
    {
        let n = self.visible_indices.len();
        if n == 0 {
            self.message = Some(string_from("No visible rows"));
            return;
        }
        let ghost v = self@;
        let mut all = true;
        let mut k: usize = 0;
        while k < n
            invariant
                v == self@,
                n == v.visible.len(),
                k <= n,
                all == forall|j: int| 0 <= j < k ==> v.marked.contains(#[trigger] v.visible[j]),
            decreases n - k,
        {
            if !self.selected_ports.contains(&self.visible_indices[k]) {
                all = false;
            }
            k = k + 1;
        }
        let mut k: usize = 0;
        while k < n
            invariant
                n == v.visible.len(),
                k <= n,
                self@ == (AppView { marked: self@.marked, ..v }),
                all == all_visible_marked(v),
                self.selected_ports@ == (if all {
                    v.marked.difference(v.visible.take(k as int).to_set())
                } else {
                    v.marked.union(v.visible.take(k as int).to_set())
                }),
            decreases n - k,
        {
            proof {
                assert(v.visible.take(k + 1) =~= v.visible.take(k as int).push(v.visible[k as int]));
                broadcast use vstd::seq_lib::group_seq_properties;
            }
            let idx = self.visible_indices[k];
            if all {
                self.selected_ports.remove(&idx);
                assert(self.selected_ports@ =~= v.marked.difference(v.visible.take(k + 1).to_set()));
            } else {
                self.selected_ports.insert(idx);
                assert(self.selected_ports@ =~= v.marked.union(v.visible.take(k + 1).to_set()));
            }
            k = k + 1;
        }
        assert(v.visible.take(n as int) =~= v.visible);
        let total = self.selected_ports.len();
        if all {
            self.message = Some(count_message_exec("Visible rows unselected (", total, " total selected)"));
        } else {
            self.message = Some(count_message_exec("Visible rows selected (", total, " total selected)"));
        }
        proof {
            assert forall|i: usize| #[trigger] self.selected_ports@.contains(i) implies i < v.ports.len() by {
                if !v.marked.contains(i) {
                    assert(v.visible.to_set().contains(i));
                    let k = choose|k: int| 0 <= k < v.visible.len() && v.visible[k] == i;
                }
            }
        }
    }
}

/// `m` with the membership of every element of `s` flipped.
pub open spec fn flip_members(m: Set<usize>, s: Set<usize>) -> Set<usize> {
    m.difference(s).union(s.difference(m))
}

impl App {
    /// Flips the mark of every shown row.
    pub fn invert_select_visible(&mut self)
        requires
            old(self).wf(),
        ensures
            old(self)@.visible.len() == 0 ==> final(self)@ == (AppView {
                message: Some("No visible rows"@),
                ..old(self)@
            }),
            old(self)@.visible.len() > 0 ==> {
                let marked = flip_members(old(self)@.marked, visible_set(old(self)@));
                final(self)@ == (AppView {
                    marked,
                    message: Some(
                        count_message("Visible selection inverted ("@, marked.len(), " total selected)"@),
                    ),
                    ..old(self)@
                })
            },
            final(self).wf(),
    {
        let n = self.visible_indices.len();
        if n == 0 {
            self.message = Some(string_from("No visible rows"));
            return;
        }
        let ghost v = self@;
        let mut k: usize = 0;
        while k < n
            invariant
                n == v.visible.len(),
                k <= n,
                v.wf(),
                self.visible_indices@ == v.visible,
                self@ == (AppView { marked: self@.marked, ..v }),
                self.selected_ports@ == flip_members(v.marked, v.visible.take(k as int).to_set()),
            decreases n - k,
        {
            proof {
                assert(v.visible.take(k + 1) =~= v.visible.take(k as int).push(v.visible[k as int]));
                broadcast use vstd::seq_lib::group_seq_properties;
            }
            let idx = self.visible_indices[k];
            assert(!v.visible.take(k as int).to_set().contains(idx)) by {
                broadcast use vstd::seq_lib::group_seq_properties;
                if v.visible.take(k as int).contains(idx) {
                    let j = choose|j: int| 0 <= j < k && v.visible.take(k as int)[j] == idx;
                    assert(v.visible[j] == v.visible[k as int]);
                }
            }
            if self.selected_ports.contains(&idx) {
                self.selected_ports.remove(&idx);
            } else {
                self.selected_ports.insert(idx);
            }
            assert(self.selected_ports@ =~= flip_members(v.marked, v.visible.take(k + 1).to_set()));
            k = k + 1;
        }
        assert(v.visible.take(n as int) =~= v.visible);
        let total = self.selected_ports.len();
        self.message = Some(count_message_exec("Visible selection inverted (", total, " total selected)"));
        proof {
            assert forall|i: usize| #[trigger] self.selected_ports@.contains(i) implies i < v.ports.len() by {
                if !v.marked.contains(i) {
                    assert(v.visible.to_set().contains(i));
                    let k = choose|k: int| 0 <= k < v.visible.len() && v.visible[k] == i;
                }
            }
        }
    }

    /// Marks every row of the process under the cursor, or unmarks them all
    /// when all of them are marked.
    pub fn toggle_select_same_pid(&mut self)
        requires
            old(self).wf(),
        ensures
            old(self)@.cursor_port_index() is None ==> final(self)@ == (AppView {
                message: Some("No selected row"@),
                ..old(self)@
            }),
            old(self)@.cursor_port_index() matches Some(i) ==> (old(self)@.ports[i as int].pid is None
                ==> final(self)@ == (AppView {
                message: Some("Selected row has no PID"@),
                ..old(self)@
            })),
            old(self)@.cursor_port_index() matches Some(i) ==> (old(self)@.ports[i as int].pid matches Some(
                pid,
            ) ==> {
                let rows = rows_with_pid(old(self)@, pid);
                let all_marked = rows.subset_of(old(self)@.marked);
                let marked = if all_marked {
                    old(self)@.marked.difference(rows)
                } else {
                    old(self)@.marked.union(rows)
                };
                final(self)@ == (AppView {
                    marked,
                    message: Some(
                        (if all_marked {
                            "Unselected rows for PID "@
                        } else {
                            "Selected rows for PID "@
                        }) + decimal(pid as nat) + count_message(" ("@, marked.len(), " total selected)"@),
                    ),
                    ..old(self)@
                })
            }),
            final(self).wf(),
    {
        let index = match self.selected_port_index() {
            Some(i) => i,
            None => {
                self.message = Some(string_from("No selected row"));
                return;
            },
        };
        let target_pid = match self.ports[index].pid {
            Some(p) => p,
            None => {
                self.message = Some(string_from("Selected row has no PID"));
                return;
            },
        };
        let ghost v = self@;
        let ghost rows = rows_with_pid(v, target_pid);
        let n = self.ports.len();
        let mut matching: Vec<usize> = Vec::new();
        let mut all_selected = true;
        let mut k: usize = 0;
        while k < n
            invariant
                v == self@,
                n == v.ports.len(),
                k <= n,
                rows == rows_with_pid(v, target_pid),
                matching@.to_set() == rows.filter(|i: usize| i < k),
                matching@.no_duplicates(),
                forall|j: int| 0 <= j < matching@.len() ==> #[trigger] matching@[j] < k,
                all_selected == rows.filter(|i: usize| i < k).subset_of(v.marked),
            decreases n - k,
        {
            proof {
                broadcast use vstd::seq_lib::group_seq_properties;
            }
            if self.ports[k].pid == Some(target_pid) {
                let ghost before = matching@;
                matching.push(k);
                proof {
                    broadcast use vstd::seq_lib::group_seq_properties;
                    before.lemma_push_to_set_commute(k);
                    assert(matching@.to_set() =~= rows.filter(|i: usize| i < k + 1));
                    assert forall|a: int, b: int| 0 <= a < b < matching@.len() implies matching@[a] != matching@[b] by {
                        if b == matching@.len() - 1 {
                            assert(before[a] < k);
                        }
                    }
                }
                if !self.selected_ports.contains(&k) {
                    all_selected = false;
                }
            } else {
                proof {
                    assert(rows.filter(|i: usize| i < k + 1) =~= rows.filter(|i: usize| i < k));
                }
            }
            assert(all_selected == rows.filter(|i: usize| i < k + 1).subset_of(v.marked));
            k = k + 1;
        }
        assert(rows.filter(|i: usize| i < n) =~= rows);
        if matching.len() == 0 {
            assert(rows.contains(index));
            assert(matching@.to_set().contains(index));
            assert(false);
            self.message = Some(string_from("No rows with matching PID"));
            return;
        }
        let m = matching.len();
        let mut j: usize = 0;
        while j < m
            invariant
                m == matching@.len(),
                j <= m,
                v.wf(),
                matching@.to_set() == rows,
                matching@.no_duplicates(),
                self@ == (AppView { marked: self@.marked, ..v }),
                self.selected_ports@ == (if all_selected {
                    v.marked.difference(matching@.take(j as int).to_set())
                } else {
                    v.marked.union(matching@.take(j as int).to_set())
                }),
            decreases m - j,
        {
            proof {
                assert(matching@.take(j + 1) =~= matching@.take(j as int).push(matching@[j as int]));
                broadcast use vstd::seq_lib::group_seq_properties;
            }
            let idx = matching[j];
            if all_selected {
                self.selected_ports.remove(&idx);
                assert(self.selected_ports@ =~= v.marked.difference(matching@.take(j + 1).to_set()));
            } else {
                self.selected_ports.insert(idx);
                assert(self.selected_ports@ =~= v.marked.union(matching@.take(j + 1).to_set()));
            }
            j = j + 1;
        }
        assert(matching@.take(m as int) =~= matching@);
        let total = self.selected_ports.len();
        let mut msg = if all_selected {
            string_from("Unselected rows for PID ")
        } else {
            string_from("Selected rows for PID ")
        };
        push_decimal(&mut msg, target_pid as u128);
        let tail = count_message_exec(" (", total, " total selected)");
        push_str(&mut msg, tail.as_str());
        self.message = Some(msg);
    }
}

/// What identifies an entry across listings: port, process and local address.
pub open spec fn identity(p: PortInfo) -> (u16, Option<u32>, Seq<char>) {
    (p.port, p.pid, p.local_addr@)
}

/// Some marked row of `v` has identity `x`.
pub open spec fn is_marked_identity(v: AppView, x: (u16, Option<u32>, Seq<char>)) -> bool {
    exists|j: usize| #[trigger] v.marked.contains(j) && j < v.ports.len() && identity(v.ports[j as int]) == x
}

/// The marks carried over to new entries: an entry is marked when a marked
/// entry before had its identity.
pub open spec fn carried_marks(v: AppView, ports: Seq<PortInfo>) -> Set<usize> {
    Set::new(|i: usize| i < ports.len() && is_marked_identity(v, identity(ports[i as int])))
}

/// `t` is the first position of an entry with identity `x`, or 0 when none has it.
pub open spec fn is_first_position_of(ports: Seq<PortInfo>, x: (u16, Option<u32>, Seq<char>), t: int) -> bool {
    if exists|j: int| 0 <= j < ports.len() && #[trigger] identity(ports[j]) == x {
        0 <= t < ports.len() && identity(ports[t]) == x && forall|j: int| 0 <= j < t ==> #[trigger] identity(ports[j]) != x
    } else {
        t == 0
    }
}

/// The cursor after a refresh: none for an empty table; on the first entry
/// with the identity of the entry under the old cursor (or the first row);
/// without an entry under the old cursor, the old position kept within the
/// table; without a cursor, the first row.
pub open spec fn carried_cursor(v: AppView, ports: Seq<PortInfo>, selected: Option<usize>) -> bool {
    if ports.len() == 0 {
        selected is None
    } else {
        match v.cursor_port_index() {
            Some(i) => selected matches Some(t) && is_first_position_of(ports, identity(v.ports[i as int]), t as int),
            None => match v.selected {
                Some(s) => selected == Some(min_usize(s as int, ports.len() - 1)),
                None => selected == Some(0usize),
            },
        }
    }
}

/// `post` is `pre` after taking the listing `listing`: the entries in table
/// order, all of them shown, marks and cursor carried over by identity,
/// everything else unchanged.
pub open spec fn is_refresh(pre: AppView, listing: Seq<PortInfo>, post: AppView) -> bool {
    &&& is_table_order(listing, pre.sort_column, pre.sort_direction, post.ports)
    &&& post.visible == all_positions(post.ports.len())
    &&& post.marked == carried_marks(pre, post.ports)
    &&& carried_cursor(pre, post.ports, post.selected)
    &&& post == (AppView {
        ports: post.ports,
        visible: post.visible,
        marked: post.marked,
        selected: post.selected,
        ..pre
    })
}

fn same_identity(a: &PortInfo, b: &PortInfo) -> (r: bool)
    ensures
        r == (identity(*a) == identity(*b)),
{
    let same_pid = match (a.pid, b.pid) {
        (Some(x), Some(y)) => x == y,
        (None, None) => true,
        _ => false,
    };
    a.port == b.port && same_pid && a.local_addr == b.local_addr
}

impl App {
    /// Takes a fresh port listing: the entries in table order, every entry
    /// shown, marks and cursor carried over to the entries of the same port,
    /// process and local address.
    pub fn refresh(&mut self, listing: Vec<PortInfo>)
        requires
            old(self).wf(),
        ensures
            is_refresh(old(self)@, listing@, final(self)@),
            final(self).wf(),
    {
        let ghost pre = self@;
        let cursor_index = self.selected_port_index();
        let ports = sort_for_table(listing, self.sort_column, self.sort_direction);
        let n = ports.len();
        let old_n = self.ports.len();
        let mut marks: BTreeSet<usize> = BTreeSet::new();
        let mut i: usize = 0;
        while i < n
            invariant
                pre == self@,
                pre.wf(),
                n == ports@.len(),
                old_n == pre.ports.len(),
                i <= n,
                marks@ == carried_marks(pre, ports@).filter(|x: usize| x < i),
            decreases n - i,
        {
            let mut found = false;
            let mut j: usize = 0;
            while j < old_n
                invariant
                    pre == self@,
                    n == ports@.len(),
                    i < n,
                    old_n == pre.ports.len(),
                    j <= old_n,
                    found == exists|k: usize| k < j && #[trigger] pre.marked.contains(k) && identity(pre.ports[k as int]) == identity(ports@[i as int]),
                decreases old_n - j,
            {
                if !found {
                    let marked = self.selected_ports.contains(&j);
                    if marked {
                        if same_identity(&self.ports[j], &ports[i]) {
                            found = true;
                        }
                    }
                    assert(found == (pre.marked.contains(j) && identity(pre.ports[j as int]) == identity(ports@[i as int])));
                }
                j = j + 1;
            }
            assert(found == is_marked_identity(pre, identity(ports@[i as int])));
            if found {
                marks.insert(i);
            }
            assert(marks@ =~= carried_marks(pre, ports@).filter(|x: usize| x < i + 1));
            i = i + 1;
        }
        assert(marks@ =~= carried_marks(pre, ports@));
        let selected = if n == 0 {
            None
        } else {
            match cursor_index {
                Some(ci) => {
                    let mut t: usize = 0;
                    let mut found = false;
                    let mut j: usize = 0;
                    while j < n && !found
                        invariant
                            pre == self@,
                            n == ports@.len(),
                            ci < pre.ports.len(),
                            j <= n,
                            found ==> t < n && identity(ports@[t as int]) == identity(pre.ports[ci as int]) && forall|k: int| 0 <= k < t ==> #[trigger] identity(ports@[k]) != identity(pre.ports[ci as int]),
                            !found ==> t == 0 && forall|k: int| 0 <= k < j ==> #[trigger] identity(ports@[k]) != identity(pre.ports[ci as int]),
                        decreases n - j,
                    {
                        if same_identity(&ports[j], &self.ports[ci]) {
                            t = j;
                            found = true;
                        }
                        j = j + 1;
                    }
                    Some(t)
                },
                None => match self.selected {
                    Some(s) => if s < n - 1 {
                        Some(s)
                    } else {
                        Some(n - 1)
                    },
                    None => Some(0),
                },
            }
        };
        self.ports = ports;
        self.visible_indices = positions(n);
        self.selected_ports = marks;
        self.selected = selected;
    }
}

impl App {
    /// Moves to the next sort column, takes the fresh listing when there is
    /// one (reading it may have failed), and reports the column.
    pub fn cycle_sort(&mut self, listing: Option<Vec<PortInfo>>)
        requires
            old(self).wf(),
        ensures
            ({
                let mid = AppView { sort_column: next_sort_column(old(self)@.sort_column), ..old(self)@ };
                let msg = Some("Sorted by "@ + sort_column_name(next_sort_column(old(self)@.sort_column)));
                &&& listing is None ==> final(self)@ == (AppView { message: msg, ..mid })
                &&& listing matches Some(l) ==> is_refresh(mid, l@, AppView { message: mid.message, ..final(self)@ })
                &&& final(self)@.message == msg
            }),
            final(self).wf(),
    {
        self.sort_column = match self.sort_column {
            SortColumn::Port => SortColumn::Pid,
            SortColumn::Pid => SortColumn::Memory,
            SortColumn::Memory => SortColumn::Cpu,
            SortColumn::Cpu => SortColumn::Port,
        };
        if let Some(l) = listing {
            self.refresh(l);
        }
        let name = sort_column_text(self.sort_column);
        self.message = Some(message_of("Sorted by ", name.as_str()));
    }

    /// Flips the sort direction, takes the fresh listing when there is one,
    /// and reports the direction.
    pub fn toggle_sort_direction(&mut self, listing: Option<Vec<PortInfo>>)
        requires
            old(self).wf(),
        ensures
            ({
                let mid = AppView { sort_direction: flipped_direction(old(self)@.sort_direction), ..old(self)@ };
                let msg = Some("Sort direction: "@ + sort_direction_name(flipped_direction(old(self)@.sort_direction)));
                &&& listing is None ==> final(self)@ == (AppView { message: msg, ..mid })
                &&& listing matches Some(l) ==> is_refresh(mid, l@, AppView { message: mid.message, ..final(self)@ })
                &&& final(self)@.message == msg
            }),
            final(self).wf(),
    {
        self.sort_direction = match self.sort_direction {
            SortDirection::Asc => SortDirection::Desc,
            SortDirection::Desc => SortDirection::Asc,
        };
        if let Some(l) = listing {
            self.refresh(l);
        }
        let name = sort_direction_text(self.sort_direction);
        self.message = Some(message_of("Sort direction: ", name.as_str()));
    }

    /// Switches between listening sockets only and all connections, and takes
    /// the fresh listing (read with the new choice) when there is one.
    pub fn toggle_all(&mut self, listing: Option<Vec<PortInfo>>)
        requires
            old(self).wf(),
        ensures
            ({
                let mid = AppView { show_all: !old(self)@.show_all, ..old(self)@ };
                &&& listing is None ==> final(self)@ == mid
                &&& listing matches Some(l) ==> is_refresh(mid, l@, final(self)@)
            }),
            final(self).wf(),
    {
        self.show_all = !self.show_all;
        if let Some(l) = listing {
            self.refresh(l);
        }
    }

    /// Reports what came of copying the local address of the row under the
    /// cursor; nothing happens without such a row.
    pub fn copy_selected(&mut self, outcome: ClipboardOutcome)
        requires
            old(self).wf(),
        ensures
            old(self)@.cursor_port_index() is None ==> final(self)@ == old(self)@,
            old(self)@.cursor_port_index() matches Some(i) ==> final(self)@ == (AppView {
                message: Some(
                    match outcome {
                        ClipboardOutcome::Copied => "Copied "@ + old(self)@.ports[i as int].local_addr@,
                        ClipboardOutcome::Failed => "Clipboard error"@,
                        ClipboardOutcome::Unavailable => "Clipboard unavailable"@,
                    },
                ),
                ..old(self)@
            }),
            final(self).wf(),
    {
        let i = match self.selected_port_index() {
            Some(i) => i,
            None => return,
        };
        let m = match outcome {
            ClipboardOutcome::Copied => message_of("Copied ", self.ports[i].local_addr.as_str()),
            ClipboardOutcome::Failed => string_from("Clipboard error"),
            ClipboardOutcome::Unavailable => string_from("Clipboard unavailable"),
        };
        self.message = Some(m);
    }
}

/// The values strictly increase along `s`.
pub open spec fn strictly_increasing(s: Seq<u32>) -> bool {
    forall|i: int, j: int| 0 <= i < j < s.len() ==> s[i] < s[j]
}

/// The processes that own marked rows.
pub open spec fn marked_pids(v: AppView) -> Set<u32> {
    Set::new(|p: u32| exists|i: usize| #[trigger] v.marked.contains(i) && i < v.ports.len() && v.ports[i as int].pid == Some(p))
}

/// How many times `o` occurs in `s`.
pub open spec fn count_outcome(s: Seq<KillOutcome>, o: KillOutcome) -> nat
    decreases s.len(),
{
    if s.len() == 0 {
        0
    } else {
        count_outcome(s.drop_last(), o) + if s.last() == o {
            1nat
        } else {
            0nat
        }
    }
}

/// The status line after confirming a kill of the process `pid`, given what
/// came of signalling it.
pub open spec fn single_kill_message(pid: u32, outcome: KillOutcome) -> Seq<char> {
    match outcome {
        KillOutcome::Killed => "Killed PID "@ + decimal(pid as nat),
        KillOutcome::SignalFailed => "Failed to kill PID "@ + decimal(pid as nat)
            + " (permission denied or protected)"@,
        KillOutcome::Missing => "PID "@ + decimal(pid as nat) + " was not running"@,
    }
}

/// The process ids that confirming a pending kill signals, in order.
pub open spec fn pending_pids(k: PendingKillView) -> Seq<u32> {
    match k {
        PendingKillView::Single { pid, .. } => seq![pid],
        PendingKillView::Batch { pids } => pids,
    }
}

/// The status line after confirming a kill of `requested` processes, given
/// what came of signalling them.
pub open spec fn batch_kill_message(requested: nat, outcomes: Seq<KillOutcome>) -> Seq<char> {
    let killed = count_outcome(outcomes, KillOutcome::Killed);
    let failed = count_outcome(outcomes, KillOutcome::SignalFailed);
    let missing = count_outcome(outcomes, KillOutcome::Missing);
    if failed > 0 {
        "Batch kill: "@ + decimal(killed) + "/"@ + decimal(requested) + " killed, "@ + decimal(failed)
            + " failed, "@ + decimal(missing) + " missing (try elevated privileges)"@
    } else {
        "Batch kill: "@ + decimal(killed) + "/"@ + decimal(requested) + " killed, "@ + decimal(missing)
            + " missing"@
    }
}

/// The status line for a confirmed kill.
pub open spec fn kill_message(k: PendingKillView, outcomes: Seq<KillOutcome>) -> Seq<char> {
    match k {
        PendingKillView::Single { pid, .. } => single_kill_message(pid, outcomes[0]),
        PendingKillView::Batch { pids } => batch_kill_message(pids.len(), outcomes),
    }
}

/// The confirmation question for a pending kill.
pub open spec fn kill_prompt(k: PendingKillView) -> Seq<char> {
    match k {
        PendingKillView::Single { pid, port, process_name } => "Kill PID "@ + decimal(pid as nat) + " ("@
            + process_name + ") on port "@ + decimal(port as nat) + "? [y/Enter=yes, n/Esc=no]"@,
        PendingKillView::Batch { pids } => "Kill "@ + decimal(pids.len()) + " selected process(es)? [y/Enter=yes, n/Esc=no]"@,
    }
}

/// Counts the outcomes of each kind: killed, signal failed, missing.
pub fn tally_kills(outcomes: &Vec<KillOutcome>) -> (r: (usize, usize, usize))
    ensures
        r.0 == count_outcome(outcomes@, KillOutcome::Killed),
        r.1 == count_outcome(outcomes@, KillOutcome::SignalFailed),
        r.2 == count_outcome(outcomes@, KillOutcome::Missing),
{
    let mut killed: usize = 0;
    let mut failed: usize = 0;
    let mut missing: usize = 0;
    let mut i: usize = 0;
    while i < outcomes.len()
        invariant
            i <= outcomes@.len(),
            killed == count_outcome(outcomes@.take(i as int), KillOutcome::Killed),
            failed == count_outcome(outcomes@.take(i as int), KillOutcome::SignalFailed),
            missing == count_outcome(outcomes@.take(i as int), KillOutcome::Missing),
            killed + failed + missing == i,
        decreases outcomes@.len() - i,
    {
        proof {
            assert(outcomes@.take(i + 1).drop_last() =~= outcomes@.take(i as int));
        }
        match outcomes[i] {
            KillOutcome::Killed => killed = killed + 1,
            KillOutcome::SignalFailed => failed = failed + 1,
            KillOutcome::Missing => missing = missing + 1,
        }
        i = i + 1;
    }
    assert(outcomes@.take(outcomes@.len() as int) =~= outcomes@);
    (killed, failed, missing)
}

/// Adds `x` to a strictly increasing list, keeping it so.
fn insert_sorted_unique(v: &mut Vec<u32>, x: u32)
    requires
        strictly_increasing(old(v)@),
    ensures
        strictly_increasing(final(v)@),
        final(v)@.to_set() == old(v)@.to_set().insert(x),
{
    let n = v.len();
    let mut p: usize = 0;
    while p < n && v[p] < x
        invariant
            n == v@.len(),
            p <= n,
            forall|k: int| 0 <= k < p ==> v@[k] < x,
        decreases n - p,
    {
        p = p + 1;
    }
    proof {
        broadcast use vstd::seq_lib::group_seq_properties;
    }
    if p < n && v[p] == x {
        assert(v@.to_set().insert(x) =~= v@.to_set());
        return;
    }
    let ghost before = v@;
    v.insert(p, x);
    proof {
        assert forall|a: int, b: int| 0 <= a < b < v@.len() implies v@[a] < v@[b] by {
            if b < p {
                assert(v@[a] == before[a] && v@[b] == before[b]);
            } else if b == p {
                assert(v@[a] == before[a]);
            } else if a < p {
                assert(v@[b] == before[b - 1]);
                assert(before[b - 1] >= before[p as int]);
            } else if a == p {
                assert(v@[b] == before[b - 1]);
            } else {
                assert(v@[a] == before[a - 1] && v@[b] == before[b - 1]);
            }
        }
        assert forall|y: u32| v@.to_set().contains(y) == before.to_set().insert(x).contains(y) by {
            if v@.contains(y) {
                let k = choose|k: int| 0 <= k < v@.len() && v@[k] == y;
                if k < p {
                    assert(before[k] == y);
                } else if k > p {
                    assert(before[k - 1] == y);
                }
            }
            if before.contains(y) {
                let k = choose|k: int| 0 <= k < before.len() && before[k] == y;
                if k < p {
                    assert(v@[k] == y);
                } else {
                    assert(v@[k + 1] == y);
                }
            }
            if y == x {
                assert(v@[p as int] == x);
            }
        }
        assert(v@.to_set() =~= before.to_set().insert(x));
    }
}

impl App {
    /// Whether a kill waits for confirmation.
    pub fn has_pending_kill(&self) -> (b: bool)
        ensures
            b == self@.pending_kill is Some,
    {
        self.pending_kill.is_some()
    }

    /// The question that asks for confirmation of the pending kill.
    pub fn pending_kill_prompt(&self) -> (r: Option<String>)
        ensures
            r is Some == self@.pending_kill is Some,
            r matches Some(t) ==> t@ == kill_prompt(self@.pending_kill.unwrap()),
    {
        match &self.pending_kill {
            Some(PendingKill::Single { pid, port, process_name }) => {
                let mut m = string_from("Kill PID ");
                push_decimal(&mut m, *pid as u128);
                push_str(&mut m, " (");
                push_str(&mut m, process_name.as_str());
                push_str(&mut m, ") on port ");
                push_decimal(&mut m, *port as u128);
                push_str(&mut m, "? [y/Enter=yes, n/Esc=no]");
                Some(m)
            },
            Some(PendingKill::Batch { pids }) => {
                let mut m = string_from("Kill ");
                push_decimal(&mut m, pids.len() as u128);
                push_str(&mut m, " selected process(es)? [y/Enter=yes, n/Esc=no]");
                Some(m)
            },
            None => None,
        }
    }

    /// Asks to kill the process of the row under the cursor; nothing is
    /// killed until the kill is confirmed.
    pub fn request_kill_selected(&mut self)
        requires
            old(self).wf(),
        ensures
            old(self)@.cursor_port_index() is None ==> final(self)@ == (AppView {
                message: Some("No selected row"@),
                ..old(self)@
            }),
            old(self)@.cursor_port_index() matches Some(i) ==> (old(self)@.ports[i as int].pid is None
                ==> final(self)@ == (AppView {
                message: Some("Selected row has no killable PID"@),
                ..old(self)@
            })),
            old(self)@.cursor_port_index() matches Some(i) ==> (old(self)@.ports[i as int].pid matches Some(
                pid,
            ) ==> final(self)@ == (AppView {
                pending_kill: Some(
                    PendingKillView::Single {
                        pid,
                        port: old(self)@.ports[i as int].port,
                        process_name: old(self)@.ports[i as int].process_name@,
                    },
                ),
                message: Some("Kill pending confirmation"@),
                ..old(self)@
            })),
            final(self).wf(),
    {
        let i = match self.selected_port_index() {
            Some(i) => i,
            None => {
                self.message = Some(string_from("No selected row"));
                return;
            },
        };
        let pid = match self.ports[i].pid {
            Some(p) => p,
            None => {
                self.message = Some(string_from("Selected row has no killable PID"));
                return;
            },
        };
        let port = self.ports[i].port;
        let process_name = self.ports[i].process_name.clone();
        self.pending_kill = Some(PendingKill::Single { pid, port, process_name });
        self.message = Some(string_from("Kill pending confirmation"));
    }

    /// Asks to kill every process that owns a marked row, each once, in
    /// increasing order of process id; nothing is killed until the kill is
    /// confirmed.
    pub fn request_kill_selected_batch(&mut self)
        requires
            old(self).wf(),
        ensures
            old(self)@.marked.is_empty() ==> final(self)@ == (AppView {
                message: Some("No selected rows"@),
                ..old(self)@
            }),
            !old(self)@.marked.is_empty() && marked_pids(old(self)@).is_empty() ==> final(self)@ == (AppView {
                message: Some("No killable PID in selected rows"@),
                ..old(self)@
            }),
            !old(self)@.marked.is_empty() && !marked_pids(old(self)@).is_empty() ==> {
                &&& final(self)@.pending_kill matches Some(PendingKillView::Batch { pids }) && strictly_increasing(pids)
                    && pids.to_set() == marked_pids(old(self)@)
                &&& final(self)@ == (AppView {
                    pending_kill: final(self)@.pending_kill,
                    message: Some("Batch kill pending confirmation"@),
                    ..old(self)@
                })
            },
            final(self).wf(),
    {
        if self.selected_ports.is_empty() {
            self.message = Some(string_from("No selected rows"));
            return;
        }
        let ghost v = self@;
        let n = self.ports.len();
        let mut pids: Vec<u32> = Vec::new();
        let mut i: usize = 0;
        while i < n
            invariant
                v == self@,
                v.wf(),
                n == v.ports.len(),
                i <= n,
                strictly_increasing(pids@),
                pids@.to_set() == Set::new(|p: u32| exists|j: usize| #[trigger] v.marked.contains(j) && j < i && v.ports[j as int].pid == Some(p)),
            decreases n - i,
        {
            let ghost before = pids@.to_set();
            if self.selected_ports.contains(&i) {
                if let Some(p) = self.ports[i].pid {
                    insert_sorted_unique(&mut pids, p);
                }
            }
            assert(pids@.to_set() =~= Set::new(|p: u32| exists|j: usize| #[trigger] v.marked.contains(j) && j < i + 1 && v.ports[j as int].pid == Some(p))) by {
                assert forall|p: u32| #[trigger] pids@.to_set().contains(p) implies exists|j: usize| #[trigger] v.marked.contains(j) && j < i + 1 && v.ports[j as int].pid == Some(p) by {
                    if !before.contains(p) {
                        assert(v.marked.contains(i));
                    }
                }
            }
            i = i + 1;
        }
        assert(pids@.to_set() =~= marked_pids(v));
        if pids.len() == 0 {
            assert(pids@.to_set() =~= Set::<u32>::empty());
            self.message = Some(string_from("No killable PID in selected rows"));
            return;
        }
        proof {
            broadcast use vstd::seq_lib::group_seq_properties;
            assert(pids@.to_set().contains(pids@[0]));
        }
        self.pending_kill = Some(PendingKill::Batch { pids });
        self.message = Some(string_from("Batch kill pending confirmation"));
    }

    /// Drops the pending kill, if any.
    pub fn cancel_pending_kill(&mut self)
        requires
            old(self).wf(),
        ensures
            old(self)@.pending_kill is None ==> final(self)@ == old(self)@,
            old(self)@.pending_kill is Some ==> final(self)@ == (AppView {
                pending_kill: None,
                message: Some("Kill canceled"@),
                ..old(self)@
            }),
            final(self).wf(),
    {
        if self.pending_kill.is_some() {
            self.pending_kill = None;
            self.message = Some(string_from("Kill canceled"));
        }
    }

    /// The process ids that a confirmed kill signals, in order.
    pub fn pending_kill_pids(&self) -> (r: Vec<u32>)
        ensures
            self@.pending_kill is None ==> r@.len() == 0,
            self@.pending_kill matches Some(PendingKillView::Single { pid, .. }) ==> r@ == seq![pid],
            self@.pending_kill matches Some(PendingKillView::Batch { pids }) ==> r@ == pids,
            self@.pending_kill matches Some(k) ==> r@ == pending_pids(k),
    {
        match &self.pending_kill {
            Some(PendingKill::Single { pid, .. }) => {
                let mut r: Vec<u32> = Vec::new();
                r.push(*pid);
                r
            },
            Some(PendingKill::Batch { pids }) => {
                let mut r: Vec<u32> = Vec::new();
                let mut i: usize = 0;
                while i < pids.len()
                    invariant
                        i <= pids@.len(),
                        r@ == pids@.take(i as int),
                    decreases pids@.len() - i,
                {
                    r.push(pids[i]);
                    assert(r@ =~= pids@.take(i + 1));
                    i = i + 1;
                }
                assert(pids@.take(pids@.len() as int) =~= pids@);
                r
            },
            None => Vec::new(),
        }
    }

    /// Carries out the confirmation of the pending kill, given what came of
    /// signalling each of its processes (in the order of `pending_kill_pids`):
    /// the pending kill is dropped, the status line reports the outcome, and
    /// the fresh listing, when there is one, is taken. Without a pending kill
    /// nothing happens.
    pub fn confirm_pending_kill(&mut self, outcomes: &Vec<KillOutcome>, listing: Option<Vec<PortInfo>>)
        requires
            old(self).wf(),
            old(self)@.pending_kill matches Some(k) ==> outcomes@.len() == pending_pids(k).len(),
        ensures
            old(self)@.pending_kill is None ==> final(self)@ == old(self)@,
            old(self)@.pending_kill matches Some(k) ==> ({
                let mid = AppView {
                    pending_kill: None,
                    message: Some(kill_message(k, outcomes@)),
                    ..old(self)@
                };
                &&& listing is None ==> final(self)@ == mid
                &&& listing matches Some(l) ==> is_refresh(mid, l@, final(self)@)
            }),
            final(self).wf(),
    {
        let pending = match self.pending_kill.take() {
            Some(k) => k,
            None => return,
        };
        let m = match pending {
            PendingKill::Single { pid, .. } => match outcomes[0] {
                KillOutcome::Killed => {
                    let mut m = string_from("Killed PID ");
                    push_decimal(&mut m, pid as u128);
                    m
                },
                KillOutcome::SignalFailed => {
                    let mut m = string_from("Failed to kill PID ");
                    push_decimal(&mut m, pid as u128);
                    push_str(&mut m, " (permission denied or protected)");
                    m
                },
                KillOutcome::Missing => {
                    let mut m = string_from("PID ");
                    push_decimal(&mut m, pid as u128);
                    push_str(&mut m, " was not running");
                    m
                },
            },
            PendingKill::Batch { pids } => {
                let (killed, failed, missing) = tally_kills(outcomes);
                let requested = pids.len();
                let mut m = string_from("Batch kill: ");
                push_decimal(&mut m, killed as u128);
                push_str(&mut m, "/");
                push_decimal(&mut m, requested as u128);
                push_str(&mut m, " killed, ");
                if failed > 0 {
                    push_decimal(&mut m, failed as u128);
                    push_str(&mut m, " failed, ");
                    push_decimal(&mut m, missing as u128);
                    push_str(&mut m, " missing (try elevated privileges)");
                } else {
                    push_decimal(&mut m, missing as u128);
                    push_str(&mut m, " missing");
                }
                m
            },
        };
        self.message = Some(m);
        if let Some(l) = listing {
            self.refresh(l);
        }
    }
}

/// The smaller of two numbers.
pub open spec fn min_usize(a: int, b: int) -> usize {
    (if a < b {
        a
    } else {
        b
    }) as usize
}

} // verus!
