//! Port entries: what the listing holds of a socket and its owning process,
//! and the functions that build, find and describe them.

use vstd::prelude::*;
use crate::text::{
    decimal, digit_char, folded, lowercased, push_char, push_decimal, push_str, str_contains, string_from,
    text_contains, joined, join_strings, string_views,
};
use crate::sort::{is_stable_sorting, lemma_stable_sorting_map, map_items, stable_sort_by_key};
use vstd::arithmetic::div_mod::lemma_div_denominator;
use vstd::string::StringSliceAdditionalSpecFns;

verus! {

broadcast use vstd::string::group_string_axioms;

/// One socket with the details of the process that owns it.
///
/// The CPU usage is held as the IEEE-754 bit pattern of the `f32` that the
/// process table reports: for the non-negative values that it reports, the
/// order of the bit patterns is the numeric order.
pub struct PortInfo {
    pub port: u16,
    pub protocol: String,
    pub state: String,
    pub pid: Option<u32>,
    pub process_name: String,
    pub local_addr: String,
    pub duration_secs: u64,
    pub cpu_usage_bits: u32,
    pub memory: u64,
    pub user: String,
    pub command: String,
    pub parent_pid: Option<u32>,
}

/// The contents of a `PortInfo`, texts as character sequences.
pub struct PortView {
    pub port: u16,
    pub protocol: Seq<char>,
    pub state: Seq<char>,
    pub pid: Option<u32>,
    pub process_name: Seq<char>,
    pub local_addr: Seq<char>,
    pub duration_secs: u64,
    pub cpu_usage_bits: u32,
    pub memory: u64,
    pub user: Seq<char>,
    pub command: Seq<char>,
    pub parent_pid: Option<u32>,
}

impl View for PortInfo {
    type V = PortView;

    open spec fn view(&self) -> PortView {
        PortView {
            port: self.port,
            protocol: self.protocol@,
            state: self.state@,
            pid: self.pid,
            process_name: self.process_name@,
            local_addr: self.local_addr@,
            duration_secs: self.duration_secs,
            cpu_usage_bits: self.cpu_usage_bits,
            memory: self.memory,
            user: self.user@,
            command: self.command@,
            parent_pid: self.parent_pid,
        }
    }
}

impl Clone for PortInfo {
    fn clone(&self) -> (r: Self)
        ensures
            r == *self,
    {
        PortInfo {
            port: self.port,
            protocol: self.protocol.clone(),
            state: self.state.clone(),
            pid: self.pid,
            process_name: self.process_name.clone(),
            local_addr: self.local_addr.clone(),
            duration_secs: self.duration_secs,
            cpu_usage_bits: self.cpu_usage_bits,
            memory: self.memory,
            user: self.user.clone(),
            command: self.command.clone(),
            parent_pid: self.parent_pid,
        }
    }
}

/// The rank of a CPU usage, given by the bit pattern of its `f32` value, in
/// the order of the values. An `f32` is a sign bit over a magnitude whose bit
/// pattern grows with the magnitude; so non-negative values rank from
/// `2^31` up by their pattern, negative values rank below `2^31` and lower the
/// larger their magnitude, and both zeros rank `2^31`, as they compare equal.
pub open spec fn cpu_rank(bits: u32) -> u64 {
    if bits < 0x8000_0000 {
        (0x8000_0000 + bits) as u64
    } else {
        (0x1_0000_0000 - bits) as u64
    }
}

pub(crate) fn cpu_rank_exec(bits: u32) -> (r: u64)
    ensures
        r == cpu_rank(bits),
        r <= u32::MAX,
{
    if bits < 0x8000_0000 {
        0x8000_0000u64 + bits as u64
    } else {
        0x1_0000_0000u64 - bits as u64
    }
}

/// What the process table knows of the process that owns a socket.
pub struct ProcessDetails {
    /// The process name.
    pub name: String,
    /// When the process started, in seconds since the Unix epoch.
    pub start_time: u64,
    /// Bit pattern of the CPU usage (`f32::to_bits`).
    pub cpu_usage_bits: u32,
    /// Resident memory in bytes.
    pub memory: u64,
    /// The name of the user that runs it, where the user table has one.
    pub user: Option<String>,
    /// The command line, one string per argument.
    pub cmd: Vec<String>,
    /// The parent's process id.
    pub parent_pid: Option<u32>,
}

/// One socket of the socket table.
pub struct SocketRecord {
    /// For a TCP socket, the name of its state (`Listen`, `Established`, ...);
    /// `None` for a UDP socket.
    pub tcp_state: Option<String>,
    /// The local address, as text.
    pub local_ip: String,
    pub local_port: u16,
    /// The first process associated with the socket.
    pub pid: Option<u32>,
    /// The details of that process, where the process table has it.
    pub process: Option<ProcessDetails>,
}

/// A socket is listed: every UDP socket; a TCP socket when all connections
/// are asked for or it is listening.
pub open spec fn record_listed(r: SocketRecord, all: bool) -> bool {
    all || r.tcp_state is None || r.tcp_state.unwrap()@ == "Listen"@
}

/// The entry that a socket record gives, at time `now` (seconds since the
/// epoch). Fields without a known process are `-`, zero or `None`.
pub open spec fn record_entry(r: SocketRecord, now: u64) -> PortView {
    let known = r.pid is Some && r.process is Some;
    let d = r.process.unwrap();
    PortView {
        port: r.local_port,
        protocol: if r.tcp_state is Some { "TCP"@ } else { "UDP"@ },
        state: if r.tcp_state is Some { r.tcp_state.unwrap()@ } else { "-"@ },
        pid: r.pid,
        process_name: if known { d.name@ } else { "-"@ },
        local_addr: r.local_ip@ + ":"@ + decimal(r.local_port as nat),
        duration_secs: if known && now > d.start_time { (now - d.start_time) as u64 } else { 0 },
        cpu_usage_bits: if known { d.cpu_usage_bits } else { 0 },
        memory: if known { d.memory } else { 0 },
        user: if known && d.user is Some { d.user.unwrap()@ } else { "-"@ },
        command: if !known {
            "-"@
        } else if d.cmd.len() > 0 {
            joined(string_views(d.cmd@), " "@)
        } else {
            d.name@
        },
        parent_pid: if known { d.parent_pid } else { None },
    }
}

/// The entries of the listed records, in the records' order.
pub open spec fn listed_entries(rs: Seq<SocketRecord>, all: bool, now: u64) -> Seq<PortView>
    decreases rs.len(),
{
    if rs.len() == 0 {
        Seq::empty()
    } else {
        let prev = listed_entries(rs.drop_last(), all, now);
        if record_listed(rs.last(), all) {
            prev.push(record_entry(rs.last(), now))
        } else {
            prev
        }
    }
}

/// Two entries for the same port and protocol.
pub open spec fn same_port_protocol(a: PortView, b: PortView) -> bool {
    a.port == b.port && a.protocol == b.protocol
}

/// Drops each entry whose port and protocol equal those of the entry kept
/// just before it (what `dedup_by_key` on port and protocol does).
pub open spec fn dedup_port_runs(s: Seq<PortView>) -> Seq<PortView>
    decreases s.len(),
{
    if s.len() == 0 {
        s
    } else {
        let d = dedup_port_runs(s.drop_last());
        if d.len() > 0 && same_port_protocol(d.last(), s.last()) {
            d
        } else {
            d.push(s.last())
        }
    }
}

/// Entries keyed by port number.
pub open spec fn keyed_by_port(s: Seq<PortView>) -> Seq<(u64, PortView)> {
    s.map_values(|v: PortView| (v.port as u64, v))
}

/// The views of a list of entries.
pub open spec fn port_views(s: Seq<PortInfo>) -> Seq<PortView> {
    s.map_values(|p: PortInfo| p@)
}

/// `out` is the listing of the socket table `rs`: the listed entries, sorted
/// by port stably, with runs of equal port and protocol reduced to their first.
pub open spec fn is_port_listing(rs: Seq<SocketRecord>, all: bool, now: u64, out: Seq<PortView>) -> bool {
    exists|sorted: Seq<(u64, PortView)>|
        is_stable_sorting(keyed_by_port(listed_entries(rs, all, now)), sorted)
            && out == dedup_port_runs(sorted.map_values(|e: (u64, PortView)| e.1))
}

fn entry_from_record(r: &SocketRecord, now: u64) -> (p: PortInfo)
    ensures
        p@ == record_entry(*r, now),
{
    let protocol;
    let state;
    match &r.tcp_state {
        Some(s) => {
            protocol = string_from("TCP");
            state = s.clone();
        },
        None => {
            protocol = string_from("UDP");
            state = string_from("-");
        },
    }
    let mut local_addr = r.local_ip.clone();
    push_char(&mut local_addr, ':');
    push_decimal(&mut local_addr, r.local_port as u128);
    assert(local_addr@ =~= r.local_ip@ + ":"@ + decimal(r.local_port as nat)) by {
        reveal_strlit(":");
    }
    let mut process_name = string_from("-");
    let mut duration_secs: u64 = 0;
    let mut cpu_usage_bits: u32 = 0;
    let mut memory: u64 = 0;
    let mut user = string_from("-");
    let mut command = string_from("-");
    let mut parent_pid: Option<u32> = None;
    if r.pid.is_some() {
        if let Some(d) = &r.process {
            process_name = d.name.clone();
            if now > d.start_time {
                duration_secs = now - d.start_time;
            }
            cpu_usage_bits = d.cpu_usage_bits;
            memory = d.memory;
            if let Some(u) = &d.user {
                user = u.clone();
            }
            command = if d.cmd.len() > 0 {
                join_strings(&d.cmd, " ")
            } else {
                d.name.clone()
            };
            parent_pid = d.parent_pid;
        }
    }
    PortInfo {
        port: r.local_port,
        protocol,
        state,
        pid: r.pid,
        process_name,
        local_addr,
        duration_secs,
        cpu_usage_bits,
        memory,
        user,
        command,
        parent_pid,
    }
}

fn is_listed(r: &SocketRecord, all: bool) -> (b: bool)
    ensures
        b == record_listed(*r, all),
{
    if all {
        return true;
    }
    match &r.tcp_state {
        None => true,
        Some(s) => {
            let listen = string_from("Listen");
            *s == listen
        },
    }
}

/// The port listing of a socket table, read at `now` (seconds since the
/// epoch): with `all`, every socket; without, UDP sockets and listening TCP
/// sockets. Sorted by port (stably), then each entry with the port and
/// protocol of the entry kept before it is dropped.
pub fn list_ports(all: bool, sockets: &Vec<SocketRecord>, now: u64) -> (out: Vec<PortInfo>)
    ensures
        is_port_listing(sockets@, all, now, port_views(out@)),
{
    let ghost rs = sockets@;
    let mut built: Vec<(u64, PortInfo)> = Vec::new();
    let mut i: usize = 0;
    while i < sockets.len()
        invariant
            rs == sockets@,
            i <= rs.len(),
            map_items(built@, |p: PortInfo| p@) == keyed_by_port(listed_entries(rs.take(i as int), all, now)),
        decreases rs.len() - i,
    {
        let r = &sockets[i];
        let ghost before = built@;
        proof {
            assert(rs.take(i + 1).drop_last() =~= rs.take(i as int));
            assert(rs.take(i + 1).last() == rs[i as int]);
        }
        if is_listed(r, all) {
            let p = entry_from_record(r, now);
            built.push((p.port as u64, p));
            assert(map_items(built@, |p: PortInfo| p@) =~= map_items(before, |p: PortInfo| p@).push(
                (p.port as u64, p@),
            ));
        }
        i = i + 1;
    }
    assert(rs.take(rs.len() as int) =~= rs);
    let ghost keyed = built@;
    let sorted = stable_sort_by_key(built);
    proof {
        lemma_stable_sorting_map(keyed, sorted@, |p: PortInfo| p@);
    }
    let ghost sorted_views = map_items(sorted@, |p: PortInfo| p@).map_values(|e: (u64, PortView)| e.1);
    let mut out: Vec<PortInfo> = Vec::new();
    let mut k: usize = 0;
    while k < sorted.len()
        invariant
            k <= sorted@.len(),
            sorted_views == map_items(sorted@, |p: PortInfo| p@).map_values(|e: (u64, PortView)| e.1),
            port_views(out@) == dedup_port_runs(sorted_views.take(k as int)),
        decreases sorted@.len() - k,
    {
        let ghost before = out@;
        let item = &sorted[k].1;
        proof {
            assert(sorted_views.take(k + 1).drop_last() =~= sorted_views.take(k as int));
            assert(sorted_views.take(k + 1).last() == item@);
        }
        let keep = if out.len() == 0 {
            true
        } else {
            let last = &out[out.len() - 1];
            !(last.port == item.port && last.protocol == item.protocol)
        };
        if keep {
            out.push(item.clone());
            assert(port_views(out@) =~= port_views(before).push(item@));
        }
        k = k + 1;
    }
    assert(sorted_views.take(sorted_views.len() as int) =~= sorted_views);
    out
}
/// How long a process has run, in its largest whole unit:
/// seconds below a minute, minutes below an hour, hours beyond.
pub open spec fn duration_text(secs: nat) -> Seq<char> {
    if secs < 60 {
        decimal(secs).push('s')
    } else if secs < 3600 {
        decimal(secs / 60).push('m')
    } else {
        decimal(secs / 3600).push('h')
    }
}

/// Two to the power `e`.
pub open spec fn two_pow(e: nat) -> nat
    decreases e,
{
    if e == 0 {
        1
    } else {
        2 * two_pow((e - 1) as nat)
    }
}

/// How many halvings bring `m` below 2^53, the precision of an `f64`.
pub open spec fn f64_shift(m: nat) -> nat
    decreases m,
{
    if m < 0x20_0000_0000_0000 {
        0
    } else {
        1 + f64_shift(m / 2)
    }
}

/// The value of `m as f64`: `m` rounded to 53 significant bits, to nearest,
/// ties to even.
pub open spec fn nearest_f64(m: nat) -> nat {
    if m < 0x20_0000_0000_0000 {
        m
    } else {
        let p = two_pow(f64_shift(m));
        let q = m / p;
        let r = m % p;
        (if r > p / 2 || (r == p / 2 && q % 2 == 1) {
            q + 1
        } else {
            q
        }) * p
    }
}

/// `n / d` rounded to nearest, ties to even.
pub open spec fn div_round_even(n: nat, d: nat) -> nat {
    let q = n / d;
    let r = n % d;
    if 2 * r > d || (2 * r == d && q % 2 == 1) {
        q + 1
    } else {
        q
    }
}

/// A count of tenths as `12.3`.
pub open spec fn tenths_text(t: nat) -> Seq<char> {
    decimal(t / 10).push('.').push(digit_char(t % 10))
}

/// The memory size in MB below 1024 MB, else in GB, with one decimal: what
/// formatting `memory as f64 / 1024.0 / 1024.0` (divided once more by 1024
/// for GB) with one decimal gives.
pub open spec fn memory_text(memory: nat) -> Seq<char> {
    if memory < 0x4000_0000 {
        tenths_text(div_round_even(memory * 10, 0x10_0000)) + " MB"@
    } else {
        tenths_text(div_round_even(nearest_f64(memory) * 10, 0x4000_0000)) + " GB"@
    }
}

fn nearest_f64_exec(m: u64) -> (r: u128)
    ensures
        r == nearest_f64(m as nat),
        r <= 0x20_0000_0000_0000 * 0x1_0000_0000_0000_0000,
{
    if m < 0x20_0000_0000_0000 {
        return m as u128;
    }
    let ghost mm = m as nat;
    let mut t: u64 = m;
    let mut p: u128 = 1;
    let ghost mut s: nat = 0;
    assert(two_pow(0) == 1);
    assert(mm / 1 == mm);
    while t >= 0x20_0000_0000_0000
        invariant
            t as nat == mm / two_pow(s),
            p as nat == two_pow(s),
            f64_shift(mm) == s + f64_shift(t as nat),
            1 <= p <= mm,
            mm == m,
        decreases t,
    {
        proof {
            lemma_div_denominator(mm as int, two_pow(s) as int, 2);
            assert(two_pow(s + 1) == 2 * two_pow(s));
            assert(two_pow(s) * 2 == two_pow(s + 1));
            vstd::arithmetic::div_mod::lemma_fundamental_div_mod(mm as int, two_pow(s + 1) as int);
            let tt = mm / two_pow(s + 1);
            assert(tt >= 1) by {
                assert(tt == (t as nat) / 2);
            }
            assert(mm >= two_pow(s + 1) * tt);
            assert(two_pow(s + 1) * tt >= two_pow(s + 1)) by (nonlinear_arith)
                requires
                    tt >= 1,
            ;
        }
        t = t / 2;
        p = p * 2;
        proof {
            s = s + 1;
        }
    }
    assert(f64_shift(t as nat) == 0);
    let r: u128 = (m as u128) % p;
    let half: u128 = p / 2;
    let q: u128 = if r > half || (r == half && t % 2 == 1) {
        t as u128 + 1
    } else {
        t as u128
    };
    assert(q <= 0x20_0000_0000_0000);
    assert(q * p <= 0x20_0000_0000_0000 * 0x1_0000_0000_0000_0000) by (nonlinear_arith)
        requires
            q <= 0x20_0000_0000_0000,
            p <= 0x1_0000_0000_0000_0000,
    ;
    q * p
}

fn div_round_even_exec(n: u128, d: u128) -> (r: u128)
    requires
        0 < d <= 0x4000_0000,
        n < 0x1000_0000_0000_0000_0000_0000_0000_0000,
    ensures
        r == div_round_even(n as nat, d as nat),
{
    let q = n / d;
    assert(q <= n) by {
        vstd::arithmetic::div_mod::lemma_div_nonincreasing(n as int, d as int);
    }
    let rem = n % d;
    if 2 * rem > d || (2 * rem == d && q % 2 == 1) {
        q + 1
    } else {
        q
    }
}

pub(crate) fn push_tenths(s: &mut String, t: u128)
    ensures
        final(s)@ == old(s)@ + tenths_text(t as nat),
{
    push_decimal(s, t / 10);
    push_char(s, '.');
    let d: u8 = (t % 10) as u8;
    push_char(s, (d + 48u8) as char);
}

/// The service conventionally found on a well-known port.
pub open spec fn well_known_port_label(port: u16) -> Option<Seq<char>> {
    if port == 22 {
        Some("SSH"@)
    } else if port == 80 || port == 8080 {
        Some("HTTP"@)
    } else if port == 443 || port == 8443 {
        Some("HTTPS"@)
    } else if 3000 <= port <= 3010 {
        Some("Node/React"@)
    } else if port == 5432 {
        Some("Postgres"@)
    } else if port == 3306 {
        Some("MySQL"@)
    } else if port == 6379 {
        Some("Redis"@)
    } else if port == 27017 {
        Some("MongoDB"@)
    } else {
        None
    }
}

/// A short label for an entry: the service of a well-known port, else a
/// runtime recognised in the (lowercased) process name, else the process name.
pub open spec fn smart_label_text(port: u16, name: Seq<char>) -> Seq<char> {
    match well_known_port_label(port) {
        Some(label) => label,
        None => {
            let low = folded(name);
            if text_contains(low, "node"@) {
                "Node"@
            } else if text_contains(low, "python"@) {
                "Python"@
            } else if text_contains(low, "docker"@) {
                "Docker"@
            } else if text_contains(low, "chrome"@) {
                "Chrome"@
            } else if text_contains(low, "code"@) {
                "VS Code"@
            } else {
                name
            }
        },
    }
}

impl PortInfo {
    /// A short label for the table's process column.
    pub fn smart_label(&self) -> (r: String)
        ensures
            r@ == smart_label_text(self.port, self.process_name@),
    {
        let port = self.port;
        if port == 22 {
            return string_from("SSH");
        } else if port == 80 || port == 8080 {
            return string_from("HTTP");
        } else if port == 443 || port == 8443 {
            return string_from("HTTPS");
        } else if 3000 <= port && port <= 3010 {
            return string_from("Node/React");
        } else if port == 5432 {
            return string_from("Postgres");
        } else if port == 3306 {
            return string_from("MySQL");
        } else if port == 6379 {
            return string_from("Redis");
        } else if port == 27017 {
            return string_from("MongoDB");
        }
        let low = lowercased(self.process_name.as_str());
        if str_contains(low.as_str(), "node") {
            string_from("Node")
        } else if str_contains(low.as_str(), "python") {
            string_from("Python")
        } else if str_contains(low.as_str(), "docker") {
            string_from("Docker")
        } else if str_contains(low.as_str(), "chrome") {
            string_from("Chrome")
        } else if str_contains(low.as_str(), "code") {
            string_from("VS Code")
        } else {
            self.process_name.clone()
        }
    }

    /// The resident memory as `12.3 MB` or `1.5 GB`.
    pub fn format_memory(&self) -> (r: String)
        ensures
            r@ == memory_text(self.memory as nat),
    {
        let mut r = String::new();
        if self.memory < 0x4000_0000 {
            let t = div_round_even_exec(self.memory as u128 * 10, 0x10_0000);
            push_tenths(&mut r, t);
            push_str(&mut r, " MB");
        } else {
            let v = nearest_f64_exec(self.memory);
            let t = div_round_even_exec(v * 10, 0x4000_0000);
            push_tenths(&mut r, t);
            push_str(&mut r, " GB");
        }
        r
    }

    /// The run time as `45s`, `12m` or `3h`.
    pub fn format_duration(&self) -> (r: String)
        ensures
            r@ == duration_text(self.duration_secs as nat),
    {
        let secs = self.duration_secs;
        let mut r = String::new();
        if secs < 60 {
            push_decimal(&mut r, secs as u128);
            push_char(&mut r, 's');
        } else if secs < 3600 {
            push_decimal(&mut r, (secs / 60) as u128);
            push_char(&mut r, 'm');
        } else {
            push_decimal(&mut r, (secs / 3600) as u128);
            push_char(&mut r, 'h');
        }
        r
    }
}

/// The colour in which the table shows a connection state.
#[derive(Debug, Clone, Copy, PartialEq, Eq, Structural)]
pub enum StateTone {
    Green,
    Cyan,
    Yellow,
    Red,
    Plain,
}

/// The colour of a state: listening green, established cyan, waiting after
/// close yellow, waiting to close red, any other plain.
pub open spec fn state_tone_of(state: Seq<char>) -> StateTone {
    if state == "Listen"@ {
        StateTone::Green
    } else if state == "Established"@ {
        StateTone::Cyan
    } else if state == "TimeWait"@ {
        StateTone::Yellow
    } else if state == "CloseWait"@ {
        StateTone::Red
    } else {
        StateTone::Plain
    }
}

/// The colour in which the table shows the state `state`.
pub fn state_tone(state: &String) -> (t: StateTone)
    ensures
        t == state_tone_of(state@),
{
    if *state == string_from("Listen") {
        StateTone::Green
    } else if *state == string_from("Established") {
        StateTone::Cyan
    } else if *state == string_from("TimeWait") {
        StateTone::Yellow
    } else if *state == string_from("CloseWait") {
        StateTone::Red
    } else {
        StateTone::Plain
    }
}

/// The process id column of the port table: the id, or `-` without one.
pub fn pid_text(pid: Option<u32>) -> (r: String)
    ensures
        r@ == (match pid {
            Some(id) => decimal(id as nat),
            None => "-"@,
        }),
{
    match pid {
        Some(id) => {
            let mut r = String::new();
            push_decimal(&mut r, id as u128);
            r
        },
        None => string_from("-"),
    }
}

} // verus!

verus! {

/// The first entry on `port`, if any.
pub fn find_port(ports: &Vec<PortInfo>, port: u16) -> (r: Option<PortInfo>)
    ensures
        r is None <==> forall|i: int| 0 <= i < ports@.len() ==> (#[trigger] ports@[i]).port != port,
        r matches Some(p) ==> exists|i: int|
            0 <= i < ports@.len() && (#[trigger] ports@[i]) == p && p.port == port && forall|j: int|
                0 <= j < i ==> (#[trigger] ports@[j]).port != port,
{
    let mut i: usize = 0;
    while i < ports.len()
        invariant
            i <= ports@.len(),
            forall|j: int| 0 <= j < i ==> (#[trigger] ports@[j]).port != port,
        decreases ports@.len() - i,
    {
        if ports[i].port == port {
            let p = ports[i].clone();
            assert(ports@[i as int] == p);
            return Some(p);
        }
        i = i + 1;
    }
    None
}

/// `s` cut to at most `max` bytes: kept whole when it fits, else its first
/// `max - 1` bytes followed by an ellipsis.
pub fn truncate_ellipsis(s: &str, max: usize) -> (r: String)
    requires
        s.spec_bytes().len() <= usize::MAX,
        s.spec_bytes().len() <= max || (max >= 1 && vstd::utf8::is_char_boundary(
            s.spec_bytes(),
            max - 1,
        )),
    ensures
        s.spec_bytes().len() <= max ==> r@ == s@,
        s.spec_bytes().len() > max ==> r@.len() > 0,
        s.spec_bytes().len() > max ==> r@.last() == '…',
        s.spec_bytes().len() > max ==> vstd::utf8::encode_utf8(r@.drop_last()) == s.spec_bytes().subrange(0, max - 1),
{
    if s.len() <= max {
        string_from(s)
    } else {
        let (head, _tail) = s.split_at(max - 1);
        let mut r = string_from(head);
        push_char(&mut r, '…');
        assert(r@.drop_last() =~= head@);
        assert(head.spec_bytes() =~= s.spec_bytes().subrange(0, max - 1));
        assert(vstd::utf8::encode_utf8(head@) == head.spec_bytes());
        r
    }
}

} // verus!

verus! {

/// Why a port's process could not be killed.
#[derive(Debug, Clone, PartialEq)]
pub enum KillPortError {
    /// No entry on the port.
    NotFound(u16),
    /// The entry on the port has no known process.
    NoPid(u16),
    /// The process refused the signal.
    SignalFailed { pid: u32, process_name: String },
    /// The process was gone when it was to be signalled.
    ProcessGone(u32),
}

/// The process to kill for a port: that of the port's entry.
pub fn kill_target(found: Option<PortInfo>, port: u16) -> (r: Result<(u32, String), KillPortError>)
    ensures
        found is None ==> r == Err::<(u32, String), KillPortError>(KillPortError::NotFound(port)),
        found matches Some(p) ==> (p.pid is None ==> r == Err::<(u32, String), KillPortError>(
            KillPortError::NoPid(port),
        )),
        found matches Some(p) ==> (p.pid matches Some(pid) ==> (r matches Ok(t) && t.0 == pid && t.1@
            == p.process_name@)),
{
    match found {
        None => Err(KillPortError::NotFound(port)),
        Some(p) => match p.pid {
            None => Err(KillPortError::NoPid(port)),
            Some(pid) => Ok((pid, p.process_name)),
        },
    }
}

/// What came of signalling the process `pid` named `process_name`.
pub fn kill_result(pid: u32, process_name: String, outcome: crate::app::KillOutcome) -> (r: Result<(), KillPortError>)
    ensures
        outcome == crate::app::KillOutcome::Killed ==> r is Ok,
        outcome == crate::app::KillOutcome::SignalFailed ==> (r matches Err(KillPortError::SignalFailed { pid: q, process_name: n }) && q == pid && n@ == process_name@),
        outcome == crate::app::KillOutcome::Missing ==> r == Err::<(), KillPortError>(KillPortError::ProcessGone(pid)),
{
    match outcome {
        crate::app::KillOutcome::Killed => Ok(()),
        crate::app::KillOutcome::SignalFailed => Err(KillPortError::SignalFailed { pid, process_name }),
        crate::app::KillOutcome::Missing => Err(KillPortError::ProcessGone(pid)),
    }
}

/// The message of a kill error.
pub open spec fn kill_error_text(e: KillPortError) -> Seq<char> {
    match e {
        KillPortError::NotFound(port) => "No process found on port "@ + decimal(port as nat),
        KillPortError::NoPid(port) => "Cannot determine PID for port "@ + decimal(port as nat),
        KillPortError::SignalFailed { pid, process_name } => "Failed to kill PID "@ + decimal(pid as nat)
            + " ("@ + process_name@ + "). Try elevated privileges."@,
        KillPortError::ProcessGone(pid) => "Process "@ + decimal(pid as nat) + " not found"@,
    }
}

impl KillPortError {
    /// The message shown for the error.
    pub fn message(&self) -> (m: String)
        ensures
            m@ == kill_error_text(*self),
    {
        match self {
            KillPortError::NotFound(port) => {
                let mut m = string_from("No process found on port ");
                push_decimal(&mut m, *port as u128);
                m
            },
            KillPortError::NoPid(port) => {
                let mut m = string_from("Cannot determine PID for port ");
                push_decimal(&mut m, *port as u128);
                m
            },
            KillPortError::SignalFailed { pid, process_name } => {
                let mut m = string_from("Failed to kill PID ");
                push_decimal(&mut m, *pid as u128);
                push_str(&mut m, " (");
                push_str(&mut m, process_name.as_str());
                push_str(&mut m, "). Try elevated privileges.");
                m
            },
            KillPortError::ProcessGone(pid) => {
                let mut m = string_from("Process ");
                push_decimal(&mut m, *pid as u128);
                push_str(&mut m, " not found");
                m
            },
        }
    }
}

/// A Unicode white-space character (what `char::is_whitespace` accepts).
pub open spec fn is_white_space(c: char) -> bool {
    let v = c as u32;
    (9 <= v && v <= 13) || v == 32 || v == 0x85 || v == 0xA0 || v == 0x1680 || (0x2000 <= v && v
        <= 0x200A) || v == 0x2028 || v == 0x2029 || v == 0x202F || v == 0x205F || v == 0x3000
}

fn is_white_space_exec(c: char) -> (b: bool)
    ensures
        b == is_white_space(c),
{
    let v = c as u32;
    (9 <= v && v <= 13) || v == 32 || v == 0x85 || v == 0xA0 || v == 0x1680 || (0x2000 <= v && v
        <= 0x200A) || v == 0x2028 || v == 0x2029 || v == 0x202F || v == 0x205F || v == 0x3000
}

/// An answer confirms: once trimmed of white space it is `y` or `Y`.
pub open spec fn confirms(s: Seq<char>) -> bool {
    exists|i: int|
        0 <= i < s.len() && (s[i] == 'y' || s[i] == 'Y') && forall|j: int|
            0 <= j < s.len() && j != i ==> is_white_space(#[trigger] s[j])
}

/// Whether an answer to the kill question confirms it.
pub fn is_confirmation(input: &str) -> (b: bool)
    ensures
        b == confirms(input@),
{
    let cs = crate::text::chars_of(input);
    let n = cs.len();
    let mut seen: Option<usize> = None;
    let mut ok = true;
    let mut k: usize = 0;
    while k < n
        invariant
            n == cs@.len(),
            cs@ == input@,
            k <= n,
            ok ==> (match seen {
                Some(i) => i < k && (cs@[i as int] == 'y' || cs@[i as int] == 'Y') && forall|j: int|
                    0 <= j < k && j != i ==> is_white_space(#[trigger] cs@[j]),
                None => forall|j: int| 0 <= j < k ==> is_white_space(#[trigger] cs@[j]),
            }),
            !ok ==> !confirms(input@),
        decreases n - k,
    {
        if ok {
            let c = cs[k];
            if !is_white_space_exec(c) {
                match seen {
                    None => {
                        if c == 'y' || c == 'Y' {
                            seen = Some(k);
                        } else {
                            ok = false;
                            assert(!confirms(input@)) by {
                                if confirms(input@) {
                                    let i = choose|i: int|
                                        0 <= i < cs@.len() && (cs@[i] == 'y' || cs@[i] == 'Y') && forall|j: int|
                                            0 <= j < cs@.len() && j != i ==> is_white_space(#[trigger] cs@[j]);
                                    assert(i != k);
                                }
                            }
                        }
                    },
                    Some(i) => {
                        ok = false;
                        assert(!confirms(input@)) by {
                            if confirms(input@) {
                                let w = choose|w: int|
                                    0 <= w < cs@.len() && (cs@[w] == 'y' || cs@[w] == 'Y') && forall|j: int|
                                        0 <= j < cs@.len() && j != w ==> is_white_space(#[trigger] cs@[j]);
                                if w == k {
                                    assert(!is_white_space(cs@[i as int]));
                                } else {
                                    assert(is_white_space(cs@[k as int]));
                                }
                            }
                        }
                    },
                }
            }
        }
        k = k + 1;
    }
    if !ok {
        return false;
    }
    match seen {
        Some(i) => true,
        None => {
            assert(!confirms(input@)) by {
                if confirms(input@) {
                    let w = choose|w: int|
                        0 <= w < cs@.len() && (cs@[w] == 'y' || cs@[w] == 'Y') && forall|j: int|
                            0 <= j < cs@.len() && j != w ==> is_white_space(#[trigger] cs@[j]);
                    assert(is_white_space(cs@[w]));
                }
            }
            false
        },
    }
}

} // verus!

verus! {

/// Why a text is not a `u16` (as `u16::from_str` reports it).
#[derive(Debug, Clone, Copy, PartialEq, Eq, Structural)]
pub enum IntErrorKind {
    Empty,
    InvalidDigit,
    PosOverflow,
}

/// Why a port range is refused.
#[derive(Debug, Clone, Copy, PartialEq, Eq, Structural)]
pub enum RangeError {
    /// Not two parts separated by one `-`.
    Format,
    /// A part is not a port number.
    Number(IntErrorKind),
}

/// Reads decimal digits onto `acc`, left to right, refusing a non-digit and
/// any value beyond 65535.
pub open spec fn read_digits(ds: Seq<char>, acc: nat) -> Result<nat, IntErrorKind>
    decreases ds.len(),
{
    if ds.len() == 0 {
        Ok(acc)
    } else {
        let c = ds[0];
        if !('0' <= c && c <= '9') {
            Err(IntErrorKind::InvalidDigit)
        } else if acc * 10 > 65535 {
            Err(IntErrorKind::PosOverflow)
        } else if acc * 10 + (c as nat - 48) > 65535 {
            Err(IntErrorKind::PosOverflow)
        } else {
            read_digits(ds.drop_first(), (acc * 10 + (c as nat - 48)) as nat)
        }
    }
}

/// What `u16::from_str` gives: an optional `+`, then decimal digits.
pub open spec fn parse_u16_spec(s: Seq<char>) -> Result<u16, IntErrorKind> {
    if s.len() == 0 {
        Err(IntErrorKind::Empty)
    } else if (s[0] == '+' || s[0] == '-') && s.len() == 1 {
        Err(IntErrorKind::InvalidDigit)
    } else {
        let ds = if s[0] == '+' {
            s.drop_first()
        } else {
            s
        };
        match read_digits(ds, 0) {
            Ok(n) => Ok(n as u16),
            Err(e) => Err(e),
        }
    }
}

/// Reads a port number from characters.
pub fn parse_u16(s: &Vec<char>) -> (r: Result<u16, IntErrorKind>)
    ensures
        r == parse_u16_spec(s@),
{
    let n = s.len();
    if n == 0 {
        return Err(IntErrorKind::Empty);
    }
    if (s[0] == '+' || s[0] == '-') && n == 1 {
        return Err(IntErrorKind::InvalidDigit);
    }
    let start: usize = if s[0] == '+' {
        1
    } else {
        0
    };
    let ghost ds = if s@[0] == '+' {
        s@.drop_first()
    } else {
        s@
    };
    assert(ds =~= s@.skip(start as int));
    let mut acc: u32 = 0;
    let mut k: usize = start;
    while k < n
        invariant
            start <= k <= n,
            n == s@.len(),
            acc <= 65535,
            ds == s@.skip(start as int),
            s@.len() > 0,
            !((s@[0] == '+' || s@[0] == '-') && s@.len() == 1),
            ds == (if s@[0] == '+' {
                s@.drop_first()
            } else {
                s@
            }),
            read_digits(ds, 0) == read_digits(s@.skip(k as int), acc as nat),
        decreases n - k,
    {
        let c = s[k];
        assert(s@.skip(k as int).len() > 0);
        assert(s@.skip(k as int)[0] == c);
        assert(s@.skip(k as int).drop_first() =~= s@.skip(k + 1));
        if !('0' <= c && c <= '9') {
            assert(read_digits(s@.skip(k as int), acc as nat) == Err::<nat, IntErrorKind>(IntErrorKind::InvalidDigit));
            return Err(IntErrorKind::InvalidDigit);
        }
        if acc * 10 > 65535 {
            assert(read_digits(s@.skip(k as int), acc as nat) == Err::<nat, IntErrorKind>(IntErrorKind::PosOverflow));
            return Err(IntErrorKind::PosOverflow);
        }
        let d = (c as u32) - 48;
        if acc * 10 + d > 65535 {
            return Err(IntErrorKind::PosOverflow);
        }
        acc = acc * 10 + d;
        k = k + 1;
    }
    assert(s@.skip(n as int).len() == 0);
    Ok(acc as u16)
}

/// `d` is the one `-` in `s`.
pub open spec fn is_only_dash(s: Seq<char>, d: int) -> bool {
    &&& 0 <= d < s.len()
    &&& s[d] == '-'
    &&& forall|j: int| 0 <= j < s.len() && j != d ==> s[j] != '-'
}

/// A range `start-end`: exactly one `-`, with a port number on each side.
pub open spec fn range_spec(s: Seq<char>, d: int) -> Result<(u16, u16), RangeError> {
    match parse_u16_spec(s.subrange(0, d)) {
        Err(e) => Err(RangeError::Number(e)),
        Ok(a) => match parse_u16_spec(s.subrange(d + 1, s.len() as int)) {
            Err(e) => Err(RangeError::Number(e)),
            Ok(b) => Ok((a, b)),
        },
    }
}

/// Reads a range such as `3000-4000`.
pub fn parse_range(range: &str) -> (r: Result<(u16, u16), RangeError>)
    ensures
        (forall|d: int| !is_only_dash(range@, d)) ==> r == Err::<(u16, u16), RangeError>(RangeError::Format),
        forall|d: int| is_only_dash(range@, d) ==> r == range_spec(range@, d),
{
    let cs = crate::text::chars_of(range);
    let n = cs.len();
    let mut dash: Option<usize> = None;
    let mut k: usize = 0;
    while k < n
        invariant
            n == cs@.len(),
            cs@ == range@,
            k <= n,
            match dash {
                Some(d) => d < k && cs@[d as int] == '-' && forall|j: int| 0 <= j < k && j != d ==> cs@[j] != '-',
                None => forall|j: int| 0 <= j < k ==> cs@[j] != '-',
            },
        decreases n - k,
    {
        if cs[k] == '-' {
            match dash {
                None => {
                    dash = Some(k);
                },
                Some(d) => {
                    assert forall|x: int| !is_only_dash(range@, x) by {
                        if is_only_dash(range@, x) {
                            if x == d {
                                assert(cs@[k as int] == '-');
                            } else {
                                assert(cs@[d as int] == '-');
                            }
                        }
                    }
                    return Err(RangeError::Format);
                },
            }
        }
        k = k + 1;
    }
    let d = match dash {
        Some(d) => d,
        None => {
            return Err(RangeError::Format);
        },
    };
    assert forall|x: int| is_only_dash(range@, x) implies x == d by {}
    assert(is_only_dash(range@, d as int));
    let mut head: Vec<char> = Vec::new();
    let mut i: usize = 0;
    while i < d
        invariant
            i <= d,
            d < n,
            n == cs@.len(),
            head@ == cs@.subrange(0, i as int),
        decreases d - i,
    {
        head.push(cs[i]);
        assert(head@ =~= cs@.subrange(0, i + 1));
        i = i + 1;
    }
    let mut tail: Vec<char> = Vec::new();
    let mut i: usize = d + 1;
    while i < n
        invariant
            d + 1 <= i <= n,
            n == cs@.len(),
            tail@ == cs@.subrange(d + 1, i as int),
        decreases n - i,
    {
        tail.push(cs[i]);
        assert(tail@ =~= cs@.subrange(d + 1, i + 1));
        i = i + 1;
    }
    let a = match parse_u16(&head) {
        Ok(a) => a,
        Err(e) => {
            return Err(RangeError::Number(e));
        },
    };
    let b = match parse_u16(&tail) {
        Ok(b) => b,
        Err(e) => {
            return Err(RangeError::Number(e));
        },
    };
    Ok((a, b))
}

} // verus!

verus! {

/// How many ports `start..=end` holds.
pub open spec fn range_len(start: u16, end: u16) -> nat {
    if start <= end {
        (end - start + 1) as nat
    } else {
        0
    }
}

/// The ports from `start` on, split by their flags into available and in use,
/// each in increasing order.
pub open spec fn split_by_availability(start: u16, flags: Seq<bool>) -> (Seq<u16>, Seq<u16>)
    decreases flags.len(),
{
    if flags.len() == 0 {
        (Seq::empty(), Seq::empty())
    } else {
        let prev = split_by_availability(start, flags.drop_last());
        let port = (start + flags.len() - 1) as u16;
        if flags.last() {
            (prev.0.push(port), prev.1)
        } else {
            (prev.0, prev.1.push(port))
        }
    }
}

/// Splits the ports `start..=end` into those found available and those in
/// use; `available[k]` tells whether port `start + k` could be bound.
pub fn scan_ports(start: u16, end: u16, available: &Vec<bool>) -> (r: (Vec<u16>, Vec<u16>))
    requires
        available@.len() == range_len(start, end),
    ensures
        (r.0@, r.1@) == split_by_availability(start, available@),
{
    let mut free: Vec<u16> = Vec::new();
    let mut used: Vec<u16> = Vec::new();
    let n = available.len();
    let mut k: usize = 0;
    while k < n
        invariant
            n == available@.len(),
            n == range_len(start, end),
            k <= n,
            (free@, used@) == split_by_availability(start, available@.take(k as int)),
        decreases n - k,
    {
        proof {
            assert(available@.take(k + 1).drop_last() =~= available@.take(k as int));
            assert(available@.take(k + 1).last() == available@[k as int]);
        }
        let port = start + k as u16;
        if available[k] {
            free.push(port);
        } else {
            used.push(port);
        }
        k = k + 1;
    }
    assert(available@.take(n as int) =~= available@);
    (free, used)
}

/// Port numbers joined with `, `.
pub open spec fn port_list_text(ports: Seq<u16>) -> Seq<char> {
    joined(ports.map_values(|x: u16| decimal(x as nat)), ", "@)
}

/// The ports in use, listed when there are between 1 and 20 of them.
pub fn in_use_summary(in_use: &Vec<u16>) -> (r: Option<String>)
    ensures
        r is Some <==> 1 <= in_use@.len() <= 20,
        r matches Some(t) ==> t@ == port_list_text(in_use@),
{
    let n = in_use.len();
    if n == 0 || n > 20 {
        return None;
    }
    let ghost parts = in_use@.map_values(|x: u16| decimal(x as nat));
    let mut r = String::new();
    let mut k: usize = 0;
    while k < n
        invariant
            n == in_use@.len(),
            k <= n,
            parts == in_use@.map_values(|x: u16| decimal(x as nat)),
            r@ == joined(parts.take(k as int), ", "@),
        decreases n - k,
    {
        proof {
            assert(parts.take(k + 1).drop_last() =~= parts.take(k as int));
            assert(parts.take(k + 1).last() == decimal(in_use@[k as int] as nat));
        }
        if k > 0 {
            push_str(&mut r, ", ");
        } else {
            assert(r@ == Seq::<char>::empty());
        }
        push_decimal(&mut r, in_use[k] as u128);
        if k == 0 {
            assert(r@ =~= decimal(in_use@[0] as nat));
        }
        k = k + 1;
    }
    assert(parts.take(n as int) =~= parts);
    Some(r)
}

/// The message of a refused range.
pub open spec fn range_error_text(e: RangeError) -> Seq<char> {
    match e {
        RangeError::Format => "Invalid range format. Use: 3000-4000"@,
        RangeError::Number(IntErrorKind::Empty) => "cannot parse integer from empty string"@,
        RangeError::Number(IntErrorKind::InvalidDigit) => "invalid digit found in string"@,
        RangeError::Number(IntErrorKind::PosOverflow) => "number too large to fit in target type"@,
    }
}

impl RangeError {
    /// The message shown for the error.
    pub fn message(&self) -> (m: String)
        ensures
            m@ == range_error_text(*self),
    {
        match self {
            RangeError::Format => string_from("Invalid range format. Use: 3000-4000"),
            RangeError::Number(IntErrorKind::Empty) => string_from("cannot parse integer from empty string"),
            RangeError::Number(IntErrorKind::InvalidDigit) => string_from("invalid digit found in string"),
            RangeError::Number(IntErrorKind::PosOverflow) => string_from(
                "number too large to fit in target type",
            ),
        }
    }
}

} // verus!
