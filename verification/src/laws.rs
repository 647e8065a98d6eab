//! Properties that relate the library's operations to each other.

use vstd::prelude::*;
use crate::app::{
    all_positions, visible_marks_toggled, is_table_order, keyed_by_column, column_key, items_of, passes_quick_filters, identity, is_marked_identity, is_refresh, cursor_down, cursor_up, decreased_interval, flip_members, flipped_direction,
    increased_interval, next_protocol_filter, next_sort_column, next_state_filter, AppView,
    ProtocolFilter, SortColumn, SortDirection, StateFilter, INTERVAL_STEP_MS, MAX_INTERVAL_MS,
    MIN_INTERVAL_MS,
};
use crate::app::layout::{
    filtered_indices, group_key, is_group_layout, keyed_owners, passes_pred, passes_text_filter,
    representative, row_passes, RowKind, ViewRow,
};
use crate::port::{
    cpu_rank, record_entry, record_listed, PortInfo, dedup_port_runs, is_port_listing, keyed_by_port, listed_entries, same_port_protocol, PortView,
    SocketRecord,
};
use vstd::set_lib::{lemma_int_range, lemma_len_subset, set_int_range};
use crate::sort::{is_permutation_witness, is_stable_sorting, keeps_tie_order};
use crate::text::{ascii_lowered, decimal, is_ascii_text, joined, string_views, text_contains};

verus! {

/// Cycling the sort column four times comes back to the start.
pub proof fn law_sort_column_cycle(c: SortColumn)
    ensures
        next_sort_column(next_sort_column(next_sort_column(next_sort_column(c)))) == c,
{
}

/// Flipping the sort direction twice comes back to the start.
pub proof fn law_sort_direction_flip(d: SortDirection)
    ensures
        flipped_direction(flipped_direction(d)) == d,
        flipped_direction(d) != d,
{
}

/// Cycling either quick filter three times comes back to the start.
pub proof fn law_quick_filter_cycles(p: ProtocolFilter, s: StateFilter)
    ensures
        next_protocol_filter(next_protocol_filter(next_protocol_filter(p))) == p,
        next_state_filter(next_state_filter(next_state_filter(s))) == s,
{
}

/// Moving the cursor down and then up (or up and then down) over `n` shown
/// rows comes back to the same row, and the moves wrap around at the ends.
pub proof fn law_cursor_round_trip(s: usize, n: nat)
    requires
        s < n <= usize::MAX,
    ensures
        cursor_up(cursor_down(Some(s), n), n) == Some(s),
        cursor_down(cursor_up(Some(s), n), n) == Some(s),
        cursor_down(Some((n - 1) as usize), n) == Some(0usize),
        cursor_up(Some(0usize), n) == Some((n - 1) as usize),
{
}

/// Inverting the marks of the same rows twice restores the marks.
pub proof fn law_invert_twice(marked: Set<usize>, rows: Set<usize>)
    ensures
        flip_members(flip_members(marked, rows), rows) == marked,
{
    assert(flip_members(flip_members(marked, rows), rows) =~= marked);
}

/// Marking all shown rows when none of them was marked, then unmarking them
/// all, restores the marks.
pub proof fn law_mark_visible_then_unmark(marked: Set<usize>, rows: Set<usize>)
    requires
        marked.disjoint(rows),
    ensures
        marked.union(rows).difference(rows) == marked,
{
    assert(marked.union(rows).difference(rows) =~= marked);
}

/// The refresh interval stays within its bounds and on its step, and one step
/// up followed by one step down (or the reverse) comes back, away from the
/// bounds.
pub proof fn law_interval_steps(ms: u64)
    requires
        MIN_INTERVAL_MS <= ms <= MAX_INTERVAL_MS,
        ms % INTERVAL_STEP_MS == 0,
    ensures
        MIN_INTERVAL_MS <= increased_interval(ms) <= MAX_INTERVAL_MS,
        increased_interval(ms) % INTERVAL_STEP_MS == 0,
        MIN_INTERVAL_MS <= decreased_interval(ms) <= MAX_INTERVAL_MS,
        decreased_interval(ms) % INTERVAL_STEP_MS == 0,
        ms < MAX_INTERVAL_MS ==> decreased_interval(increased_interval(ms)) == ms,
        ms > MIN_INTERVAL_MS ==> increased_interval(decreased_interval(ms)) == ms,
        increased_interval(MAX_INTERVAL_MS) == MAX_INTERVAL_MS,
        decreased_interval(MIN_INTERVAL_MS) == MIN_INTERVAL_MS,
{
}

/// The CPU rank orders usages by value. Read as a sign bit over a magnitude,
/// an `f32` bit pattern ranks: non-negative values by growing magnitude,
/// negative values by shrinking magnitude and below every non-negative value
/// except that the two zeros rank alike.
pub proof fn law_cpu_rank_follows_value(a: u32, b: u32)
    ensures
        a < b < 0x8000_0000 ==> cpu_rank(a) < cpu_rank(b),
        0x8000_0000 <= a < b ==> cpu_rank(a) > cpu_rank(b),
        0x8000_0000 < a && b < 0x8000_0000 ==> cpu_rank(a) < cpu_rank(b),
        cpu_rank(0x8000_0000) == cpu_rank(0),
{
}

/// Marks and cursor follow the entries across a refresh. The entries marked
/// afterwards are, by identity (port, process, local address), those marked
/// before that are still listed; and when the entry under the cursor is still
/// listed, the cursor is on an entry of its identity.
pub proof fn law_refresh_keeps_selection(pre: AppView, listing: Seq<PortInfo>, post: AppView)
    requires
        is_refresh(pre, listing, post),
        post.ports.len() <= usize::MAX,
    ensures
        forall|x: (u16, Option<u32>, Seq<char>)| #[trigger] is_marked_identity(post, x) <==> (
            is_marked_identity(pre, x) && exists|j: int| 0 <= j < post.ports.len() && #[trigger] identity(post.ports[j]) == x),
        forall|i: usize, j: int|
            pre.cursor_port_index() == Some(i) && 0 <= j < post.ports.len() && #[trigger] identity(post.ports[j])
                == #[trigger] identity(pre.ports[i as int]) ==> post.cursor_port_index() is Some && identity(
                post.ports[post.cursor_port_index().unwrap() as int],
            ) == identity(pre.ports[i as int]),
{
    assert forall|x: (u16, Option<u32>, Seq<char>)| #[trigger] is_marked_identity(post, x) <==> (
        is_marked_identity(pre, x) && exists|j: int| 0 <= j < post.ports.len() && #[trigger] identity(post.ports[j]) == x) by {
        if is_marked_identity(post, x) {
            let j = choose|j: usize| #[trigger] post.marked.contains(j) && j < post.ports.len() && identity(post.ports[j as int]) == x;
            assert(identity(post.ports[j as int]) == x);
        }
        if is_marked_identity(pre, x) && exists|j: int| 0 <= j < post.ports.len() && #[trigger] identity(post.ports[j]) == x {
            let j = choose|j: int| 0 <= j < post.ports.len() && #[trigger] identity(post.ports[j]) == x;
            let u = j as usize;
            assert(post.marked.contains(u));
        }
    }
    if post.ports.len() > 0 {
        if let Some(t) = post.selected {
            assert(post.visible[t as int] == t);
        }
    }
}

proof fn lemma_filter_all(n: nat, pred: spec_fn(usize) -> bool)
    requires
        forall|i: usize| i < n ==> #[trigger] pred(i),
    ensures
        all_positions(n).filter(pred) == all_positions(n),
    decreases n,
{
    reveal(Seq::filter);
    if n > 0 {
        lemma_filter_all((n - 1) as nat, pred);
        assert(all_positions(n).drop_last() =~= all_positions((n - 1) as nat));
        assert(all_positions(n) =~= all_positions((n - 1) as nat).push((n - 1) as usize));
    }
}

/// With the text filter empty and both quick filters at `All`, as resetting
/// the filters leaves them, every entry is shown.
pub proof fn law_reset_filters_show_all(v: AppView)
    requires
        v.filter_text.len() == 0,
        v.protocol_filter == ProtocolFilter::All,
        v.state_filter == StateFilter::All,
    ensures
        filtered_indices(v) == all_positions(v.ports.len()),
{
    assert forall|i: usize| i < v.ports.len() implies #[trigger] passes_pred(v)(i) by {
        assert(row_passes(v, i));
    }
    lemma_filter_all(v.ports.len(), passes_pred(v));
}

proof fn lemma_dedup_runs(s: Seq<PortView>)
    requires
        forall|i: int, j: int| 0 <= i < j < s.len() ==> s[i].port <= s[j].port,
    ensures
        forall|i: int, j: int| 0 <= i < j < dedup_port_runs(s).len() ==> dedup_port_runs(s)[i].port
            <= dedup_port_runs(s)[j].port,
        forall|i: int| 0 <= i < dedup_port_runs(s).len() - 1 ==> !same_port_protocol(
            #[trigger] dedup_port_runs(s)[i],
            dedup_port_runs(s)[i + 1],
        ),
        forall|i: int| 0 <= i < dedup_port_runs(s).len() ==> exists|j: int| 0 <= j < s.len() && s[j] == #[trigger] dedup_port_runs(s)[i],
    decreases s.len(),
{
    if s.len() > 0 {
        let t = s.drop_last();
        lemma_dedup_runs(t);
        let d = dedup_port_runs(t);
        let r = dedup_port_runs(s);
        assert forall|i: int| 0 <= i < d.len() implies d[i].port <= s.last().port by {
            let j = choose|j: int| 0 <= j < t.len() && t[j] == d[i];
        }
        if !(d.len() > 0 && same_port_protocol(d.last(), s.last())) {
            assert(r == d.push(s.last()));
            assert forall|i: int| 0 <= i < r.len() implies exists|j: int| 0 <= j < s.len() && s[j] == #[trigger] r[i] by {
                if i < d.len() {
                    let j = choose|j: int| 0 <= j < t.len() && t[j] == d[i];
                    assert(s[j] == r[i]);
                } else {
                    assert(s[s.len() - 1] == r[i]);
                }
            }
        } else {
            assert forall|i: int| 0 <= i < r.len() implies exists|j: int| 0 <= j < s.len() && s[j] == #[trigger] r[i] by {
                let j = choose|j: int| 0 <= j < t.len() && t[j] == d[i];
                assert(s[j] == r[i]);
            }
        }
    }
}

/// A port listing is ordered by port, and no two neighbouring entries share
/// port and protocol.
pub proof fn law_listing_ordered(rs: Seq<SocketRecord>, all: bool, now: u64, out: Seq<PortView>)
    requires
        is_port_listing(rs, all, now, out),
    ensures
        forall|i: int, j: int| 0 <= i < j < out.len() ==> out[i].port <= out[j].port,
        forall|i: int| 0 <= i < out.len() - 1 ==> !same_port_protocol(#[trigger] out[i], out[i + 1]),
{
    let sorted = choose|sorted: Seq<(u64, PortView)>|
        is_stable_sorting(keyed_by_port(listed_entries(rs, all, now)), sorted) && out
            == dedup_port_runs(sorted.map_values(|e: (u64, PortView)| e.1));
    let inp = keyed_by_port(listed_entries(rs, all, now));
    let perm = choose|perm: Seq<int>| is_permutation_witness(inp, sorted, perm) && keeps_tie_order(sorted, perm);
    let items = sorted.map_values(|e: (u64, PortView)| e.1);
    assert forall|i: int, j: int| 0 <= i < j < items.len() implies items[i].port <= items[j].port by {
        assert(sorted[i] == inp[perm[i]]);
        assert(sorted[j] == inp[perm[j]]);
    }
    lemma_dedup_runs(items);
}

proof fn lemma_listed_from_records(rs: Seq<SocketRecord>, all: bool, now: u64)
    ensures
        forall|m: int| 0 <= m < listed_entries(rs, all, now).len() ==> exists|j: int|
            0 <= j < rs.len() && record_listed(rs[j], all) && #[trigger] listed_entries(rs, all, now)[m]
                == record_entry(rs[j], now),
    decreases rs.len(),
{
    if rs.len() > 0 {
        let t = rs.drop_last();
        lemma_listed_from_records(t, all, now);
        let prev = listed_entries(t, all, now);
        let cur = listed_entries(rs, all, now);
        assert forall|m: int| 0 <= m < cur.len() implies exists|j: int|
            0 <= j < rs.len() && record_listed(rs[j], all) && #[trigger] cur[m] == record_entry(rs[j], now) by {
            if m < prev.len() {
                assert(cur[m] == prev[m]);
                let j = choose|j: int| 0 <= j < t.len() && record_listed(t[j], all) && #[trigger] prev[m] == record_entry(t[j], now);
                assert(rs[j] == t[j]);
            } else {
                assert(rs[rs.len() - 1] == rs.last());
            }
        }
    }
}

/// Every entry of a port listing shows one socket of the table, a socket the
/// listing keeps (every UDP socket and listening TCP socket, or every socket
/// with `all`): its port, protocol, state, process id and local address, and,
/// where the process is known, that process's name, user, command, memory,
/// CPU usage, parent and run time up to `now`; without a known process, `-`,
/// zero or none in their place.
pub proof fn law_listing_entries_show_their_socket(rs: Seq<SocketRecord>, all: bool, now: u64, out: Seq<PortView>)
    requires
        is_port_listing(rs, all, now, out),
    ensures
        forall|i: int| 0 <= i < out.len() ==> #[trigger] shows_some_socket(out[i], rs, all, now),
{
    assert forall|i: int| 0 <= i < out.len() implies #[trigger] shows_some_socket(out[i], rs, all, now) by {
        lemma_listing_entry_shows(rs, all, now, out, i);
    }
}

/// `e` is what one of the sockets `rs` shows in a listing at time `now`.
pub open spec fn shows_some_socket(e: PortView, rs: Seq<SocketRecord>, all: bool, now: u64) -> bool {
    exists|j: int| 0 <= j < rs.len() && #[trigger] shows_socket(e, rs[j], all, now)
}

proof fn lemma_listing_entry_shows(rs: Seq<SocketRecord>, all: bool, now: u64, out: Seq<PortView>, i: int)
    requires
        is_port_listing(rs, all, now, out),
        0 <= i < out.len(),
    ensures
        exists|j: int| 0 <= j < rs.len() && #[trigger] shows_socket(out[i], rs[j], all, now),
{
    let sorted = choose|sorted: Seq<(u64, PortView)>|
        is_stable_sorting(keyed_by_port(listed_entries(rs, all, now)), sorted) && out
            == dedup_port_runs(sorted.map_values(|e: (u64, PortView)| e.1));
    let inp = keyed_by_port(listed_entries(rs, all, now));
    let perm = choose|perm: Seq<int>| is_permutation_witness(inp, sorted, perm) && keeps_tie_order(sorted, perm);
    let items = sorted.map_values(|e: (u64, PortView)| e.1);
    assert forall|a: int, b: int| 0 <= a < b < items.len() implies items[a].port <= items[b].port by {
        assert(sorted[a] == inp[perm[a]]);
        assert(sorted[b] == inp[perm[b]]);
    }
    lemma_dedup_runs(items);
    lemma_listed_from_records(rs, all, now);
    let listed = listed_entries(rs, all, now);
    let k = choose|k: int| 0 <= k < items.len() && items[k] == #[trigger] out[i];
    assert(sorted[k] == inp[perm[k]]);
    let m = perm[k];
    assert(items[k] == listed[m]);
    let j = choose|j: int| 0 <= j < rs.len() && record_listed(rs[j], all) && #[trigger] listed[m] == record_entry(rs[j], now);
    lemma_record_entry_shows(rs[j], all, now);
    assert(shows_socket(out[i], rs[j], all, now));
}

proof fn lemma_record_entry_shows(r: SocketRecord, all: bool, now: u64)
    requires
        record_listed(r, all),
    ensures
        shows_socket(record_entry(r, now), r, all, now),
{
}

/// `e` is what the socket `r` shows in a listing at time `now`.
pub open spec fn shows_socket(e: PortView, r: SocketRecord, all: bool, now: u64) -> bool {
    &&& all || r.tcp_state is None || r.tcp_state.unwrap()@ == "Listen"@
    &&& e.port == r.local_port
    &&& e.pid == r.pid
    &&& e.local_addr == r.local_ip@ + ":"@ + decimal(r.local_port as nat)
    &&& r.tcp_state is Some ==> e.protocol == "TCP"@ && e.state == r.tcp_state.unwrap()@
    &&& r.tcp_state is None ==> e.protocol == "UDP"@ && e.state == "-"@
    &&& (r.pid is Some && r.process is Some) ==> {
        let d = r.process.unwrap();
        &&& e.process_name == d.name@
        &&& e.memory == d.memory
        &&& e.cpu_usage_bits == d.cpu_usage_bits
        &&& e.parent_pid == d.parent_pid
        &&& e.duration_secs == (if now > d.start_time { now - d.start_time } else { 0 })
        &&& d.user is Some ==> e.user == d.user.unwrap()@
        &&& d.user is None ==> e.user == "-"@
        &&& d.cmd.len() > 0 ==> e.command == joined(string_views(d.cmd@), " "@)
        &&& d.cmd.len() == 0 ==> e.command == d.name@
    }
    &&& !(r.pid is Some && r.process is Some) ==> {
        &&& e.process_name == "-"@
        &&& e.memory == 0
        &&& e.cpu_usage_bits == 0
        &&& e.parent_pid is None
        &&& e.duration_secs == 0
        &&& e.user == "-"@
        &&& e.command == "-"@
    }
}

/// The text filter ignores the ASCII case of process names. An entry whose
/// ASCII name, with `A`-`Z` lowered, contains the ASCII filter text so lowered
/// passes it; two entries on the same port whose ASCII names differ only in
/// case pass or fail it together; and a row whose entry passes the quick
/// filters and so matches the text is shown.
pub proof fn law_text_filter_ignores_case(v: AppView, i: usize, p: PortInfo, q: PortInfo)
    requires
        is_ascii_text(p.process_name@),
        is_ascii_text(v.filter_text),
    ensures
        text_contains(ascii_lowered(p.process_name@), ascii_lowered(v.filter_text)) ==> passes_text_filter(
            p,
            v.filter_text,
        ),
        q.port == p.port && is_ascii_text(q.process_name@) && ascii_lowered(q.process_name@) == ascii_lowered(
            p.process_name@,
        ) ==> passes_text_filter(q, v.filter_text) == passes_text_filter(p, v.filter_text),
        i < v.ports.len() && v.ports[i as int] == p && passes_quick_filters(
            p@,
            v.protocol_filter,
            v.state_filter,
        ) && text_contains(ascii_lowered(p.process_name@), ascii_lowered(v.filter_text)) ==> row_passes(v, i),
{
}

/// The value by which a column orders entries, compared as an integer: the
/// port, the process id (none counting as 0), the memory, or the rank of the
/// CPU usage.
pub open spec fn column_value(p: PortInfo, c: SortColumn) -> int {
    match c {
        SortColumn::Port => p.port as int,
        SortColumn::Pid => match p.pid {
            Some(x) => x as int,
            None => 0,
        },
        SortColumn::Memory => p.memory as int,
        SortColumn::Cpu => cpu_rank(p.cpu_usage_bits) as int,
    }
}

/// A table in table order is ordered by its column: ascending, the column's
/// value never decreases down the table; descending, it never increases. Its
/// entries are those of the listing, as many as there.
pub proof fn law_table_order_is_sorted(input: Seq<PortInfo>, c: SortColumn, d: SortDirection, out: Seq<PortInfo>)
    requires
        is_table_order(input, c, d, out),
    ensures
        out.len() == input.len(),
        forall|i: int| 0 <= i < out.len() ==> input.contains(#[trigger] out[i]),
        d == SortDirection::Asc ==> forall|i: int, j: int|
            0 <= i < j < out.len() ==> column_value(#[trigger] out[i], c) <= column_value(#[trigger] out[j], c),
        d == SortDirection::Desc ==> forall|i: int, j: int|
            0 <= i < j < out.len() ==> column_value(#[trigger] out[i], c) >= column_value(#[trigger] out[j], c),
{
    let keyed = keyed_by_column(input, c);
    let sorted = choose|sorted: Seq<(u64, PortInfo)>|
        is_stable_sorting(keyed, sorted) && out == (if d == SortDirection::Asc {
            items_of(sorted)
        } else {
            items_of(sorted).reverse()
        });
    let perm = choose|perm: Seq<int>| is_permutation_witness(keyed, sorted, perm) && keeps_tie_order(sorted, perm);
    let items = items_of(sorted);
    assert forall|a: int| 0 <= a < items.len() implies sorted[a].0 == column_key(#[trigger] items[a], c)
        && input.contains(items[a]) by {
        assert(sorted[a] == keyed[perm[a]]);
        assert(items[a] == input[perm[a]]);
    }
    assert forall|a: int, b: int| 0 <= a < b < items.len() implies column_value(#[trigger] items[a], c)
        <= column_value(#[trigger] items[b], c) by {
        assert(sorted[a].0 <= sorted[b].0);
    }
    if d == SortDirection::Desc {
        assert forall|i: int, j: int| 0 <= i < j < out.len() implies column_value(#[trigger] out[i], c)
            >= column_value(#[trigger] out[j], c) by {
            assert(out[i] == items[items.len() - 1 - i]);
            assert(out[j] == items[items.len() - 1 - j]);
        }
        assert forall|i: int| 0 <= i < out.len() implies input.contains(#[trigger] out[i]) by {
            assert(out[i] == items[items.len() - 1 - i]);
        }
    }
}

/// In group mode the process rows follow the sort column of each process's
/// first shown entry: ascending port or process id, descending memory or CPU
/// usage, down the rows.
pub proof fn law_group_rows_follow_sort_column(v: AppView, rows: Seq<ViewRow>, visible: Seq<usize>)
    requires
        exists|order: Seq<(u64, u32)>| is_stable_sorting(keyed_owners(v), order) && #[trigger] is_group_layout(v, order, rows, visible),
    ensures
        forall|k: int, l: int|
            0 <= k < l < rows.len() && (#[trigger] rows[k]).kind == RowKind::Process && (#[trigger] rows[l]).kind
                == RowKind::Process ==> {
                let a = v.ports[rows[k].port_index as int];
                let b = v.ports[rows[l].port_index as int];
                &&& v.sort_column == SortColumn::Port ==> a.port <= b.port
                &&& v.sort_column == SortColumn::Pid ==> column_value(a, SortColumn::Pid) <= column_value(b, SortColumn::Pid)
                &&& v.sort_column == SortColumn::Memory ==> a.memory >= b.memory
                &&& v.sort_column == SortColumn::Cpu ==> cpu_rank(a.cpu_usage_bits) >= cpu_rank(b.cpu_usage_bits)
            },
{
    let order = choose|order: Seq<(u64, u32)>| is_stable_sorting(keyed_owners(v), order) && #[trigger] is_group_layout(v, order, rows, visible);
    let ko = keyed_owners(v);
    let perm = choose|perm: Seq<int>| is_permutation_witness(ko, order, perm) && keeps_tie_order(order, perm);
    let g = order.len();
    assert forall|k: int, l: int|
        0 <= k < l < rows.len() && (#[trigger] rows[k]).kind == RowKind::Process && (#[trigger] rows[l]).kind
            == RowKind::Process implies {
            let a = v.ports[rows[k].port_index as int];
            let b = v.ports[rows[l].port_index as int];
            &&& v.sort_column == SortColumn::Port ==> a.port <= b.port
            &&& v.sort_column == SortColumn::Pid ==> column_value(a, SortColumn::Pid) <= column_value(b, SortColumn::Pid)
            &&& v.sort_column == SortColumn::Memory ==> a.memory >= b.memory
            &&& v.sort_column == SortColumn::Cpu ==> cpu_rank(a.cpu_usage_bits) >= cpu_rank(b.cpu_usage_bits)
        } by {
        if l >= g {
            assert(rows[g + (l - g)].kind == RowKind::Unowned);
        }
        if k >= g {
            assert(rows[g + (k - g)].kind == RowKind::Unowned);
        }
        assert(order[k] == ko[perm[k]]);
        assert(order[l] == ko[perm[l]]);
        assert(rows[k].port_index == representative(v, order[k].1));
        assert(rows[l].port_index == representative(v, order[l].1));
        assert(order[k].0 <= order[l].0);
    }
}

/// Toggling the marks of the shown rows: when some shown row is unmarked,
/// afterwards every shown row is marked; when every shown row is marked,
/// afterwards none is; either way rows not shown keep their marks.
pub proof fn law_toggle_visible_marks(v: AppView)
    ensures
        (exists|k: int| 0 <= k < v.visible.len() && !v.marked.contains(#[trigger] v.visible[k])) ==> forall|k: int|
            0 <= k < v.visible.len() ==> visible_marks_toggled(v).contains(#[trigger] v.visible[k]),
        (forall|k: int| 0 <= k < v.visible.len() ==> v.marked.contains(#[trigger] v.visible[k])) ==> forall|k: int|
            0 <= k < v.visible.len() ==> !visible_marks_toggled(v).contains(#[trigger] v.visible[k]),
        forall|i: usize| !v.visible.contains(i) ==> (#[trigger] visible_marks_toggled(v).contains(i) == v.marked.contains(i)),
{
    assert forall|k: int| 0 <= k < v.visible.len() implies v.visible.to_set().contains(#[trigger] v.visible[k]) by {
        assert(v.visible.contains(v.visible[k]));
    }
}

proof fn lemma_witness_onto<T>(inp: Seq<T>, out: Seq<T>, perm: Seq<int>, m: int)
    requires
        is_permutation_witness(inp, out, perm),
        0 <= m < inp.len(),
    ensures
        exists|k: int| 0 <= k < perm.len() && perm[k] == m,
{
    if !(exists|k: int| 0 <= k < perm.len() && perm[k] == m) {
        let n = inp.len() as int;
        assert(perm.no_duplicates());
        perm.unique_seq_to_set();
        lemma_int_range(0, n);
        let r = set_int_range(0, n).remove(m);
        assert forall|x: int| perm.to_set().contains(x) implies r.contains(x) by {
            let k = choose|k: int| 0 <= k < perm.len() && perm[k] == x;
        }
        lemma_len_subset(perm.to_set(), r);
    }
}

proof fn lemma_listed_complete(rs: Seq<SocketRecord>, all: bool, now: u64, j: int)
    requires
        0 <= j < rs.len(),
        record_listed(rs[j], all),
    ensures
        exists|m: int| 0 <= m < listed_entries(rs, all, now).len() && listed_entries(rs, all, now)[m] == record_entry(rs[j], now),
    decreases rs.len(),
{
    let t = rs.drop_last();
    let prev = listed_entries(t, all, now);
    if j < rs.len() - 1 {
        assert(t[j] == rs[j]);
        lemma_listed_complete(t, all, now, j);
        let m = choose|m: int| 0 <= m < prev.len() && prev[m] == record_entry(t[j], now);
        assert(listed_entries(rs, all, now)[m] == prev[m]);
    } else {
        assert(rs.last() == rs[j]);
        assert(listed_entries(rs, all, now)[prev.len() as int] == record_entry(rs[j], now));
    }
}

/// Some entry of `d` has the port and protocol of `e`.
pub open spec fn has_port_protocol(d: Seq<PortView>, e: PortView) -> bool {
    exists|i: int| 0 <= i < d.len() && d[i].port == e.port && #[trigger] d[i].protocol == e.protocol
}

proof fn lemma_dedup_covers(s: Seq<PortView>, j: int)
    requires
        0 <= j < s.len(),
    ensures
        has_port_protocol(dedup_port_runs(s), s[j]),
    decreases s.len(),
{
    let t = s.drop_last();
    let d = dedup_port_runs(t);
    let r = dedup_port_runs(s);
    if j < s.len() - 1 {
        lemma_dedup_covers(t, j);
        let i = choose|i: int| 0 <= i < d.len() && d[i].port == t[j].port && #[trigger] d[i].protocol == t[j].protocol;
        assert(r[i] == d[i]);
        assert(s[j] == t[j]);
        assert(r[i].port == s[j].port && r[i].protocol == s[j].protocol);
    } else if d.len() > 0 && same_port_protocol(d.last(), s.last()) {
        assert(r[d.len() - 1] == d.last());
        assert(r[d.len() - 1].port == s[j].port && r[d.len() - 1].protocol == s[j].protocol);
    } else {
        assert(r[d.len() as int] == s.last());
        assert(r[d.len() as int].port == s[j].port && r[d.len() as int].protocol == s[j].protocol);
    }
}

/// A port listing leaves no socket out: for every socket it keeps (every UDP
/// socket and listening TCP socket, or every socket with `all`), some entry
/// has that socket's port and protocol.
pub proof fn law_listing_covers_kept_sockets(rs: Seq<SocketRecord>, all: bool, now: u64, out: Seq<PortView>)
    requires
        is_port_listing(rs, all, now, out),
    ensures
        forall|j: int|
            0 <= j < rs.len() && (all || rs[j].tcp_state is None || rs[j].tcp_state.unwrap()@ == "Listen"@) ==> exists|i: int|
                0 <= i < out.len() && out[i].port == rs[j].local_port && #[trigger] out[i].protocol == (if rs[j].tcp_state is Some {
                    "TCP"@
                } else {
                    "UDP"@
                }),
{
    assert forall|j: int|
        0 <= j < rs.len() && (all || rs[j].tcp_state is None || rs[j].tcp_state.unwrap()@ == "Listen"@) implies exists|i: int|
            0 <= i < out.len() && out[i].port == rs[j].local_port && #[trigger] out[i].protocol == (if rs[j].tcp_state is Some {
                "TCP"@
            } else {
                "UDP"@
            }) by {
        lemma_listing_covers_one(rs, all, now, out, j);
    }
}

proof fn lemma_listing_covers_one(rs: Seq<SocketRecord>, all: bool, now: u64, out: Seq<PortView>, j: int)
    requires
        is_port_listing(rs, all, now, out),
        0 <= j < rs.len(),
        record_listed(rs[j], all),
    ensures
        has_port_protocol(out, record_entry(rs[j], now)),
{
    let sorted = choose|sorted: Seq<(u64, PortView)>|
        is_stable_sorting(keyed_by_port(listed_entries(rs, all, now)), sorted) && out
            == dedup_port_runs(sorted.map_values(|e: (u64, PortView)| e.1));
    let inp = keyed_by_port(listed_entries(rs, all, now));
    let perm = choose|perm: Seq<int>| is_permutation_witness(inp, sorted, perm) && keeps_tie_order(sorted, perm);
    let items = sorted.map_values(|e: (u64, PortView)| e.1);
    let listed = listed_entries(rs, all, now);
    lemma_listed_complete(rs, all, now, j);
    let m = choose|m: int| 0 <= m < listed.len() && listed[m] == record_entry(rs[j], now);
    lemma_witness_onto(inp, sorted, perm, m);
    let k = choose|k: int| 0 <= k < perm.len() && perm[k] == m;
    assert(sorted[k] == inp[perm[k]]);
    assert(items[k] == record_entry(rs[j], now));
    lemma_dedup_covers(items, k);
}

/// Inverting the marks of the shown rows flips each shown row's mark and
/// keeps every other row's mark.
pub proof fn law_invert_flips_each_row(marked: Set<usize>, rows: Set<usize>, i: usize)
    ensures
        rows.contains(i) ==> (flip_members(marked, rows).contains(i) <==> !marked.contains(i)),
        !rows.contains(i) ==> (flip_members(marked, rows).contains(i) <==> marked.contains(i)),
{
}

} // verus!
