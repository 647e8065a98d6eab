//! The rows that the table shows: the text and quick filters applied, and in
//! group mode one row per owning process.

use vstd::prelude::*;
use super::{
    all_positions, is_table_order, passes_quick_filters, positions, App, AppView, SortColumn,
};
use crate::port::{cpu_rank, cpu_rank_exec, PortInfo};
use crate::sort::{
    is_permutation_witness, is_stable_sorting, keeps_tie_order, lemma_stable_sorting_map, map_items,
    stable_sort_by_key,
};
use crate::text::{
    decimal, joined, folded, lowercased, push_decimal, push_str, seq_contains, chars_of, text_contains,
};

verus! {

broadcast use vstd::string::group_string_axioms;

/// What a table row stands for.
#[derive(Debug, Clone, Copy, PartialEq, Eq, Structural)]
pub enum RowKind {
    /// One entry (outside group mode).
    Entry,
    /// All shown entries of one process (group mode).
    Process,
    /// One shown entry without a known process (group mode).
    Unowned,
}

/// One row of the table.
pub struct ViewRow {
    pub kind: RowKind,
    /// The entry whose details the row shows: for a process, its first shown
    /// entry.
    pub port_index: usize,
    /// The port column: the port, or for a process the ports of its shown
    /// entries joined with `, ` and followed by their count when there are
    /// several.
    pub ports_label: String,
}

/// An entry passes the text filter: the filter is empty, or occurs in the
/// port number, or its lowercase form occurs in the lowercased process name.
pub open spec fn passes_text_filter(p: PortInfo, text: Seq<char>) -> bool {
    text.len() == 0 || text_contains(decimal(p.port as nat), text) || text_contains(
        folded(p.process_name@),
        folded(text),
    )
}

/// The entry at index `i` is shown by the filters.
pub open spec fn row_passes(v: AppView, i: usize) -> bool {
    &&& passes_quick_filters(v.ports[i as int]@, v.protocol_filter, v.state_filter)
    &&& passes_text_filter(v.ports[i as int], v.filter_text)
}

/// The filter test as a predicate on indices.
pub open spec fn passes_pred(v: AppView) -> spec_fn(usize) -> bool {
    |i: usize| row_passes(v, i)
}

/// The indices of the entries that the filters let through, in order.
pub open spec fn filtered_indices(v: AppView) -> Seq<usize> {
    all_positions(v.ports.len()).filter(passes_pred(v))
}

/// The processes owning entries of `s`, in order of first appearance.
pub open spec fn owner_pids(s: Seq<usize>, ports: Seq<PortInfo>) -> Seq<u32>
    decreases s.len(),
{
    if s.len() == 0 {
        Seq::empty()
    } else {
        let prev = owner_pids(s.drop_last(), ports);
        match ports[s.last() as int].pid {
            Some(p) => if prev.contains(p) {
                prev
            } else {
                prev.push(p)
            },
            None => prev,
        }
    }
}

/// The entries of `s` owned by process `p`.
pub open spec fn members_of(s: Seq<usize>, ports: Seq<PortInfo>, p: u32) -> Seq<usize> {
    s.filter(|i: usize| ports[i as int].pid == Some(p))
}

/// The entries of `s` without a known process.
pub open spec fn unowned_of(s: Seq<usize>, ports: Seq<PortInfo>) -> Seq<usize> {
    s.filter(|i: usize| ports[i as int].pid is None)
}

/// The key that orders process rows: ascending port or process id, or
/// descending memory or CPU usage, of the process's first shown entry.
pub open spec fn group_key(p: PortInfo, c: SortColumn) -> u64 {
    match c {
        SortColumn::Port => p.port as u64,
        SortColumn::Pid => match p.pid {
            Some(x) => x as u64,
            None => 0,
        },
        SortColumn::Memory => (u64::MAX - p.memory) as u64,
        SortColumn::Cpu => (u32::MAX - cpu_rank(p.cpu_usage_bits)) as u64,
    }
}

/// The port column of a process row.
pub open spec fn ports_label_text(ports: Seq<u16>) -> Seq<char> {
    let list = joined(ports.map_values(|x: u16| decimal(x as nat)), ", "@);
    if ports.len() > 1 {
        list + " ("@ + decimal(ports.len()) + ")"@
    } else {
        list
    }
}

/// The first shown entry of process `p`.
pub open spec fn representative(v: AppView, p: u32) -> usize {
    members_of(filtered_indices(v), v.ports, p)[0]
}

/// The processes of the shown entries keyed for ordering, in order of first
/// appearance.
pub open spec fn keyed_owners(v: AppView) -> Seq<(u64, u32)> {
    owner_pids(filtered_indices(v), v.ports).map_values(
        |p: u32| (group_key(v.ports[representative(v, p) as int], v.sort_column), p),
    )
}

/// `rows` and `visible` are the rows of `v` in group mode, the processes in
/// the order `order`: one row per process, then one per unowned entry.
pub open spec fn is_group_layout(v: AppView, order: Seq<(u64, u32)>, rows: Seq<ViewRow>, visible: Seq<usize>) -> bool {
    let f = filtered_indices(v);
    let unowned = unowned_of(f, v.ports);
    let g = order.len();
    &&& rows.len() == g + unowned.len()
    &&& visible == order.map_values(|e: (u64, u32)| representative(v, e.1)) + unowned
    &&& forall|k: int| 0 <= k < g ==> {
        let pid = order[k].1;
        &&& (#[trigger] rows[k]).kind == RowKind::Process
        &&& rows[k].port_index == representative(v, pid)
        &&& rows[k].ports_label@ == ports_label_text(
            members_of(f, v.ports, pid).map_values(|i: usize| v.ports[i as int].port),
        )
    }
    &&& forall|k: int| 0 <= k < unowned.len() ==> {
        &&& (#[trigger] rows[g + k]).kind == RowKind::Unowned
        &&& rows[g + k].port_index == unowned[k]
        &&& rows[g + k].ports_label@ == decimal(v.ports[unowned[k] as int].port as nat)
    }
}

/// `rows` and `visible` are the rows of `v` outside group mode: one per
/// entry that passes the filters.
pub open spec fn is_plain_layout(v: AppView, rows: Seq<ViewRow>, visible: Seq<usize>) -> bool {
    let f = filtered_indices(v);
    &&& visible == f
    &&& rows.len() == f.len()
    &&& forall|k: int| 0 <= k < f.len() ==> {
        &&& (#[trigger] rows[k]).kind == RowKind::Entry
        &&& rows[k].port_index == f[k]
        &&& rows[k].ports_label@ == decimal(v.ports[f[k] as int].port as nat)
    }
}

} // verus!

verus! {

impl App {
    fn passes_text_filter_exec(&self, p: &PortInfo, text: &Vec<char>, low_text: &Vec<char>) -> (b: bool)
        requires
            text@ == self@.filter_text,
            low_text@ == folded(self@.filter_text),
        ensures
            b == passes_text_filter(*p, self@.filter_text),
    {
        if text.len() == 0 {
            return true;
        }
        let port_text = crate::text::decimal_string(p.port as u64);
        let port_chars = chars_of(port_text.as_str());
        if seq_contains(&port_chars, text) {
            return true;
        }
        let low_name = lowercased(p.process_name.as_str());
        let name_chars = chars_of(low_name.as_str());
        seq_contains(&name_chars, low_text)
    }

    /// The indices of the entries that the filters let through, in order.
    pub fn filtered_indices(&self) -> (r: Vec<usize>)
        ensures
            r@ == filtered_indices(self@),
            forall|k: int| 0 <= k < r@.len() ==> #[trigger] r@[k] < self@.ports.len(),
            forall|a: int, b: int| 0 <= a < b < r@.len() ==> r@[a] < r@[b],
    {
        let text = chars_of(self.filter_text.as_str());
        let low = lowercased(self.filter_text.as_str());
        let low_text = chars_of(low.as_str());
        let n = self.ports.len();
        let mut r: Vec<usize> = Vec::new();
        let mut i: usize = 0;
        while i < n
            invariant
                n == self@.ports.len(),
                i <= n,
                text@ == self@.filter_text,
                low_text@ == folded(self@.filter_text),
                r@ == all_positions(i as nat).filter(passes_pred(self@)),
                forall|k: int| 0 <= k < r@.len() ==> #[trigger] r@[k] < i,
                forall|a: int, b: int| 0 <= a < b < r@.len() ==> r@[a] < r@[b],
            decreases n - i,
        {
            proof {
                assert(all_positions((i + 1) as nat).drop_last() =~= all_positions(i as nat));
            }
            let p = &self.ports[i];
            let q = self.matches_quick_filters(p);
            let t = self.passes_text_filter_exec(p, &text, &low_text);
            assert(*p == self@.ports[i as int]);
            assert(all_positions((i + 1) as nat).last() == i);
            assert((q && t) == passes_pred(self@)(i));
            proof {
                reveal(Seq::filter);
            }
            if q && t {
                r.push(i);
            }
            i = i + 1;
        }
        r
    }
}

} // verus!

verus! {

/// Groups `s` by process: for each owning process in order of first
/// appearance, its pid and its entries.
pub open spec fn is_grouping(s: Seq<usize>, ports: Seq<PortInfo>, groups: Seq<(u32, Vec<usize>)>) -> bool {
    &&& groups.len() == owner_pids(s, ports).len()
    &&& forall|g: int| 0 <= g < groups.len() ==> (#[trigger] groups[g]).0 == owner_pids(s, ports)[g]
        && groups[g].1@ == members_of(s, ports, groups[g].0) && groups[g].1@.len() > 0
}

proof fn lemma_owner_pids_facts(s: Seq<usize>, ports: Seq<PortInfo>)
    requires
        forall|k: int| 0 <= k < s.len() ==> #[trigger] s[k] < ports.len(),
    ensures
        owner_pids(s, ports).no_duplicates(),
        forall|k: int| 0 <= k < s.len() && ports[s[k] as int].pid is Some ==> owner_pids(s, ports).contains(
            ports[#[trigger] s[k] as int].pid.unwrap(),
        ),
    decreases s.len(),
{
    if s.len() > 0 {
        lemma_owner_pids_facts(s.drop_last(), ports);
        let prev = owner_pids(s.drop_last(), ports);
        assert forall|k: int| 0 <= k < s.len() && ports[s[k] as int].pid is Some implies owner_pids(s, ports).contains(
            ports[#[trigger] s[k] as int].pid.unwrap(),
        ) by {
            if k < s.len() - 1 {
                assert(s.drop_last()[k] == s[k]);
                let j = choose|j: int| 0 <= j < prev.len() && prev[j] == ports[s[k] as int].pid.unwrap();
                match ports[s.last() as int].pid {
                    Some(p) => if !prev.contains(p) {
                        assert(owner_pids(s, ports)[j] == prev[j]);
                    },
                    None => {},
                }
            } else {
                let p = ports[s.last() as int].pid.unwrap();
                if !prev.contains(p) {
                    assert(owner_pids(s, ports)[prev.len() as int] == p);
                }
            }
        }
    }
}

impl App {
    /// Groups the entries `f` by owning process, in order of first appearance.
    fn group_by_owner(&self, f: &Vec<usize>) -> (groups: Vec<(u32, Vec<usize>)>)
        requires
            forall|k: int| 0 <= k < f@.len() ==> #[trigger] f@[k] < self@.ports.len(),
        ensures
            is_grouping(f@, self@.ports, groups@),
    {
        let ghost ports = self@.ports;
        let mut groups: Vec<(u32, Vec<usize>)> = Vec::new();
        let n = f.len();
        let mut k: usize = 0;
        while k < n
            invariant
                n == f@.len(),
                k <= n,
                ports == self@.ports,
                forall|j: int| 0 <= j < f@.len() ==> #[trigger] f@[j] < ports.len(),
                is_grouping(f@.take(k as int), ports, groups@),
            decreases n - k,
        {
            let ghost prefix = f@.take(k as int);
            let ghost next = f@.take(k + 1);
            let x = f[k];
            proof {
                assert(next.drop_last() =~= prefix);
                assert(next.last() == x);
                reveal(Seq::filter);
                assert forall|j: int| 0 <= j < prefix.len() implies #[trigger] prefix[j] < ports.len() by {
                    assert(prefix[j] == f@[j]);
                }
                lemma_owner_pids_facts(prefix, ports);
            }
            let ghost before = groups@;
            match self.ports[x].pid {
                None => {
                    proof {
                        assert forall|g: int| 0 <= g < groups@.len() implies (#[trigger] groups@[g]).0 == owner_pids(next, ports)[g]
                            && groups@[g].1@ == members_of(next, ports, groups@[g].0) && groups@[g].1@.len() > 0 by {
                            reveal(Seq::filter);
                        }
                    }
                },
                Some(p) => {
                    let mut g: usize = 0;
                    let mut found = false;
                    while g < groups.len() && !found
                        invariant
                            g <= groups@.len(),
                            groups@ == before,
                            found ==> g >= 1 && groups@[g - 1].0 == p,
                            !found ==> forall|h: int| 0 <= h < g ==> (#[trigger] groups@[h]).0 != p,
                        decreases groups@.len() - g,
                    {
                        if groups[g].0 == p {
                            found = true;
                        }
                        g = g + 1;
                    }
                    if found {
                        let at = g - 1;
                        let mut grp = groups.remove(at);
                        grp.1.push(x);
                        groups.insert(at, grp);
                        proof {
                            assert(owner_pids(prefix, ports)[at as int] == p);
                            assert(owner_pids(next, ports) == owner_pids(prefix, ports));
                            assert forall|h: int| 0 <= h < groups@.len() implies (#[trigger] groups@[h]).0 == owner_pids(next, ports)[h]
                                && groups@[h].1@ == members_of(next, ports, groups@[h].0) && groups@[h].1@.len() > 0 by {
                                reveal(Seq::filter);
                                if h != at {
                                    assert(groups@[h] == before[h]);
                                    assert(before[h].0 != p) by {
                                        assert(owner_pids(prefix, ports)[h] != owner_pids(prefix, ports)[at as int]);
                                    }
                                }
                            }
                        }
                    } else {
                        let mut members: Vec<usize> = Vec::new();
                        members.push(x);
                        groups.push((p, members));
                        proof {
                            assert(!owner_pids(prefix, ports).contains(p)) by {
                                if owner_pids(prefix, ports).contains(p) {
                                    let h = choose|h: int| 0 <= h < owner_pids(prefix, ports).len() && owner_pids(prefix, ports)[h] == p;
                                    assert(before[h].0 == p);
                                }
                            }
                            assert(owner_pids(next, ports) == owner_pids(prefix, ports).push(p));
                            assert forall|h: int| 0 <= h < groups@.len() implies (#[trigger] groups@[h]).0 == owner_pids(next, ports)[h]
                                && groups@[h].1@ == members_of(next, ports, groups@[h].0) && groups@[h].1@.len() > 0 by {
                                reveal(Seq::filter);
                                if h < before.len() {
                                    assert(groups@[h] == before[h]);
                                    assert(before[h].0 != p);
                                } else {
                                    assert(members_of(prefix, ports, p).len() == 0) by {
                                        if members_of(prefix, ports, p).len() > 0 {
                                            let pred = |i: usize| ports[i as int].pid == Some(p);
                                            let m0 = prefix.filter(pred)[0];
                                            prefix.lemma_filter_pred(pred, 0);
                                            assert(prefix.filter(pred).contains(m0));
                                            prefix.lemma_filter_contains_rev(pred, m0);
                                            let j = choose|j: int| 0 <= j < prefix.len() && prefix[j] == m0;
                                            assert(ports[prefix[j] as int].pid is Some);
                                            assert(owner_pids(prefix, ports).contains(p));
                                        }
                                    }
                                    assert(members_of(next, ports, p) =~= seq![x]);
                                }
                            }
                        }
                    }
                },
            }
            k = k + 1;
        }
        assert(f@.take(n as int) =~= f@);
        groups
    }
}

} // verus!

verus! {

fn group_key_exec(p: &PortInfo, c: SortColumn) -> (k: u64)
    ensures
        k == group_key(*p, c),
{
    match c {
        SortColumn::Port => p.port as u64,
        SortColumn::Pid => match p.pid {
            Some(x) => x as u64,
            None => 0,
        },
        SortColumn::Memory => u64::MAX - p.memory,
        SortColumn::Cpu => u32::MAX as u64 - cpu_rank_exec(p.cpu_usage_bits),
    }
}

impl App {
    fn ports_label(&self, members: &Vec<usize>) -> (r: String)
        requires
            forall|k: int| 0 <= k < members@.len() ==> #[trigger] members@[k] < self@.ports.len(),
        ensures
            r@ == ports_label_text(members@.map_values(|i: usize| self@.ports[i as int].port)),
    {
        let ghost ps = members@.map_values(|i: usize| self@.ports[i as int].port);
        let ghost parts = ps.map_values(|x: u16| decimal(x as nat));
        let mut r = String::new();
        let n = members.len();
        let mut k: usize = 0;
        while k < n
            invariant
                n == members@.len(),
                k <= n,
                forall|j: int| 0 <= j < members@.len() ==> #[trigger] members@[j] < self@.ports.len(),
                ps == members@.map_values(|i: usize| self@.ports[i as int].port),
                parts == ps.map_values(|x: u16| decimal(x as nat)),
                r@ == joined(parts.take(k as int), ", "@),
            decreases n - k,
        {
            proof {
                assert(parts.take(k + 1).drop_last() =~= parts.take(k as int));
                assert(parts.take(k + 1).last() == decimal(self@.ports[members@[k as int] as int].port as nat));
            }
            if k > 0 {
                push_str(&mut r, ", ");
            } else {
                assert(r@ == Seq::<char>::empty());
            }
            let port = self.ports[members[k]].port;
            let ghost before = r@;
            push_decimal(&mut r, port as u128);
            if k == 0 {
                assert(r@ =~= decimal(port as nat));
            }
            k = k + 1;
        }
        assert(parts.take(n as int) =~= parts);
        if n > 1 {
            push_str(&mut r, " (");
            push_decimal(&mut r, n as u128);
            push_str(&mut r, ")");
        }
        r
    }
}

} // verus!

verus! {

proof fn lemma_filter_in_range(s: Seq<usize>, pred: spec_fn(usize) -> bool, n: nat)
    requires
        forall|k: int| 0 <= k < s.len() ==> #[trigger] s[k] < n,
    ensures
        forall|k: int| 0 <= k < s.filter(pred).len() ==> #[trigger] s.filter(pred)[k] < n,
        forall|k: int| 0 <= k < s.filter(pred).len() ==> pred(#[trigger] s.filter(pred)[k]),
{
    assert forall|k: int| 0 <= k < s.filter(pred).len() implies #[trigger] s.filter(pred)[k] < n && pred(s.filter(pred)[k]) by {
        let e = s.filter(pred)[k];
        assert(s.filter(pred).contains(e));
        s.lemma_filter_contains_rev(pred, e);
        s.lemma_filter_pred(pred, k);
    }
}

proof fn lemma_filter_increasing(s: Seq<usize>, pred: spec_fn(usize) -> bool)
    requires
        forall|a: int, b: int| 0 <= a < b < s.len() ==> s[a] < s[b],
    ensures
        forall|a: int, b: int| 0 <= a < b < s.filter(pred).len() ==> s.filter(pred)[a] < s.filter(pred)[b],
    decreases s.len(),
{
    reveal(Seq::filter);
    if s.len() > 0 {
        let d = s.drop_last();
        lemma_filter_increasing(d, pred);
        let fs = s.filter(pred);
        let fd = d.filter(pred);
        if pred(s.last()) {
            assert forall|a: int, b: int| 0 <= a < b < fs.len() implies fs[a] < fs[b] by {
                if b == fs.len() - 1 {
                    assert(fd.contains(fd[a]));
                    d.lemma_filter_contains_rev(pred, fd[a]);
                    let j = choose|j: int| 0 <= j < d.len() && d[j] == fd[a];
                    assert(s[j] < s[s.len() - 1]);
                } else {
                    assert(fs[a] == fd[a] && fs[b] == fd[b]);
                }
            }
        }
    }
}

/// The cursor kept within `n` rows: none for no rows, else the old position
/// (the top without one) moved up to the last row.
pub open spec fn clamped_cursor(selected: Option<usize>, n: nat) -> Option<usize> {
    if n == 0 {
        None
    } else {
        Some(
            min_usize_spec(
                match selected {
                    Some(s) => s as int,
                    None => 0,
                },
                n - 1,
            ),
        )
    }
}

/// The smaller of two numbers.
pub open spec fn min_usize_spec(a: int, b: int) -> usize {
    (if a < b {
        a
    } else {
        b
    }) as usize
}

impl App {
    /// Computes the rows to show and makes them the shown rows: the entries
    /// that pass the filters, one row each, or in group mode one row per owning
    /// process (ordered by the sort column of its first shown entry, ties in
    /// order of first appearance) followed by one row per entry without a known
    /// process. The cursor is kept within the rows.
    pub fn layout(&mut self) -> (rows: Vec<ViewRow>)
        requires
            old(self).wf(),
        ensures
            !old(self)@.group_mode ==> is_plain_layout(old(self)@, rows@, final(self)@.visible),
            old(self)@.group_mode ==> exists|order: Seq<(u64, u32)>|
                is_stable_sorting(keyed_owners(old(self)@), order) && #[trigger] is_group_layout(
                    old(self)@,
                    order,
                    rows@,
                    final(self)@.visible,
                ),
            final(self)@ == (AppView {
                visible: final(self)@.visible,
                selected: clamped_cursor(old(self)@.selected, final(self)@.visible.len()),
                ..old(self)@
            }),
            final(self).wf(),
    {
        let ghost v = self@;
        let f = self.filtered_indices();
        let mut rows: Vec<ViewRow> = Vec::new();
        let mut visible: Vec<usize> = Vec::new();
        if !self.group_mode {
            let n = f.len();
            let mut k: usize = 0;
            while k < n
                invariant
                    v == self@,
                    n == f@.len(),
                    f@ == filtered_indices(v),
                    forall|j: int| 0 <= j < f@.len() ==> #[trigger] f@[j] < v.ports.len(),
                    k <= n,
                    visible@ == f@.take(k as int),
                    rows@.len() == k,
                    forall|j: int| 0 <= j < k ==> {
                        &&& (#[trigger] rows@[j]).kind == RowKind::Entry
                        &&& rows@[j].port_index == f@[j]
                        &&& rows@[j].ports_label@ == decimal(v.ports[f@[j] as int].port as nat)
                    },
                decreases n - k,
            {
                let i = f[k];
                let label = crate::text::decimal_string(self.ports[i].port as u64);
                rows.push(ViewRow { kind: RowKind::Entry, port_index: i, ports_label: label });
                visible.push(i);
                assert(visible@ =~= f@.take(k + 1));
                k = k + 1;
            }
            assert(f@.take(n as int) =~= f@);
            assert(visible@ == f@);
        } else {
            let groups = self.group_by_owner(&f);
            let ghost gs = groups@;
            proof {
                lemma_owner_pids_facts(f@, v.ports);
            }
            // key each group by its first shown entry
            let mut rest = groups;
            let mut keyed: Vec<(u64, (u32, Vec<usize>))> = Vec::new();
            let g = rest.len();
            let mut j: usize = 0;
            while j < g
                invariant
                    v == self@,
                    g == gs.len(),
                    j <= g,
                    f@ == filtered_indices(v),
                    forall|x: int| 0 <= x < f@.len() ==> #[trigger] f@[x] < v.ports.len(),
                    is_grouping(f@, v.ports, gs),
                    rest@ == gs.skip(j as int),
                    keyed@.len() == j,
                    forall|x: int| 0 <= x < j ==> (#[trigger] keyed@[x]).1 == gs[x] && keyed@[x].0
                        == group_key(v.ports[gs[x].1@[0] as int], v.sort_column),
                decreases g - j,
            {
                let grp = rest.remove(0);
                assert(grp == gs[j as int]);
                assert(rest@ =~= gs.skip(j + 1));
                let rep = grp.1[0];
                proof {
                    lemma_filter_in_range(f@, |i: usize| v.ports[i as int].pid == Some(grp.0), v.ports.len());
                    assert(grp.1@[0] == members_of(f@, v.ports, grp.0)[0]);
                }
                let key = group_key_exec(&self.ports[rep], self.sort_column);
                keyed.push((key, grp));
                j = j + 1;
            }
            let ghost keyed_v = keyed@;
            proof {
                assert(map_items(keyed_v, |e: (u32, Vec<usize>)| e.0) =~= keyed_owners(v)) by {
                    assert forall|x: int| 0 <= x < keyed_v.len() implies map_items(keyed_v, |e: (u32, Vec<usize>)| e.0)[x] == keyed_owners(v)[x] by {
                        assert(gs[x].0 == owner_pids(f@, v.ports)[x]);
                    }
                }
            }
            let sorted = stable_sort_by_key(keyed);
            let ghost sv = sorted@;
            proof {
                lemma_stable_sorting_map(keyed_v, sv, |e: (u32, Vec<usize>)| e.0);
            }
            let ghost order = map_items(sv, |e: (u32, Vec<usize>)| e.0);
            // each sorted group is one of the groups
            proof {
                let perm = choose|perm: Seq<int>| is_permutation_witness(keyed_v, sv, perm) && keeps_tie_order(sv, perm);
                assert forall|x: int| 0 <= x < sv.len() implies {
                    &&& (#[trigger] sv[x]).1.1@ == members_of(f@, v.ports, sv[x].1.0)
                    &&& sv[x].1.1@.len() > 0
                    &&& owner_pids(f@, v.ports).contains(sv[x].1.0)
                } by {
                    assert(sv[x] == keyed_v[perm[x]]);
                    assert(gs[perm[x]].0 == owner_pids(f@, v.ports)[perm[x]]);
                }
                assert forall|a: int, b: int| 0 <= a < b < sv.len() implies (#[trigger] sv[a]).1.0 != (#[trigger] sv[b]).1.0 by {
                    assert(sv[a] == keyed_v[perm[a]]);
                    assert(sv[b] == keyed_v[perm[b]]);
                    assert(owner_pids(f@, v.ports)[perm[a]] != owner_pids(f@, v.ports)[perm[b]]);
                }
            }
            let sn = sorted.len();
            let mut k: usize = 0;
            while k < sn
                invariant
                    v == self@,
                    sn == sv.len(),
                    sv == sorted@,
                    order == map_items(sv, |e: (u32, Vec<usize>)| e.0),
                    k <= sn,
                    f@ == filtered_indices(v),
                    forall|x: int| 0 <= x < f@.len() ==> #[trigger] f@[x] < v.ports.len(),
                    forall|x: int| 0 <= x < sv.len() ==> {
                        &&& (#[trigger] sv[x]).1.1@ == members_of(f@, v.ports, sv[x].1.0)
                        &&& sv[x].1.1@.len() > 0
                        &&& owner_pids(f@, v.ports).contains(sv[x].1.0)
                    },
                    rows@.len() == k,
                    visible@ == order.take(k as int).map_values(|e: (u64, u32)| representative(v, e.1)),
                    forall|x: int| 0 <= x < k ==> {
                        let pid = order[x].1;
                        &&& (#[trigger] rows@[x]).kind == RowKind::Process
                        &&& rows@[x].port_index == representative(v, pid)
                        &&& rows@[x].ports_label@ == ports_label_text(
                            members_of(f@, v.ports, pid).map_values(|i: usize| v.ports[i as int].port),
                        )
                    },
                decreases sn - k,
            {
                let members = &sorted[k].1.1;
                proof {
                    lemma_filter_in_range(f@, |i: usize| v.ports[i as int].pid == Some(sv[k as int].1.0), v.ports.len());
                }
                let rep = members[0];
                proof {
                    assert(members@ == sv[k as int].1.1@);
                    assert(order[k as int] == (sv[k as int].0, sv[k as int].1.0));
                    assert(rep == representative(v, order[k as int].1));
                }
                let label = self.ports_label(members);
                rows.push(ViewRow { kind: RowKind::Process, port_index: rep, ports_label: label });
                visible.push(rep);
                assert(visible@ =~= order.take(k + 1).map_values(|e: (u64, u32)| representative(v, e.1))) by {
                    assert(order.take(k + 1) =~= order.take(k as int).push(order[k as int]));
                }
                k = k + 1;
            }
            assert(order.take(sn as int) =~= order);
            // then the entries without a known process
            let ghost reps = visible@;
            let fn_ = f.len();
            let mut k: usize = 0;
            while k < fn_
                invariant
                    v == self@,
                    fn_ == f@.len(),
                    f@ == filtered_indices(v),
                    forall|x: int| 0 <= x < f@.len() ==> #[trigger] f@[x] < v.ports.len(),
                    k <= fn_,
                    sn == order.len(),
                    visible@ == reps + f@.take(k as int).filter(|i: usize| v.ports[i as int].pid is None),
                    reps.len() == sn,
                    rows@.len() == visible@.len(),
                    forall|x: int| 0 <= x < sn ==> {
                        let pid = order[x].1;
                        &&& (#[trigger] rows@[x]).kind == RowKind::Process
                        &&& rows@[x].port_index == representative(v, pid)
                        &&& rows@[x].ports_label@ == ports_label_text(
                            members_of(f@, v.ports, pid).map_values(|i: usize| v.ports[i as int].port),
                        )
                    },
                    forall|x: int| sn <= x < rows@.len() ==> {
                        &&& (#[trigger] rows@[x]).kind == RowKind::Unowned
                        &&& rows@[x].port_index == visible@[x]
                        &&& rows@[x].ports_label@ == decimal(v.ports[visible@[x] as int].port as nat)
                    },
                decreases fn_ - k,
            {
                proof {
                    reveal(Seq::filter);
                    assert(f@.take(k + 1).drop_last() =~= f@.take(k as int));
                    assert(f@.take(k + 1).last() == f@[k as int]);
                }
                let i = f[k];
                if self.ports[i].pid.is_none() {
                    let label = crate::text::decimal_string(self.ports[i].port as u64);
                    rows.push(ViewRow { kind: RowKind::Unowned, port_index: i, ports_label: label });
                    visible.push(i);
                }
                assert(visible@ =~= reps + f@.take(k + 1).filter(|i: usize| v.ports[i as int].pid is None));
                k = k + 1;
            }
            assert(f@.take(fn_ as int) =~= f@);
            proof {
                assert(is_group_layout(v, order, rows@, visible@));
                let unowned = f@.filter(|i: usize| v.ports[i as int].pid is None);
                lemma_filter_in_range(f@, |i: usize| v.ports[i as int].pid is None, v.ports.len());
                lemma_filter_increasing(f@, |i: usize| v.ports[i as int].pid is None);
                assert(visible@ == reps + unowned);
                assert forall|x: int| 0 <= x < reps.len() implies #[trigger] reps[x] < v.ports.len()
                    && v.ports[reps[x] as int].pid == Some(order[x].1) by {
                    let pid = order[x].1;
                    assert(order[x] == (sv[x].0, sv[x].1.0));
                    lemma_filter_in_range(f@, |i: usize| v.ports[i as int].pid == Some(pid), v.ports.len());
                    assert(sv[x].1.1@.len() > 0);
                }
                assert forall|a: int, b: int| 0 <= a < b < order.len() implies order[a].1 != order[b].1 by {
                    assert(order[a] == (sv[a].0, sv[a].1.0));
                    assert(order[b] == (sv[b].0, sv[b].1.0));
                }
                assert forall|x: int| 0 <= x < visible@.len() implies #[trigger] visible@[x] < v.ports.len() by {
                    if x >= reps.len() {
                        assert(visible@[x] == unowned[x - reps.len()]);
                    }
                }
                assert forall|a: int, b: int| 0 <= a < visible@.len() && 0 <= b < visible@.len() && a != b implies visible@[a] != visible@[b] by {
                    if a < reps.len() && b < reps.len() {
                    } else if a >= reps.len() && b >= reps.len() {
                        assert(visible@[a] == unowned[a - reps.len()]);
                        assert(visible@[b] == unowned[b - reps.len()]);
                    } else if a < reps.len() {
                        assert(visible@[b] == unowned[b - reps.len()]);
                    } else {
                        assert(visible@[a] == unowned[a - reps.len()]);
                    }
                }
            }
        }
        let n = visible.len();
        let selected = if n == 0 {
            None
        } else {
            let s = match self.selected {
                Some(s) => s,
                None => 0,
            };
            if s < n - 1 {
                Some(s)
            } else {
                Some(n - 1)
            }
        };
        self.visible_indices = visible;
        self.selected = selected;
        rows
    }
}

} // verus!
