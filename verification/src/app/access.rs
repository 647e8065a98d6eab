//! Read access to the table's state, for drawing it.

use vstd::prelude::*;
use super::{
    App, AppView, PendingKill, ProtocolFilter, SortColumn, SortDirection, StateFilter,
};
use crate::port::PortInfo;

verus! {

impl App {
    /// All entries, in table order.
    pub fn ports(&self) -> (r: &Vec<PortInfo>)
        ensures
            r@ == self@.ports,
    {
        &self.ports
    }

    /// The indices of the shown rows' entries, in display order.
    pub fn visible_indices(&self) -> (r: &Vec<usize>)
        ensures
            r@ == self@.visible,
    {
        &self.visible_indices
    }

    /// The cursor's position among the shown rows.
    pub fn selected(&self) -> (r: Option<usize>)
        ensures
            r == self@.selected,
    {
        self.selected
    }

    /// Whether all connections are listed, not only listening sockets.
    pub fn show_all(&self) -> (r: bool)
        ensures
            r == self@.show_all,
    {
        self.show_all
    }

    /// Whether the filter text is being typed.
    pub fn filter_mode(&self) -> (r: bool)
        ensures
            r == self@.filter_mode,
    {
        self.filter_mode
    }

    /// The filter text.
    pub fn filter_text(&self) -> (r: &str)
        ensures
            r@ == self@.filter_text,
    {
        self.filter_text.as_str()
    }

    /// The status line.
    pub fn message(&self) -> (r: Option<&str>)
        ensures
            r is Some == self@.message is Some,
            r matches Some(m) ==> m@ == self@.message.unwrap(),
    {
        match &self.message {
            Some(m) => Some(m.as_str()),
            None => None,
        }
    }

    /// The sort column.
    pub fn sort_column(&self) -> (r: SortColumn)
        ensures
            r == self@.sort_column,
    {
        self.sort_column
    }

    /// The sort direction.
    pub fn sort_direction(&self) -> (r: SortDirection)
        ensures
            r == self@.sort_direction,
    {
        self.sort_direction
    }

    /// The protocol filter.
    pub fn protocol_filter(&self) -> (r: ProtocolFilter)
        ensures
            r == self@.protocol_filter,
    {
        self.protocol_filter
    }

    /// The state filter.
    pub fn state_filter(&self) -> (r: StateFilter)
        ensures
            r == self@.state_filter,
    {
        self.state_filter
    }

    /// Whether rows are grouped by process.
    pub fn group_mode(&self) -> (r: bool)
        ensures
            r == self@.group_mode,
    {
        self.group_mode
    }

    /// Whether the details of the selected process are open.
    pub fn inspect_mode(&self) -> (r: bool)
        ensures
            r == self@.inspect_mode,
    {
        self.inspect_mode
    }

    /// Whether the keyboard help is open.
    pub fn help_mode(&self) -> (r: bool)
        ensures
            r == self@.help_mode,
    {
        self.help_mode
    }

    /// Whether auto-refresh is on.
    pub fn auto_refresh(&self) -> (r: bool)
        ensures
            r == self@.auto_refresh,
    {
        self.auto_refresh
    }

    /// The auto-refresh interval in milliseconds.
    pub fn auto_refresh_interval_ms(&self) -> (r: u64)
        ensures
            r == self@.interval_ms,
    {
        self.auto_refresh_interval_ms
    }

    /// Whether the entry at `index` is marked.
    pub fn is_marked(&self, index: usize) -> (r: bool)
        ensures
            r == self@.marked.contains(index),
    {
        self.selected_ports.contains(&index)
    }

    /// How many entries are marked.
    pub fn marked_count(&self) -> (r: usize)
        ensures
            r == self@.marked.len(),
    {
        self.selected_ports.len()
    }

    /// The kill that waits for confirmation.
    pub fn pending_kill(&self) -> (r: &Option<PendingKill>)
        ensures
            r is Some == self@.pending_kill is Some,
            r matches Some(k) ==> self@.pending_kill == Some(k@),
    {
        &self.pending_kill
    }
}

} // verus!
