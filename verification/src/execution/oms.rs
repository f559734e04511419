use vstd::prelude::*;

verus! {

/// Order id chosen by this client.
#[derive(Debug, Clone, Copy, PartialEq, Eq, Hash, Structural)]
pub struct ClientId(pub u64);

/// Order id assigned by the exchange.
#[derive(Debug, Clone, Copy, PartialEq, Eq, Hash, Structural)]
pub struct ExchId(pub u64);

/// Slot of an order in the order table.
#[derive(Debug, Clone, Copy, PartialEq, Eq, Hash, Structural)]
pub struct OrderHandle(pub u32);

#[derive(Debug, Clone, Copy, PartialEq, Eq, Structural)]
pub enum OmsStatus {
    Dead,
    PendingPost,
    Live,
    PendingCancel,
}

/// One order of the table: price in ticks, quantities in lots.
pub struct OrderEntry {
    pub inst: u32,
    pub side: u8,
    pub px: i64,
    pub qty: i64,
    pub cum_filled: i64,
    pub client: ClientId,
    pub exch: ExchId,
    pub has_exch: bool,
    pub status: OmsStatus,
    pub last_ts_ms: u64,
    pub last_seq: u64,
}

/// Index from an id to an order handle, laid out as an open-addressing table
/// (`keys`, `vals`, slot `states`, and the `mask` of its power-of-two size).
/// The probing is not filled in: nothing is ever stored, so every lookup
/// misses.
pub struct IdMap {
    keys: Vec<u64>,
    vals: Vec<OrderHandle>,
    states: Vec<u8>,
    mask: usize,
}

impl IdMap {
    /// Looks `_key` up; the table stores nothing, so the answer is `None`.
    pub fn get(&self, _key: u64) -> (r: Option<OrderHandle>)
        ensures
            r is None,
    {
        None
    }

    /// Records `_key -> _h`; the table stores nothing and is left unchanged.
    pub fn insert(&mut self, _key: u64, _h: OrderHandle)
        ensures
            *final(self) == *old(self),
    {
    }

    /// Removes `_key`; the table stores nothing, so nothing is found and the
    /// table is left unchanged.
    pub fn remove(&mut self, _key: u64) -> (r: Option<OrderHandle>)
        ensures
            r is None,
            *final(self) == *old(self),
    {
        None
    }
}

/// The order management system: the order table, its free slots, the two
/// id indexes and the live orders of each instrument.
pub struct Oms {
    orders: Vec<OrderEntry>,
    free: Vec<OrderHandle>,
    by_client: IdMap,
    by_exch: IdMap,
    live_by_inst: Vec<Vec<OrderHandle>>,
}

pub enum OmsEvent {
    CmdAck(CmdAck),
    CmdReject(CmdReject),
    ExecReport(ExecReport),
    Timer(TimerEv),
}

#[derive(Debug, Clone, Copy, PartialEq, Eq, Structural)]
pub enum CmdKind {
    Post,
    Cancel,
    Amend,
}

pub struct CmdAck {
    pub client: ClientId,
    pub exch: Option<ExchId>,
    pub kind: CmdKind,
    pub status_hint: Option<ExchOrderStatus>,
    pub ts_ms: u64,
}

pub struct CmdReject {
    pub client: ClientId,
    pub kind: CmdKind,
    pub err_code: i32,
    pub ts_ms: u64,
}

#[derive(Debug, Clone, Copy, PartialEq, Eq, Structural)]
pub enum ExchExecType {
    New,
    Trade,
    Canceled,
    Expired,
    Amendment,
}

#[derive(Debug, Clone, Copy, PartialEq, Eq, Structural)]
pub enum ExchOrderStatus {
    New,
    PartiallyFilled,
    Filled,
    Canceled,
    Expired,
}

/// An execution report: quantities in lots, fill price in ticks.
pub struct ExecReport {
    pub client: ClientId,
    pub exch: ExchId,
    pub exec_type: ExchExecType,
    pub order_status: ExchOrderStatus,
    pub cum_filled: i64,
    pub last_fill: i64,
    pub last_fill_px: i64,
    pub ts_ms: u64,
    pub seq: u64,
}

pub struct TimerEv {
    pub ts_ms: u64,
}

impl Oms {
    /// Feeds an event to the order state machine. No transition is defined
    /// yet: the state is left unchanged.
    pub fn on_event(&mut self, _ev: OmsEvent)
        ensures
            *final(self) == *old(self),
    {
    }

    /// Releases a dead order's slot; not defined yet, the state is left
    /// unchanged.
    fn cleanup_dead(&mut self, _h: OrderHandle)
        ensures
            *final(self) == *old(self),
    {
    }
}

} // verus!
