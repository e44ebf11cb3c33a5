//! Bring-up of the port: the tuning of the reflector, and the ordered
//! stages that build the buffer pool and start the queues. Each stage is
//! performed by the caller, which reports the stage's status code here; the
//! first failure ends the bring-up and names its stage, so no queue is ever
//! started without a fully built pool.

use vstd::prelude::*;

verus! {

/// Descriptor ring depth asked for each queue.
pub const DEFAULT_RING_SIZE: u16 = 2048;

/// Buffers in the pool.
pub const DEFAULT_NUM_BUFFERS: u32 = 8192;

/// Per-core cache of the pool's free list.
pub const DEFAULT_CACHE_SIZE: u32 = 250;

/// Buffers taken from ingress per poll.
pub const DEFAULT_MAX_BURST: u16 = 4;

/// Frame bytes each buffer must hold: a standard Ethernet frame.
pub const DEFAULT_PAYLOAD_SIZE: usize = 1518;

/// The reflector's tuning.
pub struct ReflectorConfig {
    pub ring_size: u16,
    pub num_buffers: u32,
    pub cache_size: u32,
    pub max_burst: u16,
    pub payload_size: usize,
    pub alignment: usize,
}

impl ReflectorConfig {
    /// Every count at least one and a cache no larger than the pool.
    pub open spec fn valid(&self) -> bool {
        &&& self.ring_size >= 1
        &&& self.num_buffers >= 1
        &&& self.max_burst >= 1
        &&& self.cache_size <= self.num_buffers
    }

    /// The usual tuning: page-aligned pool, standard frames, short bursts.
    pub fn standard() -> (r: ReflectorConfig)
        ensures
            r.ring_size == DEFAULT_RING_SIZE,
            r.num_buffers == DEFAULT_NUM_BUFFERS,
            r.cache_size == DEFAULT_CACHE_SIZE,
            r.max_burst == DEFAULT_MAX_BURST,
            r.payload_size == DEFAULT_PAYLOAD_SIZE,
            r.alignment == crate::layout::PAGE_SIZE,
            r.valid(),
    {
        ReflectorConfig {
            ring_size: DEFAULT_RING_SIZE,
            num_buffers: DEFAULT_NUM_BUFFERS,
            cache_size: DEFAULT_CACHE_SIZE,
            max_burst: DEFAULT_MAX_BURST,
            payload_size: DEFAULT_PAYLOAD_SIZE,
            alignment: crate::layout::PAGE_SIZE,
        }
    }

    pub fn is_valid(&self) -> (r: bool)
        ensures
            r == self.valid(),
    {
        self.ring_size >= 1 && self.num_buffers >= 1 && self.max_burst >= 1 && self.cache_size
            <= self.num_buffers
    }
}

/// The stages of bring-up, in the order they run.
#[derive(Clone, Copy, Debug, PartialEq, Eq, Structural)]
pub enum SetupStage {
    /// Is the port known to the device layer (status 1 when it is).
    ValidatePort,
    /// Plan and allocate the pool's aligned region.
    AllocateRegion,
    /// Create the empty pool.
    CreatePool,
    /// Carve the region into slots and register them with the pool.
    PopulatePool,
    /// Read the device's capabilities.
    DeviceInfo,
    /// Configure one receive and one transmit queue.
    Configure,
    /// Fit the ring depths to the device's limits.
    AdjustDescriptors,
    /// Bind the pool as the receive queue's buffer supply.
    RxQueue,
    /// Set up the transmit queue.
    TxQueue,
    /// Start the port.
    Start,
    /// Read the port's hardware address.
    MacAddress,
    /// Accept frames for every destination address.
    Promiscuous,
}

/// A failed stage with the status code it reported.
#[derive(Clone, Copy, Debug, PartialEq, Eq, Structural)]
pub struct SetupError {
    pub stage: SetupStage,
    pub code: i32,
}

/// Where bring-up stands.
#[derive(Clone, Copy, Debug, PartialEq, Eq, Structural)]
pub enum SetupState {
    /// The stage to perform next.
    At(SetupStage),
    /// Every stage succeeded: the pool is built and the queues run.
    Ready,
    /// A stage failed; no later stage runs.
    Failed(SetupError),
}

/// The stage after `s`, if any.
pub open spec fn next_stage(s: SetupStage) -> Option<SetupStage> {
    match s {
        SetupStage::ValidatePort => Some(SetupStage::AllocateRegion),
        SetupStage::AllocateRegion => Some(SetupStage::CreatePool),
        SetupStage::CreatePool => Some(SetupStage::PopulatePool),
        SetupStage::PopulatePool => Some(SetupStage::DeviceInfo),
        SetupStage::DeviceInfo => Some(SetupStage::Configure),
        SetupStage::Configure => Some(SetupStage::AdjustDescriptors),
        SetupStage::AdjustDescriptors => Some(SetupStage::RxQueue),
        SetupStage::RxQueue => Some(SetupStage::TxQueue),
        SetupStage::TxQueue => Some(SetupStage::Start),
        SetupStage::Start => Some(SetupStage::MacAddress),
        SetupStage::MacAddress => Some(SetupStage::Promiscuous),
        SetupStage::Promiscuous => None,
    }
}

/// Whether `status` reports success for stage `s`: the port check reports
/// a nonzero truth value; the information, configuration, adjustment,
/// address and promiscuous calls report zero; the others any non-negative
/// value.
pub open spec fn stage_succeeded(s: SetupStage, status: i32) -> bool {
    match s {
        SetupStage::ValidatePort => status != 0,
        SetupStage::DeviceInfo | SetupStage::Configure | SetupStage::AdjustDescriptors
        | SetupStage::MacAddress | SetupStage::Promiscuous => status == 0,
        _ => status >= 0,
    }
}

/// The code a failed stage is reported with: the port check has none of
/// its own and reports -1; the others their status.
pub open spec fn failure_code(s: SetupStage, status: i32) -> i32 {
    match s {
        SetupStage::ValidatePort => -1i32,
        _ => status,
    }
}

/// The state that follows stage `s` reporting `status`.
pub open spec fn after(s: SetupStage, status: i32) -> SetupState {
    if !stage_succeeded(s, status) {
        SetupState::Failed(SetupError { stage: s, code: failure_code(s, status) })
    } else {
        match next_stage(s) {
            Some(n) => SetupState::At(n),
            None => SetupState::Ready,
        }
    }
}

/// The bring-up sequence of one port.
pub struct PortSetup {
    state: SetupState,
}

impl PortSetup {
    pub closed spec fn spec_state(&self) -> SetupState {
        self.state
    }

    /// A bring-up that has not begun: the port check comes first.
    pub fn new() -> (r: PortSetup)
        ensures
            r.spec_state() == SetupState::At(SetupStage::ValidatePort),
    {
        PortSetup { state: SetupState::At(SetupStage::ValidatePort) }
    }

    pub fn state(&self) -> (r: SetupState)
        ensures
            r == self.spec_state(),
    {
        self.state
    }

    /// Records the status the current stage reported. On success bring-up
    /// moves to the next stage, or is done after the last; on failure it
    /// stops for good and the error names the stage and its code.
    pub fn on_status(&mut self, status: i32) -> (r: Result<(), SetupError>)
        requires
            old(self).spec_state() is At,
        ensures
            ({
                let s = old(self).spec_state()->At_0;
                &&& final(self).spec_state() == after(s, status)
                &&& stage_succeeded(s, status) ==> r is Ok
                &&& !stage_succeeded(s, status) ==> r == Err::<(), SetupError>(
                    SetupError { stage: s, code: failure_code(s, status) },
                )
            }),
    {
        let s = match self.state {
            SetupState::At(s) => s,
            _ => {
                return Ok(());
            },
        };
        let ok = match s {
            SetupStage::ValidatePort => status != 0,
            SetupStage::DeviceInfo | SetupStage::Configure | SetupStage::AdjustDescriptors
            | SetupStage::MacAddress | SetupStage::Promiscuous => status == 0,
            _ => status >= 0,
        };
        if !ok {
            let code = match s {
                SetupStage::ValidatePort => -1,
                _ => status,
            };
            let e = SetupError { stage: s, code };
            self.state = SetupState::Failed(e);
            return Err(e);
        }
        self.state = match s {
            SetupStage::ValidatePort => SetupState::At(SetupStage::AllocateRegion),
            SetupStage::AllocateRegion => SetupState::At(SetupStage::CreatePool),
            SetupStage::CreatePool => SetupState::At(SetupStage::PopulatePool),
            SetupStage::PopulatePool => SetupState::At(SetupStage::DeviceInfo),
            SetupStage::DeviceInfo => SetupState::At(SetupStage::Configure),
            SetupStage::Configure => SetupState::At(SetupStage::AdjustDescriptors),
            SetupStage::AdjustDescriptors => SetupState::At(SetupStage::RxQueue),
            SetupStage::RxQueue => SetupState::At(SetupStage::TxQueue),
            SetupStage::TxQueue => SetupState::At(SetupStage::Start),
            SetupStage::Start => SetupState::At(SetupStage::MacAddress),
            SetupStage::MacAddress => SetupState::At(SetupStage::Promiscuous),
            SetupStage::Promiscuous => SetupState::Ready,
        };
        Ok(())
    }
}

} // verus!
