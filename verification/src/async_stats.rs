//! Bookkeeping the flight controller keeps of its async executor: how long
//! tasks ran or waited and what its DMA transfers did.

use vstd::prelude::*;

verus! {

/// The interned name of a task or transfer in the firmware's log table.
#[verifier::external_type_specification]
#[verifier::external_body]
pub struct ExStr(defmt::Str);

/// Max number of async tasks
pub const MAX_ASYNC_TASKS: usize = 8;

/// Max number of DMA transfers tracked at once.
pub const MAX_DMA_ACTIONS: usize = 2;

pub struct AsyncState {
    /// The number of ticks that passed since the last update
    pub ticks_total: u32,
    /// Overhead with performing this bookkeeping
    pub ticks_overhead: u32,
    pub tasks: Vec<AsyncTaskState>,
    pub dma_actions: Vec<DmaAction>,
}

impl AsyncState {
    /// No more tasks and transfers than the firmware tracks.
    pub open spec fn wf(&self) -> bool {
        &&& self.tasks@.len() <= MAX_ASYNC_TASKS
        &&& self.dma_actions@.len() <= MAX_DMA_ACTIONS
    }
}

pub struct DmaAction {
    pub name: defmt::Str,
    /// The number of ticks this DMA transfer was running for
    pub ticks_running: u32,
    /// The number of bytes copied
    pub bytes_copied: u32,
}

pub struct AsyncTaskState {
    pub name: defmt::Str,
    /// Ticks spent polling the task
    pub ticks_running: u32,
    /// Ticks the task was ready to run while other work held the processor
    pub ticks_blocked: u32,
}

} // verus!
