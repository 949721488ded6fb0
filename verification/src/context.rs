//! The Context: the process-wide state bundle one running game shares —
//! frame counter, app-defined state byte, random generator, asset store,
//! pending input events, the event/timer bus, and the active output
//! adapter.

use crate::adapter::{Adapter, AdapterState};
use crate::asset::AssetManager;
use crate::event::{Event, EventBus};
use crate::util::{Rand, RAND_DEFAULT_SEED};
use vstd::prelude::*;

verus! {

/// The shared state bundle; exactly one lives per running game, for the
/// process's whole run.
pub struct Context {
    pub game_name: String,
    pub stage: u32,
    pub state: u8,
    pub rand: Rand,
    pub asset_manager: AssetManager,
    pub input_events: Vec<Event>,
    pub adapter: Adapter,
    pub bus: EventBus,
}

impl Context {
    /// The context invariant: the bus registries and the adapter's frame
    /// buffers are well-formed.
    pub open spec fn wf(self) -> bool {
        &&& self.bus.wf()
        &&& self.adapter.wf()
        &&& self.asset_manager.wf()
    }

    /// A fresh context: frame counter at zero, no pending input, an empty
    /// bus, and an uninitialized terminal adapter.
    pub fn new(name: &str) -> (r: Context)
        ensures
            r.wf(),
            r.game_name@ == name@,
            r.stage == 0,
            r.state == 0,
            r.input_events@.len() == 0,
            r.rand.seed == RAND_DEFAULT_SEED,
            r.asset_manager.assets@.len() == 0,
            r.bus.evts().len() == 0,
            r.bus.tms().len() == 0,
            r.adapter.cross().base.state == AdapterState::Uninitialized,
            r.adapter.cross().pending@.len() == 0,
    {
        Context {
            game_name: name.to_owned(),
            stage: 0,
            state: 0,
            rand: Rand::new(),
            asset_manager: AssetManager::new(),
            input_events: Vec::new(),
            adapter: Adapter::new_cross(name),
            bus: EventBus::new(),
        }
    }
}

} // verus!
