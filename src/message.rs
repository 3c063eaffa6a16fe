//! The messages that the panels react to.

use vstd::prelude::*;

verus! {

#[derive(Clone, Copy, PartialEq, Eq, Structural)]
pub enum WeatherMessage {
    Tick,
    Click,
}

#[derive(Clone, Copy, PartialEq, Eq, Structural)]
pub enum MachineInfoMessage {
    KernelVersionClick,
}

#[derive(Clone, Copy, PartialEq, Eq, Structural)]
pub enum CPUMemoryMessage {
    Tick,
    CPUModelClick,
    ProcessTableClick,
}

#[derive(Clone, Copy, PartialEq, Eq, Structural)]
pub enum DiskMessage {
    Tick,
    ModelClick,
}

#[derive(Clone, Copy, PartialEq, Eq, Structural)]
pub enum GPUMessage {
    Tick,
    ModelClick,
}

} // verus!
