//! Debug flag classes and the module parameters that feed them.

use vstd::prelude::*;

verus! {

/// Load-time parameters of the driver.
#[derive(Clone, Copy, Debug, PartialEq, Eq, Structural)]
pub struct ModuleParameters {
    /// Bitmask; each bit enables one debug class.
    pub debug_flags: u64,
    /// Firmware fault-control policy register.
    pub fault_control: u32,
    /// Initial tile-vertex-buffer size in blocks.
    pub initial_tvb_size: usize,
    /// Nonzero fully isolates GPU contexts at a performance cost.
    pub robust_isolation: u32,
}

impl Default for ModuleParameters {
    fn default() -> (r: Self)
        ensures
            r == (ModuleParameters {
                debug_flags: 0,
                fault_control: 0x0b,
                initial_tvb_size: 8,
                robust_isolation: 0,
            }),
    {
        ModuleParameters { debug_flags: 0, fault_control: 0x0b, initial_tvb_size: 8, robust_isolation: 0 }
    }
}

/// Debug flag classes, by bit index.
#[derive(Clone, Copy, Debug, PartialEq, Eq, Structural)]
pub enum DebugFlags {
    Mmu,
    PgTable,
    Alloc,
    Gem,
    Object,
    Event,
    Buffer,
    WorkQueue,
    Gpu,
    File,
    Queue,
    Render,
    Compute,
    Errors,
    MemStats,
    TVBStats,
    FwLogCh,
    KTraceCh,
    StatsCh,
    EventCh,
    PipeCh,
    DeviceControlCh,
    FwCtlCh,
    FillAllocations,
    DebugAllocations,
    DetectOverflows,
    ForceCPUMaps,
    ConservativeTlbi,
    KeepGpuPowered,
    WaitForPowerOff,
    NoGpuRecovery,
    DisableClustering,
    Debug0,
    Debug1,
    Debug2,
    Debug3,
    Debug4,
    Debug5,
    Debug6,
    Debug7,
    VerboseFaults,
    AllowUnknownOverrides,
    OopsOnGpuCrash,
}

impl DebugFlags {
    /// The bit index of this debug class.
    pub open spec fn spec_bit(self) -> u64 {
        match self {
            DebugFlags::Mmu => 0,
            DebugFlags::PgTable => 1,
            DebugFlags::Alloc => 2,
            DebugFlags::Gem => 3,
            DebugFlags::Object => 4,
            DebugFlags::Event => 5,
            DebugFlags::Buffer => 6,
            DebugFlags::WorkQueue => 7,
            DebugFlags::Gpu => 8,
            DebugFlags::File => 9,
            DebugFlags::Queue => 10,
            DebugFlags::Render => 11,
            DebugFlags::Compute => 12,
            DebugFlags::Errors => 13,
            DebugFlags::MemStats => 14,
            DebugFlags::TVBStats => 15,
            DebugFlags::FwLogCh => 16,
            DebugFlags::KTraceCh => 17,
            DebugFlags::StatsCh => 18,
            DebugFlags::EventCh => 19,
            DebugFlags::PipeCh => 20,
            DebugFlags::DeviceControlCh => 21,
            DebugFlags::FwCtlCh => 22,
            DebugFlags::FillAllocations => 32,
            DebugFlags::DebugAllocations => 33,
            DebugFlags::DetectOverflows => 34,
            DebugFlags::ForceCPUMaps => 35,
            DebugFlags::ConservativeTlbi => 36,
            DebugFlags::KeepGpuPowered => 37,
            DebugFlags::WaitForPowerOff => 38,
            DebugFlags::NoGpuRecovery => 39,
            DebugFlags::DisableClustering => 40,
            DebugFlags::Debug0 => 48,
            DebugFlags::Debug1 => 49,
            DebugFlags::Debug2 => 50,
            DebugFlags::Debug3 => 51,
            DebugFlags::Debug4 => 52,
            DebugFlags::Debug5 => 53,
            DebugFlags::Debug6 => 54,
            DebugFlags::Debug7 => 55,
            DebugFlags::VerboseFaults => 61,
            DebugFlags::AllowUnknownOverrides => 62,
            DebugFlags::OopsOnGpuCrash => 63,
        }
    }

    pub fn bit(&self) -> (r: u64)
        ensures
            r == self.spec_bit(),
    {
        match self {
            DebugFlags::Mmu => 0,
            DebugFlags::PgTable => 1,
            DebugFlags::Alloc => 2,
            DebugFlags::Gem => 3,
            DebugFlags::Object => 4,
            DebugFlags::Event => 5,
            DebugFlags::Buffer => 6,
            DebugFlags::WorkQueue => 7,
            DebugFlags::Gpu => 8,
            DebugFlags::File => 9,
            DebugFlags::Queue => 10,
            DebugFlags::Render => 11,
            DebugFlags::Compute => 12,
            DebugFlags::Errors => 13,
            DebugFlags::MemStats => 14,
            DebugFlags::TVBStats => 15,
            DebugFlags::FwLogCh => 16,
            DebugFlags::KTraceCh => 17,
            DebugFlags::StatsCh => 18,
            DebugFlags::EventCh => 19,
            DebugFlags::PipeCh => 20,
            DebugFlags::DeviceControlCh => 21,
            DebugFlags::FwCtlCh => 22,
            DebugFlags::FillAllocations => 32,
            DebugFlags::DebugAllocations => 33,
            DebugFlags::DetectOverflows => 34,
            DebugFlags::ForceCPUMaps => 35,
            DebugFlags::ConservativeTlbi => 36,
            DebugFlags::KeepGpuPowered => 37,
            DebugFlags::WaitForPowerOff => 38,
            DebugFlags::NoGpuRecovery => 39,
            DebugFlags::DisableClustering => 40,
            DebugFlags::Debug0 => 48,
            DebugFlags::Debug1 => 49,
            DebugFlags::Debug2 => 50,
            DebugFlags::Debug3 => 51,
            DebugFlags::Debug4 => 52,
            DebugFlags::Debug5 => 53,
            DebugFlags::Debug6 => 54,
            DebugFlags::Debug7 => 55,
            DebugFlags::VerboseFaults => 61,
            DebugFlags::AllowUnknownOverrides => 62,
            DebugFlags::OopsOnGpuCrash => 63,
        }
    }
}

/// The cached global debug flags.
#[derive(Clone, Copy, Debug, PartialEq, Eq, Structural)]
pub struct DebugState {
    pub flags: u64,
}

impl DebugState {
    pub fn new() -> (r: DebugState)
        ensures
            r.flags == 0,
    {
        DebugState { flags: 0 }
    }

    /// Update the cached debug flags from the module parameter.
    pub fn update_debug_flags(&mut self, params: &ModuleParameters)
        ensures
            final(self).flags == params.debug_flags,
    {
        self.flags = params.debug_flags;
    }

    /// Whether debug output is enabled for a given flag.
    pub fn debug_enabled(&self, flag: DebugFlags) -> (r: bool)
        ensures
            r == (self.flags & (1u64 << flag.spec_bit()) != 0),
    {
        self.flags & (1u64 << flag.bit()) != 0
    }
}

} // verus!
