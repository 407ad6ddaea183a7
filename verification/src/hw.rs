//! Static and dynamic hardware configuration, and the validation the
//! driver performs against the identity registers at probe time.

use vstd::prelude::*;
use crate::DriverError;

verus! {

/// The two firmware binary-compatibility envelopes the core switches
/// between.
#[derive(Clone, Copy, Debug, PartialEq, Eq, Structural)]
pub enum FwVersionClass {
    PreV13_0B4,
    V13_0B4Plus,
}

/// The two GPU-generation layout envelopes.
#[derive(Clone, Copy, Debug, PartialEq, Eq, Structural)]
pub enum GpuGenClass {
    PreG14X,
    G14XPlus,
}

/// Static per-SoC configuration.
#[derive(Clone, Copy, Debug, PartialEq, Eq, Structural)]
pub struct HwConfig {
    pub fw_version: FwVersionClass,
    pub gen_class: GpuGenClass,
    /// Expected GPU generation number (13, 14, ...).
    pub gpu_gen: u32,
    /// Expected GPU variant code.
    pub gpu_variant: u32,
    pub max_num_clusters: u32,
    pub max_num_cores: u32,
    pub max_num_frags: u32,
    pub max_num_gps: u32,
    pub num_dies: u32,
}

/// GPU identity as read from the hardware registers.
#[derive(Clone, Copy, Debug, PartialEq, Eq, Structural)]
pub struct GpuIdInfo {
    pub gpu_gen: u32,
    pub gpu_variant: u32,
    pub num_clusters: u32,
    pub num_cores: u32,
    pub num_frags: u32,
    pub num_gps: u32,
    pub total_active_cores: u32,
}

/// Dynamic configuration assembled at probe time.
#[derive(Clone, Copy, Debug, PartialEq, Eq, Structural)]
pub struct DynConfig {
    pub id: GpuIdInfo,
    /// Base of the page-table translation-table the firmware uses.
    pub uat_ttb_base: u64,
}

/// Validate the GPU identity against the static configuration and
/// assemble the dynamic configuration.
///
/// A generation or variant mismatch, or any count above the static
/// maximum, is a fatal probe error.
pub fn make_dyncfg(cfg: &HwConfig, gpu_id: GpuIdInfo, uat_ttb_base: u64) -> (r: Result<
    DynConfig,
    DriverError,
>)
    ensures
        ({
            let bad = gpu_id.gpu_gen != cfg.gpu_gen || gpu_id.gpu_variant != cfg.gpu_variant
                || gpu_id.num_clusters > cfg.max_num_clusters || gpu_id.num_cores
                > cfg.max_num_cores || gpu_id.num_frags > cfg.max_num_frags || gpu_id.num_gps
                > cfg.max_num_gps;
            &&& (r is Err <==> bad)
            &&& (r is Err ==> r == Err::<DynConfig, DriverError>(DriverError::Io))
            &&& (r matches Ok(d) ==> d == (DynConfig { id: gpu_id, uat_ttb_base }))
        }),
{
    if gpu_id.gpu_gen != cfg.gpu_gen || gpu_id.gpu_variant != cfg.gpu_variant {
        return Err(DriverError::Io);
    }
    if gpu_id.num_clusters > cfg.max_num_clusters {
        return Err(DriverError::Io);
    }
    if gpu_id.num_cores > cfg.max_num_cores {
        return Err(DriverError::Io);
    }
    if gpu_id.num_frags > cfg.max_num_frags {
        return Err(DriverError::Io);
    }
    if gpu_id.num_gps > cfg.max_num_gps {
        return Err(DriverError::Io);
    }
    Ok(DynConfig { id: gpu_id, uat_ttb_base })
}

} // verus!
