use crate::resource::{GpuSrv, Ref};
use crate::resource_view::RgSrv;
use vstd::prelude::*;

verus! {

/// Binds a read reference as a 2D texture view.
pub fn texture_2d(rg_ref: Ref<GpuSrv>) -> (r: RgSrv)
    ensures
        r.rg_ref == rg_ref,
{
    RgSrv { rg_ref }
}

} // verus!
