use crate::resource::{GpuUav, Ref};
use crate::resource_view::RgUav;
use vstd::prelude::*;

verus! {

/// Binds a write reference as a 2D texture view.
pub fn texture_2d(rg_ref: Ref<GpuUav>) -> (r: RgUav)
    ensures
        r.rg_ref == rg_ref,
{
    RgUav { rg_ref }
}

} // verus!
