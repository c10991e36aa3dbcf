//! The bus holds hardware that sits beside the CPU core. For now that is
//! only the video RAM placeholder: a fixed-size buffer that is not yet
//! reached by the execute path and is not mapped into the address space.

use vstd::prelude::*;

verus! {

/// Number of 32-bit cells in the video RAM placeholder.
pub const VRAM_SIZE: usize = 24576;

/// Hardware beyond the CPU core that the console may use. Currently only
/// the video RAM placeholder.
pub struct Bus {
    video_ram: Vec<u32>,
}

impl View for Bus {
    type V = Seq<u32>;

    closed spec fn view(&self) -> Seq<u32> {
        self.video_ram@
    }
}

impl Bus {
    /// The backing buffer always has its architecture-defined size.
    pub open spec fn wf(&self) -> bool {
        self@.len() == VRAM_SIZE
    }
}

impl Default for Bus {
    /// A bus whose video RAM is all zeroes.
    fn default() -> (r: Self)
        ensures
            r.wf(),
            forall|i: int| 0 <= i < VRAM_SIZE ==> r@[i] == 0u32,
    {
        let mut cells: Vec<u32> = Vec::new();
        let mut k: usize = 0;
        while k < VRAM_SIZE
            invariant
                k <= VRAM_SIZE,
                cells@.len() == k,
                forall|i: int| 0 <= i < k ==> cells@[i] == 0u32,
            decreases VRAM_SIZE - k,
        {
            cells.push(0);
            k = k + 1;
        }
        Bus { video_ram: cells }
    }
}

} // verus!
