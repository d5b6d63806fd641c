//! An adaptor that upsamples the 64x32 display buffer to a 320x240 panel:
//! one 16-bit pixel word per call, row-major, 0xFFFF for lit and 0x0000
//! for dark, each buffer pixel repeated five times across and seven times
//! down, followed by a run of dark filler words, then the end.

use vstd::prelude::*;

verus! {

/// Width of the target panel, in pixels.
pub const PANEL_WIDTH: u32 = 320;

/// Height of the target panel, in pixels.
pub const PANEL_HEIGHT: u32 = 240;

/// How many panel columns one buffer pixel spans.
pub const SCALE_X: u32 = 5;

/// How many panel rows one buffer pixel spans.
pub const SCALE_Y: u32 = 7;

/// Pixel words of the live area: the 64x32 buffer upsampled to 320x224.
pub const ACTIVE_WORDS: u32 = 320 * 224;

/// Dark filler words emitted after the live area. The scan's row counter
/// reaches the filler at its last repeat value, so the filler run stops
/// `SCALE_Y` words short of the remaining sixteen full panel rows.
pub const FILLER_WORDS: u32 = (240 - 224) * 320 - 7;

/// Total pixel words the adaptor emits before reporting the end.
pub const TOTAL_WORDS: u32 = ACTIVE_WORDS + FILLER_WORDS;

/// The word the adaptor emits at position `idx` of its scan over `grid`:
/// a live pixel, a dark filler word, or `None` once the scan is spent.
pub open spec fn out_spec(grid: Seq<bool>, idx: int) -> Option<u16> {
    if idx < ACTIVE_WORDS {
        let row = (idx / 320) / 7;
        let col = (idx % 320) / 5;
        if grid[row * 64 + col] {
            Some(0xFFFFu16)
        } else {
            Some(0x0000u16)
        }
    } else if idx < TOTAL_WORDS {
        Some(0x0000u16)
    } else {
        None
    }
}

/// A scan over a snapshot of the display buffer, emitting one panel pixel
/// word per `next` call.
pub struct OutputData {
    buffer: Vec<bool>,
    idx: u32,
}

impl OutputData {
    /// The snapshot being scanned, row-major 64x32.
    pub closed spec fn spec_buffer(&self) -> Seq<bool> {
        self.buffer@
    }

    /// How many words have been emitted so far.
    pub closed spec fn spec_idx(&self) -> u32 {
        self.idx
    }

    /// The snapshot has one cell per buffer pixel and the scan position
    /// never passes the end.
    pub open spec fn wf(&self) -> bool {
        self.spec_buffer().len() == 2048 && self.spec_idx() <= TOTAL_WORDS
    }

    /// Start a scan over a snapshot of `buffer`.
    pub fn new(buffer: &Vec<bool>) -> (o: OutputData)
        requires
            buffer@.len() == 2048,
        ensures
            o.wf(),
            o.spec_buffer() == buffer@,
            o.spec_idx() == 0,
    {
        let mut snapshot: Vec<bool> = Vec::new();
        let mut i: usize = 0;
        while i < buffer.len()
            invariant
                buffer@.len() == 2048,
                i <= 2048,
                snapshot@.len() == i,
                forall|j: int| 0 <= j < i ==> snapshot@[j] == buffer@[j],
            decreases buffer@.len() - i,
        {
            snapshot.push(buffer[i]);
            i += 1;
        }
        proof {
            assert(snapshot@ =~= buffer@);
        }
        OutputData { buffer: snapshot, idx: 0 }
    }

    /// The next panel pixel word, or `None` once the scan is spent; spent
    /// scans stay spent.
    pub fn next(&mut self) -> (r: Option<u16>)
        requires
            old(self).wf(),
        ensures
            final(self).wf(),
            final(self).spec_buffer() == old(self).spec_buffer(),
            r == out_spec(old(self).spec_buffer(), old(self).spec_idx() as int),
            final(self).spec_idx() == (if r is Some {
                old(self).spec_idx() + 1
            } else {
                old(self).spec_idx() as int
            }),
    {
        let idx = self.idx;
        if idx < ACTIVE_WORDS {
            let rep = idx / 320;
            proof {
                assert(idx < 71680 ==> idx / 320 < 224) by (nonlinear_arith);
                assert(idx / 320 < 224 ==> (idx / 320) / 7 < 32) by (nonlinear_arith);
                assert(idx % 320 < 320) by (nonlinear_arith);
                assert(idx % 320 < 320 ==> (idx % 320) / 5 < 64) by (nonlinear_arith);
            }
            let row = (rep / 7) as usize;
            let col = ((idx % 320) / 5) as usize;
            self.idx = idx + 1;
            if self.buffer[row * 64 + col] {
                Some(0xFFFF)
            } else {
                Some(0x0000)
            }
        } else if idx < TOTAL_WORDS {
            self.idx = idx + 1;
            Some(0x0000)
        } else {
            None
        }
    }
}

} // verus!
