//! The 64x32 monochrome frame buffer: one byte per pixel, value 0 or 1,
//! addressed row-major by `y * 64 + x`.

use vstd::prelude::*;

use crate::error::InterpreterError;

verus! {

/// Number of pixels in the frame buffer (64 columns by 32 rows).
pub const BUFFER_SIZE: usize = 2048;
/// Number of pixel columns.
pub const FRAME_WIDTH: usize = 64;
/// Number of pixel rows.
pub const FRAME_HEIGHT: usize = 32;

/// The row-major linear index of pixel `(x, y)`.
pub fn px_index(x: u16, y: u16) -> (r: usize)
    requires
        y * 64 + x <= u16::MAX,
    ensures
        r == y * 64 + x,
{
    ((y * 64) + x) as usize
}

/// What reading pixel `index` returns: whether it is lit, or the index
/// error when `index` is out of range.
pub open spec fn spec_get_i(fb: Seq<u8>, index: u16) -> Result<bool, InterpreterError> {
    if index < BUFFER_SIZE {
        Ok(fb[index as int] == 1)
    } else {
        Err(InterpreterError::InvalidFrameBufferIndex(index))
    }
}

/// Frame buffer and result after setting pixel `index`: updated to 1 or 0
/// in range, unchanged with the index error otherwise.
pub open spec fn spec_set_i(fb: Seq<u8>, index: u16, value: bool) -> (Seq<u8>, Result<
    (),
    InterpreterError,
>) {
    if index < BUFFER_SIZE {
        (
            fb.update(
                index as int,
                if value {
                    1u8
                } else {
                    0u8
                },
            ),
            Ok(()),
        )
    } else {
        (fb, Err(InterpreterError::InvalidFrameBufferIndex(index)))
    }
}

/// A frame buffer with every pixel off.
pub open spec fn spec_cleared() -> Seq<u8> {
    Seq::new(BUFFER_SIZE as nat, |k: int| 0u8)
}

/// The pixel grid, stored as a fixed-size byte vector.
pub struct FrameBuffer(Vec<u8>);

impl View for FrameBuffer {
    type V = Seq<u8>;

    closed spec fn view(&self) -> Seq<u8> {
        self.0@
    }
}

impl FrameBuffer {
    /// The buffer always holds exactly 2048 pixels, each 0 or 1.
    pub open spec fn wf(&self) -> bool {
        &&& self@.len() == BUFFER_SIZE
        &&& forall|k: int| 0 <= k < BUFFER_SIZE ==> self@[k] == 0 || self@[k] == 1
    }

    /// Reads the pixel at linear index `index`.
    pub fn get_i(&self, index: u16) -> (r: Result<bool, InterpreterError>)
        requires
            self.wf(),
        ensures
            r == spec_get_i(self@, index),
    {
        if (index as usize) < BUFFER_SIZE {
            Ok(self.0[index as usize] == 1)
        } else {
            Err(InterpreterError::InvalidFrameBufferIndex(index))
        }
    }

    /// Sets the pixel at linear index `index` to on (`true`) or off.
    pub fn set_i(&mut self, index: u16, value: bool) -> (r: Result<(), InterpreterError>)
        requires
            old(self).wf(),
        ensures
            final(self).wf(),
            (final(self)@, r) == spec_set_i(old(self)@, index, value),
    {
        if (index as usize) < BUFFER_SIZE {
            self.0[index as usize] = if value {
                1
            } else {
                0
            };
            Ok(())
        } else {
            Err(InterpreterError::InvalidFrameBufferIndex(index))
        }
    }

    /// Reads the pixel at `(x, y)` through its linear index.
    pub fn get_xy(&self, x: u16, y: u16) -> (r: Result<bool, InterpreterError>)
        requires
            self.wf(),
            y * 64 + x <= u16::MAX,
        ensures
            r == spec_get_i(self@, (y * 64 + x) as u16),
    {
        self.get_i((y * 64) + x)
    }

    /// Sets the pixel at `(x, y)` through its linear index.
    pub fn set_xy(&mut self, x: u16, y: u16, value: bool) -> (r: Result<(), InterpreterError>)
        requires
            old(self).wf(),
            y * 64 + x <= u16::MAX,
        ensures
            final(self).wf(),
            (final(self)@, r) == spec_set_i(old(self)@, (y * 64 + x) as u16, value),
    {
        self.set_i((y * 64) + x, value)
    }

    /// The raw pixel buffer, read-only, for rendering.
    pub fn frame(&self) -> (r: &[u8])
        ensures
            r@ == self@,
    {
        self.0.as_slice()
    }

    /// Turns every pixel off.
    pub fn clear(&mut self)
        ensures
            final(self).wf(),
            final(self)@ == spec_cleared(),
    {
        self.0 = vec![0u8; BUFFER_SIZE];
        proof {
            assert(self@ =~= spec_cleared());
        }
    }
}

impl Default for FrameBuffer {
    /// A frame buffer with every pixel off.
    fn default() -> (fb: FrameBuffer)
        ensures
            fb.wf(),
            fb@ == spec_cleared(),
    {
        let fb = FrameBuffer(vec![0u8; BUFFER_SIZE]);
        proof {
            assert(fb@ =~= spec_cleared());
        }
        fb
    }
}

/// A cleared frame buffer has all 2048 pixels off.
pub proof fn lemma_cleared_all_zero()
    ensures
        spec_cleared().len() == BUFFER_SIZE,
        forall|k: int| 0 <= k < BUFFER_SIZE ==> spec_cleared()[k] == 0,
{
}

} // verus!
