//! Filling an RGBA frame buffer: 4 bytes per pixel, row-major, top to bottom.
use vstd::prelude::*;
use crate::color::{channel, escape_color, Color};

verus! {

/// Why a frame buffer could not be filled.
#[derive(Debug, Clone, Copy, PartialEq, Eq, Structural)]
pub enum FrameError {
    /// The buffer is not `4 * width * height` bytes long.
    BufferSizeMismatch,
    /// There is not exactly one escape count per pixel.
    CountMismatch,
}

/// The bytes of a frame whose pixel `i` is the gray of `counts[i]`.
pub open spec fn gray_frame(counts: Seq<usize>) -> Seq<u8> {
    Seq::new(4 * counts.len(), |j: int| channel(escape_color(counts[j / 4] as int), j))
}

/// The bytes of a frame whose pixel `i` is white when `i % 100 <= 30` and
/// transparent black otherwise.
pub open spec fn stripe_byte(j: int) -> u8 {
    if (j / 4) % 100 <= 30 {
        0xff
    } else {
        0
    }
}

/// The column and row of pixel `index` in a grid `width` pixels wide.
pub fn pixel_coords(index: u32, width: u32) -> (xy: (u32, u32))
    requires
        width > 0,
    ensures
        xy.0 == index % width,
        xy.1 == index / width,
{
    (index % width, index / width)
}

/// Writes the gray of each escape count into the matching pixel of `frame`.
/// Fails, writing nothing, when `frame` is not `4 * width * height` bytes
/// long or `counts` does not hold one count per pixel.
pub fn fill_escape_counts(frame: &mut [u8], width: u32, height: u32, counts: &[usize]) -> (res:
    Result<(), FrameError>)
    ensures
        old(frame)@.len() != 4 * width * height ==> res == Err::<(), FrameError>(
            FrameError::BufferSizeMismatch,
        ) && final(frame)@ == old(frame)@,
        old(frame)@.len() == 4 * width * height && counts@.len() != width * height ==> res
            == Err::<(), FrameError>(FrameError::CountMismatch) && final(frame)@ == old(frame)@,
        old(frame)@.len() == 4 * width * height && counts@.len() == width * height ==> res
            == Ok::<(), FrameError>(()) && final(frame)@ == gray_frame(counts@),
{
    proof {
        assert((width as int) * (height as int) <= 0xffff_ffff * 0xffff_ffff) by (nonlinear_arith)
            requires
                width <= 0xffff_ffff,
                height <= 0xffff_ffff,
        ;
    }
    let pixels: u128 = (width as u128) * (height as u128);
    assert(4 * pixels == 4 * width * height) by (nonlinear_arith)
        requires
            pixels == width * height,
    ;
    if frame.len() as u128 != 4 * pixels {
        return Err(FrameError::BufferSizeMismatch);
    }
    if counts.len() as u128 != pixels {
        return Err(FrameError::CountMismatch);
    }
    let n = counts.len();
    let mut i: usize = 0;
    while i < n
        invariant
            n == counts@.len(),
            frame@.len() == 4 * n,
            frame@.len() <= usize::MAX,
            i <= n,
            forall|j: int| 0 <= j < 4 * i ==> frame@[j] == gray_frame(counts@)[j],
        decreases n - i,
    {
        let c = Color::from_escape(counts[i]);
        frame[4 * i] = c.r;
        frame[4 * i + 1] = c.g;
        frame[4 * i + 2] = c.b;
        frame[4 * i + 3] = c.a;
        assert forall|j: int| 4 * i <= j < 4 * i + 4 implies frame@[j] == gray_frame(counts@)[j] by {
            assert(j / 4 == i as int);
        }
        i = i + 1;
    }
    assert(frame@ =~= gray_frame(counts@));
    Ok(())
}

/// Paints every whole pixel of `frame` with `color`; a trailing partial
/// pixel is left as it was.
pub fn fill_solid(frame: &mut [u8], color: &Color)
    ensures
        final(frame)@.len() == old(frame)@.len(),
        forall|j: int|
            0 <= j < 4 * (old(frame)@.len() / 4) ==> #[trigger] final(frame)@[j] == channel(*color, j),
        forall|j: int|
            4 * (old(frame)@.len() / 4) <= j < old(frame)@.len() ==> #[trigger] final(frame)@[j]
                == old(frame)@[j],
{
    let n = frame.len() / 4;
    let mut i: usize = 0;
    while i < n
        invariant
            n == old(frame)@.len() / 4,
            frame@.len() == old(frame)@.len(),
            frame@.len() <= usize::MAX,
            i <= n,
            forall|j: int| 0 <= j < 4 * i ==> #[trigger] frame@[j] == channel(*color, j),
            forall|j: int| 4 * n <= j < frame@.len() ==> #[trigger] frame@[j] == old(frame)@[j],
        decreases n - i,
    {
        frame[4 * i] = color.r;
        frame[4 * i + 1] = color.g;
        frame[4 * i + 2] = color.b;
        frame[4 * i + 3] = color.a;
        i = i + 1;
    }
}

/// Paints a test pattern: pixel `i` is white (all four bytes 0xff) when
/// `i % 100 <= 30` and transparent black otherwise. A trailing partial pixel
/// is left as it was.
pub fn fill_stripes(frame: &mut [u8])
    ensures
        final(frame)@.len() == old(frame)@.len(),
        forall|j: int|
            0 <= j < 4 * (old(frame)@.len() / 4) ==> #[trigger] final(frame)@[j] == stripe_byte(j),
        forall|j: int|
            4 * (old(frame)@.len() / 4) <= j < old(frame)@.len() ==> #[trigger] final(frame)@[j]
                == old(frame)@[j],
{
    let n = frame.len() / 4;
    let mut i: usize = 0;
    while i < n
        invariant
            n == old(frame)@.len() / 4,
            frame@.len() == old(frame)@.len(),
            frame@.len() <= usize::MAX,
            i <= n,
            forall|j: int| 0 <= j < 4 * i ==> #[trigger] frame@[j] == stripe_byte(j),
            forall|j: int| 4 * n <= j < frame@.len() ==> #[trigger] frame@[j] == old(frame)@[j],
        decreases n - i,
    {
        let v: u8 = if i % 100 <= 30 {
            0xff
        } else {
            0
        };
        frame[4 * i] = v;
        frame[4 * i + 1] = v;
        frame[4 * i + 2] = v;
        frame[4 * i + 3] = v;
        assert forall|j: int| 4 * i <= j < 4 * i + 4 implies stripe_byte(j) == v by {
            assert(j / 4 == i as int);
        }
        i = i + 1;
    }
}

} // verus!
