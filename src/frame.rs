//! Pixel data: the copy out of a mapped GPU resource whose rows may be
//! padded, and the frame buffer that holds the latest frame of a source.
use vstd::prelude::*;

verus! {

/// Bytes per RGBA8 pixel.
pub const BYTES_PER_PIXEL: usize = 4;

/// The first `h` rows of `row` bytes each, taken from `src` where row `y`
/// starts at `y * pitch`, laid end to end.
pub open spec fn tight_rows(src: Seq<u8>, pitch: int, row: int, h: int) -> Seq<u8>
    decreases h,
{
    if h <= 0 {
        Seq::empty()
    } else {
        tight_rows(src, pitch, row, h - 1) + src.subrange((h - 1) * pitch, (h - 1) * pitch + row)
    }
}

/// A mapped resource of `height` rows spaced `pitch` bytes apart holds
/// `row` bytes in each of them.
pub open spec fn rows_fit(len: int, pitch: int, row: int, height: int) -> bool {
    &&& 0 <= row <= pitch
    &&& height > 0 ==> (height - 1) * pitch + row <= len
}

pub proof fn lemma_tight_rows_len(src: Seq<u8>, pitch: int, row: int, h: int)
    requires
        0 <= row <= pitch,
        h >= 0,
        h > 0 ==> (h - 1) * pitch + row <= src.len(),
    ensures
        tight_rows(src, pitch, row, h).len() == h * row,
    decreases h,
{
    if h > 0 {
        assert((h - 2) * pitch + row <= (h - 1) * pitch + row) by (nonlinear_arith)
            requires
                pitch >= 0,
        ;
        assert((h - 1) * pitch >= 0) by (nonlinear_arith)
            requires
                pitch >= 0,
                h >= 1,
        ;
        lemma_tight_rows_len(src, pitch, row, h - 1);
        assert((h - 1) * row + row == h * row) by (nonlinear_arith);
    } else {
        assert(h * row == 0) by (nonlinear_arith)
            requires
                h == 0,
        ;
    }
}

/// Byte `x` of row `y` of the copy is byte `x` of row `y` of the source:
/// the copy honours the source's row pitch.
pub proof fn lemma_tight_rows_index(src: Seq<u8>, pitch: int, row: int, h: int, y: int, x: int)
    requires
        0 <= row <= pitch,
        h > 0,
        (h - 1) * pitch + row <= src.len(),
        0 <= y < h,
        0 <= x < row,
    ensures
        tight_rows(src, pitch, row, h)[y * row + x] == src[y * pitch + x],
    decreases h,
{
    assert((h - 1) * pitch >= 0) by (nonlinear_arith)
        requires
            pitch >= 0,
            h >= 1,
    ;
    assert((h - 2) * pitch + row <= (h - 1) * pitch + row) by (nonlinear_arith)
        requires
            pitch >= 0,
    ;
    lemma_tight_rows_len(src, pitch, row, h - 1);
    if y < h - 1 {
        assert(y * row + x < (h - 1) * row) by (nonlinear_arith)
            requires
                0 <= y,
                y + 1 <= h - 1,
                0 <= x < row,
        ;
        lemma_tight_rows_index(src, pitch, row, h - 1, y, x);
    } else {
        assert(y * row + x - (h - 1) * row == x);
    }
}

/// Copies `height` rows of `width` pixels out of a mapped resource whose
/// rows start `row_pitch` bytes apart, dropping the padding at row ends.
pub fn copy_rows(src: &[u8], row_pitch: usize, width: u32, height: u32) -> (r: Vec<u8>)
    requires
        rows_fit(src@.len() as int, row_pitch as int, width * 4, height as int),
    ensures
        r@ == tight_rows(src@, row_pitch as int, width * 4, height as int),
        r@.len() == width * height * 4,
{
    let row: usize = (width as usize) * BYTES_PER_PIXEL;
    let len = src.len();
    let mut out: Vec<u8> = Vec::new();
    let mut y: usize = 0;
    while y < height as usize
        invariant
            y <= height,
            row == width * 4,
            len == src@.len(),
            rows_fit(src@.len() as int, row_pitch as int, row as int, height as int),
            out@ == tight_rows(src@, row_pitch as int, row as int, y as int),
        decreases height - y,
    {
        assert(y * row_pitch <= (height - 1) * row_pitch) by (nonlinear_arith)
            requires
                y + 1 <= height,
        ;
        let base = y * row_pitch;
        let mut x: usize = 0;
        while x < row
            invariant
                x <= row,
                base + row <= len,
                len == src@.len(),
                out@ == tight_rows(src@, row_pitch as int, row as int, y as int) + src@.subrange(
                    base as int,
                    base + x,
                ),
            decreases row - x,
        {
            out.push(src[base + x]);
            x = x + 1;
            assert(out@ =~= tight_rows(src@, row_pitch as int, row as int, y as int)
                + src@.subrange(base as int, base + x));
        }
        y = y + 1;
    }
    proof {
        lemma_tight_rows_len(src@, row_pitch as int, row as int, height as int);
        assert(height * row == width * height * 4) by (nonlinear_arith)
            requires
                row == width * 4,
        ;
    }
    out
}

/// What a frame buffer holds: tightly packed RGBA8 pixels and their size.
pub struct FrameView {
    pub pixels: Seq<u8>,
    pub width: u32,
    pub height: u32,
}

/// The latest frame received for one source.
pub struct FrameBuffer {
    pixels: Vec<u8>,
    width: u32,
    height: u32,
}

impl View for FrameBuffer {
    type V = FrameView;

    closed spec fn view(&self) -> FrameView {
        FrameView { pixels: self.pixels@, width: self.width, height: self.height }
    }
}

impl FrameBuffer {
    /// The pixel data holds exactly `width * height` pixels.
    pub open spec fn wf(&self) -> bool {
        self@.pixels.len() == self@.width * self@.height * 4
    }

    /// A 1x1 opaque black frame, shown until the first frame arrives.
    pub fn placeholder() -> (r: FrameBuffer)
        ensures
            r.wf(),
            r@.width == 1,
            r@.height == 1,
            r@.pixels == seq![0u8, 0u8, 0u8, 255u8],
    {
        let mut pixels: Vec<u8> = Vec::new();
        pixels.push(0u8);
        pixels.push(0u8);
        pixels.push(0u8);
        pixels.push(255u8);
        assert(pixels@ =~= seq![0u8, 0u8, 0u8, 255u8]);
        let r = FrameBuffer { pixels, width: 1, height: 1 };
        assert(r@.width * r@.height * 4 == 4) by (nonlinear_arith)
            requires
                r@.width == 1 && r@.height == 1,
        ;
        r
    }

    /// Replaces the whole frame when `pixels` holds exactly `width * height`
    /// pixels; leaves it untouched otherwise.
    pub fn write_frame(&mut self, pixels: Vec<u8>, width: u32, height: u32) -> (r: bool)
        requires
            old(self).wf(),
        ensures
            final(self).wf(),
            r == (pixels@.len() == width * height * 4),
            r ==> final(self)@ == (FrameView { pixels: pixels@, width, height }),
            !r ==> final(self)@ == old(self)@,
    {
        let n = pixels.len();
        let area = match (width as usize).checked_mul(height as usize) {
            Some(a) => a,
            None => return false,
        };
        let bytes = match area.checked_mul(BYTES_PER_PIXEL) {
            Some(b) => b,
            None => return false,
        };
        if n != bytes {
            return false;
        }
        self.pixels = pixels;
        self.width = width;
        self.height = height;
        true
    }

    /// An owned copy of the current frame.
    pub fn snapshot(&self) -> (r: FrameBuffer)
        requires
            self.wf(),
        ensures
            r.wf(),
            r@ == self@,
    {
        let mut pixels: Vec<u8> = Vec::new();
        let mut i: usize = 0;
        while i < self.pixels.len()
            invariant
                i <= self.pixels@.len(),
                pixels@ == self.pixels@.subrange(0, i as int),
            decreases self.pixels@.len() - i,
        {
            pixels.push(self.pixels[i]);
            i = i + 1;
            assert(pixels@ =~= self.pixels@.subrange(0, i as int));
        }
        assert(pixels@ =~= self.pixels@);
        FrameBuffer { pixels, width: self.width, height: self.height }
    }

    pub fn width(&self) -> (r: u32)
        ensures
            r == self@.width,
    {
        self.width
    }

    pub fn height(&self) -> (r: u32)
        ensures
            r == self@.height,
    {
        self.height
    }

    pub fn pixels(&self) -> (r: &[u8])
        ensures
            r@ == self@.pixels,
    {
        self.pixels.as_slice()
    }
}

} // verus!
