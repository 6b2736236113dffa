//! Capture buffers and the versioned views over their dirty rectangles.
use vstd::prelude::*;

use crate::chunks::{chunks_of, copy_from_slice, put_bytes, with_profile};
use crate::ppm::{encode_ppm, lemma_rgb_prefix_len, ppm_body, ppm_header, rgb_of};
use vstd::slice::slice_subrange;

verus! {

/// The number of rectangle slots that the driver may fill in one capture.
pub const MAX_RECTS_BUFFER_LEN: usize = 16;

/// Bytes per pixel: pixels are stored as blue, green, red, alpha.
pub const BGRA_DEPTH: usize = 4;

/// The identifier under which a buffer is registered with a handle.
#[derive(Debug, Copy, Clone, PartialEq, Eq, Structural, Hash, PartialOrd, Ord)]
pub struct BufferID(pub i32);

impl BufferID {
    pub fn new(id: i32) -> (r: BufferID)
        ensures
            r.0 == id,
    {
        BufferID(id)
    }
}

/// A display mode as the driver reports it.
#[derive(Debug, Copy, Clone, PartialEq, Eq, Structural)]
pub struct Mode {
    pub width: i32,
    pub height: i32,
    pub refresh_rate: i32,
    pub bits_per_pixel: i32,
    pub pixel_format: u32,
}

/// A changed region as the driver writes it: corners `(x1, y1)` and `(x2, y2)`.
#[derive(Debug, Copy, Clone, PartialEq, Eq, Structural)]
pub struct Rect {
    pub x1: i32,
    pub y1: i32,
    pub x2: i32,
    pub y2: i32,
}

impl Mode {
    /// The width, height and bits per pixel are not negative, and the pixel
    /// memory that a buffer of this mode needs can be addressed.
    pub open spec fn fits(self) -> bool {
        &&& 0 <= self.width
        &&& 0 <= self.height
        &&& 0 <= self.bits_per_pixel
        &&& Self::stride_of(self) <= usize::MAX
        &&& self.height * Self::stride_of(self) <= usize::MAX
    }

    /// Bytes per row of a buffer of this mode.
    pub open spec fn stride_of(self) -> int {
        (self.bits_per_pixel as int / 8) * self.width
    }
}

/// What a buffer holds, as plain values.
pub struct BufferModel {
    pub id: BufferID,
    pub version: int,
    pub pixels: Seq<u8>,
    pub rects: Seq<Rect>,
    pub num_rects: int,
    pub width: int,
    pub height: int,
    pub stride: int,
    pub depth: int,
    /// An update-ready notification has arrived since the last request.
    pub ready: bool,
}

impl BufferModel {
    /// The dirty rectangles that the last capture populated: none before the
    /// first capture, when the count is negative.
    pub open spec fn populated(self) -> int {
        if self.num_rects < 0 { 0 } else { self.num_rects }
    }

    /// Every row of `width * depth` bytes, `stride` apart, lies inside the
    /// pixel memory.
    pub open spec fn rows_fit(self) -> bool {
        self.height == 0 || self.stride * (self.height - 1) + self.width * self.depth
            <= self.pixels.len()
    }

    /// The bytes of row `line`.
    pub open spec fn row(self, line: int) -> Seq<u8> {
        self.pixels.subrange(self.stride * line, self.stride * line + self.width * self.depth)
    }

    /// The non-empty rows, in order, as a `ChunkedBytes` holds them.
    pub open spec fn row_chunks(self, n: int) -> Seq<Seq<u8>>
        decreases n,
    {
        if n <= 0 {
            Seq::empty()
        } else if self.width * self.depth == 0 {
            self.row_chunks(n - 1)
        } else {
            self.row_chunks(n - 1).push(self.row(n - 1))
        }
    }

    pub open spec fn wf(self) -> bool {
        &&& self.rects.len() == MAX_RECTS_BUFFER_LEN
        &&& self.num_rects <= MAX_RECTS_BUFFER_LEN
        &&& self.pixels.len() == self.height * self.stride
        &&& self.depth == BGRA_DEPTH
        &&& 0 <= self.version <= u64::MAX
        &&& 0 <= self.width <= i32::MAX
        &&& 0 <= self.height <= i32::MAX
        &&& 0 <= self.stride <= usize::MAX
    }
}

/// Pixel memory and the dirty rectangles of one capture surface.
///
/// Its version grows by one each time an update of it is requested; a
/// `DirtyRect` is valid only while the version it was made at is current.
#[derive(Debug)]
pub struct Buffer {
    pub id: BufferID,
    version: u64,
    buffer: Vec<u8>,
    rects: Vec<Rect>,
    num_rects: i32,
    width: usize,
    height: usize,
    stride: usize,
    depth: usize,
    ready: bool,
}

impl View for Buffer {
    type V = BufferModel;

    closed spec fn view(&self) -> BufferModel {
        BufferModel {
            id: self.id,
            version: self.version as int,
            pixels: self.buffer@,
            rects: self.rects@,
            num_rects: self.num_rects as int,
            width: self.width as int,
            height: self.height as int,
            stride: self.stride as int,
            depth: self.depth as int,
            ready: self.ready,
        }
    }
}

impl Buffer {
    pub open spec fn wf(&self) -> bool {
        self@.wf()
    }

    /// Allocates a buffer for the screen of a device in `mode`: zeroed pixel
    /// memory of `height * stride` bytes, sixteen empty rectangle slots, version
    /// zero and no capture yet.
    pub fn new(id: BufferID, mode: &Mode) -> (r: Buffer)
        requires
            mode.fits(),
        ensures
            r.wf(),
            r@.id == id,
            r@.version == 0,
            r@.num_rects == -1,
            r@.width == mode.width,
            r@.height == mode.height,
            r@.stride == mode.stride_of(),
            r@.pixels == Seq::new((mode.height * mode.stride_of()) as nat, |i: int| 0u8),
            r@.rects == Seq::new(
                MAX_RECTS_BUFFER_LEN as nat,
                |i: int| Rect { x1: 0, y1: 0, x2: 0, y2: 0 },
            ),
            !r@.ready,
            mode.bits_per_pixel >= 32 ==> r@.rows_fit(),
    {
        let width = mode.width as usize;
        let height = mode.height as usize;
        let bits_per_pixel = mode.bits_per_pixel as usize;
        let stride = bits_per_pixel / 8 * width;
        let len = height * stride;
        let mut buffer: Vec<u8> = Vec::with_capacity(len);
        let mut k: usize = 0;
        while k < len
            invariant
                k <= len,
                buffer@ == Seq::new(k as nat, |i: int| 0u8),
            decreases len - k,
        {
            buffer.push(0u8);
            k = k + 1;
            assert(buffer@ =~= Seq::new(k as nat, |i: int| 0u8));
        }
        let mut rects: Vec<Rect> = Vec::new();
        let mut j: usize = 0;
        while j < MAX_RECTS_BUFFER_LEN
            invariant
                j <= MAX_RECTS_BUFFER_LEN,
                rects@ == Seq::new(j as nat, |i: int| Rect { x1: 0, y1: 0, x2: 0, y2: 0 }),
            decreases MAX_RECTS_BUFFER_LEN - j,
        {
            rects.push(Rect { x1: 0, y1: 0, x2: 0, y2: 0 });
            j = j + 1;
            assert(rects@ =~= Seq::new(j as nat, |i: int| Rect { x1: 0, y1: 0, x2: 0, y2: 0 }));
        }
        if mode.bits_per_pixel >= 32 {
            assert(stride >= width * BGRA_DEPTH) by (nonlinear_arith)
                requires
                    bits_per_pixel / 8 >= 4,
                    width >= 0,
                    stride == (bits_per_pixel / 8) * width,
            ;
            assert(height == 0 || stride * (height - 1) + width * BGRA_DEPTH <= height * stride)
                by (nonlinear_arith)
                requires
                    stride >= width * BGRA_DEPTH,
            ;
        }
        Buffer {
            id,
            version: 0,
            buffer,
            rects,
            num_rects: -1,
            width,
            height,
            stride,
            depth: BGRA_DEPTH,
            ready: false,
        }
    }
}


impl Buffer {
    /// The identifier of this buffer.
    pub fn id(&self) -> (r: BufferID)
        ensures
            r == self@.id,
    {
        self.id
    }

    /// How many updates of this buffer have been requested.
    pub fn version(&self) -> (r: u64)
        ensures
            r == self@.version,
    {
        self.version
    }

    /// Width in pixels.
    pub fn width(&self) -> (r: usize)
        ensures
            r == self@.width,
    {
        self.width
    }

    /// Height in pixels.
    pub fn height(&self) -> (r: usize)
        ensures
            r == self@.height,
    {
        self.height
    }

    /// Bytes per row of the pixel memory.
    pub fn stride(&self) -> (r: usize)
        ensures
            r == self@.stride,
    {
        self.stride
    }

    /// The size of the pixel memory in bytes.
    pub fn pixels_len(&self) -> (r: usize)
        ensures
            r == self@.pixels.len(),
    {
        self.buffer.len()
    }

    /// Whether every row of `width` pixels, `stride` bytes apart, lies inside
    /// the pixel memory, as `bytes` needs.
    pub fn rows_fit(&self) -> (r: bool)
        requires
            self.wf(),
        ensures
            r == self@.rows_fit(),
    {
        let total = self.buffer.len();
        if self.height == 0 {
            true
        } else {
            assert(0 <= self.stride * (self.height - 1) <= total) by (nonlinear_arith)
                requires
                    self.height >= 1,
                    self.stride >= 0,
                    total == self.height * self.stride,
            ;
            let used = (self.stride * (self.height - 1)) as u128;
            let row = (self.width as u128) * (self.depth as u128);
            used + row <= total as u128
        }
    }

    /// One view per rectangle slot that the last capture populated, in the
    /// driver's order, each stamped with the current version.
    pub fn dirty_rects(&self) -> (r: Vec<DirtyRect<'_>>)
        requires
            self.wf(),
        ensures
            r@.len() == self@.populated(),
            forall|i: int|
                0 <= i < r@.len() ==> {
                    &&& (#[trigger] r@[i])@.index == i
                    &&& r@[i]@.version == self@.version
                    &&& r@[i]@.buffer == self@
                },
    {
        let n: usize = if self.num_rects < 0 {
            0
        } else {
            self.num_rects as usize
        };
        let mut out: Vec<DirtyRect<'_>> = Vec::new();
        let mut i: usize = 0;
        while i < n
            invariant
                i <= n,
                n == self@.populated(),
                out@.len() == i,
                forall|k: int|
                    0 <= k < i ==> {
                        &&& (#[trigger] out@[k])@.index == k
                        &&& out@[k]@.version == self@.version
                        &&& out@[k]@.buffer == self@
                    },
            decreases n - i,
        {
            out.push(DirtyRect::new(self, i));
            i = i + 1;
        }
        out
    }

    /// Called each time an update of this buffer is requested, before the
    /// driver may write to it: the version grows by one.
    pub(crate) fn mark_updated(&mut self)
        requires
            old(self).wf(),
            old(self)@.version < u64::MAX,
        ensures
            final(self)@ == (BufferModel { version: old(self)@.version + 1, ..old(self)@ }),
    {
        self.version = self.version + 1;
    }

    /// Records that the driver reported this buffer ready.
    pub(crate) fn set_ready(&mut self)
        ensures
            final(self)@ == (BufferModel { ready: true, ..old(self)@ }),
    {
        self.ready = true;
    }

    /// Takes the ready notification, if one has arrived.
    pub(crate) fn take_ready(&mut self) -> (r: bool)
        ensures
            r == old(self)@.ready,
            final(self)@ == (BufferModel { ready: false, ..old(self)@ }),
    {
        let r = self.ready;
        self.ready = false;
        r
    }

    /// Stores what the driver's grab wrote: the rectangle slots, their count
    /// and the pixel memory.
    pub(crate) fn store_capture(&mut self, rects: &Vec<Rect>, num_rects: i32, pixels: &Vec<u8>)
        requires
            old(self).wf(),
            rects@.len() == MAX_RECTS_BUFFER_LEN,
            num_rects <= MAX_RECTS_BUFFER_LEN,
            pixels@.len() == old(self)@.pixels.len(),
        ensures
            final(self).wf(),
            final(self)@ == (BufferModel {
                rects: rects@,
                num_rects: num_rects as int,
                pixels: pixels@,
                ..old(self)@
            }),
    {
        self.rects = rects.clone();
        self.num_rects = num_rects;
        self.buffer = pixels.clone();
    }
}

/// What a view refers to: the buffer as it was made from, the slot, and the
/// version it was made at.
pub struct DirtyRectModel {
    pub buffer: BufferModel,
    pub index: int,
    pub version: int,
}

/// A dirty portion of a `Buffer`.
///
/// A view refers to the pixels changed by one capture, and is invalid once the
/// buffer has been updated since it was made: its methods then return `None`.
pub struct DirtyRect<'a> {
    buf: &'a Buffer,
    i: usize,
    version: u64,
}

impl<'a> View for DirtyRect<'a> {
    type V = DirtyRectModel;

    closed spec fn view(&self) -> DirtyRectModel {
        DirtyRectModel { buffer: self.buf@, index: self.i as int, version: self.version as int }
    }
}

impl DirtyRectModel {
    /// The view's version is its buffer's current one.
    pub open spec fn valid(self) -> bool {
        self.version == self.buffer.version
    }

    /// What `bytes` gives: for a valid view, every row of the buffer's full
    /// width, one chunk each, whichever rectangle the view is of.
    pub open spec fn bytes_spec(self) -> Option<Seq<Seq<u8>>> {
        if self.valid() {
            Some(self.buffer.row_chunks(self.buffer.height))
        } else {
            None
        }
    }
}

/// The bounds of a dirty rectangle, and its derived width and height.
#[derive(Debug, Copy, Clone, PartialEq, Eq, Structural)]
pub struct DirtyRectBounds {
    pub x1: u32,
    pub y1: u32,
    pub x2: u32,
    pub y2: u32,
}

impl<'a> DirtyRect<'a> {
    fn new(buf: &'a Buffer, i: usize) -> (r: Self)
        ensures
            r@.buffer == buf@,
            r@.index == i,
            r@.version == buf@.version,
    {
        Self { buf, i, version: buf.version }
    }

    /// The buffer this view is of.
    pub fn buffer(&self) -> (r: &'a Buffer)
        ensures
            r@ == self@.buffer,
    {
        self.buf
    }

    pub fn is_valid(&self) -> (r: bool)
        ensures
            r == self@.valid(),
    {
        self.version == self.buf.version
    }

    /// The bounds of this rectangle, or `None` if the buffer has been updated
    /// since the view was made.
    pub fn bounds(&self) -> (r: Option<DirtyRectBounds>)
        requires
            self@.buffer.wf(),
            0 <= self@.index < self@.buffer.populated(),
        ensures
            r == if self@.valid() {
                Some(DirtyRectBounds::from_rect(self@.buffer.rects[self@.index]))
            } else {
                None::<DirtyRectBounds>
            },
    {
        if self.is_valid() {
            Some(DirtyRectBounds::new(self.buf.rects[self.i]))
        } else {
            None
        }
    }
}

impl<'a> DirtyRect<'a> {
    /// Copies out the bytes of this view: each row of the buffer, across its
    /// whole width, as one chunk. `None` if the buffer has been updated since
    /// the view was made.
    pub fn bytes(&self) -> (r: Option<chunked_bytes::ChunkedBytes>)
        requires
            self@.buffer.wf(),
            self@.valid() ==> self@.buffer.rows_fit(),
        ensures
            match r {
                Some(c) => self@.bytes_spec() == Some(chunks_of(c)),
                None => self@.bytes_spec() is None,
            },
    {
        if !self.is_valid() {
            return None;
        }
        let buf = self.buf;
        let ghost m = buf@;
        let mut out = with_profile(buf.width, buf.height);
        let total = buf.buffer.len();
        let mut line: usize = 0;
        while line < buf.height
            invariant
                m == buf@,
                m.wf(),
                m.rows_fit(),
                total == m.pixels.len(),
                line <= m.height,
                chunks_of(out) == m.row_chunks(line as int),
            decreases m.height - line,
        {
            assert(0 <= buf.stride * line <= buf.stride * (buf.height - 1)) by (nonlinear_arith)
                requires
                    line <= buf.height - 1,
                    buf.stride >= 0,
            ;
            assert(0 <= buf.width * buf.depth) by (nonlinear_arith)
                requires
                    buf.width >= 0,
                    buf.depth >= 0,
            ;
            let start_inclusive = buf.stride * line;
            let end_exclusive = start_inclusive + (buf.width * buf.depth);
            let bytes = copy_from_slice(
                slice_subrange(buf.buffer.as_slice(), start_inclusive, end_exclusive),
            );
            put_bytes(&mut out, bytes);
            line = line + 1;
        }
        Some(out)
    }
}

impl<'a> DirtyRect<'a> {
    /// The pixels of this view as a PPM image of the buffer's width and
    /// height, for debugging. `None` if the buffer has been updated since the
    /// view was made. The same requirements as for `bytes` apply.
    pub fn debug_ppm(&self) -> (r: Option<Vec<u8>>)
        requires
            self@.buffer.wf(),
            self@.valid() ==> self@.buffer.rows_fit(),
        ensures
            match r {
                Some(v) => self@.bytes_spec() is Some && v@ == ppm_header(
                    self@.buffer.width as nat,
                    self@.buffer.height as nat,
                ) + ppm_body(self@.bytes_spec()->0),
                None => self@.bytes_spec() is None,
            },
    {
        match self.bytes() {
            Some(bytes) => Some(encode_ppm(bytes, self.buf.width, self.buf.height)),
            None => None,
        }
    }
}

/// Reading the bytes of one view twice gives the same chunks: `bytes` is
/// determined by the view and the buffer's contents alone.
pub proof fn lemma_bytes_deterministic(
    v: DirtyRectModel,
    c1: chunked_bytes::ChunkedBytes,
    c2: chunked_bytes::ChunkedBytes,
)
    requires
        v.bytes_spec() == Some(chunks_of(c1)),
        v.bytes_spec() == Some(chunks_of(c2)),
    ensures
        chunks_of(c1) == chunks_of(c2),
{
}

/// The first `n` rows of a well-formed buffer make a PPM body of three bytes
/// per pixel.
proof fn lemma_rows_body_len(b: BufferModel, n: int)
    requires
        b.wf(),
        b.rows_fit(),
        0 <= n <= b.height,
    ensures
        ppm_body(b.row_chunks(n)).len() == 3 * b.width * n,
    decreases n,
{
    if n > 0 {
        lemma_rows_body_len(b, n - 1);
        assert(0 <= b.stride * (n - 1) <= b.stride * (b.height - 1)) by (nonlinear_arith)
            requires
                n - 1 <= b.height - 1,
                b.stride >= 0,
                n >= 1,
        ;
        let prev = b.row_chunks(n - 1);
        if b.width * b.depth != 0 {
            let row = b.row(n - 1);
            assert(b.row_chunks(n) == prev.push(row));
            assert(prev.push(row).drop_last() =~= prev);
            assert(ppm_body(prev.push(row)) == ppm_body(prev) + rgb_of(row));
            assert(row.len() == 4 * b.width);
            assert((4 * b.width) / 4 == b.width);
            lemma_rgb_prefix_len(row, b.width);
            assert(3 * b.width * n == 3 * b.width * (n - 1) + 3 * b.width) by (nonlinear_arith);
        } else {
            assert(b.width == 0);
            assert(b.row_chunks(n) == prev);
            assert(3 * b.width * n == 0 && 3 * b.width * (n - 1) == 0) by (nonlinear_arith)
                requires
                    b.width == 0,
            ;
        }
    } else {
        assert(3 * b.width * n == 0) by (nonlinear_arith)
            requires
                n == 0,
        ;
    }
}

/// A PPM image of a valid view's bytes has the header
/// `P6\n{width}\n{height}\n255\n` and a body of `width * height * 3` bytes.
pub proof fn lemma_ppm_shape(v: DirtyRectModel, rows: Seq<Seq<u8>>)
    requires
        v.buffer.wf(),
        v.buffer.rows_fit(),
        v.bytes_spec() == Some(rows),
    ensures
        (ppm_header(v.buffer.width as nat, v.buffer.height as nat) + ppm_body(rows)).subrange(
            0,
            ppm_header(v.buffer.width as nat, v.buffer.height as nat).len() as int,
        ) == ppm_header(v.buffer.width as nat, v.buffer.height as nat),
        ppm_body(rows).len() == v.buffer.width * v.buffer.height * 3,
{
    let h = ppm_header(v.buffer.width as nat, v.buffer.height as nat);
    assert((h + ppm_body(rows)).subrange(0, h.len() as int) =~= h);
    lemma_rows_body_len(v.buffer, v.buffer.height);
    assert(3 * v.buffer.width * v.buffer.height == v.buffer.width * v.buffer.height * 3)
        by (nonlinear_arith);
}

impl DirtyRectBounds {
    /// The driver's corners, read as unsigned numbers.
    pub open spec fn from_rect(r: Rect) -> DirtyRectBounds {
        DirtyRectBounds { x1: r.x1 as u32, y1: r.y1 as u32, x2: r.x2 as u32, y2: r.y2 as u32 }
    }

    pub fn new(sys: Rect) -> (r: Self)
        ensures
            r == Self::from_rect(sys),
    {
        Self { x1: sys.x1 as u32, y1: sys.y1 as u32, x2: sys.x2 as u32, y2: sys.y2 as u32 }
    }

    pub fn width(&self) -> (r: u32)
        requires
            self.x1 <= self.x2,
        ensures
            r == self.x2 - self.x1,
    {
        self.x2 - self.x1
    }

    pub fn height(&self) -> (r: u32)
        requires
            self.y1 <= self.y2,
        ensures
            r == self.y2 - self.y1,
    {
        self.y2 - self.y1
    }
}

} // verus!
