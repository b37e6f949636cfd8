//! Video frames as plain data: planes of bytes, each stored row by row with a stride that
//! may be wider than the bytes a row holds.

use vstd::prelude::*;

verus! {

/// The arrangement of the samples of a frame in memory.
#[derive(Clone, Copy, Debug, PartialEq, Eq, Structural)]
pub enum PixelLayout {
    /// Packed 4:2:2, two bytes a pixel, in the order U Y V Y.
    Uyvy422,
    /// Packed 4:2:2, two bytes a pixel, in the order Y U Y V.
    Yuyv422,
    /// Semi-planar 4:2:0: a plane of luma and a plane of interleaved chroma.
    Nv12,
    /// Packed 32-bit colour, four bytes a pixel, in the order B G R A.
    Bgra,
    /// Planar 4:2:0: a plane each of luma and of the two chroma components.
    Yuv420p,
}

/// The strides of the planes that this library allocates are multiples of this.
pub const ROW_ALIGNMENT: usize = 32;

/// A plane as a mathematical value.
pub struct PlaneView {
    /// The number of bytes of image data in a row.
    pub row_bytes: nat,
    /// The distance in bytes from the start of one row to the start of the next.
    pub stride: nat,
    /// The number of rows.
    pub rows: nat,
    /// The bytes of the plane: `rows` runs of `stride` bytes.
    pub bytes: Seq<u8>,
}

impl PlaneView {
    /// A row holds no more than the stride, and the plane holds exactly its rows.
    pub open spec fn wf(self) -> bool {
        self.row_bytes <= self.stride && self.bytes.len() == self.stride * self.rows
    }

    /// The byte in column `col` of row `row`.
    pub open spec fn at(self, row: int, col: int) -> u8 {
        self.bytes[row * self.stride + col]
    }

    /// The image data of the plane without the padding of its rows.
    pub open spec fn pixels(self) -> Seq<u8> {
        Seq::new(
            self.rows * self.row_bytes,
            |i: int| self.at(i / (self.row_bytes as int), i % (self.row_bytes as int)),
        )
    }
}

/// One plane of a frame.
#[derive(Debug, PartialEq, Eq)]
pub struct Plane {
    row_bytes: usize,
    stride: usize,
    rows: usize,
    data: Vec<u8>,
}

impl View for Plane {
    type V = PlaneView;

    closed spec fn view(&self) -> PlaneView {
        PlaneView {
            row_bytes: self.row_bytes as nat,
            stride: self.stride as nat,
            rows: self.rows as nat,
            bytes: self.data@,
        }
    }
}

/// A frame as a mathematical value.
pub struct FrameView {
    pub layout: PixelLayout,
    pub width: nat,
    pub height: nat,
    pub planes: Seq<PlaneView>,
    /// The presentation timestamp, once the frame was scheduled.
    pub pts: Option<i64>,
}

impl FrameView {
    /// The same frame with the timestamp `pts`.
    pub open spec fn stamped(self, pts: i64) -> FrameView {
        FrameView { pts: Some(pts), ..self }
    }
}

/// An image in memory, with its layout, its dimensions and, once it was scheduled, its
/// presentation timestamp.
#[derive(Clone, Debug, PartialEq, Eq)]
pub struct VideoFrame {
    layout: PixelLayout,
    width: u32,
    height: u32,
    planes: Vec<Plane>,
    pts: Option<i64>,
}

impl View for VideoFrame {
    type V = FrameView;

    closed spec fn view(&self) -> FrameView {
        FrameView {
            layout: self.layout,
            width: self.width as nat,
            height: self.height as nat,
            planes: Seq::new(self.planes@.len(), |i: int| self.planes@[i]@),
            pts: self.pts,
        }
    }
}

impl Plane {
    #[verifier::type_invariant]
    spec fn inv(self) -> bool {
        self.row_bytes <= self.stride && self.data@.len() == self.stride * self.rows
    }

    /// Makes a plane of its parts.
    pub(crate) fn from_parts(row_bytes: usize, stride: usize, rows: usize, data: Vec<u8>) -> (plane:
        Plane)
        requires
            row_bytes <= stride,
            data@.len() == stride * rows,
        ensures
            plane@ == (PlaneView {
                row_bytes: row_bytes as nat,
                stride: stride as nat,
                rows: rows as nat,
                bytes: data@,
            }),
            plane@.wf(),
    {
        Plane { row_bytes, stride, rows, data }
    }

    /// The number of bytes of image data in a row.
    pub fn row_bytes(&self) -> (n: usize)
        ensures
            n == self@.row_bytes,
            self@.wf(),
    {
        proof {
            use_type_invariant(self);
        }
        self.row_bytes
    }

    /// The distance in bytes from the start of one row to the start of the next.
    pub fn stride(&self) -> (n: usize)
        ensures
            n == self@.stride,
            self@.wf(),
    {
        proof {
            use_type_invariant(self);
        }
        self.stride
    }

    /// The number of rows.
    pub fn rows(&self) -> (n: usize)
        ensures
            n == self@.rows,
            self@.wf(),
    {
        proof {
            use_type_invariant(self);
        }
        self.rows
    }

    /// All bytes of the plane, padding included.
    pub fn data(&self) -> (bytes: &[u8])
        ensures
            bytes@ == self@.bytes,
            self@.wf(),
    {
        proof {
            use_type_invariant(self);
        }
        self.data.as_slice()
    }
}

impl Clone for Plane {
    fn clone(&self) -> (copy: Self)
        ensures
            copy@ == self@,
    {
        proof {
            use_type_invariant(self);
        }
        let data = self.data.clone();
        assert(data@ =~= self.data@);
        Plane { row_bytes: self.row_bytes, stride: self.stride, rows: self.rows, data }
    }
}

impl VideoFrame {
    /// Makes a frame without a timestamp of its parts.
    pub(crate) fn from_parts(layout: PixelLayout, width: u32, height: u32, planes: Vec<Plane>) -> (frame:
        VideoFrame)
        ensures
            frame@.layout == layout,
            frame@.width == width,
            frame@.height == height,
            frame@.planes.len() == planes@.len(),
            forall|i: int| 0 <= i < planes@.len() ==> frame@.planes[i] == planes@[i]@,
            frame@.pts is None,
    {
        VideoFrame { layout, width, height, planes, pts: None }
    }

    /// The layout of the samples.
    pub fn layout(&self) -> (layout: PixelLayout)
        ensures
            layout == self@.layout,
    {
        self.layout
    }

    /// The width in pixels.
    pub fn width(&self) -> (width: u32)
        ensures
            width == self@.width,
    {
        self.width
    }

    /// The height in pixels.
    pub fn height(&self) -> (height: u32)
        ensures
            height == self@.height,
    {
        self.height
    }

    /// The presentation timestamp, once the frame was scheduled.
    pub fn pts(&self) -> (pts: Option<i64>)
        ensures
            pts == self@.pts,
    {
        self.pts
    }

    /// Gives the frame the presentation timestamp `pts`. Nothing else changes.
    pub fn set_pts(&mut self, pts: i64)
        ensures
            final(self)@ == old(self)@.stamped(pts),
    {
        self.pts = Some(pts);
        assert(final(self)@.planes =~= old(self)@.planes);
    }

    /// The number of planes.
    pub fn plane_count(&self) -> (n: usize)
        ensures
            n == self@.planes.len(),
    {
        self.planes.len()
    }

    /// The plane with the given index.
    pub fn plane(&self, index: usize) -> (plane: &Plane)
        requires
            index < self@.planes.len(),
        ensures
            plane@ == self@.planes[index as int],
    {
        &self.planes[index]
    }
}

} // verus!
