//! The pixel format adapters: from a tightly packed buffer of bytes and its declared
//! dimensions to a frame whose planes are stored with aligned strides.
//!
//! A buffer holds the planes of its layout one after the other, each row by row without
//! padding. The rows of a frame's plane start a stride apart, and the stride may be wider
//! than the row: the bytes are copied row by row, and the padding is zero.

use vstd::prelude::*;
use vstd::arithmetic::div_mod::lemma_fundamental_div_mod_converse;
use crate::error::EncoderError;
use crate::frame::FrameView;
use crate::frame::PixelLayout;
use crate::frame::Plane;
use crate::frame::PlaneView;
use crate::frame::VideoFrame;
use crate::frame::ROW_ALIGNMENT;

verus! {

/// The number of planes of a layout.
pub open spec fn plane_count(layout: PixelLayout) -> int {
    match layout {
        PixelLayout::Uyvy422 => 1,
        PixelLayout::Yuyv422 => 1,
        PixelLayout::Bgra => 1,
        PixelLayout::Nv12 => 2,
        PixelLayout::Yuv420p => 3,
    }
}

/// Whether a layout can hold an image of the given dimensions: the layouts that share one
/// chroma sample among two by two pixels need an even width and an even height.
pub open spec fn dimensions_fit(layout: PixelLayout, width: int, height: int) -> bool {
    match layout {
        PixelLayout::Nv12 => width % 2 == 0 && height % 2 == 0,
        PixelLayout::Yuv420p => width % 2 == 0 && height % 2 == 0,
        _ => true,
    }
}

/// The number of bytes of image data in a row of the plane `plane` of an image `width`
/// pixels wide: two bytes a pixel for packed 4:2:2 and four for 32-bit colour; one byte a
/// pixel for luma; for the interleaved chroma of the semi-planar layout two bytes for every
/// two pixels, and for each planar chroma component one.
pub open spec fn row_bytes_of(layout: PixelLayout, plane: int, width: int) -> int {
    match layout {
        PixelLayout::Uyvy422 => 2 * width,
        PixelLayout::Yuyv422 => 2 * width,
        PixelLayout::Bgra => 4 * width,
        PixelLayout::Nv12 => width,
        PixelLayout::Yuv420p => if plane == 0 {
            width
        } else {
            width / 2
        },
    }
}

/// The number of rows of the plane `plane` of an image `height` pixels high: a chroma
/// plane of a 4:2:0 layout has one row for every two of the image.
pub open spec fn rows_of(layout: PixelLayout, plane: int, height: int) -> int {
    match layout {
        PixelLayout::Nv12 => if plane == 0 {
            height
        } else {
            height / 2
        },
        PixelLayout::Yuv420p => if plane == 0 {
            height
        } else {
            height / 2
        },
        _ => height,
    }
}

/// The number of bytes that the plane `plane` takes in a tightly packed buffer.
pub open spec fn plane_len(layout: PixelLayout, plane: int, width: int, height: int) -> int {
    row_bytes_of(layout, plane, width) * rows_of(layout, plane, height)
}

/// Where the plane `plane` begins in a tightly packed buffer: behind the planes before it.
pub open spec fn plane_offset(layout: PixelLayout, plane: int, width: int, height: int) -> int {
    if plane <= 0 {
        0
    } else if plane == 1 {
        plane_len(layout, 0, width, height)
    } else if plane == 2 {
        plane_len(layout, 0, width, height) + plane_len(layout, 1, width, height)
    } else {
        plane_len(layout, 0, width, height) + plane_len(layout, 1, width, height) + plane_len(
            layout,
            2,
            width,
            height,
        )
    }
}

/// The size of a tightly packed buffer: the sum of its planes. For 32-bit colour that is
/// `width * height * 4`, for packed 4:2:2 `width * height * 2`, and for the 4:2:0 layouts
/// `width * height` of luma and half as much of chroma.
pub open spec fn buffer_len(layout: PixelLayout, width: int, height: int) -> int {
    plane_offset(layout, plane_count(layout), width, height)
}

/// The stride of a row of `row_bytes` bytes: the next multiple of the row alignment.
pub open spec fn aligned_stride(row_bytes: int) -> int {
    ((row_bytes + (ROW_ALIGNMENT - 1)) / (ROW_ALIGNMENT as int)) * ROW_ALIGNMENT
}

/// The byte at index `i` of a plane of stride `stride` that holds the rows of `src`, each
/// of `row_bytes` bytes: the byte of `src` in the same row and column, or zero in the
/// padding behind the row.
pub open spec fn packed_byte(src: Seq<u8>, row_bytes: int, stride: int, i: int) -> u8 {
    if i % stride < row_bytes {
        src[(i / stride) * row_bytes + i % stride]
    } else {
        0
    }
}

/// The plane of aligned stride that holds the `rows` rows of `src`.
pub open spec fn packed_plane(src: Seq<u8>, row_bytes: int, rows: int) -> PlaneView {
    let stride = aligned_stride(row_bytes);
    PlaneView {
        row_bytes: row_bytes as nat,
        stride: stride as nat,
        rows: rows as nat,
        bytes: Seq::new((stride * rows) as nat, |i: int| packed_byte(src, row_bytes, stride, i)),
    }
}

/// The part of a tightly packed buffer that is the plane `plane`.
pub open spec fn plane_source(layout: PixelLayout, bytes: Seq<u8>, plane: int, width: int, height: int) -> Seq<u8> {
    bytes.subrange(
        plane_offset(layout, plane, width, height),
        plane_offset(layout, plane, width, height) + plane_len(layout, plane, width, height),
    )
}

/// The frame that holds the image of a tightly packed buffer, not yet scheduled.
pub open spec fn packed_frame(layout: PixelLayout, bytes: Seq<u8>, width: int, height: int) -> FrameView {
    FrameView {
        layout,
        width: width as nat,
        height: height as nat,
        planes: Seq::new(
            plane_count(layout) as nat,
            |p: int|
                packed_plane(
                    plane_source(layout, bytes, p, width, height),
                    row_bytes_of(layout, p, width),
                    rows_of(layout, p, height),
                ),
        ),
        pts: None,
    }
}

/// Whether every plane of the frame, padding included, has a size that this machine can
/// address.
pub open spec fn addressable(layout: PixelLayout, width: int, height: int) -> bool {
    forall|p: int|
        0 <= p < plane_count(layout) ==> plane_addressable(
            #[trigger] row_bytes_of(layout, p, width),
            rows_of(layout, p, height),
        )
}

/// Whether a plane of `rows` rows of `row_bytes` bytes, stored with aligned stride, has a
/// stride and a size that this machine can address.
pub open spec fn plane_addressable(row_bytes: int, rows: int) -> bool {
    aligned_stride(row_bytes) <= usize::MAX && aligned_stride(row_bytes) * rows <= usize::MAX
}

/// Whether a buffer of `len` bytes is an image of the given layout and dimensions: the
/// layout can hold the dimensions, the buffer has exactly the size they call for, and the
/// frame can be addressed.
pub open spec fn accepts(layout: PixelLayout, len: int, width: int, height: int) -> bool {
    &&& dimensions_fit(layout, width, height)
    &&& len == buffer_len(layout, width, height)
    &&& addressable(layout, width, height)
}

impl PixelLayout {
    /// The number of planes of the layout.
    pub fn plane_count(&self) -> (n: usize)
        ensures
            n == plane_count(*self),
    {
        match self {
            PixelLayout::Uyvy422 => 1,
            PixelLayout::Yuyv422 => 1,
            PixelLayout::Bgra => 1,
            PixelLayout::Nv12 => 2,
            PixelLayout::Yuv420p => 3,
        }
    }

    /// Whether the layout can hold an image of the given dimensions.
    pub fn fits(&self, width: u32, height: u32) -> (ok: bool)
        ensures
            ok == dimensions_fit(*self, width as int, height as int),
    {
        match self {
            PixelLayout::Nv12 => width % 2 == 0 && height % 2 == 0,
            PixelLayout::Yuv420p => width % 2 == 0 && height % 2 == 0,
            _ => true,
        }
    }

    /// The number of bytes of image data in a row of the plane `plane`.
    pub fn row_bytes(&self, plane: usize, width: u32) -> (n: u64)
        ensures
            n == row_bytes_of(*self, plane as int, width as int),
            n <= 4 * width,
    {
        match self {
            PixelLayout::Uyvy422 => 2 * (width as u64),
            PixelLayout::Yuyv422 => 2 * (width as u64),
            PixelLayout::Bgra => 4 * (width as u64),
            PixelLayout::Nv12 => width as u64,
            PixelLayout::Yuv420p => if plane == 0 {
                width as u64
            } else {
                (width / 2) as u64
            },
        }
    }

    /// The number of rows of the plane `plane`.
    pub fn rows(&self, plane: usize, height: u32) -> (n: u32)
        ensures
            n == rows_of(*self, plane as int, height as int),
    {
        match self {
            PixelLayout::Nv12 => if plane == 0 {
                height
            } else {
                height / 2
            },
            PixelLayout::Yuv420p => if plane == 0 {
                height
            } else {
                height / 2
            },
            _ => height,
        }
    }
}

/// The stride that this library gives a row of `row_bytes` bytes.
pub fn stride_for(row_bytes: u64) -> (stride: u64)
    requires
        row_bytes + ROW_ALIGNMENT - 1 <= u64::MAX,
    ensures
        stride == aligned_stride(row_bytes as int),
        row_bytes <= stride < row_bytes + ROW_ALIGNMENT,
        row_bytes == 0 <==> stride == 0,
{
    ((row_bytes + 31) / 32) * 32
}

/// Copies `rows` rows of `row_bytes` bytes, which lie tightly packed in `src` from
/// `offset` on, into a new plane of the given stride, row by row, and fills the padding
/// behind each row with zeros.
fn pack_plane(src: &[u8], offset: usize, row_bytes: usize, stride: usize, rows: usize) -> (plane:
    Plane)
    requires
        stride == aligned_stride(row_bytes as int),
        row_bytes <= stride,
        row_bytes == 0 <==> stride == 0,
        stride * rows <= usize::MAX,
        offset + row_bytes * rows <= src@.len(),
    ensures
        plane@ == packed_plane(
            src@.subrange(offset as int, offset + row_bytes * rows),
            row_bytes as int,
            rows as int,
        ),
{
    let ghost tight = src@.subrange(offset as int, offset + row_bytes * rows);
    let mut data: Vec<u8> = Vec::new();
    if stride == 0 {
        assert(stride * rows == 0) by (nonlinear_arith)
            requires
                stride == 0,
        ;
        let plane = Plane::from_parts(row_bytes, stride, rows, data);
        assert(plane@.bytes =~= packed_plane(tight, row_bytes as int, rows as int).bytes);
        return plane;
    }
    let mut r: usize = 0;
    let mut src_row: usize = offset;
    let len: usize = src.len();
    while r < rows
        invariant
            len == src@.len(),
            0 < stride,
            row_bytes <= stride,
            stride * rows <= usize::MAX,
            offset + row_bytes * rows <= src@.len(),
            tight == src@.subrange(offset as int, offset + row_bytes * rows),
            r <= rows,
            src_row == offset + r * row_bytes,
            data@.len() == r * stride,
            forall|i: int|
                0 <= i < data@.len() ==> data@[i] == #[trigger] packed_byte(
                    tight,
                    row_bytes as int,
                    stride as int,
                    i,
                ),
        decreases rows - r,
    {
        assert((r + 1) * row_bytes <= rows * row_bytes) by (nonlinear_arith)
            requires
                r + 1 <= rows,
                0 <= row_bytes,
        ;
        assert((r + 1) * row_bytes == r * row_bytes + row_bytes) by (nonlinear_arith);
        assert(rows * row_bytes == row_bytes * rows) by (nonlinear_arith);
        assert((r + 1) * stride == r * stride + stride) by (nonlinear_arith);
        let mut c: usize = 0;
        while c < stride
            invariant
                len == src@.len(),
                0 < stride,
                row_bytes <= stride,
                r < rows,
                c <= stride,
                offset + row_bytes * rows <= src@.len(),
                tight == src@.subrange(offset as int, offset + row_bytes * rows),
                src_row == offset + r * row_bytes,
                r * row_bytes + row_bytes <= row_bytes * rows,
                data@.len() == r * stride + c,
                forall|i: int|
                    0 <= i < data@.len() ==> data@[i] == #[trigger] packed_byte(
                        tight,
                        row_bytes as int,
                        stride as int,
                        i,
                    ),
            decreases stride - c,
        {
            let value: u8 = if c < row_bytes {
                src[src_row + c]
            } else {
                0
            };
            proof {
                let i: int = r * stride + c;
                lemma_fundamental_div_mod_converse(i, stride as int, r as int, c as int);
                if c < row_bytes {
                    assert(tight[r * row_bytes + c] == src@[offset + r * row_bytes + c]);
                }
                assert(value == packed_byte(tight, row_bytes as int, stride as int, i));
            }
            data.push(value);
            c = c + 1;
        }
        src_row = src_row + row_bytes;
        r = r + 1;
    }
    assert(rows * stride == stride * rows) by (nonlinear_arith);
    let plane = Plane::from_parts(row_bytes, stride, rows, data);
    assert(plane@.bytes =~= packed_plane(tight, row_bytes as int, rows as int).bytes);
    plane
}

/// The sizes of the planes of a layout are not negative, so that each plane begins at or
/// behind the one before it and ends within the buffer.
pub proof fn lemma_plane_offsets_ordered(layout: PixelLayout, plane: int, width: int, height: int)
    requires
        0 <= width,
        0 <= height,
        0 <= plane < plane_count(layout),
    ensures
        0 <= plane_len(layout, plane, width, height),
        0 <= plane_offset(layout, plane, width, height),
        plane_offset(layout, plane + 1, width, height) == plane_offset(layout, plane, width, height)
            + plane_len(layout, plane, width, height),
        plane_offset(layout, plane + 1, width, height) <= buffer_len(layout, width, height),
{
    assert forall|q: int| 0 <= q < 3 implies 0 <= #[trigger] plane_len(layout, q, width, height) by {
        let a = row_bytes_of(layout, q, width);
        let b = rows_of(layout, q, height);
        assert(0 <= a && 0 <= b);
        assert(0 <= a * b) by (nonlinear_arith)
            requires
                0 <= a,
                0 <= b,
        ;
    }
    assert(0 <= plane_len(layout, 0, width, height));
    assert(0 <= plane_len(layout, 1, width, height));
    assert(0 <= plane_len(layout, 2, width, height));
}

/// Builds a frame of the given layout from a tightly packed buffer.
///
/// The buffer is accepted when the layout can hold the dimensions, the buffer has exactly
/// the size that they call for, and the frame can be addressed. Every row of every plane
/// is then copied to its place in a plane of aligned stride; the padding is zero, and the
/// frame has no timestamp. Any other buffer is rejected, and nothing is copied.
pub fn build_frame(layout: PixelLayout, bytes: &[u8], width: u32, height: u32) -> (frame: Result<
    VideoFrame,
    EncoderError,
>)
    ensures
        frame is Ok <==> accepts(layout, bytes@.len() as int, width as int, height as int),
        frame matches Ok(f) ==> f@ == packed_frame(layout, bytes@, width as int, height as int),
        frame matches Err(e) ==> e == EncoderError::InvalidBufferSize,
{
    if !layout.fits(width, height) {
        return Err(EncoderError::InvalidBufferSize);
    }
    let count: usize = layout.plane_count();
    let len: usize = bytes.len();
    let mut total: u128 = 0;
    let mut p: usize = 0;
    while p < count
        invariant
            count == plane_count(layout),
            p <= count,
            total == plane_offset(layout, p as int, width as int, height as int),
            total <= p * 0x4_0000_0000_0000_0000,
            forall|q: int|
                0 <= q < p ==> plane_addressable(
                    #[trigger] row_bytes_of(layout, q, width as int),
                    rows_of(layout, q, height as int),
                ),
        decreases count - p,
    {
        let row_bytes: u64 = layout.row_bytes(p, width);
        let rows: u32 = layout.rows(p, height);
        let stride: u64 = stride_for(row_bytes);
        assert((stride as int) * (rows as int) <= 0x4_0000_0020 * 0xffff_ffff) by (nonlinear_arith)
            requires
                0 <= stride <= 0x4_0000_0020,
                0 <= rows <= 0xffff_ffff,
        ;
        assert(0 <= (row_bytes as int) * (rows as int) <= 0x4_0000_0000 * 0xffff_ffff)
            by (nonlinear_arith)
            requires
                0 <= row_bytes <= 0x4_0000_0000,
                0 <= rows <= 0xffff_ffff,
        ;
        let padded: u128 = (stride as u128) * (rows as u128);
        if stride as u128 > usize::MAX as u128 || padded > usize::MAX as u128 {
            proof {
                assert(!plane_addressable(
                    row_bytes_of(layout, p as int, width as int),
                    rows_of(layout, p as int, height as int),
                ));
            }
            return Err(EncoderError::InvalidBufferSize);
        }
        proof {
            lemma_plane_offsets_ordered(layout, p as int, width as int, height as int);
        }
        total = total + (row_bytes as u128) * (rows as u128);
        p = p + 1;
    }
    if total != len as u128 {
        return Err(EncoderError::InvalidBufferSize);
    }
    let mut planes: Vec<Plane> = Vec::new();
    let mut offset: usize = 0;
    let mut p: usize = 0;
    while p < count
        invariant
            count == plane_count(layout),
            len == bytes@.len(),
            len == buffer_len(layout, width as int, height as int),
            addressable(layout, width as int, height as int),
            p <= count,
            planes@.len() == p,
            offset == plane_offset(layout, p as int, width as int, height as int),
            forall|q: int|
                0 <= q < p ==> (#[trigger] planes@[q])@ == packed_plane(
                    plane_source(layout, bytes@, q, width as int, height as int),
                    row_bytes_of(layout, q, width as int),
                    rows_of(layout, q, height as int),
                ),
        decreases count - p,
    {
        let row_bytes: u64 = layout.row_bytes(p, width);
        let rows: u32 = layout.rows(p, height);
        let stride: u64 = stride_for(row_bytes);
        proof {
            lemma_plane_offsets_ordered(layout, p as int, width as int, height as int);
            assert(plane_addressable(
                row_bytes_of(layout, p as int, width as int),
                rows_of(layout, p as int, height as int),
            ));
        }
        let plane = pack_plane(bytes, offset, row_bytes as usize, stride as usize, rows as usize);
        let ghost before = planes@;
        planes.push(plane);
        assert forall|q: int| 0 <= q < p + 1 implies (#[trigger] planes@[q])@ == packed_plane(
            plane_source(layout, bytes@, q, width as int, height as int),
            row_bytes_of(layout, q, width as int),
            rows_of(layout, q, height as int),
        ) by {
            if q < p {
                assert(planes@[q] == before[q]);
            }
        }
        offset = offset + (row_bytes as usize) * (rows as usize);
        p = p + 1;
    }
    let frame = VideoFrame::from_parts(layout, width, height, planes);
    assert(frame@.planes =~= packed_frame(layout, bytes@, width as int, height as int).planes);
    Ok(frame)
}

/// Builds a frame from tightly packed 4:2:2 bytes in the order U Y V Y, two bytes a pixel.
/// A buffer whose length is not `width * height * 2` is rejected.
pub fn uyvy422_frame(bytes: &[u8], width: u32, height: u32) -> (frame: Option<VideoFrame>)
    ensures
        frame is Some <==> accepts(
            PixelLayout::Uyvy422,
            bytes@.len() as int,
            width as int,
            height as int,
        ),
        frame matches Some(f) ==> f@ == packed_frame(
            PixelLayout::Uyvy422,
            bytes@,
            width as int,
            height as int,
        ),
        bytes@.len() != width * height * 2 ==> frame is None,
{
    assert((2 * width) * height == width * height * 2) by (nonlinear_arith);
    match build_frame(PixelLayout::Uyvy422, bytes, width, height) {
        Ok(frame) => Some(frame),
        Err(_) => None,
    }
}

/// Builds a frame from tightly packed 4:2:2 bytes in the order Y U Y V, two bytes a pixel.
/// A buffer whose length is not `width * height * 2` is rejected.
pub fn yuyv422_frame(bytes: &[u8], width: u32, height: u32) -> (frame: Option<VideoFrame>)
    ensures
        frame is Some <==> accepts(
            PixelLayout::Yuyv422,
            bytes@.len() as int,
            width as int,
            height as int,
        ),
        frame matches Some(f) ==> f@ == packed_frame(
            PixelLayout::Yuyv422,
            bytes@,
            width as int,
            height as int,
        ),
        bytes@.len() != width * height * 2 ==> frame is None,
{
    assert((2 * width) * height == width * height * 2) by (nonlinear_arith);
    match build_frame(PixelLayout::Yuyv422, bytes, width, height) {
        Ok(frame) => Some(frame),
        Err(_) => None,
    }
}

/// Builds a frame from tightly packed semi-planar 4:2:0 bytes: `width * height` bytes of
/// luma, then half as many of interleaved chroma. The width and the height must be even,
/// and a buffer of any other length is rejected.
pub fn nv12_frame(bytes: &[u8], width: u32, height: u32) -> (frame: Option<VideoFrame>)
    ensures
        frame is Some <==> accepts(PixelLayout::Nv12, bytes@.len() as int, width as int, height as int),
        frame matches Some(f) ==> f@ == packed_frame(
            PixelLayout::Nv12,
            bytes@,
            width as int,
            height as int,
        ),
        bytes@.len() != width * height + (width * height) / 2 ==> frame is None,
        width % 2 != 0 || height % 2 != 0 ==> frame is None,
{
    proof {
        if height % 2 == 0 {
            let w = width as int;
            let half = height as int / 2;
            assert(height == 2 * half);
            assert(w * (2 * half) == 2 * (w * half)) by (nonlinear_arith);
            assert((w * height) / 2 == w * half);
        }
    }
    match build_frame(PixelLayout::Nv12, bytes, width, height) {
        Ok(frame) => Some(frame),
        Err(_) => None,
    }
}

/// Builds a frame from tightly packed 32-bit colour in the order B G R A, four bytes a
/// pixel. A buffer whose length is not exactly `width * height * 4` is rejected and
/// nothing is copied.
pub fn bgra_frame(data: &[u8], width: u32, height: u32) -> (frame: Option<VideoFrame>)
    ensures
        frame is Some <==> accepts(PixelLayout::Bgra, data@.len() as int, width as int, height as int),
        frame matches Some(f) ==> f@ == packed_frame(
            PixelLayout::Bgra,
            data@,
            width as int,
            height as int,
        ),
        data@.len() != width * height * 4 ==> frame is None,
{
    assert((4 * width) * height == width * height * 4) by (nonlinear_arith);
    match build_frame(PixelLayout::Bgra, data, width, height) {
        Ok(frame) => Some(frame),
        Err(_) => None,
    }
}

/// A packed plane holds its source row by row: the byte in column `col` of row `row` is
/// the byte of the source at `row * row_bytes + col`, and the padding behind a row is
/// zero.
pub proof fn lemma_packed_plane_rows(src: Seq<u8>, row_bytes: int, rows: int, row: int, col: int)
    requires
        0 <= row_bytes,
        0 <= row < rows,
        0 <= col < aligned_stride(row_bytes),
    ensures
        packed_plane(src, row_bytes, rows).wf(),
        col < row_bytes ==> packed_plane(src, row_bytes, rows).at(row, col) == src[row * row_bytes
            + col],
        col >= row_bytes ==> packed_plane(src, row_bytes, rows).at(row, col) == 0,
{
    let stride = aligned_stride(row_bytes);
    let i = row * stride + col;
    assert(0 <= stride * rows) by (nonlinear_arith)
        requires
            0 <= stride,
            0 <= rows,
    ;
    assert(0 <= row * stride && row * stride + stride <= stride * rows) by (nonlinear_arith)
        requires
            0 <= row < rows,
            0 <= stride,
    ;
    lemma_fundamental_div_mod_converse(i, stride, row, col);
}

/// The image data of a packed plane, read without the padding, is its source.
pub proof fn lemma_packed_plane_pixels(src: Seq<u8>, row_bytes: int, rows: int)
    requires
        0 <= row_bytes,
        0 <= rows,
        src.len() == row_bytes * rows,
    ensures
        packed_plane(src, row_bytes, rows).pixels() == src,
{
    let plane = packed_plane(src, row_bytes, rows);
    assert(rows * row_bytes == row_bytes * rows) by (nonlinear_arith);
    assert forall|i: int| 0 <= i < src.len() implies plane.pixels()[i] == src[i] by {
        let row = i / row_bytes;
        let col = i % row_bytes;
        assert(row_bytes > 0) by (nonlinear_arith)
            requires
                0 <= i < row_bytes * rows,
                0 <= row_bytes,
        ;
        vstd::arithmetic::div_mod::lemma_fundamental_div_mod(i, row_bytes);
        assert(i == row_bytes * row + col);
        assert(0 <= col < row_bytes);
        assert(0 <= row < rows) by (nonlinear_arith)
            requires
                i == row_bytes * row + col,
                0 <= col < row_bytes,
                0 <= i < row_bytes * rows,
        ;
        assert(row_bytes * row == row * row_bytes) by (nonlinear_arith);
        lemma_packed_plane_rows(src, row_bytes, rows, row, col);
    }
    assert(plane.pixels() =~= src);
}

/// The bytes of a plane laid out anew with rows `stride` apart: every row keeps its image
/// data, and the padding behind it is zero.
pub open spec fn restrided(plane: PlaneView, stride: int) -> Seq<u8> {
    Seq::new((stride * plane.rows) as nat, |i: int| restrided_byte(plane, stride, i))
}

/// The byte at index `i` of a plane laid out anew with rows `stride` apart.
pub open spec fn restrided_byte(plane: PlaneView, stride: int, i: int) -> u8 {
    if i % stride < plane.row_bytes {
        plane.at(i / stride, i % stride)
    } else {
        0
    }
}

impl Plane {
    /// The bytes of the plane laid out with rows `stride` apart, as a buffer whose rows
    /// start that far apart takes them. There is no such layout when the stride is
    /// narrower than a row, or when the result could not be addressed.
    pub fn repacked(&self, stride: usize) -> (out: Option<Vec<u8>>)
        ensures
            out is Some <==> self@.row_bytes <= stride && stride * self@.rows <= usize::MAX,
            out matches Some(bytes) ==> bytes@ == restrided(self@, stride as int),
    {
        let row_bytes: usize = self.row_bytes();
        let rows: usize = self.rows();
        let own_stride: usize = self.stride();
        let src: &[u8] = self.data();
        if stride < row_bytes {
            return None;
        }
        assert((stride as int) * (rows as int) <= 0xffff_ffff_ffff_ffff * 0xffff_ffff_ffff_ffff)
            by (nonlinear_arith)
            requires
                0 <= stride <= 0xffff_ffff_ffff_ffff,
                0 <= rows <= 0xffff_ffff_ffff_ffff,
        ;
        let total: u128 = (stride as u128) * (rows as u128);
        if total > usize::MAX as u128 {
            return None;
        }
        let mut out: Vec<u8> = Vec::new();
        if stride == 0 {
            assert(stride * rows == 0) by (nonlinear_arith)
                requires
                    stride == 0,
            ;
            assert(out@ =~= restrided(self@, stride as int));
            return Some(out);
        }
        let mut r: usize = 0;
        let mut src_row: usize = 0;
        let len: usize = src.len();
        while r < rows
            invariant
                self@.wf(),
                src@ == self@.bytes,
                row_bytes == self@.row_bytes,
                rows == self@.rows,
                own_stride == self@.stride,
                0 < stride,
                row_bytes <= stride,
                r <= rows,
                src_row == r * own_stride,
                out@.len() == r * stride,
                forall|i: int|
                    0 <= i < out@.len() ==> out@[i] == #[trigger] restrided_byte(
                        self@,
                        stride as int,
                        i,
                    ),
                stride * rows <= usize::MAX,
                len == src@.len(),
            decreases rows - r,
        {
            assert((r + 1) * own_stride <= rows * own_stride) by (nonlinear_arith)
                requires
                    r + 1 <= rows,
                    0 <= own_stride,
            ;
            assert((r + 1) * own_stride == r * own_stride + own_stride) by (nonlinear_arith);
            assert(rows * own_stride == own_stride * rows) by (nonlinear_arith);
            assert((r + 1) * stride == r * stride + stride) by (nonlinear_arith);
            assert((r + 1) * stride <= rows * stride) by (nonlinear_arith)
                requires
                    r + 1 <= rows,
                    0 <= stride,
            ;
            assert(rows * stride == stride * rows) by (nonlinear_arith);
            let mut c: usize = 0;
            while c < stride
                invariant
                    self@.wf(),
                    src@ == self@.bytes,
                    row_bytes == self@.row_bytes,
                    rows == self@.rows,
                    own_stride == self@.stride,
                    0 < stride,
                    row_bytes <= stride,
                    r < rows,
                    c <= stride,
                    src_row == r * own_stride,
                    r * own_stride + own_stride <= own_stride * rows,
                    r * stride + stride <= stride * rows,
                    out@.len() == r * stride + c,
                    forall|i: int|
                        0 <= i < out@.len() ==> out@[i] == #[trigger] restrided_byte(
                            self@,
                            stride as int,
                            i,
                        ),
                    len == src@.len(),
                decreases stride - c,
            {
                let value: u8 = if c < row_bytes {
                    src[src_row + c]
                } else {
                    0
                };
                proof {
                    let i: int = r * stride + c;
                    lemma_fundamental_div_mod_converse(i, stride as int, r as int, c as int);
                    assert(value == restrided_byte(self@, stride as int, i));
                }
                out.push(value);
                c = c + 1;
            }
            src_row = src_row + own_stride;
            r = r + 1;
        }
        assert(rows * stride == stride * rows) by (nonlinear_arith);
        assert(out@ =~= restrided(self@, stride as int));
        Some(out)
    }
}

} // verus!
