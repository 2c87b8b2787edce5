use vstd::prelude::*;

use crate::config::{BitstreamType, DecoderParams, ErrorConcealment, TraceLevel};

verus! {

/// The bytes of `rows` rows of `width` bytes each, taken from `plane`, where
/// row `i` starts at offset `i * stride`.
pub open spec fn packed_rows(plane: Seq<u8>, stride: nat, width: nat, rows: nat) -> Seq<u8>
    decreases rows,
{
    if rows == 0 {
        Seq::empty()
    } else {
        let last = (rows - 1) as nat;
        packed_rows(plane, stride, width, last) + plane.subrange(
            (last * stride) as int,
            (last * stride + width) as int,
        )
    }
}

/// Every one of the `rows` rows lies inside a plane of `len` bytes.
pub open spec fn rows_fit(len: nat, stride: nat, width: nat, rows: nat) -> bool {
    rows == 0 || (rows - 1) * stride + width <= len
}

/// A decoded picture in planar YUV 4:2:0, viewed in place: three planes with
/// a luma width and height, and a stride for luma and one shared by both
/// chroma planes. Rows may be padded beyond their width.
pub struct I420Frame<'y, 'u, 'v> {
    pub y: &'y [u8],
    pub u: &'u [u8],
    pub v: &'v [u8],
    pub width: usize,
    pub height: usize,
    pub stride: [usize; 2],
}

impl<'y, 'u, 'v> I420Frame<'y, 'u, 'v> {
    /// Width of each chroma plane: half the luma width, rounded down.
    pub open spec fn chroma_width(&self) -> nat {
        (self.width / 2) as nat
    }

    /// Height of each chroma plane: half the luma height, rounded down.
    pub open spec fn chroma_height(&self) -> nat {
        (self.height / 2) as nat
    }

    /// Every row that `save` reads lies inside its plane.
    pub open spec fn fits(&self) -> bool {
        &&& rows_fit(self.y@.len(), self.stride@[0] as nat, self.width as nat, self.height as nat)
        &&& rows_fit(self.u@.len(), self.stride@[1] as nat, self.chroma_width(), self.chroma_height())
        &&& rows_fit(self.v@.len(), self.stride@[1] as nat, self.chroma_width(), self.chroma_height())
    }

    /// The frame as a tightly packed I420 buffer: the Y rows, then the U rows,
    /// then the V rows, each without its stride padding.
    pub open spec fn packed(&self) -> Seq<u8> {
        packed_rows(self.y@, self.stride@[0] as nat, self.width as nat, self.height as nat)
            + packed_rows(self.u@, self.stride@[1] as nat, self.chroma_width(), self.chroma_height())
            + packed_rows(self.v@, self.stride@[1] as nat, self.chroma_width(), self.chroma_height())
    }

    /// Appends the frame to `output` as a tightly packed I420 buffer, row by
    /// row and plane by plane, dropping the stride padding of each row.
    pub fn save(&self, output: &mut Vec<u8>)
        requires
            self.fits(),
        ensures
            final(output)@ == old(output)@ + self.packed(),
            final(output)@.len() == old(output)@.len() + self.width * self.height + 2 * (
            self.chroma_width() * self.chroma_height()),
    {
        append_rows(self.y, self.stride[0], self.width, self.height, output);
        let cw = self.width / 2;
        let ch = self.height / 2;
        append_rows(self.u, self.stride[1], cw, ch, output);
        append_rows(self.v, self.stride[1], cw, ch, output);
        proof {
            lemma_packed_len(self);
        }
    }
}

/// A packed row sequence holds exactly `width` bytes per row.
pub proof fn lemma_packed_rows_len(plane: Seq<u8>, stride: nat, width: nat, rows: nat)
    requires
        rows_fit(plane.len(), stride, width, rows),
    ensures
        packed_rows(plane, stride, width, rows).len() == width * rows,
    decreases rows,
{
    if rows > 0 {
        let last = (rows - 1) as nat;
        if last > 0 {
            assert((last - 1) * stride + width <= last * stride + width) by (nonlinear_arith)
                requires last > 0;
        }
        lemma_packed_rows_len(plane, stride, width, last);
        assert(last * stride + width <= plane.len());
        let row = plane.subrange((last * stride) as int, (last * stride + width) as int);
        assert(row.len() == width);
        assert(packed_rows(plane, stride, width, rows) == packed_rows(plane, stride, width, last) + row);
        assert(width * rows == width * last + width) by (nonlinear_arith)
            requires rows == last + 1;
        assert(packed_rows(plane, stride, width, rows).len() == width * last + width);
    } else {
        assert(width * rows == 0) by (nonlinear_arith)
            requires rows == 0;
    }
}

/// Row `i` of the packed rows is the `width` bytes that start at
/// `i * stride` in the plane: nothing of the padding past `width` is kept.
pub proof fn lemma_packed_row(plane: Seq<u8>, stride: nat, width: nat, rows: nat, i: nat)
    requires
        rows_fit(plane.len(), stride, width, rows),
        i < rows,
    ensures
        packed_rows(plane, stride, width, rows).subrange((i * width) as int, ((i + 1) * width) as int)
            == plane.subrange((i * stride) as int, (i * stride + width) as int),
    decreases rows,
{
    let last = (rows - 1) as nat;
    if last > 0 {
        assert((last - 1) * stride + width <= last * stride + width) by (nonlinear_arith)
            requires last > 0;
    }
    lemma_packed_rows_len(plane, stride, width, last);
    let prefix = packed_rows(plane, stride, width, last);
    let row = plane.subrange((last * stride) as int, (last * stride + width) as int);
    assert(packed_rows(plane, stride, width, rows) == prefix + row);
    assert((i + 1) * width == i * width + width) by (nonlinear_arith);
    if i < last {
        lemma_packed_row(plane, stride, width, last, i);
        assert((i + 1) * width <= last * width) by (nonlinear_arith)
            requires i < last;
        assert(last * width == width * last) by (nonlinear_arith);
        assert((prefix + row).subrange((i * width) as int, ((i + 1) * width) as int)
            =~= prefix.subrange((i * width) as int, ((i + 1) * width) as int));
    } else {
        assert(i * width == width * last) by (nonlinear_arith)
            requires i == last;
        assert((prefix + row).subrange((i * width) as int, ((i + 1) * width) as int) =~= row);
    }
}

/// Removing the stride padding leaves `width * height` luma bytes and
/// `(width / 2) * (height / 2)` bytes for each chroma plane, whatever the
/// strides are.
pub proof fn lemma_packed_len(frame: &I420Frame)
    requires
        frame.fits(),
    ensures
        frame.packed().len() == frame.width * frame.height + 2 * (frame.chroma_width()
            * frame.chroma_height()),
{
    lemma_packed_rows_len(frame.y@, frame.stride@[0] as nat, frame.width as nat, frame.height as nat);
    lemma_packed_rows_len(frame.u@, frame.stride@[1] as nat, frame.chroma_width(), frame.chroma_height());
    lemma_packed_rows_len(frame.v@, frame.stride@[1] as nat, frame.chroma_width(), frame.chroma_height());
    assert(frame.width * frame.height == frame.height * frame.width) by (nonlinear_arith);
    assert(frame.chroma_width() * frame.chroma_height() == frame.chroma_height() * frame.chroma_width()) by (nonlinear_arith);
}

/// Appends `rows` rows of `width` bytes of `plane`, row `i` read at offset
/// `i * stride`.
fn append_rows(plane: &[u8], stride: usize, width: usize, rows: usize, output: &mut Vec<u8>)
    requires
        rows_fit(plane@.len(), stride as nat, width as nat, rows as nat),
    ensures
        final(output)@ == old(output)@ + packed_rows(plane@, stride as nat, width as nat, rows as nat),
{
    let len: usize = plane.len();
    let mut i: usize = 0;
    while i < rows
        invariant
            i <= rows,
            len == plane@.len(),
            rows_fit(plane@.len(), stride as nat, width as nat, rows as nat),
            output@ == old(output)@ + packed_rows(plane@, stride as nat, width as nat, i as nat),
        decreases rows - i,
    {
        assert(i * stride + width <= (rows - 1) * stride + width) by (nonlinear_arith)
            requires i < rows;
        assert((rows - 1) * stride + width <= len);
        let start: usize = i * stride;
        let end: usize = start + width;
        let ghost before = output@;
        let mut j: usize = start;
        while j < end
            invariant
                start <= j <= end,
                end <= plane@.len(),
                output@ == before + plane@.subrange(start as int, j as int),
            decreases end - j,
        {
            output.push(plane[j]);
            j = j + 1;
            assert(output@ =~= before + plane@.subrange(start as int, j as int));
        }
        i = i + 1;
        assert(output@ =~= old(output)@ + packed_rows(plane@, stride as nat, width as nat, i as nat));
    }
}


/// Whether the rows fit, computed without overflow.
fn rows_fit_checked(len: usize, stride: usize, width: usize, rows: usize) -> (r: bool)
    ensures
        r == rows_fit(len as nat, stride as nat, width as nat, rows as nat),
{
    if rows == 0 {
        return true;
    }
    match (rows - 1).checked_mul(stride) {
        None => false,
        Some(offset) => match offset.checked_add(width) {
            None => false,
            Some(end) => end <= len,
        },
    }
}

impl<'y, 'u, 'v> I420Frame<'y, 'u, 'v> {
    /// Whether every row that `save` reads lies inside its plane.
    pub fn fits_planes(&self) -> (r: bool)
        ensures
            r == self.fits(),
    {
        let cw = self.width / 2;
        let ch = self.height / 2;
        rows_fit_checked(self.y.len(), self.stride[0], self.width, self.height)
            && rows_fit_checked(self.u.len(), self.stride[1], cw, ch)
            && rows_fit_checked(self.v.len(), self.stride[1], cw, ch)
    }
}

/// What the native decoder reported after one decode call: its status, the
/// buffer status flag, and the geometry and format of the picture buffer.
#[derive(Clone, Copy, Debug)]
pub struct DecodeReport {
    pub status: i32,
    pub buffer_status: i32,
    pub width: i32,
    pub height: i32,
    pub format: i32,
    pub stride: [i32; 2],
}

/// Where the planes of a decoded frame lie: its luma size, its two strides,
/// the size of each chroma plane, and how many bytes each plane spans.
#[derive(Clone, Copy, Debug)]
pub struct FrameLayout {
    pub width: usize,
    pub height: usize,
    pub chroma_width: usize,
    pub chroma_height: usize,
    pub stride: [usize; 2],
    pub luma_len: usize,
    pub chroma_len: usize,
}

/// The bytes the luma plane spans: padding may make a stride exceed the
/// picture's width, so each side is the larger of the two.
pub open spec fn luma_extent(r: DecodeReport) -> int {
    let w = if r.width >= r.stride@[0] { r.width as int } else { r.stride@[0] as int };
    let h = if r.height >= r.stride@[1] { r.height as int } else { r.stride@[1] as int };
    w * h
}

/// The native decoder reports a ready frame: the call succeeded, the buffer
/// status is 1, the format is set and neither side is zero.
pub open spec fn frame_ready(r: DecodeReport) -> bool {
    &&& r.status == 0
    &&& r.buffer_status == 1
    &&& r.format != 0
    &&& r.width != 0
    &&& r.height != 0
}

/// The reported sizes and strides are not negative and the luma span fits in
/// `usize`, so the frame's layout can be stated in `usize`.
pub open spec fn layout_representable(r: DecodeReport) -> bool {
    &&& r.width >= 0
    &&& r.height >= 0
    &&& r.stride@[0] >= 0
    &&& r.stride@[1] >= 0
    &&& luma_extent(r) <= usize::MAX
}

/// The layout of the frame that a report describes.
pub open spec fn layout_of(r: DecodeReport) -> FrameLayout {
    FrameLayout {
        width: r.width as usize,
        height: r.height as usize,
        chroma_width: (r.width / 2) as usize,
        chroma_height: (r.height / 2) as usize,
        stride: [r.stride@[0] as usize, r.stride@[1] as usize],
        luma_len: luma_extent(r) as usize,
        chroma_len: (luma_extent(r) / 4) as usize,
    }
}

/// The step by which the input timestamp advances on each decoded frame.
pub const TIMESTAMP_STEP: u64 = 40;

/// The state that a decoding session keeps between calls: the input
/// timestamp handed to the native decoder.
pub struct Decoder {
    timestamp: u64,
}

impl Decoder {
    pub closed spec fn timestamp_spec(&self) -> u64 {
        self.timestamp
    }

    /// A session that has decoded nothing yet.
    pub fn new() -> (r: Decoder)
        ensures
            r.timestamp_spec() == 0,
    {
        Decoder { timestamp: 0 }
    }

    /// The input timestamp to hand to the native decoder on the next call.
    pub fn timestamp(&self) -> (r: u64)
        ensures
            r == self.timestamp_spec(),
    {
        self.timestamp
    }

    /// The parameters and options of the native decoder: slice-copy error
    /// concealment, set both at initialisation and as an option, no dump of
    /// reconstructed frames, the default bitstream type, full decoding rather
    /// than parsing only, and warnings as the trace level.
    pub fn params(&self) -> (r: DecoderParams)
        ensures
            r == (DecoderParams {
                error_concealment: ErrorConcealment::SliceCopy,
                dump_reconstruction: false,
                cpu_load: 0,
                target_dq_layer: 0,
                parse_only: false,
                bitstream: BitstreamType::Default,
                trace_level: TraceLevel::Warning,
            }),
    {
        DecoderParams {
            error_concealment: ErrorConcealment::SliceCopy,
            dump_reconstruction: false,
            cpu_load: 0,
            target_dq_layer: 0,
            parse_only: false,
            bitstream: BitstreamType::Default,
            trace_level: TraceLevel::Warning,
        }
    }

    /// Decides from what the native decoder reported whether a frame is
    /// available, and where its planes lie. A frame comes when the call
    /// succeeded, the buffer status is 1, the format is set and neither side
    /// is zero; then the input timestamp advances by `TIMESTAMP_STEP`. A
    /// report with a negative size or stride, or whose luma span does not fit
    /// in `usize`, describes no frame whose planes could be read, and gives
    /// none. Whether the rows of a frame lie inside its planes is left to
    /// `I420Frame::fits_planes`. When nothing comes the session is unchanged.
    pub fn decode(&mut self, report: &DecodeReport) -> (r: Option<FrameLayout>)
        ensures
            r.is_some() == (frame_ready(*report) && layout_representable(*report)),
            !frame_ready(*report) ==> r.is_none(),
            frame_ready(*report) && layout_representable(*report) ==> r == Some(
                layout_of(*report),
            ),
            r.is_some() ==> r->0.chroma_width == r->0.width / 2 && r->0.chroma_height
                == r->0.height / 2,
            r.is_some() ==> final(self).timestamp_spec() == old(self).timestamp_spec().wrapping_add(
                TIMESTAMP_STEP,
            ),
            r.is_none() ==> final(self).timestamp_spec() == old(self).timestamp_spec(),
    {
        if report.status != 0 || report.buffer_status != 1 || report.format == 0 || report.width
            == 0 || report.height == 0 {
            return None;
        }
        if report.width < 0 || report.height < 0 || report.stride[0] < 0 || report.stride[1] < 0 {
            return None;
        }
        let width = report.width as usize;
        let height = report.height as usize;
        let stride: [usize; 2] = [report.stride[0] as usize, report.stride[1] as usize];
        let span_w = if width >= stride[0] { width } else { stride[0] };
        let span_h = if height >= stride[1] { height } else { stride[1] };
        let luma_len = match span_w.checked_mul(span_h) {
            None => return None,
            Some(n) => n,
        };
        let chroma_len = luma_len / 4;
        let chroma_width = width / 2;
        let chroma_height = height / 2;
        self.timestamp = self.timestamp.wrapping_add(TIMESTAMP_STEP);
        let layout = FrameLayout {
            width,
            height,
            chroma_width,
            chroma_height,
            stride,
            luma_len,
            chroma_len,
        };
        assert(layout.stride@ =~= layout_of(*report).stride@);
        Some(layout)
    }
}

} // verus!
