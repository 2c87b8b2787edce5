use vstd::prelude::*;

use crate::config::{EncoderParams, RateControlMode, TraceLevel, UsageType, VideoFormat};

verus! {

/// A picture in planar YUV 4:2:0 handed to the encoder: three owned planes,
/// the luma size, one stride per plane slot (chroma strides are usually half
/// the luma one; the fourth slot is unused) and a presentation timestamp.
pub struct I420Picture {
    pub y: Vec<u8>,
    pub u: Vec<u8>,
    pub v: Vec<u8>,
    pub width: u32,
    pub height: u32,
    pub stride: [u32; 4],
    pub timestamp: u64,
}

/// The timestamp given to the native encoder with every picture; the
/// picture's own timestamp is not passed on.
pub const SOURCE_TIMESTAMP: u64 = 30;

/// The native description of a source picture, without its plane addresses.
#[derive(Clone, Copy, Debug)]
pub struct SourceDescriptor {
    pub format: VideoFormat,
    pub stride: [i32; 4],
    pub width: i32,
    pub height: i32,
    pub timestamp: u64,
}

impl I420Picture {
    /// The native description of this picture: I420 format, the stride of
    /// each plane in its own slot, an empty fourth slot,
    /// the size, and `SOURCE_TIMESTAMP`.
    pub fn descriptor(&self) -> (r: SourceDescriptor)
        ensures
            r.format == VideoFormat::I420,
            r.stride@ == seq![
                self.stride@[0] as i32,
                self.stride@[1] as i32,
                self.stride@[2] as i32,
                0i32,
            ],
            r.width == self.width as i32,
            r.height == self.height as i32,
            r.timestamp == SOURCE_TIMESTAMP,
            self.width <= i32::MAX ==> r.width as int == self.width as int,
            self.height <= i32::MAX ==> r.height as int == self.height as int,
            forall|k: int|
                0 <= k < 3 && self.stride@[k] <= i32::MAX ==> r.stride@[k] as int
                    == self.stride@[k] as int,
    {
        let r = SourceDescriptor {
            format: VideoFormat::I420,
            stride: [self.stride[0] as i32, self.stride[1] as i32, self.stride[2] as i32, 0],
            width: self.width as i32,
            height: self.height as i32,
            timestamp: SOURCE_TIMESTAMP,
        };
        assert(r.stride@ =~= seq![
            self.stride@[0] as i32,
            self.stride@[1] as i32,
            self.stride@[2] as i32,
            0i32,
        ]);
        r
    }
}


/// The kind of frame the native encoder produced.
#[derive(Clone, Copy, Debug, PartialEq, Eq, Structural)]
pub enum FrameType {
    Invalid,
    Idr,
    I,
    P,
    /// Nothing new relative to a reference: no bitstream was produced.
    Skip,
    IPMixed,
}

/// One layer of encoder output: the length of each of its NAL units, in
/// order, and the buffer that holds them back to back.
pub struct LayerOutput {
    pub nal_lengths: Vec<i32>,
    pub buffer: Vec<u8>,
}

/// What the native encoder reported after one encode call.
pub struct EncodeReport {
    pub status: i32,
    pub frame_type: FrameType,
    pub layers: Vec<LayerOutput>,
}

/// Why an encode call produced no output.
#[derive(Clone, Copy, Debug, PartialEq, Eq, Structural)]
pub enum EncodeError {
    /// The native encoder returned this status instead of success.
    Status(i32),
    /// The NAL unit lengths of a layer are negative or do not add up to the
    /// size of its buffer.
    NalLengths,
}

/// The status with which the native encoder reports success.
pub const STATUS_SUCCESS: i32 = 0;

/// The sum of the NAL unit lengths.
pub open spec fn nal_total(lengths: Seq<i32>) -> int
    decreases lengths.len(),
{
    if lengths.len() == 0 {
        0
    } else {
        nal_total(lengths.drop_last()) + lengths.last()
    }
}

/// No NAL unit length is negative.
pub open spec fn nal_lengths_valid(lengths: Seq<i32>) -> bool {
    forall|k: int| 0 <= k < lengths.len() ==> lengths[k] >= 0
}

/// The NAL unit lengths describe exactly the bytes of the buffer.
pub open spec fn frames_buffer(lengths: Seq<i32>, buffer: Seq<u8>) -> bool {
    nal_lengths_valid(lengths) && nal_total(lengths) == buffer.len()
}

/// NAL unit `k` of a layer: the bytes that follow the first `k` units.
pub open spec fn nal_unit(lengths: Seq<i32>, buffer: Seq<u8>, k: int) -> Seq<u8> {
    buffer.subrange(nal_total(lengths.take(k)), nal_total(lengths.take(k + 1)))
}

/// The first `k` NAL units of a layer, one after the other.
pub open spec fn joined_units(lengths: Seq<i32>, buffer: Seq<u8>, k: nat) -> Seq<u8>
    decreases k,
{
    if k == 0 {
        Seq::empty()
    } else {
        joined_units(lengths, buffer, (k - 1) as nat) + nal_unit(lengths, buffer, k - 1)
    }
}

/// Every layer's lengths describe exactly its buffer.
pub open spec fn layers_valid(layers: Seq<LayerOutput>) -> bool {
    forall|k: int| 0 <= k < layers.len() ==> frames_buffer(layers[k].nal_lengths@, layers[k].buffer@)
}

/// The bytes of all layers, in layer order.
pub open spec fn layers_bytes(layers: Seq<LayerOutput>) -> Seq<u8>
    decreases layers.len(),
{
    if layers.len() == 0 {
        Seq::empty()
    } else {
        layers_bytes(layers.drop_last()) + layers.last().buffer@
    }
}

/// With no negative length, the sums of the first `i` and the first `j`
/// lengths grow with `i <= j`, from zero up to the whole sum.
pub proof fn lemma_nal_total_prefix(lengths: Seq<i32>, i: int, j: int)
    requires
        nal_lengths_valid(lengths),
        0 <= i <= j <= lengths.len(),
    ensures
        0 <= nal_total(lengths.take(i)) <= nal_total(lengths.take(j)),
        nal_total(lengths.take(lengths.len() as int)) == nal_total(lengths),
    decreases j,
{
    assert(lengths.take(lengths.len() as int) =~= lengths);
    if j > i {
        assert(lengths.take(j).drop_last() =~= lengths.take(j - 1));
        lemma_nal_total_prefix(lengths, i, j - 1);
    } else if j > 0 {
        assert(lengths.take(j).drop_last() =~= lengths.take(j - 1));
        lemma_nal_total_prefix(lengths, j - 1, j - 1);
    } else {
        assert(lengths.take(0) =~= Seq::<i32>::empty());
    }
}

/// The first `k` NAL units, joined, are the buffer up to where unit `k`
/// starts.
proof fn lemma_joined_prefix(lengths: Seq<i32>, buffer: Seq<u8>, k: nat)
    requires
        frames_buffer(lengths, buffer),
        k <= lengths.len(),
    ensures
        joined_units(lengths, buffer, k) == buffer.subrange(0, nal_total(lengths.take(k as int))),
    decreases k,
{
    lemma_nal_total_prefix(lengths, k as int, lengths.len() as int);
    if k == 0 {
        assert(lengths.take(0) =~= Seq::<i32>::empty());
        assert(buffer.subrange(0, 0) =~= Seq::<u8>::empty());
    } else {
        lemma_joined_prefix(lengths, buffer, (k - 1) as nat);
        lemma_nal_total_prefix(lengths, k - 1, k as int);
        assert(joined_units(lengths, buffer, k) =~= buffer.subrange(
            0,
            nal_total(lengths.take(k as int)),
        ));
    }
}

/// Re-framing loses and adds nothing: when the NAL unit lengths of a layer
/// are not negative and add up to the size of its buffer, its units, cut at
/// those lengths and joined in order, are exactly the buffer.
pub proof fn lemma_nal_reframing(lengths: Seq<i32>, buffer: Seq<u8>)
    requires
        frames_buffer(lengths, buffer),
    ensures
        joined_units(lengths, buffer, lengths.len()) == buffer,
{
    lemma_joined_prefix(lengths, buffer, lengths.len());
    lemma_nal_total_prefix(lengths, 0, lengths.len() as int);
    assert(buffer.subrange(0, buffer.len() as int) =~= buffer);
}

/// The number of bytes that a layer's NAL units span: `None` when a length
/// is negative or the sum does not fit in `usize`.
pub fn nal_payload_len(lengths: &Vec<i32>) -> (r: Option<usize>)
    ensures
        r == (if nal_lengths_valid(lengths@) && nal_total(lengths@) <= usize::MAX {
            Some(nal_total(lengths@) as usize)
        } else {
            None
        }),
{
    let mut sum: usize = 0;
    let mut i: usize = 0;
    while i < lengths.len()
        invariant
            i <= lengths.len(),
            nal_lengths_valid(lengths@.take(i as int)),
            sum == nal_total(lengths@.take(i as int)),
        decreases lengths.len() - i,
    {
        assert(lengths@.take(i + 1).drop_last() =~= lengths@.take(i as int));
        let n = lengths[i];
        if n < 0 {
            assert(!nal_lengths_valid(lengths@));
            return None;
        }
        match sum.checked_add(n as usize) {
            None => {
                proof {
                    if nal_lengths_valid(lengths@) {
                        lemma_nal_total_prefix(lengths@, i + 1, lengths.len() as int);
                    }
                }
                return None;
            },
            Some(s) => {
                sum = s;
            },
        }
        i = i + 1;
        assert(nal_lengths_valid(lengths@.take(i as int)));
    }
    assert(lengths@.take(i as int) =~= lengths@);
    Some(sum)
}

/// Appends the NAL units of one layer to `out`, one after the other, each cut
/// from the layer's buffer at its length.
fn append_nal_units(lengths: &Vec<i32>, buffer: &Vec<u8>, out: &mut Vec<u8>)
    requires
        frames_buffer(lengths@, buffer@),
    ensures
        final(out)@ == old(out)@ + buffer@,
{
    let len: usize = buffer.len();
    let mut start: usize = 0;
    let mut k: usize = 0;
    while k < lengths.len()
        invariant
            len == buffer@.len(),
            k <= lengths.len(),
            frames_buffer(lengths@, buffer@),
            start == nal_total(lengths@.take(k as int)),
            out@ == old(out)@ + joined_units(lengths@, buffer@, k as nat),
        decreases lengths.len() - k,
    {
        proof {
            lemma_nal_total_prefix(lengths@, k + 1, lengths.len() as int);
            assert(lengths@.take(k + 1).drop_last() =~= lengths@.take(k as int));
            assert(nal_total(lengths@.take(k + 1)) == start + lengths@[k as int]);
            assert(start + lengths@[k as int] <= len);
        }
        let end: usize = start + lengths[k] as usize;
        let ghost before = out@;
        let mut j: usize = start;
        while j < end
            invariant
                start <= j <= end,
                end <= buffer@.len(),
                out@ == before + buffer@.subrange(start as int, j as int),
            decreases end - j,
        {
            out.push(buffer[j]);
            j = j + 1;
            assert(out@ =~= before + buffer@.subrange(start as int, j as int));
        }
        start = end;
        k = k + 1;
        assert(out@ =~= old(out)@ + joined_units(lengths@, buffer@, k as nat));
    }
    proof {
        lemma_nal_reframing(lengths@, buffer@);
    }
}


/// Whether a layer's lengths describe exactly its buffer.
fn layer_is_framed(layer: &LayerOutput) -> (r: bool)
    ensures
        r == frames_buffer(layer.nal_lengths@, layer.buffer@),
{
    let len: usize = layer.buffer.len();
    proof {
        if nal_lengths_valid(layer.nal_lengths@) {
            lemma_nal_total_prefix(layer.nal_lengths@, 0, layer.nal_lengths@.len() as int);
        }
    }
    match nal_payload_len(&layer.nal_lengths) {
        None => false,
        Some(n) => n == len,
    }
}

/// The settings of one encoding session: picture size and target bitrate.
pub struct Encoder {
    width: u32,
    height: u32,
    bitrate: u32,
}

/// The highest frame rate the encoder is configured for.
pub const MAX_FRAME_RATE: u32 = 25;

impl Encoder {
    pub closed spec fn width_spec(&self) -> u32 {
        self.width
    }

    pub closed spec fn height_spec(&self) -> u32 {
        self.height
    }

    pub closed spec fn bitrate_spec(&self) -> u32 {
        self.bitrate
    }

    /// A session for pictures of `w` by `h` at a target of `bitrate`.
    pub fn new(w: u32, h: u32, bitrate: u32) -> (r: Encoder)
        ensures
            r.width_spec() == w,
            r.height_spec() == h,
            r.bitrate_spec() == bitrate,
    {
        Encoder { width: w, height: h, bitrate }
    }

    /// The parameters and options of the native encoder: real-time screen
    /// content, the session's size and bitrate, bitrate rate control, at most
    /// `MAX_FRAME_RATE` frames per second, I420 input and warnings as the
    /// trace level.
    pub fn base_params(&self) -> (r: EncoderParams)
        ensures
            r == (EncoderParams {
                usage: UsageType::ScreenContentRealTime,
                width: self.width_spec(),
                height: self.height_spec(),
                target_bitrate: self.bitrate_spec(),
                rate_control: RateControlMode::Bitrate,
                max_frame_rate: MAX_FRAME_RATE,
                input_format: VideoFormat::I420,
                trace_level: TraceLevel::Warning,
            }),
    {
        EncoderParams {
            usage: UsageType::ScreenContentRealTime,
            width: self.width,
            height: self.height,
            target_bitrate: self.bitrate,
            rate_control: RateControlMode::Bitrate,
            max_frame_rate: MAX_FRAME_RATE,
            input_format: VideoFormat::I420,
            trace_level: TraceLevel::Warning,
        }
    }

    /// Writes to `out` what the native encoder produced for one picture.
    /// A status other than success is an error and writes nothing. A skipped
    /// frame writes nothing and is no error. Otherwise each layer's NAL units
    /// are written in order, cut from its buffer at their lengths; if any
    /// layer's lengths do not describe its buffer exactly, nothing is written
    /// and the error says so.
    pub fn encode(&self, report: &EncodeReport, out: &mut Vec<u8>) -> (r: Result<(), EncodeError>)
        ensures
            report.status != STATUS_SUCCESS ==> r == Err::<(), EncodeError>(
                EncodeError::Status(report.status),
            ),
            report.status == STATUS_SUCCESS && report.frame_type == FrameType::Skip ==> r is Ok,
            report.status == STATUS_SUCCESS && report.frame_type != FrameType::Skip ==> (r is Ok
                <==> layers_valid(report.layers@)),
            report.status == STATUS_SUCCESS && report.frame_type != FrameType::Skip
                && !layers_valid(report.layers@) ==> r == Err::<(), EncodeError>(
                EncodeError::NalLengths,
            ),
            r is Ok && report.frame_type != FrameType::Skip ==> final(out)@ == old(out)@
                + layers_bytes(report.layers@),
            report.frame_type == FrameType::Skip || r is Err ==> final(out)@ == old(out)@,
    {
        if report.status != STATUS_SUCCESS {
            return Err(EncodeError::Status(report.status));
        }
        if report.frame_type == FrameType::Skip {
            return Ok(());
        }
        let mut i: usize = 0;
        while i < report.layers.len()
            invariant
                report.status == STATUS_SUCCESS,
                report.frame_type != FrameType::Skip,
                i <= report.layers.len(),
                layers_valid(report.layers@.take(i as int)),
            decreases report.layers.len() - i,
        {
            if !layer_is_framed(&report.layers[i]) {
                assert(!layers_valid(report.layers@));
                return Err(EncodeError::NalLengths);
            }
            i = i + 1;
            assert(layers_valid(report.layers@.take(i as int)));
        }
        assert(report.layers@.take(i as int) =~= report.layers@);
        let mut k: usize = 0;
        while k < report.layers.len()
            invariant
                report.status == STATUS_SUCCESS,
                report.frame_type != FrameType::Skip,
                k <= report.layers.len(),
                layers_valid(report.layers@),
                out@ == old(out)@ + layers_bytes(report.layers@.take(k as int)),
            decreases report.layers.len() - k,
        {
            let layer = &report.layers[k];
            append_nal_units(&layer.nal_lengths, &layer.buffer, out);
            k = k + 1;
            assert(report.layers@.take(k as int).drop_last() =~= report.layers@.take(k - 1));
            assert(out@ =~= old(out)@ + layers_bytes(report.layers@.take(k as int)));
        }
        assert(report.layers@.take(k as int) =~= report.layers@);
        Ok(())
    }
}

} // verus!
