use vstd::prelude::*;

verus! {

/// How much the native codec logs.
#[derive(Clone, Copy, Debug, PartialEq, Eq, Structural)]
pub enum TraceLevel {
    Quiet,
    Error,
    Warning,
    Info,
    Debug,
    Detail,
}

/// What the decoder puts in place of a slice that is lost or broken.
#[derive(Clone, Copy, Debug, PartialEq, Eq, Structural)]
pub enum ErrorConcealment {
    Disabled,
    FrameCopy,
    SliceCopy,
}

/// The kind of bitstream the decoder is told to expect.
#[derive(Clone, Copy, Debug, PartialEq, Eq, Structural)]
pub enum BitstreamType {
    Default,
    Avc,
    Svc,
}

/// The content the encoder is tuned for.
#[derive(Clone, Copy, Debug, PartialEq, Eq, Structural)]
pub enum UsageType {
    CameraVideoRealTime,
    ScreenContentRealTime,
    CameraVideoNonRealTime,
    ScreenContentNonRealTime,
}

/// How the encoder controls its rate.
#[derive(Clone, Copy, Debug, PartialEq, Eq, Structural)]
pub enum RateControlMode {
    Quality,
    Bitrate,
    BufferBased,
    Timestamp,
    Off,
}

/// Layout of the pictures handed to the encoder.
#[derive(Clone, Copy, Debug, PartialEq, Eq, Structural)]
pub enum VideoFormat {
    I420,
}

/// Parameters a native decoder is initialised with, and the options set on
/// it afterwards.
#[derive(Clone, Copy, Debug, PartialEq, Eq, Structural)]
pub struct DecoderParams {
    pub error_concealment: ErrorConcealment,
    pub dump_reconstruction: bool,
    pub cpu_load: u32,
    pub target_dq_layer: u8,
    pub parse_only: bool,
    pub bitstream: BitstreamType,
    pub trace_level: TraceLevel,
}

/// Parameters a native encoder is initialised with, and the options set on
/// it afterwards.
#[derive(Clone, Copy, Debug, PartialEq, Eq, Structural)]
pub struct EncoderParams {
    pub usage: UsageType,
    pub width: u32,
    pub height: u32,
    pub target_bitrate: u32,
    pub rate_control: RateControlMode,
    /// The highest frame rate, in frames per second.
    pub max_frame_rate: u32,
    pub input_format: VideoFormat,
    pub trace_level: TraceLevel,
}

} // verus!
