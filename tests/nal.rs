use openh264::config::{RateControlMode, TraceLevel, UsageType, VideoFormat};
use openh264::encoder::{
    nal_payload_len, EncodeError, EncodeReport, FrameType, LayerOutput, MAX_FRAME_RATE, SOURCE_TIMESTAMP,
};
use openh264::{Encoder, I420Picture};

fn layer(nal_lengths: Vec<i32>, buffer: Vec<u8>) -> LayerOutput {
    LayerOutput { nal_lengths, buffer }
}

#[test]
fn encode_writes_nal_units_in_order() {
    let encoder = Encoder::new(320, 240, 1200);
    let report = EncodeReport {
        status: 0,
        frame_type: FrameType::Idr,
        layers: vec![layer(vec![2, 3, 1], vec![1, 2, 3, 4, 5, 6])],
    };
    let mut out: Vec<u8> = Vec::new();
    assert_eq!(encoder.encode(&report, &mut out), Ok(()));
    assert_eq!(out, vec![1, 2, 3, 4, 5, 6]);
}

#[test]
fn encode_writes_layers_in_order() {
    let encoder = Encoder::new(320, 240, 1200);
    let report = EncodeReport {
        status: 0,
        frame_type: FrameType::Idr,
        layers: vec![
            layer(vec![4, 4], vec![0, 0, 0, 1, 0x67, 0x42, 0x00, 0x1e]),
            layer(vec![0], vec![]),
            layer(vec![5], vec![0, 0, 0, 1, 0x65]),
        ],
    };
    let mut out: Vec<u8> = vec![9];
    assert_eq!(encoder.encode(&report, &mut out), Ok(()));
    assert_eq!(out, vec![9, 0, 0, 0, 1, 0x67, 0x42, 0x00, 0x1e, 0, 0, 0, 1, 0x65]);
}

#[test]
fn encode_skip_frame_writes_nothing() {
    let encoder = Encoder::new(320, 240, 1200);
    let report = EncodeReport {
        status: 0,
        frame_type: FrameType::Skip,
        layers: vec![layer(vec![3], vec![1, 2, 3])],
    };
    let mut out: Vec<u8> = Vec::new();
    assert_eq!(encoder.encode(&report, &mut out), Ok(()));
    assert!(out.is_empty());
}

#[test]
fn encode_native_failure_is_error() {
    let encoder = Encoder::new(320, 240, 1200);
    let report = EncodeReport { status: 1, frame_type: FrameType::P, layers: vec![layer(vec![1], vec![7])] };
    let mut out: Vec<u8> = Vec::new();
    assert_eq!(encoder.encode(&report, &mut out), Err(EncodeError::Status(1)));
    assert!(out.is_empty());
}

#[test]
fn encode_length_mismatch_is_error() {
    let encoder = Encoder::new(320, 240, 1200);
    let report = EncodeReport {
        status: 0,
        frame_type: FrameType::P,
        layers: vec![layer(vec![2], vec![1, 2]), layer(vec![2, 2], vec![1, 2, 3])],
    };
    let mut out: Vec<u8> = Vec::new();
    assert_eq!(encoder.encode(&report, &mut out), Err(EncodeError::NalLengths));
    assert!(out.is_empty());
}

#[test]
fn encode_negative_length_is_error() {
    let encoder = Encoder::new(320, 240, 1200);
    let report = EncodeReport {
        status: 0,
        frame_type: FrameType::I,
        layers: vec![layer(vec![3, -1], vec![1, 2])],
    };
    let mut out: Vec<u8> = Vec::new();
    assert_eq!(encoder.encode(&report, &mut out), Err(EncodeError::NalLengths));
    assert!(out.is_empty());
}

#[test]
fn payload_len_sums_lengths() {
    assert_eq!(nal_payload_len(&vec![]), Some(0));
    assert_eq!(nal_payload_len(&vec![4, 10, 1]), Some(15));
    assert_eq!(nal_payload_len(&vec![4, -10, 1]), None);
}

#[test]
fn descriptor_uses_fixed_timestamp_and_plane_strides() {
    let picture = I420Picture {
        y: vec![0u8; 320 * 240],
        u: vec![0u8; 160 * 120],
        v: vec![0u8; 160 * 120],
        width: 320,
        height: 240,
        stride: [320, 160, 170, 0],
        timestamp: 1234,
    };
    let d = picture.descriptor();
    assert_eq!(d.format, VideoFormat::I420);
    assert_eq!(d.stride, [320, 160, 170, 0]);
    assert_eq!(d.width, 320);
    assert_eq!(d.height, 240);
    assert_eq!(d.timestamp, SOURCE_TIMESTAMP);
    assert_eq!(d.timestamp, 30);
}

#[test]
fn encoder_base_params() {
    let p = Encoder::new(320, 240, 1200).base_params();
    assert_eq!(p.usage, UsageType::ScreenContentRealTime);
    assert_eq!(p.width, 320);
    assert_eq!(p.height, 240);
    assert_eq!(p.target_bitrate, 1200);
    assert_eq!(p.rate_control, RateControlMode::Bitrate);
    assert_eq!(p.max_frame_rate, MAX_FRAME_RATE);
    assert_eq!(p.max_frame_rate, 25);
    assert_eq!(p.input_format, VideoFormat::I420);
    assert_eq!(p.trace_level, TraceLevel::Warning);
}
