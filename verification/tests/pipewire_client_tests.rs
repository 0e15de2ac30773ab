use pw_ac3_live::flag::ShutdownFlag;
use pw_ac3_live::normalize::parse_f32_interleaved_into;
use pw_ac3_live::normalize::parse_f32_plane_into;
use pw_ac3_live::normalize::parse_interleaved_from_stride_into;
use pw_ac3_live::pipewire_client::build_playback_properties;
use pw_ac3_live::pipewire_client::resolve_playback_target;
use pw_ac3_live::ring::ByteRing;
use pw_ac3_live::sink::run_stdout_output_loop;
use pw_ac3_live::sink::ByteSink;

fn to_floats(words: Vec<u32>) -> Vec<f32> {
    words.into_iter().map(f32::from_bits).collect()
}

fn parse_f32_plane(raw_data: &[u8], offset: usize, size: usize) -> Option<Vec<f32>> {
    let mut words = Vec::new();
    parse_f32_plane_into(raw_data, offset, size, &mut words)?;
    Some(to_floats(words))
}

fn parse_f32_interleaved(
    raw_data: &[u8],
    offset: usize,
    size: usize,
    channels: usize,
) -> Option<Vec<f32>> {
    let mut words = Vec::new();
    parse_f32_interleaved_into(raw_data, offset, size, channels, &mut words)?;
    Some(to_floats(words))
}

fn parse_interleaved_from_stride(
    raw_data: &[u8],
    offset: usize,
    size: usize,
    stride: usize,
) -> Option<Vec<f32>> {
    let mut words = Vec::new();
    parse_interleaved_from_stride_into(raw_data, offset, size, stride, &mut words)?;
    Some(to_floats(words))
}

fn prop<'a>(props: &'a [(String, String)], key: &str) -> Option<&'a str> {
    props
        .iter()
        .find(|(k, _)| k == key)
        .map(|(_, v)| v.as_str())
}

#[test]
fn parse_f32_plane_accepts_valid_aligned_chunk() {
    let data = [0.5f32, -1.25f32, 3.0f32];
    let mut bytes = Vec::with_capacity(data.len() * 4);
    for sample in data {
        bytes.extend_from_slice(&sample.to_le_bytes());
    }

    let parsed = parse_f32_plane(&bytes, 0, bytes.len()).expect("aligned chunk should parse");
    assert_eq!(parsed, vec![0.5, -1.25, 3.0]);
}

#[test]
fn parse_f32_plane_rejects_unaligned_offset() {
    let mut bytes = vec![0u8];
    bytes.extend_from_slice(&1.0f32.to_le_bytes());

    assert!(parse_f32_plane(&bytes, 1, 4).is_none());
}

#[test]
fn parse_f32_plane_rejects_non_multiple_of_f32_size() {
    let bytes = vec![0u8; 5];
    assert!(parse_f32_plane(&bytes, 0, bytes.len()).is_none());
}

#[test]
fn parse_f32_plane_rejects_out_of_bounds_range() {
    let bytes = vec![0u8; 8];
    assert!(parse_f32_plane(&bytes, 4, 8).is_none());
}

#[test]
fn parse_f32_interleaved_truncates_partial_frame() {
    let samples = [1.0f32, 2.0, 3.0, 4.0, 5.0];
    let mut bytes = Vec::with_capacity(samples.len() * 4);
    for sample in samples {
        bytes.extend_from_slice(&sample.to_le_bytes());
    }

    let parsed =
        parse_f32_interleaved(&bytes, 0, bytes.len(), 2).expect("interleaved chunk should parse");
    assert_eq!(parsed, vec![1.0, 2.0, 3.0, 4.0]);
}

#[test]
fn parse_f32_interleaved_rejects_zero_channels() {
    let bytes = vec![0u8; 8];
    assert!(parse_f32_interleaved(&bytes, 0, bytes.len(), 0).is_none());
}

#[test]
fn parse_interleaved_from_stride_reads_f32_stereo_and_pads_to_51() {
    let mut bytes = Vec::new();
    for sample in [1.0f32, -1.0f32, 0.25f32, -0.25f32] {
        bytes.extend_from_slice(&sample.to_le_bytes());
    }

    let parsed = parse_interleaved_from_stride(&bytes, 0, bytes.len(), 8).expect("should parse");
    assert_eq!(parsed.len(), 12);
    assert_eq!(parsed[0], 1.0);
    assert_eq!(parsed[1], -1.0);
    assert_eq!(parsed[2], 0.0);
    assert_eq!(parsed[6], 0.25);
    assert_eq!(parsed[7], -0.25);
}

#[test]
fn parse_interleaved_from_stride_reads_s16_stereo_and_pads_to_51() {
    let mut bytes = Vec::new();
    for sample in [i16::MAX, i16::MIN, 1000i16, -1000i16] {
        bytes.extend_from_slice(&sample.to_le_bytes());
    }

    let parsed = parse_interleaved_from_stride(&bytes, 0, bytes.len(), 4).expect("should parse");
    assert_eq!(parsed.len(), 12);
    assert!(parsed[0].is_finite());
    assert!(parsed[1].is_finite());
    assert_eq!(parsed[2], 0.0);
    assert!(parsed[6].is_finite());
    assert!(parsed[7].is_finite());
}

#[test]
fn playback_target_numeric_string_sets_connect_id_and_property() {
    let target = resolve_playback_target(Some("42"));
    assert_eq!(target.connect_target_id, Some(42));
    assert_eq!(target.target_object.as_deref(), Some("42"));

    let props = build_playback_properties(&target);
    assert_eq!(prop(&props, "target.object"), Some("42"));
    assert_eq!(prop(&props, "node.autoconnect"), Some("false"));
}

#[test]
fn playback_target_name_sets_only_target_object_property() {
    let target = resolve_playback_target(Some("alsa_output.pci-0000_00_1f.3.hdmi-stereo"));
    assert_eq!(target.connect_target_id, None);
    assert_eq!(
        target.target_object.as_deref(),
        Some("alsa_output.pci-0000_00_1f.3.hdmi-stereo")
    );

    let props = build_playback_properties(&target);
    assert_eq!(
        prop(&props, "target.object"),
        Some("alsa_output.pci-0000_00_1f.3.hdmi-stereo")
    );
    assert_eq!(prop(&props, "node.autoconnect"), Some("false"));
}

#[test]
fn playback_target_blank_string_is_ignored() {
    let target = resolve_playback_target(Some("   "));
    assert_eq!(target.connect_target_id, None);
    assert_eq!(target.target_object, None);

    let props = build_playback_properties(&target);
    assert_eq!(prop(&props, "target.object"), None);
    assert_eq!(prop(&props, "node.autoconnect"), Some("true"));
}

struct VecWriter {
    written: Vec<u8>,
}

impl ByteSink for VecWriter {
    fn write_all(&mut self, data: &Vec<u8>) -> Result<(), String> {
        self.written.extend_from_slice(data);
        Ok(())
    }

    fn flush(&mut self) -> Result<(), String> {
        Ok(())
    }

    fn idle(&mut self) {}
}

struct FailWriter;

impl ByteSink for FailWriter {
    fn write_all(&mut self, _data: &Vec<u8>) -> Result<(), String> {
        Err("mock error".to_string())
    }

    fn flush(&mut self) -> Result<(), String> {
        Ok(())
    }

    fn idle(&mut self) {}
}

#[test]
fn stdout_output_loop_flushes_buffer_and_exits_after_stop() {
    let mut ring = ByteRing::new(32);
    let expected = [1u8, 2, 3, 4, 5, 6];
    let written_count = ring.try_write(&expected);
    assert_eq!(written_count, expected.len(), "producer should have space");

    let running = ShutdownFlag::new();
    running.request_stop();

    let mut writer = VecWriter { written: Vec::new() };
    run_stdout_output_loop(&mut ring, &running, &mut writer).expect("stdout loop should exit cleanly");
    assert_eq!(writer.written, expected);
}

#[test]
fn stdout_output_loop_empty_buffer_exits_cleanly() {
    let mut ring = ByteRing::new(32);
    let running = ShutdownFlag::new();
    running.request_stop();

    let mut writer = VecWriter { written: Vec::new() };
    run_stdout_output_loop(&mut ring, &running, &mut writer).expect("should exit cleanly");
    assert!(writer.written.is_empty());
}

#[test]
fn stdout_output_loop_propagates_write_error() {
    let mut ring = ByteRing::new(32);
    let written_count = ring.try_write(&[1u8, 2, 3, 4]);
    assert_eq!(written_count, 4, "should have space");

    let running = ShutdownFlag::new();
    let mut writer = FailWriter;
    let result = run_stdout_output_loop(&mut ring, &running, &mut writer);
    assert!(result.is_err());
}

#[test]
fn stride_6ch_f32_no_padding() {
    let mut bytes = Vec::new();
    for frame in 0..2u32 {
        for ch in 0..6u32 {
            let val = (frame * 6 + ch) as f32;
            bytes.extend_from_slice(&val.to_le_bytes());
        }
    }
    let parsed =
        parse_interleaved_from_stride(&bytes, 0, bytes.len(), 24).expect("6ch f32 should parse");
    assert_eq!(parsed.len(), 12);
    assert_eq!(parsed[0], 0.0);
    assert_eq!(parsed[5], 5.0);
    assert_eq!(parsed[6], 6.0);
    assert_eq!(parsed[11], 11.0);
}

#[test]
fn stride_mono_f32_pads_to_6ch() {
    let mut bytes = Vec::new();
    for val in [0.5f32, -0.5f32] {
        bytes.extend_from_slice(&val.to_le_bytes());
    }
    let parsed =
        parse_interleaved_from_stride(&bytes, 0, bytes.len(), 4).expect("mono f32 should parse");
    assert_eq!(parsed.len(), 12);
    assert_eq!(parsed[0], 0.5);
    assert_eq!(parsed[1], 0.0);
    assert_eq!(parsed[5], 0.0);
    assert_eq!(parsed[6], -0.5);
    assert_eq!(parsed[7], 0.0);
}

#[test]
fn stride_6ch_s16() {
    let mut bytes = Vec::new();
    for val in [i16::MAX, 0i16, i16::MIN, 1000i16, -1000i16, 500i16] {
        bytes.extend_from_slice(&val.to_le_bytes());
    }
    let parsed =
        parse_interleaved_from_stride(&bytes, 0, bytes.len(), 12).expect("6ch s16 should parse");
    assert_eq!(parsed.len(), 6);
    for sample in &parsed {
        assert!(sample.is_finite());
        assert!(*sample >= -1.0 && *sample <= 1.0);
    }
}

#[test]
fn stride_mono_s16_pads_to_6ch() {
    let mut bytes = Vec::new();
    for val in [16000i16, -16000i16] {
        bytes.extend_from_slice(&val.to_le_bytes());
    }
    let parsed =
        parse_interleaved_from_stride(&bytes, 0, bytes.len(), 2).expect("mono s16 should parse");
    assert_eq!(parsed.len(), 12);
    assert!(parsed[0].is_finite() && parsed[0] > 0.0);
    assert_eq!(parsed[1], 0.0);
    assert_eq!(parsed[5], 0.0);
    assert!(parsed[6].is_finite() && parsed[6] < 0.0);
    assert_eq!(parsed[7], 0.0);
}

#[test]
fn stride_invalid_size_returns_none() {
    let bytes = vec![0u8; 12];
    assert!(parse_interleaved_from_stride(&bytes, 0, bytes.len(), 3).is_none());
}

#[test]
fn stride_zero_returns_none() {
    let bytes = vec![0u8; 8];
    assert!(parse_interleaved_from_stride(&bytes, 0, bytes.len(), 0).is_none());
}

#[test]
fn stride_too_few_bytes_returns_none() {
    let bytes = vec![0u8; 3];
    assert!(parse_interleaved_from_stride(&bytes, 0, bytes.len(), 8).is_none());
}

#[test]
fn stride_7ch_f32_exceeds_max_returns_none() {
    let bytes = vec![0u8; 56];
    assert!(parse_interleaved_from_stride(&bytes, 0, bytes.len(), 28).is_none());
}

#[test]
fn playback_target_none_enables_autoconnect() {
    let target = resolve_playback_target(None);
    assert_eq!(target.connect_target_id, None);
    assert_eq!(target.target_object, None);

    let props = build_playback_properties(&target);
    assert_eq!(prop(&props, "target.object"), None);
    assert_eq!(prop(&props, "node.autoconnect"), Some("true"));
}

#[test]
fn parse_f32_plane_with_nonzero_offset() {
    let mut bytes = vec![0u8; 8];
    bytes.extend_from_slice(&1.5f32.to_le_bytes());
    bytes.extend_from_slice(&(-2.5f32).to_le_bytes());

    let parsed = parse_f32_plane(&bytes, 8, 8).expect("offset 8 should parse");
    assert_eq!(parsed, vec![1.5, -2.5]);
}

#[test]
fn parse_f32_interleaved_exact_frame_count() {
    let samples = [1.0f32, 2.0, 3.0, 4.0, 5.0, 6.0];
    let mut bytes = Vec::with_capacity(samples.len() * 4);
    for sample in samples {
        bytes.extend_from_slice(&sample.to_le_bytes());
    }

    let parsed =
        parse_f32_interleaved(&bytes, 0, bytes.len(), 3).expect("exact frame count should parse");
    assert_eq!(parsed, vec![1.0, 2.0, 3.0, 4.0, 5.0, 6.0]);
}

#[test]
fn stride_nonzero_offset() {
    let mut bytes = vec![0u8; 8];
    for val in [0.25f32, -0.25f32, 0.75f32, -0.75f32] {
        bytes.extend_from_slice(&val.to_le_bytes());
    }

    let parsed = parse_interleaved_from_stride(&bytes, 8, 16, 8).expect("offset 8 should parse");
    assert_eq!(parsed.len(), 12);
    assert_eq!(parsed[0], 0.25);
    assert_eq!(parsed[1], -0.25);
    assert_eq!(parsed[2], 0.0);
    assert_eq!(parsed[6], 0.75);
}

#[test]
fn stride_offset_overflow_returns_none() {
    let bytes = vec![0u8; 16];
    assert!(parse_interleaved_from_stride(&bytes, usize::MAX, 1, 4).is_none());
}
