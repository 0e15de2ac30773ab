use pw_ac3_live::burst::bursts_evenly_spaced;
use pw_ac3_live::encoder::capture_to_feeder_round_trip;
use pw_ac3_live::burst::find_burst_preambles;
use pw_ac3_live::burst::BURST_SPACING_BYTES;
use pw_ac3_live::profile::summarize_us;
use pw_ac3_live::profile::EncoderProfileWindow;
use pw_ac3_live::ring::byte_ring_round_trip;
use pw_ac3_live::ring::plan_frame_write;
use pw_ac3_live::ring::ByteRing;
use pw_ac3_live::ring::SampleRing;
use pw_ac3_live::samples::s16_to_sample_bits;
use pw_ac3_live::samples::samples_to_le_bytes;
use pw_ac3_live::sink::fill_playback_quantum;
use pw_ac3_live::sink::FrameStager;
use pw_ac3_live::text::parse_u32_str;
use pw_ac3_live::text::trim_str;
use pw_ac3_live::text::usize_to_decimal;

#[test]
fn ring_round_trip_preserves_order() {
    let mut ring = ByteRing::new(64);
    let data: Vec<u8> = (0u8..50).collect();
    let out = byte_ring_round_trip(&mut ring, &data);
    assert_eq!(out, data);
    assert_eq!(ring.len(), 0);
}

#[test]
fn ring_write_respects_capacity_and_read_respects_count() {
    let mut ring = ByteRing::new(4);
    assert_eq!(ring.capacity(), 4);
    let written = ring.try_write(&[10, 20, 30, 40, 50, 60]);
    assert_eq!(written, 4);
    assert_eq!(ring.len(), 4);
    let first = ring.read_up_to(2);
    assert_eq!(first, vec![10, 20]);
    let refill = ring.try_write(&[70, 80, 90]);
    assert_eq!(refill, 2);
    let rest = ring.read_up_to(100);
    assert_eq!(rest, vec![30, 40, 70, 80]);
    assert_eq!(ring.len(), 0);
}

#[test]
fn sample_ring_drops_partial_frames() {
    let mut ring = SampleRing::new(100);
    let frame_and_a_half = [1u32, 2, 3, 4, 5, 6, 7, 8, 9];
    let (written, dropped) = ring.write_whole_frames(&frame_and_a_half, 6);
    assert_eq!(written, 6);
    assert_eq!(dropped, 0);
    assert_eq!(ring.len(), 6);

    let mut tight = SampleRing::new(8);
    let (written2, dropped2) = tight.write_whole_frames(&[1u32; 12], 6);
    assert_eq!(written2, 6);
    assert_eq!(dropped2, 1);
}

#[test]
fn playback_callback_primes_only_with_a_full_quantum() {
    let mut ring = ByteRing::new(64);
    ring.try_write(&[9u8; 10]);

    // 10 bytes queued against a 16-byte quantum: stay unprimed, emit silence.
    let (out, primed) = fill_playback_quantum(&mut ring, 16, false);
    assert!(!primed);
    assert_eq!(out, vec![0u8; 16]);
    assert_eq!(ring.len(), 10);

    // Fill past one quantum: the callback primes and plays real data.
    ring.try_write(&[7u8; 10]);
    let (out2, primed2) = fill_playback_quantum(&mut ring, 16, false);
    assert!(primed2);
    assert_eq!(out2.len(), 16);
    assert_eq!(&out2[..10], &[9u8; 10][..]);
    assert_eq!(&out2[10..], &[7u8; 6][..]);
    assert_eq!(ring.len(), 4);
}

#[test]
fn playback_callback_unprimes_when_starved() {
    let mut ring = ByteRing::new(64);
    ring.try_write(&[1u8, 2, 3]);

    // Primed, but under one whole frame available: fall back to silence
    // and require re-priming.
    let (out, primed) = fill_playback_quantum(&mut ring, 16, true);
    assert!(!primed);
    assert_eq!(out, vec![0u8; 16]);
    assert_eq!(ring.len(), 3);
}

#[test]
fn playback_callback_emits_whole_frames_of_queued_data() {
    let mut ring = ByteRing::new(64);
    let data: Vec<u8> = (1u8..=14).collect();
    ring.try_write(&data);

    // Primed with 14 bytes against a 16-byte quantum: 12 bytes (three
    // whole frames) play, the rest is zero-filled.
    let (out, primed) = fill_playback_quantum(&mut ring, 16, true);
    assert!(primed);
    assert_eq!(out.len(), 16);
    assert_eq!(&out[..12], &data[..12]);
    assert_eq!(&out[12..], &[0u8; 4][..]);
    assert_eq!(ring.len(), 2);
}

#[test]
fn frame_stager_emits_whole_frames_only() {
    let mut stager = FrameStager::new();
    let first = stager.push(&vec![1, 2, 3, 4, 5, 6]);
    assert_eq!(first, vec![1, 2, 3, 4]);
    assert_eq!(stager.pending(), 2);

    let second = stager.push(&vec![7, 8]);
    assert_eq!(second, vec![5, 6, 7, 8]);
    assert_eq!(stager.pending(), 0);

    let third = stager.push(&vec![9]);
    assert!(third.is_empty());
    assert_eq!(stager.pending(), 1);
}

#[test]
fn burst_preambles_found_at_expected_spacing() {
    let mut stream = vec![0u8; 3 * BURST_SPACING_BYTES];
    for burst in 0..3 {
        let at = burst * BURST_SPACING_BYTES;
        stream[at] = 0x72;
        stream[at + 1] = 0xF8;
        stream[at + 2] = 0x1F;
        stream[at + 3] = 0x4E;
    }
    let positions = find_burst_preambles(&stream);
    assert_eq!(positions, vec![0, BURST_SPACING_BYTES, 2 * BURST_SPACING_BYTES]);
    assert!(bursts_evenly_spaced(&positions));

    let uneven = vec![0usize, 6144, 6144 + 6000];
    assert!(!bursts_evenly_spaced(&uneven));
}

#[test]
fn burst_scan_ignores_partial_preambles() {
    let stream = [0x72u8, 0xF8, 0x1F, 0x00, 0x72, 0xF8, 0x1F, 0x4E];
    let positions = find_burst_preambles(&stream);
    assert_eq!(positions, vec![4]);
}

#[test]
fn summarize_reports_exact_statistics() {
    let mut values: Vec<u64> = vec![30, 10, 50, 20, 40];
    let summary = summarize_us(&mut values).expect("nonempty window has a summary");
    assert_eq!(values, vec![10, 20, 30, 40, 50]);
    assert_eq!(summary.count, 5);
    assert_eq!(summary.avg_us, 30);
    assert_eq!(summary.p50_us, 30);
    assert_eq!(summary.p95_us, 40);
    assert_eq!(summary.max_us, 50);

    let mut empty: Vec<u64> = Vec::new();
    assert!(summarize_us(&mut empty).is_none());

    let mut single: Vec<u64> = vec![7];
    let one = summarize_us(&mut single).expect("single sample");
    assert_eq!(one.count, 1);
    assert_eq!(one.avg_us, 7);
    assert_eq!(one.p50_us, 7);
    assert_eq!(one.p95_us, 7);
    assert_eq!(one.max_us, 7);
}

#[test]
fn profile_window_records_per_worker_metrics() {
    let mut window = EncoderProfileWindow::new();
    assert!(window.is_empty());
    window.record_feeder(100, 200, 300);
    window.record_reader(400, 500, 600);
    assert!(!window.is_empty());
    assert_eq!(window.feeder_batch_us, vec![100]);
    assert_eq!(window.feeder_queue_us, vec![200]);
    assert_eq!(window.stdin_io_us, vec![300]);
    assert_eq!(window.stdout_read_wait_us, vec![400]);
    assert_eq!(window.output_queue_us, vec![500]);
    assert_eq!(window.output_backpressure_us, vec![600]);
}

#[test]
fn sample_serialization_matches_float_bytes() {
    let floats = [0.5f32, -1.25, 3.0];
    let words: Vec<u32> = floats.iter().map(|f| f.to_bits()).collect();
    let bytes = samples_to_le_bytes(&words);
    let mut expected = Vec::new();
    for f in floats {
        expected.extend_from_slice(&f.to_le_bytes());
    }
    assert_eq!(bytes, expected);
}

#[test]
fn pcm16_conversion_is_exact_division_by_32768() {
    for v in [
        0i16,
        1,
        -1,
        1000,
        -1000,
        16384,
        -16384,
        i16::MAX,
        i16::MIN,
    ] {
        let bits = s16_to_sample_bits(v);
        let expected = (v as f32) / 32768.0;
        assert_eq!(f32::from_bits(bits), expected, "sample {}", v);
    }
    assert_eq!(f32::from_bits(s16_to_sample_bits(i16::MIN)), -1.0);
    assert!(f32::from_bits(s16_to_sample_bits(i16::MAX)) < 1.0);
}

#[test]
fn trim_removes_surrounding_whitespace_only() {
    assert_eq!(trim_str("  hdmi out \t\n"), "hdmi out");
    assert_eq!(trim_str("42"), "42");
    assert_eq!(trim_str("   "), "");
    assert_eq!(trim_str(""), "");
    assert_eq!(trim_str("\u{00A0}42\u{2003}"), "42");
    assert_eq!(trim_str("\u{3000}\u{2028}"), "");
    assert_eq!("\u{00A0}42\u{2003}".trim(), "42");
}

#[test]
fn frame_write_plan_truncates_to_whole_frames() {
    assert_eq!(plan_frame_write(9, 100, 6), (6, 0));
    assert_eq!(plan_frame_write(12, 8, 6), (6, 1));
    assert_eq!(plan_frame_write(5, 100, 6), (0, 0));
    assert_eq!(plan_frame_write(7, 0, 6), (0, 1));
}

#[test]
fn parse_u32_accepts_digits_and_rejects_the_rest() {
    assert_eq!(parse_u32_str("42"), Some(42));
    assert_eq!(parse_u32_str("+42"), Some(42));
    assert_eq!(parse_u32_str("0"), Some(0));
    assert_eq!(parse_u32_str("4294967295"), Some(u32::MAX));
    assert_eq!(parse_u32_str("4294967296"), None);
    assert_eq!(parse_u32_str(""), None);
    assert_eq!(parse_u32_str("+"), None);
    assert_eq!(parse_u32_str("12a"), None);
    assert_eq!(parse_u32_str("-1"), None);
}

#[test]
fn decimal_printing_round_trips() {
    for n in [0usize, 1, 9, 10, 128, 6144, 48000, 4294967295] {
        assert_eq!(usize_to_decimal(n), n.to_string());
    }
}

#[test]
fn capture_frames_reach_the_feeder_serialized_in_order() {
    let mut ring = SampleRing::new(64);
    let frames: Vec<u32> = (0u32..12).map(|i| (i as f32).to_bits()).collect();
    let bytes = capture_to_feeder_round_trip(&mut ring, &frames);
    assert_eq!(bytes.len(), 48);
    let mut expected = Vec::new();
    for i in 0..12 {
        expected.extend_from_slice(&(i as f32).to_le_bytes());
    }
    assert_eq!(bytes, expected);
    assert_eq!(ring.len(), 0);
}
