use pw_ac3_live::normalize::interleave_planes;
use pw_ac3_live::normalize::min_nonempty_plane_len;
use pw_ac3_live::normalize::parse_single_plane_delivery;
use pw_ac3_live::pipewire_client::build_capture_properties;
use pw_ac3_live::pipewire_client::effective_alsa_latency;
use pw_ac3_live::pipewire_client::effective_node_latency;
use pw_ac3_live::pipewire_client::requested_latency_frames;

fn prop<'a>(props: &'a [(String, String)], key: &str) -> Option<&'a str> {
    props
        .iter()
        .find(|(k, _)| k == key)
        .map(|(_, v)| v.as_str())
}

#[test]
fn latency_frames_read_from_fraction_head() {
    assert_eq!(requested_latency_frames("64/48000"), Some(64));
    assert_eq!(requested_latency_frames("32/48000"), Some(32));
    assert_eq!(requested_latency_frames("32"), Some(32));
    assert_eq!(requested_latency_frames("0/48000"), None);
    assert_eq!(requested_latency_frames("abc/48000"), None);
    assert_eq!(requested_latency_frames(""), None);
    assert_eq!(requested_latency_frames("/48000"), None);
}

#[test]
fn blank_node_latency_falls_back_to_stock_fraction() {
    assert_eq!(effective_node_latency(""), "64/48000");
    assert_eq!(effective_node_latency("   "), "64/48000");
    assert_eq!(effective_node_latency("16/48000"), "16/48000");
}

#[test]
fn capture_properties_follow_requested_quantum() {
    let props = build_capture_properties("64/48000");
    assert_eq!(props.len(), 13);
    assert_eq!(prop(&props, "media.class"), Some("Audio/Sink"));
    assert_eq!(prop(&props, "audio.channels"), Some("6"));
    assert_eq!(prop(&props, "audio.format"), Some("F32LE"));
    assert_eq!(prop(&props, "node.latency"), Some("64/48000"));
    assert_eq!(prop(&props, "node.force-quantum"), Some("64"));
    assert_eq!(prop(&props, "node.lock-quantum"), Some("true"));

    let no_quantum = build_capture_properties("0/48000");
    assert_eq!(no_quantum.len(), 9);
    assert_eq!(prop(&no_quantum, "node.force-quantum"), None);

    let defaulted = build_capture_properties("  ");
    assert_eq!(prop(&defaulted, "node.latency"), Some("64/48000"));
    assert_eq!(prop(&defaulted, "node.force-quantum"), Some("64"));
}

#[test]
fn zero_alsa_latency_uses_stock_value() {
    assert_eq!(effective_alsa_latency(0), 60_000);
    assert_eq!(effective_alsa_latency(25_000), 25_000);
}

#[test]
fn rejected_stride_falls_back_to_flat_interleaved_read() {
    // Twelve floats: stride 28 implies 7 channels, which both rungs of
    // the ladder reject, so the delivery is read as flat 6-channel
    // interleaved floats instead.
    let mut bytes = Vec::new();
    for i in 0..12 {
        bytes.extend_from_slice(&(i as f32).to_le_bytes());
    }
    let mut words = Vec::new();
    let parsed = parse_single_plane_delivery(&bytes, 0, bytes.len(), 28, &mut words);
    assert!(parsed.is_some(), "fallback should parse");
    assert_eq!(words.len(), 12);
    assert_eq!(f32::from_bits(words[0]), 0.0);
    assert_eq!(f32::from_bits(words[11]), 11.0);
}

#[test]
fn planar_delivery_interleaves_with_silence_padding() {
    let left = vec![1.0f32.to_bits(), 2.0f32.to_bits()];
    let right = vec![3.0f32.to_bits()];
    let planes = vec![left, right];

    let n = min_nonempty_plane_len(&planes).expect("nonempty planes");
    assert_eq!(n, 1);

    let interleaved = interleave_planes(&planes, n);
    assert_eq!(interleaved.len(), 6);
    assert_eq!(f32::from_bits(interleaved[0]), 1.0);
    assert_eq!(f32::from_bits(interleaved[1]), 3.0);
    assert_eq!(interleaved[2..6], [0u32; 4]);

    let all_empty: Vec<Vec<u32>> = vec![Vec::new(), Vec::new()];
    assert!(min_nonempty_plane_len(&all_empty).is_none());
}
