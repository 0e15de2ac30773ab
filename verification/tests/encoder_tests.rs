use pw_ac3_live::encoder;
use pw_ac3_live::encoder::backpressure_action;
use pw_ac3_live::encoder::classify_pipe_error;
use pw_ac3_live::encoder::combine_run_results;
use pw_ac3_live::encoder::encoder_command_args;
use pw_ac3_live::encoder::finalize_encoder_outcome;
use pw_ac3_live::encoder::stdout_read_buffer_size;
use pw_ac3_live::encoder::take_feeder_batch;
use pw_ac3_live::encoder::BackpressureAction;
use pw_ac3_live::encoder::EncoderFailure;
use pw_ac3_live::encoder::RunFailure;
use pw_ac3_live::pipewire_client::PipewireConfig;
use pw_ac3_live::ring::SampleRing;

#[test]
fn test_encoder_config_default_values() {
    let config = encoder::EncoderConfig::default();
    assert_eq!(config.ffmpeg_thread_queue_size, 128);
    assert_eq!(config.feeder_chunk_frames, 128);
}

#[test]
fn test_pipewire_config_default_values() {
    let config = PipewireConfig::default();
    assert_eq!(config.node_latency, "64/48000");
}

#[test]
fn zero_config_values_behave_as_one() {
    let zero = encoder::EncoderConfig {
        ffmpeg_thread_queue_size: 0,
        feeder_chunk_frames: 0,
        profile_latency: false,
    };
    let one = encoder::EncoderConfig {
        ffmpeg_thread_queue_size: 1,
        feeder_chunk_frames: 1,
        profile_latency: false,
    };
    assert_eq!(
        zero.effective_thread_queue_size(),
        one.effective_thread_queue_size()
    );
    assert_eq!(zero.effective_chunk_frames(), one.effective_chunk_frames());
    assert_eq!(zero.feeder_chunk_samples(), one.feeder_chunk_samples());
    assert_eq!(zero.feeder_chunk_samples(), 6);
    assert_eq!(encoder_command_args(&zero), encoder_command_args(&one));
}

#[test]
fn encoder_args_carry_format_and_queue_size() {
    let config = encoder::EncoderConfig::default();
    let args = encoder_command_args(&config);
    assert_eq!(args.len(), 30);
    assert_eq!(args[0], "-y");
    assert_eq!(args[1], "-f");
    assert_eq!(args[2], "f32le");
    assert_eq!(args[4], "48000");
    assert_eq!(args[6], "6");
    assert_eq!(args[10], "ac3");
    assert_eq!(args[12], "640k");
    assert_eq!(args[14], "spdif");
    assert_eq!(args[27], "-thread_queue_size");
    assert_eq!(args[28], "128");
    assert_eq!(args[29], "pipe:1");
}

#[test]
fn stdout_read_size_is_an_eighth_clamped_and_frame_aligned() {
    assert_eq!(stdout_read_buffer_size(8192), 1024);
    assert_eq!(stdout_read_buffer_size(0), 512);
    assert_eq!(stdout_read_buffer_size(64), 512);
    assert_eq!(stdout_read_buffer_size(1_000_000), 1024);
    assert_eq!(stdout_read_buffer_size(6000), 748);
    for capacity in [0usize, 64, 4096, 6000, 8192, 1_000_000] {
        assert_eq!(stdout_read_buffer_size(capacity) % 4, 0);
    }
}

#[test]
fn feeder_batch_serializes_ring_front_in_order() {
    let mut ring = SampleRing::new(16);
    let words = [0x3F80_0000u32, 0x0000_0000, 0xBF80_0000];
    let (written, dropped) = ring.write_whole_frames(&words, 1);
    assert_eq!(written, 3);
    assert_eq!(dropped, 0);

    let bytes = take_feeder_batch(&mut ring, 2);
    assert_eq!(bytes.len(), 8);
    assert_eq!(&bytes[0..4], &0x3F80_0000u32.to_le_bytes());
    assert_eq!(&bytes[4..8], &0x0000_0000u32.to_le_bytes());
    assert_eq!(ring.len(), 1);

    let rest = take_feeder_batch(&mut ring, 10);
    assert_eq!(rest.len(), 4);
    assert_eq!(&rest[0..4], &0xBF80_0000u32.to_le_bytes());
    assert_eq!(ring.len(), 0);
}

#[test]
fn cancelled_run_reports_success_whatever_broke() {
    assert!(finalize_encoder_outcome(false, Some("broken pipe".to_string()), true, Some(false)).is_ok());
    assert!(finalize_encoder_outcome(false, None, true, None).is_ok());
}

#[test]
fn live_run_reports_first_error_then_kill_then_exit_status() {
    assert_eq!(
        finalize_encoder_outcome(true, Some("read failed".to_string()), true, Some(false)),
        Err(EncoderFailure::Pipeline("read failed".to_string()))
    );
    assert_eq!(
        finalize_encoder_outcome(true, None, true, Some(true)),
        Err(EncoderFailure::KilledAfterTimeout)
    );
    assert_eq!(
        finalize_encoder_outcome(true, None, false, Some(false)),
        Err(EncoderFailure::ExitFailure)
    );
    assert!(finalize_encoder_outcome(true, None, false, Some(true)).is_ok());
    assert!(finalize_encoder_outcome(true, None, false, None).is_ok());
}

#[test]
fn run_results_aggregate_both_halves() {
    assert!(combine_run_results(None, None).is_ok());
    assert_eq!(
        combine_run_results(Some("capture".to_string()), None),
        Err(RunFailure::Capture("capture".to_string()))
    );
    assert_eq!(
        combine_run_results(None, Some("encoder".to_string())),
        Err(RunFailure::Encoder("encoder".to_string()))
    );
    assert_eq!(
        combine_run_results(Some("capture".to_string()), Some("encoder".to_string())),
        Err(RunFailure::Both("capture".to_string(), "encoder".to_string()))
    );
}

#[test]
fn pipe_errors_suppressed_after_cancellation() {
    assert_eq!(
        classify_pipe_error(true, "broken pipe".to_string()),
        Some("broken pipe".to_string())
    );
    assert_eq!(classify_pipe_error(false, "broken pipe".to_string()), None);
}

#[test]
fn backpressure_retries_while_live_and_abandons_after_stop() {
    assert_eq!(backpressure_action(true), BackpressureAction::RetryLater);
    assert_eq!(backpressure_action(false), BackpressureAction::Abandon);
}
