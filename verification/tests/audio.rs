//! Sound: settings, streams, channels, packets.
use remote_play::audio_frames::InterleavedAudioFrameChunker;
use remote_play::client::audio_player::{
    AudioPlayer, AudioPlayerSettings, MAX_PLAYBACK_LANES, OpusChannels, OutputChoice, OutputRange,
    PacketStep, SamplePick, decode_buffer_len, is_opus_rate, legacy_audio_stream_config,
    mixer_frames, opus_channels, output_picks, playback_lane, select_output_config,
};
use remote_play::client::talkback::{
    AudioPacketizer, TalkbackCapture, TalkbackCaptureSettings, talkback_channels, timestamp_step,
};
use remote_play::host::audio_capture::{
    PcmEncoding, PcmFormat, combine_buffers, frame_samples, interleave_planar_channels,
    pcm_encoding, pcm_f32_bits, pcm_i16_samples,
};
use remote_play::host::audio_encode::{
    PacketQueue, check_frame_channels, encoder_channels, keep_filled,
};
use remote_play::host::talkback_player::{
    TalkbackPlaybackSettings, TalkbackPlayer, is_viewer_talkback_config,
};
use remote_play::protocol::{
    AudioSource, AudioStreamConfig, RtpHeader, RtpPacket, viewer_talkback_audio_stream_id,
};

fn remap(
    decoded: &[f32],
    samples_per_channel: usize,
    source_channels: usize,
    output_channels: usize,
) -> Vec<f32> {
    let mut out = Vec::new();
    for pick in output_picks(decoded.len(), samples_per_channel, source_channels, output_channels) {
        out.push(match pick {
            SamplePick::Copy { index } => decoded[index],
            SamplePick::Mean { from, count } => {
                decoded[from..from + count].iter().sum::<f32>() / count as f32
            }
        });
    }
    out
}

fn audio_packet(stream_id: u32, sequence_number: u16) -> RtpPacket {
    RtpPacket {
        header: RtpHeader {
            version: 2,
            payload_type: 97,
            sequence_number,
            timestamp: 0,
            ssrc: stream_id,
        },
        payload: vec![1],
    }
}

#[test]
fn mono_audio_duplicates_to_stereo_output() {
    assert_eq!(remap(&[0.25, -0.5], 2, 1, 2), vec![0.25, 0.25, -0.5, -0.5]);
}

#[test]
fn stereo_audio_downmixes_to_mono_output() {
    assert_eq!(remap(&[0.25, 0.75, -0.5, 0.25], 2, 2, 1), vec![0.5, -0.125]);
}

#[test]
fn matching_channel_counts_pass_through() {
    assert_eq!(
        remap(&[0.1, 0.2, 0.3, 0.4], 2, 2, 2),
        vec![0.1, 0.2, 0.3, 0.4]
    );
}

#[test]
fn talkback_mono_duplicates_to_stereo_output() {
    assert_eq!(remap(&[0.25, -0.5], 2, 1, 2), vec![0.25, 0.25, -0.5, -0.5]);
}

#[test]
fn talkback_stereo_downmixes_to_mono_output() {
    assert_eq!(remap(&[0.25, 0.75, -0.5, 0.25], 2, 2, 1), vec![0.5, -0.125]);
}

#[test]
fn missing_channels_repeat_the_last_and_cut_frames_are_left_out() {
    assert_eq!(remap(&[0.1, 0.2], 1, 2, 4), vec![0.1, 0.2, 0.2, 0.2]);
    assert_eq!(remap(&[0.1, 0.2, 0.3], 5, 2, 2), vec![0.1, 0.2]);
    assert_eq!(remap(&[0.1], 1, 0, 2), Vec::<f32>::new());
}

#[test]
fn unsupported_opus_channel_counts_are_rejected() {
    let err = match opus_channels(6) {
        Ok(_) => panic!("surround stream needs explicit downmix"),
        Err(err) => err,
    };

    assert!(err.to_string().contains("unsupported Opus channel count"));
    assert_eq!(err, "unsupported Opus channel count 6");
    assert_eq!(opus_channels(1), Ok(OpusChannels::Mono));
    assert_eq!(opus_channels(2), Ok(OpusChannels::Stereo));
}

#[test]
fn playback_settings_gate_sources_and_volume() {
    let settings = AudioPlayerSettings {
        remote_system_muted: true,
        remote_microphone_muted: false,
        volume_percent: 150,
    };
    let gain = |settings: AudioPlayerSettings, source: AudioSource| {
        f32::from(settings.gain_for_source(source)) / 100.0
    };

    assert_eq!(gain(settings, AudioSource::RemoteSystem), 0.0);
    assert_eq!(gain(settings, AudioSource::RemoteMixed), 0.0);
    assert_eq!(gain(settings, AudioSource::RemoteMicrophone), 1.5);

    let settings = AudioPlayerSettings {
        remote_system_muted: false,
        remote_microphone_muted: true,
        volume_percent: 255,
    };

    assert_eq!(gain(settings, AudioSource::RemoteMicrophone), 0.0);
    assert_eq!(gain(settings, AudioSource::RemoteSystem), 2.0);
}

#[test]
fn talkback_settings_gate_transmission() {
    assert!(TalkbackCaptureSettings::default().should_transmit());
    assert!(
        !TalkbackCaptureSettings {
            local_mic_muted: true,
            ..TalkbackCaptureSettings::default()
        }
        .should_transmit()
    );
    assert!(
        !TalkbackCaptureSettings {
            push_to_talk: true,
            push_to_talk_active: false,
            ..TalkbackCaptureSettings::default()
        }
        .should_transmit()
    );
    assert!(
        TalkbackCaptureSettings {
            push_to_talk: true,
            push_to_talk_active: true,
            ..TalkbackCaptureSettings::default()
        }
        .should_transmit()
    );
}

#[test]
fn talkback_playback_settings_gate_volume() {
    let gain = |muted: bool, volume_percent: u8| {
        f32::from(TalkbackPlaybackSettings { muted, volume_percent }.gain()) / 100.0
    };
    assert_eq!(gain(true, 100), 0.0);
    assert_eq!(gain(false, 150), 1.5);
    assert_eq!(gain(false, 255), 2.0);
}

#[test]
fn recognizes_only_viewer_talkback_for_session() {
    let session_id = 50;
    let stream_id = viewer_talkback_audio_stream_id(session_id);
    let config = AudioStreamConfig::viewer_microphone_talkback(stream_id, 48_000, 1, 20);

    assert!(is_viewer_talkback_config(&config, session_id));
    assert!(!is_viewer_talkback_config(
        &AudioStreamConfig::remote_microphone(stream_id, 48_000, 1, 20),
        session_id
    ));
    assert!(!is_viewer_talkback_config(
        &AudioStreamConfig::viewer_microphone_talkback(stream_id + 1, 48_000, 1, 20),
        session_id
    ));
}

#[test]
fn talkback_rejects_unsupported_channel_counts() {
    let err = match TalkbackCapture::new(7, 48_000, 6) {
        Ok(_) => panic!("surround input needs explicit downmix"),
        Err(err) => err,
    };

    assert!(
        err.to_string()
            .contains("unsupported talkback channel count"),
        "unexpected error: {err}"
    );
}

#[test]
fn talkback_encoder_waits_for_complete_opus_frame() {
    let mut chunker = InterleavedAudioFrameChunker::new(48_000, 1, 20).unwrap();

    assert!(chunker.push(&vec![0.0f32; 480]).is_empty());

    let frames = chunker.push(&vec![0.0f32; 480]);
    assert_eq!(frames.len(), 1);
    assert!(!frames[0].is_empty());
}

#[test]
fn packetizer_encodes_only_complete_opus_frames() {
    let mut chunker = InterleavedAudioFrameChunker::new(48_000, 1, 20).unwrap();

    assert!(chunker.push(&vec![0.0f32; 480]).is_empty());

    let frames = chunker.push(&vec![0.0f32; 480]);
    assert_eq!(frames.len(), 1);
    assert!(!frames[0].is_empty());

    let frames = chunker.push(&vec![0.0f32; 1_920]);
    assert_eq!(frames.len(), 2);
    assert!(frames.iter().all(|frame| !frame.is_empty()));
}

#[test]
fn frames_keep_every_sample_in_order() {
    let mut chunker = InterleavedAudioFrameChunker::new(1_000, 2, 2).unwrap();
    assert_eq!(chunker.channels(), 2);
    assert_eq!(chunker.samples_per_channel_per_frame(), 2);
    assert_eq!(chunker.push(&[1, 2, 3]), Vec::<Vec<i32>>::new());
    assert_eq!(
        chunker.push(&[4, 5, 6, 7, 8, 9]),
        vec![vec![1, 2, 3, 4], vec![5, 6, 7, 8]]
    );
    assert_eq!(chunker.push(&[10, 11, 12]), vec![vec![9, 10, 11, 12]]);
    assert!(InterleavedAudioFrameChunker::<i32>::new(10, 1, 20).is_none());
    assert!(InterleavedAudioFrameChunker::<i32>::new(48_000, 0, 20).is_none());
}

#[test]
fn rejects_channel_counts_that_opus_encoder_cannot_signal() {
    let err = match encoder_channels(6) {
        Ok(_) => panic!("surround input needs downmixing"),
        Err(err) => err,
    };

    assert!(
        err.to_string().contains("unsupported Opus channel count"),
        "unexpected error: {err}"
    );
    assert_eq!(
        check_frame_channels(2, 1),
        Err("audio channel count changed from 2 to 1".to_string())
    );
    assert_eq!(check_frame_channels(2, 2), Ok(()));
}

#[test]
fn decodes_little_endian_f32_pcm_samples() {
    let bytes = [0.25_f32.to_le_bytes(), (-0.5_f32).to_le_bytes()].concat();
    let samples: Vec<f32> = pcm_f32_bits(&bytes, false)
        .into_iter()
        .map(f32::from_bits)
        .collect();

    assert_eq!(samples, vec![0.25, -0.5]);
}

#[test]
fn decodes_big_endian_i16_pcm_samples() {
    let bytes = [i16::MAX.to_be_bytes(), i16::MIN.to_be_bytes()].concat();
    let samples: Vec<f32> = pcm_i16_samples(&bytes, true)
        .into_iter()
        .map(|sample| f32::from(sample) / f32::from(i16::MAX))
        .collect();

    assert_eq!(samples[0], 1.0);
    assert!(samples[1] <= -1.0);
}

#[test]
fn interleaves_planar_audio_channels() {
    let planar = vec![vec![1.0, 2.0], vec![10.0, 20.0]];

    assert_eq!(
        interleave_planar_channels(&planar),
        vec![1.0, 10.0, 2.0, 20.0]
    );
}

#[test]
fn buffers_are_taken_as_they_are_or_interleaved() {
    assert_eq!(combine_buffers(vec![vec![1, 2, 3]], 2), vec![1, 2, 3]);
    assert_eq!(
        combine_buffers(vec![vec![1, 2], vec![3, 4]], 2),
        vec![1, 3, 2, 4]
    );
    assert_eq!(interleave_planar_channels(&vec![vec![1, 2], vec![3]]), vec![1, 3]);
    assert_eq!(frame_samples(vec![vec![1, 2], vec![3, 4]], 2), Some(vec![1, 3, 2, 4]));
    assert_eq!(frame_samples(vec![vec![1, 2], vec![3, 4]], 3), None);
    assert_eq!(frame_samples(vec![Vec::<u32>::new()], 1), None);
}

#[test]
fn only_two_encodings_of_samples_are_known() {
    let format = PcmFormat {
        valid: true,
        ready: true,
        channels: 2,
        is_float: true,
        bits_per_channel: 32,
    };
    assert_eq!(pcm_encoding(&format), Some((2, PcmEncoding::Float32)));
    let integers = PcmFormat { is_float: false, bits_per_channel: 16, ..format };
    assert_eq!(pcm_encoding(&integers), Some((2, PcmEncoding::Int16)));
    assert_eq!(pcm_encoding(&PcmFormat { bits_per_channel: 64, ..format }), None);
    assert_eq!(pcm_encoding(&PcmFormat { channels: 0, ..format }), None);
    assert_eq!(pcm_encoding(&PcmFormat { channels: 70_000, ..format }), None);
    assert_eq!(pcm_encoding(&PcmFormat { ready: false, ..format }), None);
}

#[test]
fn packets_of_one_frame_wait_their_turn() {
    let packets = keep_filled(vec![vec![], vec![1], vec![], vec![2, 3], vec![4]]);
    assert_eq!(packets, vec![vec![1], vec![2, 3], vec![4]]);

    let mut queue = PacketQueue::new();
    assert_eq!(queue.next(), None);
    assert_eq!(queue.offer(packets), vec![1]);
    assert_eq!(queue.next(), Some(vec![2, 3]));
    assert_eq!(queue.next(), Some(vec![4]));
    assert_eq!(queue.next(), None);
    assert_eq!(queue.offer(vec![]), Vec::<u8>::new());
}

#[test]
fn audio_packets_are_numbered_round() {
    let mut packetizer = AudioPacketizer::new(9, 960);
    for number in 0..=u16::MAX {
        let packet = packetizer.packet(vec![7]);
        assert_eq!(packet.header.sequence_number, number);
        assert_eq!(packet.header.timestamp, u32::from(number) * 960);
        assert_eq!(packet.header.ssrc, 9);
        assert_eq!(packet.header.payload_type, 97);
    }
    assert_eq!(packetizer.packet(vec![]).header.sequence_number, 0);
}

#[test]
fn talkback_streams_are_announced_with_their_layout() {
    let mut capture = TalkbackCapture::new(7, 44_100, 2).unwrap();
    assert_eq!(capture.stream_id(), 107);
    let (config, number) = capture.announce();
    assert_eq!(number, 0);
    assert_eq!(
        config,
        AudioStreamConfig::viewer_microphone_talkback(107, 44_100, 2, 20)
    );
    assert_eq!(capture.announce().1, 1);
    let on = TalkbackCaptureSettings::default();
    assert!(capture.takes_frame(on, 44_100, 2));
    assert!(!capture.takes_frame(on, 48_000, 2));
    assert!(!capture.takes_frame(on, 44_100, 1));
    assert!(!capture.takes_frame(
        TalkbackCaptureSettings { local_mic_muted: true, ..on },
        44_100,
        2
    ));
    assert_eq!(talkback_channels(0), 1);
    assert_eq!(talkback_channels(6), 2);
    assert_eq!(timestamp_step(960, 48_000), 960);
}

#[test]
fn streams_have_lanes_of_their_own() {
    let mut mix = AudioPlayer::new();
    for id in 0..MAX_PLAYBACK_LANES as u32 {
        assert_eq!(
            mix.open_announced(AudioStreamConfig::remote_system(id, 48_000, 2, 20)),
            Some(id as usize)
        );
    }
    assert_eq!(mix.packet_step(99), PacketStep::Refuse);
    assert_eq!(
        mix.open_announced(AudioStreamConfig::remote_system(99, 48_000, 2, 20)),
        None
    );
    assert_eq!(mix.remove_stream(3), Some(3));
    assert_eq!(
        mix.packet_step(99),
        PacketStep::Open { config: legacy_audio_stream_config(99) }
    );
    assert_eq!(mix.open_legacy(99), Some(3));
    assert_eq!(mix.packet_step(99), PacketStep::Known);
    // Announced anew, a stream stays where it is.
    assert_eq!(
        mix.open_announced(AudioStreamConfig::remote_microphone(5, 24_000, 1, 20)),
        Some(5)
    );
}

#[test]
fn gains_multiply_settings_and_stream_volume() {
    let mut mix = AudioPlayer::new();
    assert_eq!(mix.stream_volume(4, 50, false), None);
    let config = AudioStreamConfig::remote_microphone(4, 48_000, 2, 20);
    assert!(mix.wants_decoder(&config));
    mix.open_announced(config);
    assert!(!mix.wants_decoder(&AudioStreamConfig::remote_microphone(4, 48_000, 2, 20)));
    assert!(!mix.wants_decoder(&AudioStreamConfig::viewer_microphone_talkback(
        8, 48_000, 1, 20
    )));
    assert_eq!(mix.gain(4), 100 * 50);
    assert_eq!(mix.stream_volume(4, 255, false), Some(0));
    assert_eq!(mix.gain(4), 100 * 200);
    mix.set_settings(AudioPlayerSettings {
        remote_system_muted: false,
        remote_microphone_muted: true,
        volume_percent: 100,
    });
    assert_eq!(mix.gain(4), 0);
    assert_eq!(mix.gain(77), 0);
    assert_eq!(playback_lane(AudioSource::RemoteMicrophone), 1);
    assert_eq!(playback_lane(AudioSource::RemoteSystem), 0);
}

#[test]
fn streams_decode_in_order() {
    let mut mix = AudioPlayer::new();
    assert!(mix.push_packet(audio_packet(4, 1)).is_empty());
    mix.open_legacy(4);
    assert_eq!(mix.push_packet(audio_packet(4, 1)).len(), 1);
    assert!(mix.push_packet(audio_packet(4, 3)).is_empty());
    let numbers: Vec<u16> = mix
        .push_packet(audio_packet(4, 2))
        .iter()
        .map(|packet| packet.header.sequence_number)
        .collect();
    assert_eq!(numbers, vec![2, 3]);
}

#[test]
fn output_devices_run_at_a_rate_that_opus_decodes_to() {
    let range = |channels: u16, min: u32, max: u32, known_format: bool| OutputRange {
        channels,
        min_sample_rate: min,
        max_sample_rate: max,
        known_format,
    };
    assert!(is_opus_rate(12_000));
    assert!(!is_opus_rate(44_100));
    assert_eq!(
        select_output_config(48_000, 2, true, &vec![]),
        Ok(OutputChoice::Default)
    );
    let ranges = vec![
        range(1, 8_000, 96_000, true),
        range(2, 8_000, 24_000, true),
        range(2, 8_000, 96_000, false),
    ];
    assert_eq!(
        select_output_config(44_100, 2, true, &ranges),
        Ok(OutputChoice::Range { index: 1, sample_rate: 24_000 })
    );
    assert_eq!(
        select_output_config(44_100, 2, true, &vec![range(2, 44_100, 44_100, true)]),
        Err("Audio output has no Opus-compatible sample rate; a platform resampler is required")
    );
}

#[test]
fn talkback_of_the_session_alone_is_played() {
    let mut stream = TalkbackPlayer::new(7);
    let config = AudioStreamConfig::viewer_microphone_talkback(107, 48_000, 1, 20);
    assert!(stream.accepts(&config));
    assert!(!stream.accepts(&AudioStreamConfig::viewer_microphone_talkback(
        108, 48_000, 1, 20
    )));
    assert!(stream.push_packet(audio_packet(107, 1)).is_empty());
    stream.open(config);
    assert_eq!(stream.push_packet(audio_packet(107, 1)).len(), 1);
    assert!(stream.push_packet(audio_packet(108, 2)).is_empty());
}

#[test]
fn buffers_hold_so_many_milliseconds() {
    assert_eq!(mixer_frames(48_000), 2_880);
    assert_eq!(decode_buffer_len(48_000, 2), 11_520);
    assert_eq!(decode_buffer_len(44_100, 1), 5_292);
    let config = AudioStreamConfig::remote_system(1, 48_000, 6, 20);
    assert!(AudioPlayer::decoder_channels(&config).is_err());
    assert_eq!(
        AudioStreamConfig::host_audio_stream_config(4, AudioSource::RemoteMixed, 48_000, 2, 20),
        AudioStreamConfig::remote_mixed(4, 48_000, 2, 20)
    );
}
