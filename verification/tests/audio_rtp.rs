use green_vita::rtc::audio_rtp::{AudioPacket, AudioRtp, MAX_PENDING_AUDIO_PACKETS};

fn opus(sequence: u16, timestamp: u32, payload: &[u8]) -> AudioPacket {
    AudioPacket { payload_type: 111, sequence, timestamp, marker: false, payload: payload.to_vec() }
}

#[test]
fn other_payload_types_are_ignored() {
    let mut rtp = AudioRtp::new(48_000, 111);
    let mut packet = opus(10, 960, &[1]);
    packet.payload_type = 0;
    let out = rtp.receive(packet, 0);
    assert!(out.samples.is_empty());
    assert_eq!((out.gaps, out.late, out.lost, out.backlog_ms), (0, 0, 0, None));
}

#[test]
fn sequence_gaps_and_late_packets_are_counted() {
    let mut rtp = AudioRtp::new(48_000, 111);
    assert_eq!(rtp.receive(opus(10, 960, &[1]), 0).gaps, 0);
    let out = rtp.receive(opus(13, 3 * 960, &[4]), 0);
    assert_eq!((out.gaps, out.late), (2, 0));
    let out = rtp.receive(opus(12, 2 * 960, &[3]), 0);
    assert_eq!((out.gaps, out.late), (0, 1));
    let out = rtp.receive(opus(13, 3 * 960, &[4]), 0);
    assert_eq!((out.gaps, out.late), (0, 0));
}

#[test]
fn wrapped_sequence_is_ahead() {
    let mut rtp = AudioRtp::new(48_000, 111);
    rtp.receive(opus(65_535, 960, &[1]), 0);
    let out = rtp.receive(opus(1, 2 * 960, &[2]), 0);
    assert_eq!((out.gaps, out.late), (1, 0));
}

#[test]
fn in_order_packets_come_out_in_order() {
    let mut rtp = AudioRtp::new(48_000, 111);
    let mut released = Vec::new();
    for k in 1..=5u16 {
        let out = rtp.receive(opus(k, u32::from(k) * 960, &[k as u8]), released.len());
        assert_eq!(out.lost, 0);
        for sample in out.samples {
            released.push((sample.data, sample.packet_timestamp));
        }
    }
    assert!(!released.is_empty());
    for (index, (data, timestamp)) in released.iter().enumerate() {
        let k = index as u16 + 1;
        assert_eq!(data, &vec![k as u8]);
        assert_eq!(*timestamp, u32::from(k) * 960);
    }
}

#[test]
fn a_full_decoder_queue_takes_nothing() {
    let mut rtp = AudioRtp::new(48_000, 111);
    for k in 1..=5u16 {
        let out = rtp.receive(opus(k, u32::from(k) * 960, &[k as u8]), MAX_PENDING_AUDIO_PACKETS);
        assert!(out.samples.is_empty());
    }
}

#[test]
fn the_oldest_packet_comes_out_once_the_next_one_arrives() {
    let mut rtp = AudioRtp::new(48_000, 111);
    assert!(rtp.receive(opus(1, 960, &[7]), 0).samples.is_empty());
    let out = rtp.receive(opus(2, 2 * 960, &[8]), 0);
    assert_eq!(out.samples.len(), 1);
    assert_eq!((out.samples[0].data.clone(), out.samples[0].packet_timestamp), (vec![7], 960));
    let out = rtp.receive(opus(3, 3 * 960, &[9]), 31);
    assert_eq!(out.samples.len(), 1);
    assert_eq!(out.samples[0].data, vec![8]);
}
