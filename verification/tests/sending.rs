use str0m::codec::{Codec, CodecParams, FormatParams};
use str0m::direction::Direction;
use str0m::error::{PacketError, RtcError};
use str0m::ext::Extensions;
use str0m::ids::{MediaTime, Mid, Pt, Rid, SeqNo, Ssrc};
use str0m::media::wire::PolledPacket;
use str0m::media::write::{payload_limit, Splitting};
use str0m::rtcp::RtcpFb;
use str0m::sdp::{AddMedia, MediaLine, MediaType, Msid};
use str0m::time::Instant;
use str0m::{Media, MediaKind};

fn at(nanos: u64) -> Instant {
    Instant { nanos }
}

fn params(pt: u8, codec: Codec, resend: Option<u8>) -> CodecParams {
    CodecParams {
        pt: Pt(pt),
        codec,
        clock_rate: 90_000,
        channels: None,
        fmtp: FormatParams {
            min_p_time: None,
            use_inband_fec: None,
            level_asymmetry_allowed: None,
            packetization_mode: None,
            profile_level_id: None,
            profile_id: None,
        },
        resend: resend.map(Pt),
    }
}

fn line(dir: Direction, ssrcs: Vec<(Ssrc, Option<Ssrc>)>) -> Media {
    Media::from_add_media(
        AddMedia {
            mid: Mid(7),
            cname: "cname".to_string(),
            msid: Msid {
                stream_id: "stream".to_string(),
                track_id: "track".to_string(),
            },
            kind: MediaKind::Video,
            dir,
            params: vec![params(96, Codec::Vp8, Some(97)), params(111, Codec::Opus, None)],
            index: 2,
            ssrcs,
        },
        Extensions::new(),
    )
}

fn video() -> Media {
    line(
        Direction::SendRecv,
        vec![(Ssrc(10), None), (Ssrc(11), Some(Ssrc(10)))],
    )
}

fn ts(numer: i64) -> MediaTime {
    MediaTime {
        numer,
        denom: 90_000,
    }
}

fn write(media: &mut Media, chunks: Vec<Vec<u8>>) -> Result<usize, RtcError> {
    media.get_writer(Pt(96), None).write(ts(5), Ok(chunks))
}

fn poll(media: &mut Media, twcc: &mut u64) -> Option<PolledPacket> {
    assert!(media.is_resend_consistent());
    media.poll_packet(at(99), SeqNo(1000), twcc)
}

#[test]
fn nothing_to_send() {
    let mut media = video();
    let mut twcc = 4;
    assert!(!media.has_packet());
    assert!(poll(&mut media, &mut twcc).is_none());
    assert_eq!(twcc, 4);
    // With nothing to send a full count does no harm.
    let mut full = u64::MAX;
    assert!(poll(&mut media, &mut full).is_none());
    assert_eq!(full, u64::MAX);
}

#[test]
fn there_is_a_packet_while_one_waits_or_is_to_be_resent() {
    let mut media = video();
    let mut twcc = 0;
    write(&mut media, vec![vec![1]]).unwrap();
    assert!(media.has_packet());
    poll(&mut media, &mut twcc).unwrap();
    assert!(!media.has_packet());
    // This number was never sent.
    media.handle_nack(Ssrc(10), vec![SeqNo(4)]).unwrap();
    assert!(!media.has_packet());
    media.handle_nack(Ssrc(10), vec![SeqNo(1000)]).unwrap();
    assert!(media.has_packet());
    poll(&mut media, &mut twcc).unwrap();
    assert!(!media.has_packet());
}

#[test]
fn numbers_of_each_ssrc_are_contiguous() {
    let mut media = video();
    let mut twcc = 0;
    let mut sent = vec![];
    for i in 0..4u8 {
        write(&mut media, vec![vec![i], vec![i]]).unwrap();
        while let Some(p) = poll(&mut media, &mut twcc) {
            sent.push((p.header.ssrc, p.seq_no));
        }
        let lost = vec![SeqNo(1000 + u64::from(i)), SeqNo(1000)];
        media.handle_rtcp_fb(at(1), RtcpFb::Nack(Ssrc(10), lost)).unwrap();
        media.handle_rtcp_fb(at(1), RtcpFb::Pli(Ssrc(10))).unwrap();
        media.maybe_add_source_tx(Ssrc(20 + u32::from(i)), None);
    }
    while let Some(p) = poll(&mut media, &mut twcc) {
        sent.push((p.header.ssrc, p.seq_no));
    }
    for ssrc in [Ssrc(10), Ssrc(11)] {
        let numbers: Vec<SeqNo> = sent.iter().filter(|s| s.0 == ssrc).map(|s| s.1).collect();
        let want: Vec<SeqNo> = (1000..1008).map(SeqNo).collect();
        assert_eq!(numbers, want);
    }
}

#[test]
fn sample_goes_out_packet_by_packet() {
    let mut media = video();
    let free = write(&mut media, vec![vec![1, 2], vec![3], vec![4, 5, 6]]);
    assert_eq!(free, Ok(2045));

    let mut twcc = 0x1_ffff;
    let a = poll(&mut media, &mut twcc).unwrap();
    let b = poll(&mut media, &mut twcc).unwrap();
    let c = poll(&mut media, &mut twcc).unwrap();
    assert!(poll(&mut media, &mut twcc).is_none());

    assert_eq!((a.data, b.data, c.data), (vec![1, 2], vec![3], vec![4, 5, 6]));
    assert_eq!((a.seq_no, b.seq_no, c.seq_no), (SeqNo(1000), SeqNo(1001), SeqNo(1002)));
    assert_eq!((a.header.marker, b.header.marker, c.header.marker), (false, false, true));
    assert_eq!((a.orig_seq_no, b.orig_seq_no, c.orig_seq_no), (None, None, None));
    assert_eq!(a.header.ext_vals.transport_cc, Some(0xffff));
    assert_eq!(b.header.ext_vals.transport_cc, Some(0));
    assert_eq!(c.header.ext_vals.transport_cc, Some(1));
    assert_eq!(twcc, 0x2_0002);

    assert_eq!(a.header.payload_type, Pt(96));
    assert_eq!(a.header.sequence_number, SeqNo(1000));
    assert_eq!(a.header.timestamp, ts(5));
    assert_eq!(a.header.ssrc, Ssrc(10));
    assert_eq!(a.header.ext_vals.mid, Some(Mid(7)));
    assert_eq!(a.header.ext_vals.abs_send_time, Some(at(99)));
    assert_eq!(a.header.ext_vals.rid, None);
    assert_eq!(a.header.ext_vals.rid_repair, None);
    assert_eq!(a.header.header_len, 0);
}

#[test]
fn numbers_go_round() {
    let mut media = video();
    write(&mut media, vec![vec![1], vec![2]]).unwrap();
    let mut twcc = 0;
    let a = media.poll_packet(at(1), SeqNo(u64::MAX), &mut twcc).unwrap();
    let b = media.poll_packet(at(2), SeqNo(77), &mut twcc).unwrap();
    assert_eq!((a.seq_no, b.seq_no), (SeqNo(u64::MAX), SeqNo(0)));
    assert_eq!(media.sources_tx()[0].last_used, Some(at(2)));
    assert_eq!(media.sources_tx()[1].last_used, None);
}

#[test]
fn lost_packet_is_sent_again() {
    let mut media = video();
    write(&mut media, vec![vec![1, 2], vec![3, 4]]).unwrap();
    let mut twcc = 0;
    poll(&mut media, &mut twcc).unwrap();
    poll(&mut media, &mut twcc).unwrap();

    assert_eq!(media.nack_reference(Ssrc(10)), Some((Pt(96), SeqNo(1000))));
    assert_eq!(media.handle_nack(Ssrc(10), vec![SeqNo(1001)]), Some(()));

    let r = media.poll_packet(at(5), SeqNo(50), &mut twcc).unwrap();
    assert_eq!(r.data, vec![3, 4]);
    assert_eq!(r.orig_seq_no, Some(SeqNo(1001)));
    assert_eq!(r.seq_no, SeqNo(50));
    assert_eq!(r.header.ssrc, Ssrc(11));
    assert_eq!(r.header.payload_type, Pt(96));
    assert!(r.header.marker);
    assert_eq!(twcc, 3);
    assert!(poll(&mut media, &mut twcc).is_none());
}

#[test]
fn resends_go_first_and_in_order() {
    let mut media = video();
    write(&mut media, vec![vec![1], vec![2]]).unwrap();
    let mut twcc = 0;
    poll(&mut media, &mut twcc).unwrap();
    poll(&mut media, &mut twcc).unwrap();
    write(&mut media, vec![vec![3]]).unwrap();
    // The second number was never sent and is dropped.
    let lost = vec![SeqNo(1001), SeqNo(4000), SeqNo(1000)];
    media.handle_nack(Ssrc(10), lost).unwrap();

    let mut data = vec![];
    while let Some(p) = poll(&mut media, &mut twcc) {
        data.push((p.data[0], p.orig_seq_no));
    }
    assert_eq!(
        data,
        vec![(2, Some(SeqNo(1001))), (1, Some(SeqNo(1000))), (3, None)]
    );
}

#[test]
fn without_sender_of_resends_nothing_is_sent_again() {
    let mut media = line(Direction::SendRecv, vec![(Ssrc(10), None)]);
    write(&mut media, vec![vec![1]]).unwrap();
    let mut twcc = 0;
    poll(&mut media, &mut twcc).unwrap();
    assert_eq!(media.handle_nack(Ssrc(10), vec![SeqNo(1000)]), Some(()));
    assert!(poll(&mut media, &mut twcc).is_none());
    assert_eq!(twcc, 1);
    // What was not sent yet goes out as if nothing had been asked for.
    media.handle_nack(Ssrc(10), vec![SeqNo(1000)]).unwrap();
    write(&mut media, vec![vec![2]]).unwrap();
    let p = poll(&mut media, &mut twcc).unwrap();
    assert_eq!((p.data, p.orig_seq_no, p.seq_no), (vec![2], None, SeqNo(1001)));
}

#[test]
fn old_packet_is_sent_again() {
    let mut media = video();
    let mut twcc = 0;
    for i in 0..5u8 {
        write(&mut media, vec![vec![i]]).unwrap();
        poll(&mut media, &mut twcc).unwrap();
    }
    // The first request cannot be answered. What waits goes after the resend.
    write(&mut media, vec![vec![9]]).unwrap();
    media.handle_nack(Ssrc(10), vec![SeqNo(7)]).unwrap();
    media.handle_nack(Ssrc(10), vec![SeqNo(1001)]).unwrap();
    let p = poll(&mut media, &mut twcc).unwrap();
    assert_eq!((p.data, p.orig_seq_no, p.header.ssrc), (vec![1], Some(SeqNo(1001)), Ssrc(11)));
    assert_eq!(poll(&mut media, &mut twcc).unwrap().data, vec![9]);
}

#[test]
fn samples_go_out_in_the_order_of_their_writes() {
    let mut media = video();
    let mut twcc = 0;
    let mut sent = vec![];
    for i in 0..3u8 {
        write(&mut media, vec![vec![i, 0], vec![i, 1], vec![i, 2]]).unwrap();
        media.get_writer(Pt(111), None).write(ts(0), Ok(vec![vec![100 + i]])).unwrap();
        let p = poll(&mut media, &mut twcc).unwrap();
        sent.push((p.header.payload_type, p.data));
        media.handle_nack(Ssrc(10), vec![SeqNo(1000)]).unwrap();
        assert_eq!(poll(&mut media, &mut twcc).unwrap().orig_seq_no, Some(SeqNo(1000)));
    }
    while let Some(p) = poll(&mut media, &mut twcc) {
        sent.push((p.header.payload_type, p.data));
    }
    let of = |pt| -> Vec<Vec<u8>> {
        sent.iter().filter(|s| s.0 == pt).map(|s| s.1.clone()).collect()
    };
    let want: Vec<Vec<u8>> = (0..9u8).map(|i| vec![i / 3, i % 3]).collect();
    assert_eq!(of(Pt(96)), want);
    assert_eq!(of(Pt(111)), vec![vec![100], vec![101], vec![102]]);
}

#[test]
fn requests_for_unknown_packets() {
    let mut media = video();
    assert_eq!(media.handle_nack(Ssrc(10), vec![SeqNo(1)]), None);
    write(&mut media, vec![vec![1]]).unwrap();
    // Nothing was sent, so there is no number to start from.
    assert_eq!(media.nack_reference(Ssrc(10)), None);
    assert_eq!(media.handle_nack(Ssrc(10), vec![SeqNo(1)]), None);
    let mut twcc = 0;
    poll(&mut media, &mut twcc).unwrap();
    assert_eq!(media.handle_nack(Ssrc(12), vec![SeqNo(1)]), None);
    assert_eq!(media.handle_nack(Ssrc(10), vec![]), Some(()));
}

#[test]
fn resend_that_does_not_fit_together() {
    let mut media = line(
        Direction::SendRecv,
        vec![(Ssrc(10), None), (Ssrc(11), Some(Ssrc(12)))],
    );
    write(&mut media, vec![vec![1]]).unwrap();
    let mut twcc = 0;
    poll(&mut media, &mut twcc).unwrap();
    assert!(media.is_resend_consistent());
    media.handle_nack(Ssrc(10), vec![SeqNo(1000)]).unwrap();
    assert!(!media.is_resend_consistent());
}

#[test]
fn oldest_packets_make_room() {
    let mut media = video();
    let mut twcc = 0;
    assert_eq!(write(&mut media, vec![vec![0]; 2047]), Ok(1));
    for _ in 0..2047 {
        poll(&mut media, &mut twcc).unwrap();
    }
    assert_eq!(write(&mut media, vec![vec![1], vec![2]]), Ok(0));
    // The first packet is gone, the second is the oldest.
    assert_eq!(media.nack_reference(Ssrc(10)), Some((Pt(96), SeqNo(1001))));
    media
        .handle_nack(Ssrc(10), vec![SeqNo(1000), SeqNo(1001)])
        .unwrap();
    assert_eq!(poll(&mut media, &mut twcc).unwrap().orig_seq_no, Some(SeqNo(1001)));
    assert_eq!(poll(&mut media, &mut twcc).unwrap().data, vec![1]);
    assert_eq!(poll(&mut media, &mut twcc).unwrap().data, vec![2]);
    assert!(poll(&mut media, &mut twcc).is_none());
}

#[test]
fn packets_not_yet_sent_make_room_too() {
    let mut media = video();
    let chunks: Vec<Vec<u8>> = (0..2050u32).map(|i| i.to_be_bytes().to_vec()).collect();
    assert_eq!(write(&mut media, chunks), Ok(0));
    let mut twcc = 0;
    assert_eq!(poll(&mut media, &mut twcc).unwrap().data, vec![0, 0, 0, 2]);
}

#[test]
fn audio_retains_more() {
    let mut media = video();
    let mut w = media.get_writer(Pt(111), None);
    assert_eq!(w.codec, Some(Codec::Opus));
    assert_eq!(w.write(ts(0), Ok(vec![vec![1]])), Ok(4095));
    assert_eq!(w.write(ts(1), Ok(vec![vec![2]])), Ok(4094));
}

#[test]
fn buffers_take_turns_in_the_order_of_their_first_write() {
    let mut media = video();
    media.get_writer(Pt(111), None).write(ts(0), Ok(vec![vec![1]])).unwrap();
    media.get_writer(Pt(96), None).write(ts(0), Ok(vec![vec![2]])).unwrap();
    media.get_writer(Pt(111), None).write(ts(0), Ok(vec![vec![3]])).unwrap();
    let mut twcc = 0;
    let mut sent = vec![];
    while let Some(p) = poll(&mut media, &mut twcc) {
        sent.push((p.header.payload_type, p.data[0]));
    }
    assert_eq!(sent, vec![(Pt(111), 1), (Pt(111), 3), (Pt(96), 2)]);
}

#[test]
fn write_of_unknown_payload_type() {
    let mut media = video();
    let mut w = media.get_writer(Pt(100), None);
    assert_eq!(w.codec, None);
    assert_eq!(w.splitting(1500, 20), None);
    assert_eq!(w.write(ts(0), Ok(vec![])), Err(RtcError::UnknownPt(Pt(100))));
}

#[test]
fn write_while_not_sending() {
    let mut media = line(Direction::RecvOnly, vec![(Ssrc(10), None)]);
    let mut w = media.get_writer(Pt(96), None);
    assert_eq!(w.splitting(1500, 20), None);
    assert_eq!(w.write(ts(0), Ok(vec![vec![1]])), Ok(10_000));
    let mut twcc = 0;
    assert!(poll(&mut media, &mut twcc).is_none());
}

#[test]
fn write_without_sender() {
    let mut media = line(Direction::SendOnly, vec![(Ssrc(11), Some(Ssrc(10)))]);
    let mut w = media.get_writer(Pt(96), None);
    assert_eq!(w.splitting(1500, 20), None);
    assert_eq!(w.write(ts(0), Ok(vec![])), Err(RtcError::NoSenderSource));
    let mut media = video();
    let mut w = media.get_writer(Pt(96), Some(Rid(1)));
    assert_eq!(w.write(ts(0), Ok(vec![])), Err(RtcError::NoSenderSource));
}

#[test]
fn write_of_sample_that_cannot_be_split() {
    let mut media = video();
    let mut w = media.get_writer(Pt(96), None);
    let want = Splitting {
        pt: Pt(96),
        codec: Codec::Vp8,
        limit: 1480,
    };
    assert_eq!(w.splitting(1500, 20), Some(want));
    let reason = || PacketError {
        reason: "short".to_string(),
    };
    assert_eq!(
        w.write(ts(0), Err(reason())),
        Err(RtcError::Packet(Mid(7), Pt(96), reason()))
    );
    let mut twcc = 0;
    assert!(poll(&mut media, &mut twcc).is_none());
}

#[test]
fn limit_of_a_payload() {
    assert_eq!(payload_limit(1500, 20), 1480);
    assert_eq!(payload_limit(20, 20), 0);
}

#[test]
fn samples_of_each_codec_are_split_for_it() {
    let mut media = video();
    let audio = media.get_writer(Pt(111), None).splitting(1200, 0).unwrap();
    assert_eq!((audio.pt, audio.codec, audio.limit), (Pt(111), Codec::Opus, 1200));
}

#[test]
fn bytes_of_a_packet() {
    let mut media = video();
    write(&mut media, vec![vec![1, 2, 3]]).unwrap();
    let mut twcc = 0;
    let p = poll(&mut media, &mut twcc).unwrap();
    let mut buf = vec![0; 32];
    buf[..12].copy_from_slice(&[9; 12]);
    assert_eq!(p.write_body(&mut buf, 12), 3);
    assert_eq!(buf[..16], [9, 9, 9, 9, 9, 9, 9, 9, 9, 9, 9, 9, 1, 2, 3, 0]);
    buf[15] = 1;
    let (header, packet, seq_no) = p.finish(buf, 12, 1);
    assert_eq!(packet, vec![9, 9, 9, 9, 9, 9, 9, 9, 9, 9, 9, 9, 1, 2, 3, 1]);
    assert_eq!(header.header_len, 12);
    assert_eq!(header.ssrc, Ssrc(10));
    assert_eq!(seq_no, SeqNo(1000));
}

#[test]
fn bytes_of_a_resend() {
    let mut media = video();
    write(&mut media, vec![vec![1, 2, 3, 4, 5]]).unwrap();
    let mut twcc = 0;
    media.poll_packet(at(0), SeqNo(0x5_1234), &mut twcc).unwrap();
    media.handle_nack(Ssrc(10), vec![SeqNo(0x5_1234)]).unwrap();
    let p = poll(&mut media, &mut twcc).unwrap();
    let mut buf = vec![7; 20];
    assert_eq!(p.write_body(&mut buf, 4), 7);
    assert_eq!(buf[..12], [7, 7, 7, 7, 0x12, 0x34, 1, 2, 3, 4, 5, 7]);
    let (_, packet, _) = p.finish(buf, 4, 0);
    assert_eq!(packet, vec![7, 7, 7, 7, 0x12, 0x34, 1, 2, 3, 4, 5]);
}

#[test]
fn padding_of_a_resend_follows_the_payload() {
    let mut media = video();
    write(&mut media, vec![vec![1, 2, 3]]).unwrap();
    let mut twcc = 0;
    media.poll_packet(at(0), SeqNo(0x1234), &mut twcc).unwrap();
    media.handle_nack(Ssrc(10), vec![SeqNo(0x1234)]).unwrap();
    let p = poll(&mut media, &mut twcc).unwrap();
    let mut buf = vec![7; 20];
    let body_len = p.write_body(&mut buf, 4);
    assert_eq!(body_len, 5);
    buf[4 + body_len..][..3].copy_from_slice(&[0, 0, 3]);
    let (_, packet, _) = p.finish(buf, 4, 3);
    assert_eq!(packet, vec![7, 7, 7, 7, 0x12, 0x34, 1, 2, 3, 0, 0, 3]);
}

#[test]
fn resend_of_an_empty_payload() {
    let mut media = video();
    write(&mut media, vec![vec![]]).unwrap();
    let mut twcc = 0;
    media.poll_packet(at(0), SeqNo(5), &mut twcc).unwrap();
    media.handle_nack(Ssrc(10), vec![SeqNo(5)]).unwrap();
    let p = poll(&mut media, &mut twcc).unwrap();
    let mut buf = vec![7; 20];
    assert_eq!(p.write_body(&mut buf, 4), 2);
    assert_eq!(p.finish(buf, 4, 0).1, vec![7, 7, 7, 7, 0, 5]);
}

#[test]
fn late_requests_are_answered_after_sending_ends() {
    let mut media = video();
    write(&mut media, vec![vec![1, 2, 3]]).unwrap();
    let mut twcc = 0;
    poll(&mut media, &mut twcc).unwrap();
    let remote = MediaLine {
        mid: Mid(7),
        typ: MediaType::Video,
        dir: Direction::SendOnly,
        rtp_params: vec![],
        extmaps: vec![],
        ssrc_info: vec![],
    };
    media.apply_changes(&remote, &vec![], &Extensions::new());
    assert_eq!(media.direction(), Direction::RecvOnly);
    media.handle_nack(Ssrc(10), vec![SeqNo(1000)]).unwrap();
    assert_eq!(poll(&mut media, &mut twcc).unwrap().data, vec![1, 2, 3]);
}

#[test]
fn packets_from_before_are_dropped_when_sending_begins() {
    let mut media = video();
    write(&mut media, vec![vec![1]]).unwrap();
    let mut remote = MediaLine {
        mid: Mid(7),
        typ: MediaType::Video,
        dir: Direction::SendOnly,
        rtp_params: vec![],
        extmaps: vec![],
        ssrc_info: vec![],
    };
    media.apply_changes(&remote, &vec![], &Extensions::new());
    remote.dir = Direction::SendRecv;
    media.apply_changes(&remote, &vec![], &Extensions::new());
    let mut twcc = 0;
    assert!(poll(&mut media, &mut twcc).is_none());
}

#[test]
fn clearing_the_send_buffers() {
    let mut media = video();
    write(&mut media, vec![vec![1]]).unwrap();
    media.clear_send_buffers();
    let mut twcc = 0;
    assert!(poll(&mut media, &mut twcc).is_none());
}

#[test]
fn senders_are_added_once() {
    let mut media = line(Direction::SendRecv, vec![(Ssrc(1), None), (Ssrc(2), None)]);
    media.maybe_add_source_tx(Ssrc(2), Some(Ssrc(1)));
    media.maybe_add_source_tx(Ssrc(2), Some(Ssrc(9)));
    media.maybe_add_source_tx(Ssrc(3), None);
    assert_eq!(media.source_tx_ssrcs(), vec![Ssrc(1), Ssrc(2), Ssrc(3)]);
    assert_eq!(media.sources_tx()[1].repairs, Some(Ssrc(1)));
    assert_eq!(media.first_source_tx().unwrap().ssrc, Ssrc(1));
    assert!(media.has_ssrc_tx(Ssrc(3)));
    assert!(!media.has_ssrc_tx(Ssrc(4)));
}
