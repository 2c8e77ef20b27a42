use str0m::buffer_rx::Depacketized;
use str0m::codec::{Codec, CodecParams, FormatParams};
use str0m::direction::Direction;
use str0m::error::{PacketError, RtcError};
use str0m::ext::Extensions;
use str0m::header::RtpHeader;
use str0m::ids::{MediaTime, Mid, Pt, Rid, SeqNo, Ssrc};
use str0m::media::create::Identity;
use str0m::sdp::{MediaLine, MediaType, Msid};
use str0m::time::Instant;
use str0m::Media;

fn params(pt: u8, codec: Codec, resend: Option<u8>) -> CodecParams {
    CodecParams {
        pt: Pt(pt),
        codec,
        clock_rate: 90_000,
        channels: None,
        fmtp: FormatParams {
            min_p_time: None,
            use_inband_fec: None,
            level_asymmetry_allowed: None,
            packetization_mode: None,
            profile_level_id: None,
            profile_id: None,
        },
        resend: resend.map(Pt),
    }
}

fn remote(dir: Direction) -> MediaLine {
    MediaLine {
        mid: Mid(3),
        typ: MediaType::Video,
        dir,
        rtp_params: vec![
            params(96, Codec::Vp8, Some(97)),
            params(98, Codec::Vp9, Some(99)),
            params(99, Codec::H264, None),
        ],
        extmaps: vec![],
        ssrc_info: vec![],
    }
}

fn video() -> Media {
    Media::from_remote_media_line(
        &remote(Direction::SendRecv),
        0,
        Extensions::new(),
        Identity {
            mid: Mid(0),
            cname: "c".to_string(),
            msid: Msid {
                stream_id: "s".to_string(),
                track_id: "t".to_string(),
            },
        },
    )
}

fn header(pt: u8, ssrc: u32) -> RtpHeader {
    RtpHeader::new(Pt(pt), SeqNo(1), MediaTime { numer: 0, denom: 1 }, Ssrc(ssrc))
}

fn sample(byte: u8) -> Result<Depacketized, PacketError> {
    Ok(Depacketized {
        time: MediaTime { numer: 8, denom: 9 },
        data: vec![byte],
        meta: vec![],
    })
}

fn at(nanos: u64) -> Instant {
    Instant { nanos }
}

#[test]
fn receivers_are_created_once() {
    let mut media = video();
    let r = media.get_or_create_source_rx(Ssrc(5), at(1));
    assert_eq!((r.ssrc(), r.last_used(), r.rid(), r.repairs()), (Ssrc(5), at(1), None, None));
    let r = media.get_or_create_source_rx(Ssrc(5), at(2));
    assert_eq!(r.last_used(), at(1));
    assert_eq!(media.sources_rx().len(), 1);
    assert!(media.has_ssrc_rx(Ssrc(5)));
    assert!(!media.has_ssrc_rx(Ssrc(6)));
}

#[test]
fn receivers_learn_from_headers() {
    let mut media = video();
    let mut main = header(96, 5);
    main.ext_vals.rid = Some(Rid(1));
    assert_eq!(media.get_source_rx(&main, at(1), true).rid(), Some(Rid(1)));
    main.ext_vals.rid = Some(Rid(2));
    assert_eq!(media.get_source_rx(&main, at(1), true).rid(), Some(Rid(1)));

    let mut rtx = header(97, 6);
    rtx.ext_vals.rid_repair = Some(Rid(9));
    assert_eq!(media.get_source_rx(&rtx, at(1), true).repairs(), None);
    rtx.ext_vals.rid_repair = Some(Rid(1));
    assert_eq!(media.get_source_rx(&rtx, at(1), false).repairs(), None);
    let r = media.get_source_rx(&rtx, at(1), true);
    assert_eq!(r.repairs(), Some(Ssrc(5)));
    assert!(r.is_rtx());
    assert_eq!(media.get_repaired_rx_ssrc(Ssrc(6)), Some(Ssrc(5)));
    assert_eq!(media.sources_rx().len(), 2);
}

#[test]
fn changes_to_a_receiver_stay() {
    let mut media = video();
    media.get_or_create_source_rx(Ssrc(5), at(1)).set_rid(Rid(7));
    assert_eq!(media.sources_rx()[0].rid(), Some(Rid(7)));
    assert_eq!(media.sources_rx()[0].ssrc(), Ssrc(5));
}

#[test]
fn codec_of_a_packet() {
    let media = video();
    assert_eq!(media.get_params(&header(96, 1)).unwrap().pt, Pt(96));
    assert_eq!(media.get_params(&header(97, 1)).unwrap().pt, Pt(96));
    // The codec that resends under 99 comes before the one that has it.
    assert_eq!(media.get_params(&header(99, 1)).unwrap().pt, Pt(98));
    assert!(media.get_params(&header(50, 1)).is_none());
    assert_eq!(media.codec_by_pt(Pt(99)).unwrap().codec, Codec::H264);
    assert!(media.codec_by_pt(Pt(97)).is_none());
}

#[test]
fn best_codec() {
    let media = video();
    assert_eq!(media.match_codec(&vec![1, 3, 2]), Some(Pt(98)));
    assert_eq!(media.match_codec(&vec![3, 1, 3]), Some(Pt(99)));
    assert_eq!(media.match_codec(&vec![0, 0, 0]), Some(Pt(99)));
    assert_eq!(media.match_codec(&vec![2, 1, 1]), Some(Pt(96)));
    let none = Media::new(Identity {
        mid: Mid(0),
        cname: String::new(),
        msid: Msid {
            stream_id: String::new(),
            track_id: String::new(),
        },
    });
    assert_eq!(none.match_codec(&vec![]), None);
}

#[test]
fn samples_are_read_in_order() {
    let mut media = video();
    assert!(media.poll_sample().is_none());
    let b = media.get_buffer_rx(Pt(96), Some(Rid(4)), Codec::Vp8);
    assert_eq!((b.codec(), b.hold_back()), (Codec::Vp8, 30));
    b.push(sample(1));
    media.get_buffer_rx(Pt(98), None, Codec::Vp9).push(sample(3));
    // The codec of a buffer is the one it was created with.
    let b = media.get_buffer_rx(Pt(96), Some(Rid(4)), Codec::H264);
    assert_eq!(b.codec(), Codec::Vp8);
    b.push(sample(2));

    let first = media.poll_sample().unwrap().unwrap();
    assert_eq!((first.mid, first.pt, first.rid), (Mid(3), Pt(96), Some(Rid(4))));
    assert_eq!(first.codec, params(96, Codec::Vp8, Some(97)));
    assert_eq!(first.time, MediaTime { numer: 8, denom: 9 });
    assert_eq!(first.data, vec![1]);
    assert!(first.meta.is_empty());
    assert_eq!(media.poll_sample().unwrap().unwrap().data, vec![2]);
    let third = media.poll_sample().unwrap().unwrap();
    assert_eq!((third.pt, third.rid, third.data), (Pt(98), None, vec![3]));
    assert!(media.poll_sample().is_none());
}

#[test]
fn samples_that_come_in_between_reads_wait_in_line() {
    let mut media = video();
    let mut read = vec![];
    for i in 0..3u8 {
        media.get_buffer_rx(Pt(98), None, Codec::Vp9).push(sample(100 + i));
        media.get_buffer_rx(Pt(96), None, Codec::Vp8).push(sample(2 * i));
        media.get_buffer_rx(Pt(96), None, Codec::Vp8).push(sample(2 * i + 1));
        let d = media.poll_sample().unwrap().unwrap();
        read.push((d.pt, d.data[0]));
    }
    while let Some(d) = media.poll_sample() {
        let d = d.unwrap();
        read.push((d.pt, d.data[0]));
    }
    let of = |pt| -> Vec<u8> { read.iter().filter(|r| r.0 == pt).map(|r| r.1).collect() };
    assert_eq!(of(Pt(96)), vec![0, 1, 2, 3, 4, 5]);
    assert_eq!(of(Pt(98)), vec![100, 101, 102]);
}

#[test]
fn sample_that_could_not_be_put_together() {
    let mut media = video();
    let reason = || PacketError {
        reason: "gap".to_string(),
    };
    media.get_buffer_rx(Pt(96), None, Codec::Vp8).push(Err(reason()));
    match media.poll_sample() {
        Some(Err(e)) => assert_eq!(e, RtcError::Packet(Mid(3), Pt(96), reason())),
        _ => panic!("expected an error"),
    }
    assert!(media.poll_sample().is_none());
}

#[test]
fn sample_of_an_unknown_payload_type_is_dropped() {
    let mut media = video();
    media.get_buffer_rx(Pt(50), None, Codec::Vp8).push(sample(1));
    media.get_buffer_rx(Pt(96), None, Codec::Vp8).push(sample(2));
    assert!(media.poll_sample().is_none());
    assert_eq!(media.poll_sample().unwrap().unwrap().data, vec![2]);
}

#[test]
fn samples_from_before_are_dropped_when_receiving_ends() {
    let mut media = video();
    media.get_buffer_rx(Pt(96), None, Codec::Vp8).push(sample(1));
    media.apply_changes(&remote(Direction::SendOnly), &vec![true; 3], &Extensions::new());
    assert_eq!(media.poll_sample().unwrap().unwrap().data, vec![1]);
    media.get_buffer_rx(Pt(96), None, Codec::Vp8).push(sample(2));
    media.apply_changes(&remote(Direction::RecvOnly), &vec![true; 3], &Extensions::new());
    assert_eq!(media.direction(), Direction::SendOnly);
    assert!(media.poll_sample().is_none());
}

#[test]
fn clearing_the_receive_buffers() {
    let mut media = video();
    media.get_buffer_rx(Pt(96), None, Codec::Vp8).push(sample(1));
    media.clear_receive_buffers();
    assert!(media.poll_sample().is_none());
}
