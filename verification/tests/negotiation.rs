use str0m::codec::{Codec, CodecParams, FormatParams};
use str0m::direction::Direction;
use str0m::ext::{ExtMap, Extension, Extensions};
use str0m::ids::{Mid, Pt, Rid, Ssrc};
use str0m::media::create::Identity;
use str0m::sdp::{AddMedia, MediaLine, MediaType, Msid, Simulcast, SsrcInfo};
use str0m::time::{already_happened, rr_interval, Duration, Instant};
use str0m::{Media, MediaKind};

fn params(pt: u8, codec: Codec) -> CodecParams {
    CodecParams {
        pt: Pt(pt),
        codec,
        clock_rate: 90_000,
        channels: None,
        fmtp: FormatParams {
            min_p_time: None,
            use_inband_fec: None,
            level_asymmetry_allowed: None,
            packetization_mode: None,
            profile_level_id: None,
            profile_id: None,
        },
        resend: None,
    }
}

fn identity() -> Identity {
    Identity {
        mid: Mid(1),
        cname: "cname".to_string(),
        msid: Msid {
            stream_id: "stream".to_string(),
            track_id: "track".to_string(),
        },
    }
}

fn remote(dir: Direction) -> MediaLine {
    MediaLine {
        mid: Mid(2),
        typ: MediaType::Audio,
        dir,
        rtp_params: vec![params(96, Codec::Vp8), params(98, Codec::Vp9), params(100, Codec::H264)],
        extmaps: vec![],
        ssrc_info: vec![],
    }
}

fn pts(media: &Media) -> Vec<u8> {
    media.codecs().iter().map(|c| c.pt.0).collect()
}

#[test]
fn blank_line() {
    let media = Media::new(identity());
    assert_eq!(media.mid(), Mid(1));
    assert_eq!(media.index(), 0);
    assert_eq!(media.cname(), "cname");
    assert_eq!(media.msid().stream_id, "stream");
    assert_eq!(media.msid().track_id, "track");
    assert_eq!(media.kind(), MediaKind::Video);
    assert_eq!(media.direction(), Direction::SendRecv);
    assert!(media.codecs().is_empty());
    assert!(media.sources_rx().is_empty());
    assert!(media.first_source_tx().is_none());
    assert!(media.need_open_event());
    assert!(media.simulcast().is_none());
    assert_eq!(media.poll_timeout(), Some(Instant { nanos: 10_000_000_000 }));
}

#[test]
fn line_of_the_other_side() {
    let media = Media::from_remote_media_line(
        &remote(Direction::SendOnly),
        5,
        Extensions::new(),
        identity(),
    );
    assert_eq!(media.mid(), Mid(2));
    assert_eq!(media.index(), 5);
    assert_eq!(media.cname(), "cname");
    assert_eq!(media.kind(), MediaKind::Audio);
    assert_eq!(media.direction(), Direction::RecvOnly);
    assert_eq!(pts(&media), vec![96, 98, 100]);
    assert!(media.need_open_event());
}

#[test]
fn line_that_is_offered() {
    let mut exts = Extensions::new();
    exts.set_mapping(&ExtMap {
        id: 3,
        ext: Extension::RtpMid,
    });
    let media = Media::from_add_media(
        AddMedia {
            mid: Mid(9),
            cname: "other".to_string(),
            msid: Msid {
                stream_id: "s".to_string(),
                track_id: "t".to_string(),
            },
            kind: MediaKind::Audio,
            dir: Direction::SendOnly,
            params: vec![params(111, Codec::Opus)],
            index: 4,
            ssrcs: vec![(Ssrc(1), None), (Ssrc(2), Some(Ssrc(1))), (Ssrc(1), Some(Ssrc(7)))],
        },
        exts,
    );
    assert_eq!((media.mid(), media.index()), (Mid(9), 4));
    assert_eq!(media.cname(), "other");
    assert_eq!(media.msid().track_id, "t");
    assert_eq!(media.kind(), MediaKind::Audio);
    assert_eq!(media.direction(), Direction::SendOnly);
    assert_eq!(pts(&media), vec![111]);
    assert_eq!(media.exts().get(3), Some(Extension::RtpMid));
    assert_eq!(media.source_tx_ssrcs(), vec![Ssrc(1), Ssrc(2)]);
    assert_eq!(media.sources_tx()[0].repairs, Some(Ssrc(7)));
    assert_eq!(media.sources_tx()[1].repairs, Some(Ssrc(1)));
}

#[test]
fn kinds_of_media() {
    assert_eq!(MediaKind::from(MediaType::Audio), MediaKind::Audio);
    assert_eq!(MediaKind::from(MediaType::Video), MediaKind::Video);
}

#[test]
fn directions() {
    let all = [
        (Direction::SendOnly, Direction::RecvOnly, true, false),
        (Direction::RecvOnly, Direction::SendOnly, false, true),
        (Direction::SendRecv, Direction::SendRecv, true, true),
        (Direction::Inactive, Direction::Inactive, false, false),
    ];
    for (d, inverse, sending, receiving) in all {
        assert_eq!(d.invert(), inverse);
        assert_eq!(d.invert().invert(), d);
        assert_eq!(d.is_sending(), sending);
        assert_eq!(d.is_receiving(), receiving);
    }
}

#[test]
fn intervals() {
    assert_eq!(rr_interval(true), Duration { nanos: 5_000_000_000 });
    assert_eq!(rr_interval(false), Duration { nanos: 1_000_000_000 });
    assert_eq!(already_happened(), Instant { nanos: 0 });
}

#[test]
fn timeouts() {
    let mut media = Media::new(identity());
    media.handle_timeout(Instant { nanos: 5 });
    assert_eq!(media.cleanup_at(), Instant { nanos: 10_000_000_005 });
    assert_eq!(media.poll_timeout(), Some(Instant { nanos: 10_000_000_005 }));
    assert_eq!(media.regular_feedback_at(), Instant { nanos: 1_000_000_000 });
}

#[test]
fn codecs_are_removed_but_not_added() {
    let mut media = Media::from_remote_media_line(
        &remote(Direction::SendRecv),
        0,
        Extensions::new(),
        identity(),
    );
    let mut change = remote(Direction::SendRecv);
    change.rtp_params = vec![
        params(100, Codec::H264),
        params(98, Codec::Vp9),
        params(102, Codec::Av1),
        params(96, Codec::H265),
    ];
    let accepted = vec![true, false, true, true];
    media.apply_changes(&change, &accepted, &Extensions::new());
    assert_eq!(pts(&media), vec![96, 100]);
    // The parameters of a payload type do not change.
    assert_eq!(media.codecs()[0].codec, Codec::Vp8);
}

#[test]
fn extensions_that_both_sides_agree_on() {
    let mut media = Media::new(identity());
    let mut session = Extensions::new();
    let mut set = |id, ext| session.set_mapping(&ExtMap { id, ext });
    set(1, Extension::AbsoluteSendTime);
    set(2, Extension::TransportSequenceNumber);
    set(4, Extension::RtpMid);
    set(255, Extension::Other(3));
    let mut change = remote(Direction::SendRecv);
    change.extmaps = vec![
        ExtMap { id: 1, ext: Extension::RtpMid },
        ExtMap { id: 2, ext: Extension::RtpStreamId },
        ExtMap { id: 2, ext: Extension::TransportSequenceNumber },
        ExtMap { id: 3, ext: Extension::RtpMid },
        ExtMap { id: 255, ext: Extension::Other(3) },
    ];
    media.apply_changes(&change, &vec![true; 3], &session);
    assert_eq!(media.exts().get(1), None);
    assert_eq!(media.exts().get(2), Some(Extension::TransportSequenceNumber));
    assert_eq!(media.exts().get(3), None);
    assert_eq!(media.exts().get(4), None);
    assert_eq!(media.exts().get(255), Some(Extension::Other(3)));
}

#[test]
fn announced_ssrcs_get_receivers() {
    let mut media = Media::new(identity());
    let mut change = remote(Direction::SendRecv);
    change.ssrc_info = vec![
        SsrcInfo { ssrc: Ssrc(2), repair: Some(Ssrc(1)) },
        SsrcInfo { ssrc: Ssrc(1), repair: None },
        SsrcInfo { ssrc: Ssrc(2), repair: Some(Ssrc(3)) },
    ];
    for _ in 0..2 {
        media.apply_changes(&change, &vec![true; 3], &Extensions::new());
        let rx: Vec<(Ssrc, Option<Ssrc>)> =
            media.sources_rx().iter().map(|s| (s.ssrc(), s.repairs())).collect();
        assert_eq!(
            rx,
            vec![(Ssrc(1), None), (Ssrc(2), Some(Ssrc(1))), (Ssrc(3), None)]
        );
    }
    assert_eq!(media.sources_rx()[0].last_used(), already_happened());
    assert_eq!(media.get_repaired_rx_ssrc(Ssrc(2)), Some(Ssrc(1)));
    assert_eq!(media.get_repaired_rx_ssrc(Ssrc(1)), None);
    assert_eq!(media.get_repaired_rx_ssrc(Ssrc(8)), None);
}

#[test]
fn announcements_add_to_what_is_known() {
    let mut media = Media::new(identity());
    media.get_or_create_source_rx(Ssrc(9), Instant { nanos: 5 }).set_repairs(Ssrc(8));
    media.get_or_create_source_rx(Ssrc(7), Instant { nanos: 6 }).set_rid(Rid(3));
    let mut change = remote(Direction::SendRecv);
    change.ssrc_info = vec![
        SsrcInfo { ssrc: Ssrc(9), repair: Some(Ssrc(1)) },
        SsrcInfo { ssrc: Ssrc(7), repair: None },
        SsrcInfo { ssrc: Ssrc(7), repair: Some(Ssrc(9)) },
    ];
    media.apply_changes(&change, &vec![true; 3], &Extensions::new());
    let rx: Vec<(Ssrc, Option<Ssrc>, Option<Rid>, u64)> = media
        .sources_rx()
        .iter()
        .map(|s| (s.ssrc(), s.repairs(), s.rid(), s.last_used().nanos))
        .collect();
    assert_eq!(
        rx,
        vec![
            (Ssrc(9), Some(Ssrc(8)), None, 5),
            (Ssrc(7), Some(Ssrc(9)), Some(Rid(3)), 6),
            (Ssrc(1), None, None, 0),
        ]
    );
}

#[test]
fn offered_senders_stand_in_the_order_of_the_offer() {
    let media = Media::from_add_media(
        AddMedia {
            mid: Mid(1),
            cname: "cname".to_string(),
            msid: identity().msid,
            kind: MediaKind::Video,
            dir: Direction::SendRecv,
            params: vec![],
            index: 0,
            ssrcs: vec![
                (Ssrc(5), None),
                (Ssrc(3), Some(Ssrc(5))),
                (Ssrc(5), Some(Ssrc(4))),
                (Ssrc(3), Some(Ssrc(1))),
                (Ssrc(4), None),
            ],
        },
        Extensions::new(),
    );
    let tx: Vec<(Ssrc, Option<Ssrc>)> =
        media.sources_tx().iter().map(|s| (s.ssrc, s.repairs)).collect();
    assert_eq!(
        tx,
        vec![(Ssrc(5), Some(Ssrc(4))), (Ssrc(3), Some(Ssrc(5))), (Ssrc(4), None)]
    );
}

#[test]
fn plain_changes() {
    let mut media = Media::new(identity());
    media.set_cname("new".to_string());
    assert_eq!(media.cname(), "new");
    media.set_need_open_event(false);
    assert!(!media.need_open_event());
    media.set_simulcast(Simulcast { send: vec![Rid(1)], recv: vec![] });
    assert_eq!(media.simulcast().unwrap().send, vec![Rid(1)]);
    let mut exts = Extensions::new();
    exts.set_mapping(&ExtMap { id: 0, ext: Extension::RtpMid });
    media.set_exts(exts);
    assert_eq!(media.exts().get(0), Some(Extension::RtpMid));
}
