use std::collections::VecDeque;

use str0m::direction::Direction;
use str0m::error::RtcError;
use str0m::ext::Extensions;
use str0m::ids::{Mid, Rid, SeqNo, Ssrc};
use str0m::rtcp::{
    Fir, FirEntry, KeyframeRequestKind, Nack, NackEntry, Pli, ReceiverReport, ReceptionReport,
    Rtcp, RtcpFb, Sdes, SdesType, SenderInfo, SenderReport,
};
use str0m::sdp::{AddMedia, Msid};
use str0m::time::Instant;
use str0m::{Media, MediaKind};

fn at(nanos: u64) -> Instant {
    Instant { nanos }
}

fn line(kind: MediaKind, ssrcs: Vec<(Ssrc, Option<Ssrc>)>) -> Media {
    Media::from_add_media(
        AddMedia {
            mid: Mid(1),
            cname: "cname".to_string(),
            msid: Msid {
                stream_id: "s".to_string(),
                track_id: "t".to_string(),
            },
            kind,
            dir: Direction::SendRecv,
            params: vec![],
            index: 0,
            ssrcs,
        },
        Extensions::new(),
    )
}

/// Two senders, and three receivers of which the second repairs the first.
fn busy() -> Media {
    let mut media = line(
        MediaKind::Video,
        vec![(Ssrc(1), None), (Ssrc(2), Some(Ssrc(1)))],
    );
    media.get_or_create_source_rx(Ssrc(11), at(0)).set_rid(Rid(1));
    media.get_or_create_source_rx(Ssrc(12), at(0)).set_repairs(Ssrc(11));
    media.get_or_create_source_rx(Ssrc(13), at(0));
    media
}

fn info(ssrc: u32) -> SenderInfo {
    SenderInfo {
        ssrc: Ssrc(ssrc),
        ntp_time: 7,
        rtp_time: 8,
        sender_packet_count: 9,
        sender_octet_count: 10,
    }
}

fn sr(ssrc: u32) -> SenderReport {
    SenderReport {
        sender_info: info(ssrc),
    }
}

fn rr(sender: u32, ssrc: u32) -> ReceiverReport {
    ReceiverReport {
        sender_ssrc: Ssrc(sender),
        report: ReceptionReport {
            ssrc: Ssrc(ssrc),
            fraction_lost: 0,
            packets_lost: 0,
            max_seq: 0,
            jitter: 0,
            last_sr_time: 0,
            last_sr_delay: 0,
        },
    }
}

fn nack(ssrc: u32) -> Rtcp {
    Rtcp::Nack(Nack {
        ssrc: Ssrc(ssrc),
        reports: vec![NackEntry { pid: 1, blp: 2 }],
    })
}

fn sdes(ssrc: u32) -> Rtcp {
    Rtcp::SourceDescription(Sdes {
        ssrc: Ssrc(ssrc),
        values: vec![(SdesType::CNAME, "cname".to_string())],
    })
}

#[test]
fn keyframe_by_pli() {
    let mut media = busy();
    let mut feedback = VecDeque::from(vec![nack(1)]);
    media.maybe_create_keyframe_request(&mut feedback);
    assert_eq!(feedback, vec![nack(1)]);

    assert_eq!(media.request_keyframe(Some(Rid(1)), KeyframeRequestKind::Pli), Ok(()));
    media.maybe_create_keyframe_request(&mut feedback);
    media.maybe_create_keyframe_request(&mut feedback);
    assert_eq!(feedback, vec![nack(1), Rtcp::Pli(Pli { ssrc: Ssrc(11) })]);
}

#[test]
fn keyframes_by_fir_are_numbered() {
    let mut media = busy();
    let mut feedback = VecDeque::new();
    for i in 0..300u32 {
        // The receiver of resends has no encoding either, but is passed over.
        media.request_keyframe(None, KeyframeRequestKind::Fir).unwrap();
        media.maybe_create_keyframe_request(&mut feedback);
        let entry = FirEntry {
            ssrc: Ssrc(13),
            seq_no: (i % 256) as u8,
        };
        let want = Rtcp::Fir(Fir {
            reports: vec![entry],
        });
        assert_eq!(feedback.pop_front(), Some(want));
        assert!(feedback.is_empty());
    }
}

#[test]
fn keyframe_of_no_receiver() {
    let mut media = busy();
    assert_eq!(
        media.request_keyframe(Some(Rid(2)), KeyframeRequestKind::Pli),
        Err(RtcError::NoReceiverSource)
    );
    let mut feedback = VecDeque::new();
    media.maybe_create_keyframe_request(&mut feedback);
    assert!(feedback.is_empty());
}

#[test]
fn failing_request_keeps_the_pending_one() {
    let mut media = busy();
    media.request_keyframe(None, KeyframeRequestKind::Pli).unwrap();
    assert_eq!(
        media.request_keyframe(Some(Rid(2)), KeyframeRequestKind::Fir),
        Err(RtcError::NoReceiverSource)
    );
    let mut feedback = VecDeque::new();
    media.maybe_create_keyframe_request(&mut feedback);
    assert_eq!(feedback, vec![Rtcp::Pli(Pli { ssrc: Ssrc(13) })]);
}

#[test]
fn feedback_reaches_one_side() {
    // The same SSRC on both sides.
    let mut media = line(MediaKind::Video, vec![(Ssrc(1), None)]);
    media.get_or_create_source_rx(Ssrc(1), at(0));
    assert_eq!(media.handle_rtcp_fb(at(3), RtcpFb::SenderInfo(info(1))), Some(()));
    assert_eq!(media.poll_keyframe_request(), None);
    assert_eq!(media.sources_rx()[0].sender_info_at(), Some(at(3)));
    assert_eq!(media.handle_rtcp_fb(at(4), RtcpFb::Pli(Ssrc(1))), Some(()));
    assert_eq!(media.sources_rx()[0].sender_info_at(), Some(at(3)));
    assert_eq!(media.poll_keyframe_request(), Some((None, KeyframeRequestKind::Pli)));
}

#[test]
fn keyframe_that_the_other_side_asks_for() {
    let mut media = busy();
    assert_eq!(media.poll_keyframe_request(), None);
    assert_eq!(media.handle_rtcp_fb(at(1), RtcpFb::Pli(Ssrc(2))), Some(()));
    assert_eq!(media.poll_keyframe_request(), Some((None, KeyframeRequestKind::Pli)));
    assert_eq!(media.poll_keyframe_request(), None);
    let entry = FirEntry {
        ssrc: Ssrc(1),
        seq_no: 4,
    };
    assert_eq!(media.handle_rtcp_fb(at(1), RtcpFb::Fir(entry)), Some(()));
    assert_eq!(media.poll_keyframe_request(), Some((None, KeyframeRequestKind::Fir)));
    assert_eq!(media.handle_rtcp_fb(at(1), RtcpFb::Pli(Ssrc(11))), None);
    assert_eq!(media.poll_keyframe_request(), None);
}

#[test]
fn regular_feedback() {
    let mut media = busy();
    let mut feedback = VecDeque::from(vec![
        Rtcp::SenderReport(sr(50)),
        nack(1),
        Rtcp::ReceiverReport(rr(50, 51)),
        Rtcp::Goodbye(Ssrc(52)),
    ]);
    assert!(!media.makes_regular_feedback(at(999_999_999)));
    assert!(media.makes_regular_feedback(at(1_000_000_000)));
    let early = media.maybe_create_regular_feedback(at(999_999_999), &mut feedback, vec![], vec![]);
    assert_eq!(early, None);
    assert_eq!(feedback.len(), 4);

    let made = media.maybe_create_regular_feedback(
        at(1_000_000_000),
        &mut feedback,
        vec![sr(1), sr(2)],
        vec![rr(0, 11), rr(0, 12), rr(0, 13)],
    );
    assert_eq!(made, Some(()));
    assert_eq!(
        feedback,
        vec![
            nack(1),
            Rtcp::Goodbye(Ssrc(52)),
            Rtcp::SenderReport(sr(1)),
            sdes(1),
            Rtcp::SenderReport(sr(2)),
            sdes(2),
            Rtcp::ReceiverReport(rr(1, 11)),
            Rtcp::ReceiverReport(rr(1, 12)),
            Rtcp::ReceiverReport(rr(1, 13)),
        ]
    );
    assert_eq!(media.regular_feedback_at(), at(2_000_000_000));
    let again = media.maybe_create_regular_feedback(at(1_999_999_999), &mut feedback, vec![], vec![]);
    assert_eq!(again, None);
}

#[test]
fn regular_feedback_without_senders() {
    let mut media = line(MediaKind::Audio, vec![]);
    media.get_or_create_source_rx(Ssrc(11), at(0));
    assert_eq!(media.regular_feedback_at(), at(5_000_000_000));
    let mut feedback = VecDeque::from(vec![Rtcp::ReceiverReport(rr(50, 51)), nack(1)]);
    let made =
        media.maybe_create_regular_feedback(at(6_000_000_000), &mut feedback, vec![], vec![]);
    assert_eq!(made, None);
    assert_eq!(feedback, vec![Rtcp::ReceiverReport(rr(50, 51)), nack(1)]);
    assert_eq!(media.regular_feedback_at(), at(5_000_000_000));
    assert!(!media.makes_regular_feedback(at(6_000_000_000)));

    // With the first sender the feedback that is due is made.
    media.maybe_add_source_tx(Ssrc(1), None);
    let made = media.maybe_create_regular_feedback(
        at(6_000_000_000),
        &mut feedback,
        vec![sr(1)],
        vec![rr(9, 11)],
    );
    assert_eq!(made, Some(()));
    assert_eq!(
        feedback,
        vec![
            nack(1),
            Rtcp::SenderReport(sr(1)),
            sdes(1),
            Rtcp::ReceiverReport(rr(1, 11)),
        ]
    );
}

#[test]
fn lost_packets_are_reported_by_main_receivers() {
    let media = busy();
    assert!(!media.has_nack(&vec![false, true, false]));
    assert!(media.has_nack(&vec![false, true, true]));
    let mut feedback = VecDeque::from(vec![Rtcp::Twcc(vec![1])]);
    media.create_nack(&mut feedback, vec![None, Some(nack(12)), None]);
    assert_eq!(feedback.len(), 1);
    media.create_nack(&mut feedback, vec![Some(nack(11)), Some(nack(12)), Some(nack(13))]);
    assert_eq!(feedback, vec![Rtcp::Twcc(vec![1]), nack(11), nack(13)]);
}

#[test]
fn sender_info_is_noted() {
    let mut media = busy();
    assert_eq!(media.handle_rtcp_fb(at(3), RtcpFb::SenderInfo(info(12))), Some(()));
    assert_eq!(media.sources_rx()[1].sender_info(), Some(info(12)));
    assert_eq!(media.sources_rx()[1].sender_info_at(), Some(at(3)));
    assert_eq!(media.sources_rx()[0].sender_info(), None);
    assert_eq!(media.handle_rtcp_fb(at(3), RtcpFb::SenderInfo(info(1))), None);
}

#[test]
fn descriptions() {
    let mut media = busy();
    let mut tell = |ssrc, kind, value: &str| {
        media.handle_rtcp_fb(
            at(3),
            RtcpFb::SourceDescription(Sdes {
                ssrc: Ssrc(ssrc),
                values: vec![(SdesType::NAME, "n".to_string()), (kind, value.to_string())],
            }),
        )
    };
    assert_eq!(tell(11, SdesType::CNAME, "c"), None);
    assert_eq!(tell(11, SdesType::CNAME, ""), None);
    assert_eq!(tell(11, SdesType::TOOL, "t"), Some(()));
    assert_eq!(tell(1, SdesType::TOOL, "t"), None);
}

#[test]
fn other_feedback() {
    let mut media = busy();
    assert_eq!(media.handle_rtcp_fb(at(1), RtcpFb::Goodbye(Ssrc(13))), Some(()));
    assert_eq!(media.handle_rtcp_fb(at(1), RtcpFb::Goodbye(Ssrc(14))), None);
    let report = rr(0, 2).report;
    assert_eq!(media.handle_rtcp_fb(at(1), RtcpFb::ReceptionReport(report)), Some(()));
    assert_eq!(media.handle_rtcp_fb(at(1), RtcpFb::Twcc(Ssrc(11))), None);
    // There is no packet to send again.
    assert_eq!(media.handle_rtcp_fb(at(1), RtcpFb::Nack(Ssrc(1), vec![SeqNo(1)])), None);
    // Feedback that is handed to the wrong side changes nothing.
    assert_eq!(media.handle_rtcp_fb_rx(at(1), RtcpFb::Pli(Ssrc(11))), Some(()));
    assert_eq!(media.handle_rtcp_fb_tx(at(1), RtcpFb::Goodbye(Ssrc(1))), Some(()));
    assert_eq!(media.poll_keyframe_request(), None);
}
