//! What is reported to the other side, and what it asks for.

use crate::ext::Extension;
use crate::header::RtpHeader;
use crate::ids::{Rid, Ssrc};
use crate::laws::negotiation::law_announcements_tell_only_repairs;
use crate::media::{has_rx, MediaModel};
use crate::media::feedback::{lasting, lost_feedback, main_rx};
use crate::media::sources::{informed_rx, lemma_rx_index, rx_index, rx_slot, tx_index, with_rx};
use crate::receiver::ReceiverModel;
use crate::rtcp::{
    FirEntry, KeyframeRequestKind, ReceiverReport, Rtcp, RtcpFb, RtcpModel, SenderReport,
};
use crate::sdp::MediaLine;
use crate::search::{first, lemma_filter_contains, lemma_first};
use crate::time::{rr_interval_nanos, Instant};
use vstd::prelude::*;

verus! {

/// A keyframe that was asked for is requested of the other side exactly once.
pub proof fn law_keyframe_is_requested_once(
    m: MediaModel,
    rid: Option<Rid>,
    kind: KeyframeRequestKind,
    i: int,
)
    requires
        m.wf(),
        first(m.sources_rx, main_rx(rid)) == Some(i),
    ensures
        ({
            let ssrc = m.sources_rx[i].ssrc;
            let wanting = MediaModel { keyframe_request_tx: Some((ssrc, kind)), ..m };
            &&& wanting.keyframe_feedback().len() == 1
            &&& match wanting.keyframe_feedback()[0] {
                RtcpModel::Pli(p) => kind is Pli && p.ssrc == ssrc,
                RtcpModel::Fir(reports) => kind is Fir && reports == seq![
                    FirEntry { ssrc, seq_no: m.sources_rx[i].fir_seq_no },
                ],
                _ => false,
            }
            &&& wanting.keyframe_requested().keyframe_feedback() == Seq::<RtcpModel>::empty()
            &&& wanting.keyframe_requested().keyframe_requested() == wanting.keyframe_requested()
        }),
{
    let ssrc = m.sources_rx[i].ssrc;
    lemma_first(m.sources_rx, main_rx(rid));
    assert(has_rx(m.sources_rx, ssrc));
    lemma_rx_index(m.sources_rx, ssrc);
}

/// Full intra requests of one receiver are numbered one after the other, and round at 255.
pub proof fn law_fir_numbers_are_contiguous(m: MediaModel, ssrc: Ssrc, i: int)
    requires
        m.wf(),
        rx_index(m.sources_rx, ssrc) == Some(i),
        m.keyframe_request_tx == Some((ssrc, KeyframeRequestKind::Fir)),
    ensures
        m.keyframe_requested().sources_rx[i].fir_seq_no == (m.sources_rx[i].fir_seq_no + 1) % 256,
{
    lemma_rx_index(m.sources_rx, ssrc);
}

/// Whether the receivers of `a` are still there in `b`, in the same places, and no full intra
/// request was numbered.
pub open spec fn keeps_fir_numbers(a: Seq<ReceiverModel>, b: Seq<ReceiverModel>) -> bool {
    &&& a.len() <= b.len()
    &&& forall|i: int|
        #![trigger b[i]]
        0 <= i < a.len() ==> b[i].ssrc == a[i].ssrc && b[i].fir_seq_no == a[i].fir_seq_no
}

/// Nothing but asking for a keyframe numbers full intra requests: not negotiation, other feedback
/// or packets that come in.
pub proof fn law_only_asking_numbers_firs(
    m: MediaModel,
    line: MediaLine,
    accepted: Seq<bool>,
    session_exts: Map<u8, Extension>,
    now: Instant,
    fb: RtcpFb,
    header: RtpHeader,
)
    ensures
        keeps_fir_numbers(m.sources_rx, m.changed(line, accepted, session_exts).sources_rx),
        keeps_fir_numbers(m.sources_rx, m.told(now, fb).sources_rx),
        ({
            let all = with_rx(m.sources_rx, header.ssrc, now);
            let k = rx_slot(m.sources_rx, header.ssrc);
            keeps_fir_numbers(
                m.sources_rx,
                all.update(k, informed_rx(all[k], m.sources_rx, header)),
            )
        }),
{
    law_announcements_tell_only_repairs(m.sources_rx, line.ssrc_info@);
    lemma_rx_index(m.sources_rx, fb.about());
    lemma_rx_index(m.sources_rx, header.ssrc);
}

impl MediaModel {
    /// The SSRC that a full intra request is pending for.
    pub open spec fn wanted_fir(self) -> Option<Ssrc> {
        match self.keyframe_request_tx {
            Some((ssrc, KeyframeRequestKind::Fir)) => Some(ssrc),
            _ => None,
        }
    }

    /// The number of the next full intra request of an SSRC.
    pub open spec fn fir_number(self, ssrc: Ssrc) -> u8 {
        self.sources_rx[rx_index(self.sources_rx, ssrc)->0].fir_seq_no
    }
}

/// The receiver that a full intra request went out for keeps its place, and has numbered no other
/// since, as long as none goes out for it.
proof fn lemma_fir_number_stays(history: Seq<MediaModel>, asks: Seq<bool>, ssrc: Ssrc, n: int)
    requires
        0 < n < history.len(),
        asks.len() + 1 == history.len(),
        forall|i: int| 0 <= i < history.len() ==> (#[trigger] history[i]).wf(),
        forall|i: int|
            0 <= i < asks.len() ==> if #[trigger] asks[i] {
                history[i + 1] == history[i].keyframe_requested()
            } else {
                keeps_fir_numbers(history[i].sources_rx, history[i + 1].sources_rx)
            },
        asks[0],
        history[0].wanted_fir() == Some(ssrc),
        forall|i: int| 0 < i < n && #[trigger] asks[i] ==> history[i].wanted_fir() != Some(ssrc),
    ensures
        ({
            let k = rx_index(history[0].sources_rx, ssrc)->0;
            let rx = history[n].sources_rx;
            &&& 0 <= k < rx.len()
            &&& rx[k].ssrc == ssrc
            &&& rx[k].fir_seq_no == (history[0].fir_number(ssrc) + 1) % 256
        }),
    decreases n,
{
    let a = history[n - 1];
    assert(history[0].wf());
    assert(a.wf());
    lemma_rx_index(history[0].sources_rx, ssrc);
    if n > 1 {
        lemma_fir_number_stays(history, asks, ssrc, n - 1);
    }
    assert(asks[n - 1] || !asks[n - 1]);
    assert(history[n - 1 + 1] == history[n]);
    if asks[n - 1] {
        if let Some(other) = a.wanted_fir() {
            lemma_rx_index(a.sources_rx, other);
        }
    }
}

/// Full intra requests for one SSRC are numbered one after the other, and round at 255: of two for
/// the SSRC with none for it between them, the second has the number after the first's. Between
/// them other keyframes may be asked for, and anything may happen to the m-line that numbers no
/// request.
pub proof fn law_firs_of_an_ssrc_are_contiguous(
    history: Seq<MediaModel>,
    asks: Seq<bool>,
    ssrc: Ssrc,
)
    requires
        asks.len() > 0,
        asks.len() + 1 == history.len(),
        forall|i: int| 0 <= i < history.len() ==> (#[trigger] history[i]).wf(),
        forall|i: int|
            0 <= i < asks.len() ==> if #[trigger] asks[i] {
                history[i + 1] == history[i].keyframe_requested()
            } else {
                keeps_fir_numbers(history[i].sources_rx, history[i + 1].sources_rx)
            },
        asks[0],
        history[0].wanted_fir() == Some(ssrc),
        forall|i: int|
            0 < i < asks.len() && #[trigger] asks[i] ==> history[i].wanted_fir() != Some(ssrc),
        history.last().wanted_fir() == Some(ssrc),
    ensures
        ({
            let one = history[0].fir_number(ssrc);
            let two = history.last().fir_number(ssrc);
            &&& history[0].keyframe_feedback() == seq![
                RtcpModel::Fir(seq![FirEntry { ssrc, seq_no: one }]),
            ]
            &&& history.last().keyframe_feedback() == seq![
                RtcpModel::Fir(seq![FirEntry { ssrc, seq_no: two }]),
            ]
            &&& two == (one + 1) % 256
        }),
{
    let n = asks.len() as int;
    lemma_fir_number_stays(history, asks, ssrc, n);
    let last = history[n];
    let k = rx_index(history[0].sources_rx, ssrc)->0;
    assert(last.wf());
    lemma_rx_index(last.sources_rx, ssrc);
    let i = rx_index(last.sources_rx, ssrc)->0;
    assert(last.sources_rx[i].ssrc == last.sources_rx[k].ssrc);
    assert(i == k);
}

/// A keyframe that the other side asked for is reported exactly once, with the encoding of the
/// sender that was asked.
pub proof fn law_keyframe_request_is_reported_once(m: MediaModel, fb: RtcpFb, i: int)
    requires
        tx_index(m.sources_tx, fb.about()) == Some(i),
        fb is Pli || fb is Fir,
    ensures
        m.told_tx(fb).keyframe_request_rx == Some(
            (
                m.sources_tx[i].rid,
                if fb is Pli {
                    KeyframeRequestKind::Pli
                } else {
                    KeyframeRequestKind::Fir
                },
            ),
        ),
        (MediaModel { keyframe_request_rx: None, ..m.told_tx(fb) }) == (MediaModel {
            keyframe_request_rx: None,
            ..m
        }),
{
}

/// Feedback reaches one side of the m-line only, by what it is about: it does what
/// [`MediaModel::told_rx`] or what [`MediaModel::told_tx`] says, never both. Feedback for a receiver
/// changes nothing but receivers, so no sender, no resend and no keyframe that the other side asked
/// for. Feedback for a sender changes no receiver, and no sender either: it only schedules resends
/// or notes a request for a keyframe.
pub proof fn law_feedback_reaches_one_side(m: MediaModel, now: Instant, fb: RtcpFb)
    ensures
        fb.for_rx() ==> {
            &&& m.told(now, fb) == m.told_rx(now, fb)
            &&& m.takes(fb) == m.takes_rx(fb)
            &&& m.told(now, fb) == (MediaModel { sources_rx: m.told(now, fb).sources_rx, ..m })
        },
        !fb.for_rx() ==> {
            &&& m.told(now, fb) == m.told_tx(fb)
            &&& m.takes(fb) == m.takes_tx(fb)
            &&& m.told(now, fb) == (MediaModel {
                resends: m.told(now, fb).resends,
                keyframe_request_rx: m.told(now, fb).keyframe_request_rx,
                ..m
            })
        },
{
}

/// Once regular feedback was made, it is made again when the interval of the m-line's kind has
/// passed, and not before.
pub proof fn law_regular_feedback_keeps_its_interval(m: MediaModel, now: Instant, later: Instant)
    requires
        m.makes_feedback(now),
    ensures
        ({
            let after = MediaModel { last_regular_feedback: now, ..m };
            after.makes_feedback(later) <==> later.nanos - now.nanos >= rr_interval_nanos(
                m.kind is Audio,
            )
        }),
{
}

/// Without senders no regular feedback is made, at any time.
pub proof fn law_no_regular_feedback_without_senders(m: MediaModel, now: Instant)
    requires
        m.sources_tx.len() == 0,
    ensures
        !m.makes_feedback(now),
{
}

/// After regular feedback was made, the reports in the queue are those made now: what the senders
/// report, and what the receivers report in the name of the first sender. None from before is left.
pub proof fn law_regular_feedback_replaces_reports(
    m: MediaModel,
    queue: Seq<RtcpModel>,
    sender_reports: Seq<SenderReport>,
    receiver_reports: Seq<ReceiverReport>,
    r: RtcpModel,
)
    requires
        m.sources_tx.len() > 0,
        sender_reports.len() == m.sources_tx.len(),
        receiver_reports.len() == m.sources_rx.len(),
        r.is_report(),
    ensures
        (queue.filter(lasting()) + m.regular_feedback(sender_reports, receiver_reports)).contains(r)
            <==> match r {
            RtcpModel::SenderReport(v) => sender_reports.contains(v),
            RtcpModel::ReceiverReport(v) => exists|i: int|
                0 <= i < receiver_reports.len() && v == (ReceiverReport {
                    sender_ssrc: m.feedback_ssrc(),
                    ..(#[trigger] receiver_reports[i])
                }),
            _ => false,
        },
{
    let kept = queue.filter(lasting());
    let fresh = m.regular_feedback(sender_reports, receiver_reports);
    let all = kept + fresh;
    let n = 2 * m.sources_tx.len();
    lemma_filter_contains(queue, lasting(), r);
    if all.contains(r) {
        let i = choose|i: int| 0 <= i < all.len() && all[i] == r;
        if i < kept.len() {
            assert(kept[i] == r);
        } else {
            let j = i - kept.len();
            assert(fresh[j] == r);
            if j < n {
                if j % 2 == 0 {
                    assert(sender_reports[j / 2] == r->SenderReport_0);
                }
            } else {
                assert(r->ReceiverReport_0 == (ReceiverReport {
                    sender_ssrc: m.feedback_ssrc(),
                    ..receiver_reports[j - n]
                }));
            }
        }
    }
    match r {
        RtcpModel::SenderReport(v) => {
            if sender_reports.contains(v) {
                let i = choose|i: int| 0 <= i < sender_reports.len() && sender_reports[i] == v;
                assert(fresh[2 * i] == r);
                assert(all[kept.len() + 2 * i] == r);
            }
        },
        RtcpModel::ReceiverReport(v) => {
            if exists|i: int|
                0 <= i < receiver_reports.len() && v == (ReceiverReport {
                    sender_ssrc: m.feedback_ssrc(),
                    ..(#[trigger] receiver_reports[i])
                }) {
                let i = choose|i: int|
                    0 <= i < receiver_reports.len() && v == (ReceiverReport {
                        sender_ssrc: m.feedback_ssrc(),
                        ..(#[trigger] receiver_reports[i])
                    });
                assert(fresh[n + i] == r);
                assert(all[kept.len() + n + i] == r);
            }
        },
        _ => {},
    }
}

/// Lost packets are reported if and only if a receiver has some to report that does not itself get
/// resends.
pub proof fn law_nacks_match(rx: Seq<ReceiverModel>, nacks: Seq<Option<Rtcp>>)
    requires
        rx.len() == nacks.len(),
    ensures
        lost_feedback(rx, nacks).len() > 0 <==> exists|i: int|
            0 <= i < nacks.len() && !(#[trigger] rx[i]).rtx() && nacks[i] is Some,
{
    lemma_nacks_match(rx, nacks);
}

/// The same for the first of the receivers.
proof fn lemma_nacks_match(rx: Seq<ReceiverModel>, nacks: Seq<Option<Rtcp>>)
    requires
        nacks.len() <= rx.len(),
    ensures
        lost_feedback(rx, nacks).len() > 0 <==> exists|i: int|
            0 <= i < nacks.len() && !(#[trigger] rx[i]).rtx() && nacks[i] is Some,
    decreases nacks.len(),
{
    if nacks.len() > 0 {
        let rest = nacks.drop_last();
        let last = nacks.len() - 1;
        lemma_nacks_match(rx, rest);
        if exists|i: int| 0 <= i < rest.len() && !(#[trigger] rx[i]).rtx() && rest[i] is Some {
            let i = choose|i: int|
                0 <= i < rest.len() && !(#[trigger] rx[i]).rtx() && rest[i] is Some;
            assert(!rx[i].rtx() && nacks[i] is Some);
        }
        if exists|i: int| 0 <= i < nacks.len() && !(#[trigger] rx[i]).rtx() && nacks[i] is Some {
            let i = choose|i: int|
                0 <= i < nacks.len() && !(#[trigger] rx[i]).rtx() && nacks[i] is Some;
            if i < last {
                assert(!rx[i].rtx() && rest[i] is Some);
            }
        }
        if !rx[last].rtx() && nacks[last] is Some {
            assert(!rx[last].rtx() && nacks[last] is Some);
        }
    }
}

} // verus!
