//! RTCP feedback: what goes out and what comes in.

use super::sources::{lemma_rx_index, lemma_tx_index, position_rx, position_tx, rx_index, tx_index};
use super::{has_rx, has_tx, Media, MediaKind, MediaModel};
use crate::error::RtcError;
use crate::ids::{Rid, Ssrc};
use crate::receiver::ReceiverModel;
use crate::rtcp::{
    feedback_model, lemma_feedback_push, Fir, FirEntry, KeyframeRequestKind, Pli, ReceiverReport,
    Rtcp, RtcpFb, RtcpModel, Sdes, SdesModel, SdesType, SenderReport,
};
use crate::search::{first, first_from};
use crate::sender::SenderSource;
use crate::time::{rr_interval, Instant};
use std::collections::VecDeque;
use vstd::prelude::*;

verus! {

/// Receivers of that encoding that do not get resends.
pub open spec fn main_rx(rid: Option<Rid>) -> spec_fn(ReceiverModel) -> bool {
    |s: ReceiverModel| s.rid == rid && !s.rtx()
}

/// Feedback other than the reports that are made anew at regular intervals.
pub open spec fn lasting() -> spec_fn(RtcpModel) -> bool {
    |r: RtcpModel| !r.is_report()
}

/// The reports of the senders: of each a sender report and its description.
pub open spec fn sender_feedback(
    tx: Seq<SenderSource>,
    reports: Seq<SenderReport>,
    cname: Seq<char>,
) -> Seq<RtcpModel> {
    Seq::new(
        2 * tx.len(),
        |i: int|
            if i % 2 == 0 {
                RtcpModel::SenderReport(reports[i / 2])
            } else {
                RtcpModel::SourceDescription(
                    SdesModel { ssrc: tx[i / 2].ssrc, values: seq![(SdesType::CNAME, cname)] },
                )
            },
    )
}

/// The reports of the receivers, in the name of `sender_ssrc`.
pub open spec fn receiver_feedback(reports: Seq<ReceiverReport>, sender_ssrc: Ssrc) -> Seq<
    RtcpModel,
> {
    Seq::new(
        reports.len(),
        |i: int| RtcpModel::ReceiverReport(ReceiverReport { sender_ssrc, ..reports[i] }),
    )
}

/// What the receivers report lost. Those that get resends report nothing.
pub open spec fn lost_feedback(rx: Seq<ReceiverModel>, nacks: Seq<Option<Rtcp>>) -> Seq<RtcpModel>
    recommends
        rx.len() == nacks.len(),
    decreases nacks.len(),
{
    if nacks.len() == 0 {
        Seq::empty()
    } else {
        let i = nacks.len() - 1;
        let rest = lost_feedback(rx, nacks.drop_last());
        match nacks[i] {
            Some(n) if !rx[i].rtx() => rest.push(n@),
            _ => rest,
        }
    }
}

/// Whether a description holds a value of that kind.
pub open spec fn describes(d: Sdes, kind: SdesType) -> bool {
    exists|i: int| 0 <= i < d.values@.len() && (#[trigger] d.values@[i]).0 == kind
}

impl MediaModel {
    /// The SSRC in whose name receivers report: that of the first sender.
    pub open spec fn feedback_ssrc(self) -> Ssrc
        recommends
            self.sources_tx.len() > 0,
    {
        self.sources_tx[0].ssrc
    }

    /// Whether regular feedback is made at `now`: it is due, and there is a sender. Feedback is
    /// encrypted under the SSRC of a sender, so that without one none is possible.
    pub open spec fn makes_feedback(self, now: Instant) -> bool {
        now.nanos >= self.regular_feedback_nanos() && self.sources_tx.len() > 0
    }

    /// The m-line after feedback for a receiver came in.
    pub open spec fn told_rx(self, now: Instant, fb: RtcpFb) -> MediaModel {
        match (rx_index(self.sources_rx, fb.about()), fb) {
            (Some(i), RtcpFb::SenderInfo(v)) => MediaModel {
                sources_rx: self.sources_rx.update(
                    i,
                    ReceiverModel {
                        sender_info: Some(v),
                        sender_info_at: Some(now),
                        ..self.sources_rx[i]
                    },
                ),
                ..self
            },
            _ => self,
        }
    }

    /// Whether feedback for a receiver is taken up: the receiver exists, and the feedback is not a
    /// description with a CNAME.
    pub open spec fn takes_rx(self, fb: RtcpFb) -> bool {
        &&& has_rx(self.sources_rx, fb.about())
        &&& fb matches RtcpFb::SourceDescription(d) ==> !describes(d, SdesType::CNAME)
    }

    /// The m-line after feedback for a sender came in.
    pub open spec fn told_tx(self, fb: RtcpFb) -> MediaModel {
        match (tx_index(self.sources_tx, fb.about()), fb) {
            (Some(_), RtcpFb::Nack(ssrc, lost)) => self.nacked(ssrc, lost@),
            (Some(i), RtcpFb::Pli(_)) => MediaModel {
                keyframe_request_rx: Some((self.sources_tx[i].rid, KeyframeRequestKind::Pli)),
                ..self
            },
            (Some(i), RtcpFb::Fir(_)) => MediaModel {
                keyframe_request_rx: Some((self.sources_tx[i].rid, KeyframeRequestKind::Fir)),
                ..self
            },
            _ => self,
        }
    }

    /// Whether feedback for a sender is taken up: the sender exists, and packets that are reported
    /// lost can be looked for.
    pub open spec fn takes_tx(self, fb: RtcpFb) -> bool {
        &&& has_tx(self.sources_tx, fb.about())
        &&& fb matches RtcpFb::Nack(ssrc, _) ==> self.nack_reference(ssrc) is Some
    }

    /// The m-line after feedback came in, which is either for a receiver or for a sender.
    pub open spec fn told(self, now: Instant, fb: RtcpFb) -> MediaModel {
        if fb.for_rx() {
            self.told_rx(now, fb)
        } else {
            self.told_tx(fb)
        }
    }

    /// Whether feedback is taken up.
    pub open spec fn takes(self, fb: RtcpFb) -> bool {
        if fb.for_rx() {
            self.takes_rx(fb)
        } else {
            self.takes_tx(fb)
        }
    }

    /// The m-line after the keyframe that it wants was asked for.
    pub open spec fn keyframe_requested(self) -> MediaModel {
        let asked = MediaModel { keyframe_request_tx: None, ..self };
        match self.keyframe_request_tx {
            Some((ssrc, KeyframeRequestKind::Fir)) => {
                let i = rx_index(self.sources_rx, ssrc)->0;
                MediaModel {
                    sources_rx: self.sources_rx.update(i, self.sources_rx[i].fir_requested()),
                    ..asked
                }
            },
            _ => asked,
        }
    }

    /// The request for the keyframe that the m-line wants.
    pub open spec fn keyframe_feedback(self) -> Seq<RtcpModel> {
        match self.keyframe_request_tx {
            Some((ssrc, KeyframeRequestKind::Pli)) => seq![RtcpModel::Pli(Pli { ssrc })],
            Some((ssrc, KeyframeRequestKind::Fir)) => seq![
                RtcpModel::Fir(
                    seq![
                        FirEntry {
                            ssrc,
                            seq_no: self.sources_rx[rx_index(self.sources_rx, ssrc)->0].fir_seq_no,
                        },
                    ],
                ),
            ],
            None => Seq::empty(),
        }
    }

    /// The regular feedback, with the reports of senders and receivers.
    pub open spec fn regular_feedback(
        self,
        sender_reports: Seq<SenderReport>,
        receiver_reports: Seq<ReceiverReport>,
    ) -> Seq<RtcpModel> {
        sender_feedback(self.sources_tx, sender_reports, self.cname) + receiver_feedback(
            receiver_reports,
            self.feedback_ssrc(),
        )
    }
}

impl Media {
    /// Asks for a keyframe of an encoding. The request goes out with the next
    /// [`Media::maybe_create_keyframe_request`].
    pub fn request_keyframe(&mut self, rid: Option<Rid>, kind: KeyframeRequestKind) -> (r: Result<
        (),
        RtcError,
    >)
        ensures
            match first(old(self)@.sources_rx, main_rx(rid)) {
                Some(i) => {
                    &&& r is Ok
                    &&& final(self)@ == (MediaModel {
                        keyframe_request_tx: Some((old(self)@.sources_rx[i].ssrc, kind)),
                        ..old(self)@
                    })
                },
                None => r == Err::<(), RtcError>(RtcError::NoReceiverSource) && final(self)@
                    == old(self)@,
            },
            old(self)@.wf() ==> final(self)@.wf(),
    {
        let mut i: usize = 0;
        while i < self.sources_rx.len()
            invariant
                i <= self.sources_rx@.len(),
                self@ == old(self)@,
                first(self@.sources_rx, main_rx(rid)) == first_from(
                    self@.sources_rx,
                    main_rx(rid),
                    i as int,
                ),
            decreases self.sources_rx@.len() - i,
        {
            if self.sources_rx[i].rid() == rid && !self.sources_rx[i].is_rtx() {
                self.keyframe_request_tx = Some((self.sources_rx[i].ssrc(), kind));
                assert(has_rx(self@.sources_rx, self@.sources_rx[i as int].ssrc));
                return Ok(());
            }
            i = i + 1;
        }
        Err(RtcError::NoReceiverSource)
    }

    /// Asks the other side for the keyframe that the m-line wants, if it wants one.
    pub fn maybe_create_keyframe_request(&mut self, feedback: &mut VecDeque<Rtcp>)
        requires
            old(self)@.fir_has_receiver(),
        ensures
            feedback_model(final(feedback)@) == feedback_model(old(feedback)@)
                + old(self)@.keyframe_feedback(),
            final(self)@ == old(self)@.keyframe_requested(),
            old(self)@.wf() ==> final(self)@.wf(),
    {
        let ghost m = self@;
        let (ssrc, kind) = match self.keyframe_request_tx.take() {
            Some(v) => v,
            None => {
                assert(feedback_model(feedback@) + m.keyframe_feedback() =~= feedback_model(
                    feedback@,
                ));
                return ;
            },
        };
        match kind {
            KeyframeRequestKind::Pli => {
                feedback.push_back(Rtcp::Pli(Pli { ssrc }));
            },
            KeyframeRequestKind::Fir => {
                proof {
                    lemma_rx_index(m.sources_rx, ssrc);
                }
                let i: usize = position_rx(&self.sources_rx, ssrc).unwrap();
                let seq_no: u8 = self.sources_rx[i].next_fir_seq_no();
                let mut reports: Vec<FirEntry> = Vec::new();
                reports.push(FirEntry { ssrc, seq_no });
                assert(reports@ =~= seq![FirEntry { ssrc, seq_no }]);
                feedback.push_back(Rtcp::Fir(Fir { reports }));
                proof {
                    if m.wf() {
                        lemma_same_ssrcs_wf(m, self@.sources_rx);
                    }
                }
            },
        }
        assert(feedback_model(feedback@) =~= feedback_model(old(feedback)@)
            + m.keyframe_feedback());
    }

    /// Whether [`Media::maybe_create_regular_feedback`] makes feedback at `now`: it is due, and
    /// there is a sender.
    pub fn makes_regular_feedback(&self, now: Instant) -> (r: bool)
        ensures
            r == self@.makes_feedback(now),
    {
        let interval = rr_interval(self.kind == MediaKind::Audio);
        self.sources_tx.len() > 0 && now.nanos >= self.last_regular_feedback.nanos && now.nanos
            - self.last_regular_feedback.nanos >= interval.nanos
    }

    /// Makes the reports of all senders and receivers, if they are due. `sender_reports` and
    /// `receiver_reports` are what the senders and receivers report, in their order; they are
    /// only looked at if the feedback is due and there are senders.
    ///
    /// Without senders no feedback is made: it could not be encrypted, as the key depends on the
    /// SSRC of a sender.
    pub fn maybe_create_regular_feedback(
        &mut self,
        now: Instant,
        feedback: &mut VecDeque<Rtcp>,
        sender_reports: Vec<SenderReport>,
        receiver_reports: Vec<ReceiverReport>,
    ) -> (r: Option<()>)
        requires
            old(self)@.makes_feedback(now) ==> sender_reports@.len() == old(self)@.sources_tx.len()
                && receiver_reports@.len() == old(self)@.sources_rx.len(),
        ensures
            r is Some <==> old(self)@.makes_feedback(now),
            r is None ==> final(self)@ == old(self)@ && final(feedback)@ == old(feedback)@,
            r is Some ==> {
                &&& final(self)@ == (MediaModel { last_regular_feedback: now, ..old(self)@ })
                &&& feedback_model(final(feedback)@) == feedback_model(old(feedback)@).filter(
                    lasting(),
                ) + old(self)@.regular_feedback(sender_reports@, receiver_reports@)
            },
            old(self)@.wf() ==> final(self)@.wf(),
    {
        let ghost m = self@;
        if !self.makes_regular_feedback(now) {
            return None;
        }
        let first_ssrc = self.sources_tx[0].ssrc;
        retain_lasting(feedback);
        let ghost kept = feedback_model(feedback@);
        let ghost srs = sender_feedback(m.sources_tx, sender_reports@, m.cname);
        let mut i: usize = 0;
        while i < self.sources_tx.len()
            invariant
                self@ == m,
                i <= m.sources_tx.len() == sender_reports@.len(),
                srs == sender_feedback(m.sources_tx, sender_reports@, m.cname),
                feedback_model(feedback@) == kept + srs.take(2 * i),
            decreases self.sources_tx@.len() - i,
        {
            let ghost so_far = feedback@;
            let sr = sender_reports[i];
            let ds = self.sources_tx[i].create_sdes(&self.cname);
            proof {
                lemma_feedback_push(so_far, Rtcp::SenderReport(sr));
                lemma_feedback_push(
                    so_far.push(Rtcp::SenderReport(sr)),
                    Rtcp::SourceDescription(ds),
                );
            }
            feedback.push_back(Rtcp::SenderReport(sr));
            feedback.push_back(Rtcp::SourceDescription(ds));
            assert(srs[2 * i] == RtcpModel::SenderReport(sr));
            assert(srs[2 * i + 1] == RtcpModel::SourceDescription(ds@));
            assert(feedback_model(feedback@) =~= kept + srs.take(2 * (i + 1)));
            i = i + 1;
        }
        assert(srs.take(2 * i) =~= srs);
        let ghost rrs = receiver_feedback(receiver_reports@, first_ssrc);
        let mut j: usize = 0;
        while j < receiver_reports.len()
            invariant
                j <= receiver_reports@.len(),
                rrs == receiver_feedback(receiver_reports@, first_ssrc),
                feedback_model(feedback@) == kept + srs + rrs.take(j as int),
            decreases receiver_reports@.len() - j,
        {
            let mut rr = receiver_reports[j];
            rr.sender_ssrc = first_ssrc;
            proof {
                lemma_feedback_push(feedback@, Rtcp::ReceiverReport(rr));
            }
            feedback.push_back(Rtcp::ReceiverReport(rr));
            assert(feedback_model(feedback@) =~= kept + srs + rrs.take(j + 1));
            j = j + 1;
        }
        assert(rrs.take(j as int) =~= rrs);
        assert(kept + srs + rrs =~= kept + m.regular_feedback(sender_reports@, receiver_reports@));
        self.last_regular_feedback = now;
        Some(())
    }

    /// Whether a receiver has lost packets to report, where `lost` says of each receiver whether
    /// it has. Receivers of resends do not count.
    pub fn has_nack(&self, lost: &Vec<bool>) -> (r: bool)
        requires
            lost@.len() == self@.sources_rx.len(),
        ensures
            r == exists|i: int|
                0 <= i < lost@.len() && !(#[trigger] self@.sources_rx[i]).rtx() && lost@[i],
    {
        let mut i: usize = 0;
        while i < self.sources_rx.len()
            invariant
                i <= self.sources_rx@.len() == lost@.len(),
                forall|j: int|
                    0 <= j < i ==> (#[trigger] self@.sources_rx[j]).rtx() || !lost@[j],
            decreases self.sources_rx@.len() - i,
        {
            if !self.sources_rx[i].is_rtx() && lost[i] {
                assert(!self@.sources_rx[i as int].rtx() && lost@[i as int]);
                return true;
            }
            i = i + 1;
        }
        false
    }

    /// Reports lost packets, where `nacks` holds what each receiver has to report. Receivers of
    /// resends report nothing.
    pub fn create_nack(&self, feedback: &mut VecDeque<Rtcp>, nacks: Vec<Option<Rtcp>>)
        requires
            nacks@.len() == self@.sources_rx.len(),
        ensures
            feedback_model(final(feedback)@) == feedback_model(old(feedback)@) + lost_feedback(
                self@.sources_rx,
                nacks@,
            ),
    {
        let ghost before = feedback_model(feedback@);
        let ghost rx = self@.sources_rx;
        let n: usize = nacks.len();
        let mut i: usize = 0;
        assert(before + lost_feedback(rx, nacks@.take(0)) =~= before);
        for nack in it: nacks
            invariant
                it.seq() == nacks@,
                i == it.index(),
                rx == self@.sources_rx,
                n == nacks@.len() == rx.len(),
                feedback_model(feedback@) == before + lost_feedback(rx, nacks@.take(i as int)),
        {
            let ghost lost = lost_feedback(rx, nacks@.take(i as int));
            assert(nacks@.take(i + 1).drop_last() =~= nacks@.take(i as int));
            assert(nacks@.take(i + 1).last() == nack);
            if !self.sources_rx[i].is_rtx() {
                if let Some(n) = nack {
                    proof {
                        lemma_feedback_push(feedback@, n);
                        assert(before + lost.push(n@) =~= (before + lost).push(n@));
                    }
                    feedback.push_back(n);
                }
            }
            i = i + 1;
        }
        assert(nacks@.take(i as int) =~= nacks@);
    }

    /// Applies feedback that came in.
    pub fn handle_rtcp_fb(&mut self, now: Instant, fb: RtcpFb) -> (r: Option<()>)
        requires
            !(fb is Twcc && has_tx(old(self)@.sources_tx, fb.about())),
        ensures
            r is Some <==> old(self)@.takes(fb),
            final(self)@ == old(self)@.told(now, fb),
            old(self)@.wf() ==> final(self)@.wf(),
    {
        if fb.is_for_rx() {
            self.handle_rtcp_fb_rx(now, fb)
        } else {
            self.handle_rtcp_fb_tx(now, fb)
        }
    }

    /// Applies feedback about something that this side receives.
    pub fn handle_rtcp_fb_rx(&mut self, now: Instant, fb: RtcpFb) -> (r: Option<()>)
        ensures
            r is Some <==> old(self)@.takes_rx(fb),
            final(self)@ == old(self)@.told_rx(now, fb),
            old(self)@.wf() ==> final(self)@.wf(),
    {
        let ghost m = self@;
        let ssrc = fb.ssrc();
        proof {
            lemma_rx_index(m.sources_rx, ssrc);
        }
        let i: usize = match position_rx(&self.sources_rx, ssrc) {
            Some(i) => i,
            None => {
                return None;
            },
        };
        match fb {
            RtcpFb::SenderInfo(v) => {
                self.sources_rx[i].set_sender_info(now, v);
                proof {
                    if m.wf() {
                        lemma_same_ssrcs_wf(m, self@.sources_rx);
                    }
                }
            },
            RtcpFb::SourceDescription(v) => {
                let mut k: usize = 0;
                while k < v.values.len()
                    invariant
                        k <= v.values@.len(),
                        self@ == m,
                        m == old(self)@,
                        fb == RtcpFb::SourceDescription(v),
                        m.told_rx(now, fb) == m,
                        forall|j: int|
                            0 <= j < k ==> (#[trigger] v.values@[j]).0 != SdesType::CNAME,
                    decreases v.values@.len() - k,
                {
                    if v.values[k].0 == SdesType::CNAME {
                        assert(describes(v, SdesType::CNAME));
                        return None;
                    }
                    k = k + 1;
                }
                assert(!describes(v, SdesType::CNAME));
            },
            _ => {},
        }
        Some(())
    }

    /// Applies feedback about something that this side sends.
    pub fn handle_rtcp_fb_tx(&mut self, _now: Instant, fb: RtcpFb) -> (r: Option<()>)
        requires
            !(fb is Twcc && has_tx(old(self)@.sources_tx, fb.about())),
        ensures
            r is Some <==> old(self)@.takes_tx(fb),
            final(self)@ == old(self)@.told_tx(fb),
            old(self)@.wf() ==> final(self)@.wf(),
    {
        let ssrc = fb.ssrc();
        proof {
            lemma_tx_index(self@.sources_tx, ssrc);
        }
        let i: usize = match position_tx(&self.sources_tx, ssrc) {
            Some(i) => i,
            None => {
                return None;
            },
        };
        let rid = self.sources_tx[i].rid;
        match fb {
            RtcpFb::Nack(ssrc, lost) => {
                return self.handle_nack(ssrc, lost);
            },
            RtcpFb::Pli(_) => {
                self.keyframe_request_rx = Some((rid, KeyframeRequestKind::Pli));
            },
            RtcpFb::Fir(_) => {
                self.keyframe_request_rx = Some((rid, KeyframeRequestKind::Fir));
            },
            _ => {},
        }
        Some(())
    }
}

/// A change of receivers that leaves each its SSRC keeps the invariant.
proof fn lemma_same_ssrcs_wf(m: MediaModel, rx: Seq<ReceiverModel>)
    requires
        m.wf(),
        rx.len() == m.sources_rx.len(),
        forall|i: int| 0 <= i < rx.len() ==> (#[trigger] rx[i]).ssrc == m.sources_rx[i].ssrc,
    ensures
        (MediaModel { sources_rx: rx, ..m }).wf(),
        (MediaModel { sources_rx: rx, keyframe_request_tx: None, ..m }).wf(),
{
    assert forall|i: int, j: int| 0 <= i < j < rx.len() implies rx[i].ssrc != rx[j].ssrc by {
        assert(m.sources_rx[i].ssrc != m.sources_rx[j].ssrc);
    }
    if let Some((ssrc, KeyframeRequestKind::Fir)) = m.keyframe_request_tx {
        let i = choose|i: int| 0 <= i < m.sources_rx.len() && #[trigger] m.sources_rx[i].ssrc
            == ssrc;
        assert(rx[i].ssrc == ssrc);
    }
}

/// Drops the reports that are made anew at regular intervals from a queue of feedback.
fn retain_lasting(feedback: &mut VecDeque<Rtcp>)
    ensures
        feedback_model(final(feedback)@) == feedback_model(old(feedback)@).filter(lasting()),
{
    let ghost before = feedback@;
    let ghost models = feedback_model(before);
    let n: usize = feedback.len();
    let mut kept: VecDeque<Rtcp> = VecDeque::new();
    let mut i: usize = 0;
    assert(models.take(0).filter(lasting()) =~= Seq::empty()) by {
        reveal(Seq::filter);
    }
    while i < n
        invariant
            i <= n == before.len(),
            models == feedback_model(before),
            feedback@ == before.skip(i as int),
            feedback_model(kept@) == models.take(i as int).filter(lasting()),
        decreases n - i,
    {
        let r = feedback.pop_front().unwrap();
        assert(feedback@ =~= before.skip(i + 1));
        assert(models.take(i + 1).drop_last() =~= models.take(i as int));
        proof {
            reveal(Seq::filter);
        }
        let report = match r {
            Rtcp::SenderReport(_) | Rtcp::ReceiverReport(_) => true,
            _ => false,
        };
        if !report {
            kept.push_back(r);
        }
        assert(feedback_model(kept@) =~= models.take(i + 1).filter(lasting()));
        i = i + 1;
    }
    assert(models.take(n as int) =~= models);
    *feedback = kept;
}

} // verus!
