//! Changes to an m-line that the other side negotiates.

use super::sources::{rx_slot, with_rx};
use super::{Media, MediaModel};
use crate::codec::CodecParams;
use crate::ext::{mapped, same_mappings, Extension, Extensions};
use crate::ids::Pt;
use crate::receiver::ReceiverModel;
use crate::sdp::{MediaLine, SsrcInfo};
use crate::time::{already_happened, Instant};
use vstd::prelude::*;

verus! {

/// Whether one of the accepted codecs has that payload type.
pub open spec fn accepted_pt(params: Seq<CodecParams>, accepted: Seq<bool>, pt: Pt) -> bool {
    exists|i: int| 0 <= i < params.len() && accepted[i] && (#[trigger] params[i]).pt == pt
}

/// Codecs whose payload type one of the accepted codecs has.
pub open spec fn still_offered(params: Seq<CodecParams>, accepted: Seq<bool>) -> spec_fn(
    CodecParams,
) -> bool {
    |c: CodecParams| accepted_pt(params, accepted, c.pt)
}

/// The receivers after an SSRC was announced: there is a receiver for it, and one for the SSRC
/// that it repairs, and it knows which SSRC that is.
pub open spec fn announced_one(rx: Seq<ReceiverModel>, info: SsrcInfo) -> Seq<ReceiverModel> {
    let past = Instant { nanos: 0 };
    let repaired = match info.repair {
        Some(ssrc) => with_rx(rx, ssrc, past),
        None => rx,
    };
    let both = with_rx(repaired, info.ssrc, past);
    let k = rx_slot(repaired, info.ssrc);
    both.update(k, both[k].repairing(info.repair))
}

/// The receivers after several SSRCs were announced, one after the other.
pub open spec fn announced(rx: Seq<ReceiverModel>, infos: Seq<SsrcInfo>) -> Seq<ReceiverModel>
    decreases infos.len(),
{
    if infos.len() == 0 {
        rx
    } else {
        announced_one(announced(rx, infos.drop_last()), infos.last())
    }
}

impl MediaModel {
    /// The m-line after the other side described it anew.
    ///
    /// - The direction is the inverse of the other side's.
    /// - Samples that came in are dropped when receiving ends. Packets that go out are dropped
    ///   when sending begins, but not when it ends, to answer late requests for resends.
    /// - Codecs that are no longer offered go, and none is added.
    /// - Extensions are those that the description and the session agree on.
    /// - Receivers exist for the SSRCs that the description announces.
    pub open spec fn changed(
        self,
        m: MediaLine,
        accepted: Seq<bool>,
        session_exts: Map<u8, Extension>,
    ) -> MediaModel {
        let dir = m.dir.inverted();
        MediaModel {
            dir,
            buffers_rx: if self.dir.receiving() && !dir.receiving() {
                Seq::empty()
            } else {
                self.buffers_rx
            },
            buffers_tx: if !self.dir.sending() && dir.sending() {
                Seq::empty()
            } else {
                self.buffers_tx
            },
            params: self.params.filter(still_offered(m.rtp_params@, accepted)),
            exts: same_mappings(mapped(m.extmaps@), session_exts),
            sources_rx: announced(self.sources_rx, m.ssrc_info@),
            ..self
        }
    }
}

impl Media {
    /// Applies the other side's description of the m-line. `accepted` says of each codec of the
    /// description whether this side can handle it.
    pub fn apply_changes(&mut self, m: &MediaLine, accepted: &Vec<bool>, session_exts: &Extensions)
        requires
            accepted@.len() == m.rtp_params@.len(),
        ensures
            final(self)@ == old(self)@.changed(*m, accepted@, session_exts@),
            old(self)@.wf() ==> final(self)@.wf(),
    {
        self.change_direction(m);
        self.change_codecs(m, accepted);
        self.change_extensions(m, session_exts);
        self.change_receivers(m);
    }

    /// Directional changes.
    fn change_direction(&mut self, m: &MediaLine)
        ensures
            final(self)@ == (MediaModel {
                dir: m.dir.inverted(),
                buffers_rx: if old(self)@.dir.receiving() && !m.dir.inverted().receiving() {
                    Seq::empty()
                } else {
                    old(self)@.buffers_rx
                },
                buffers_tx: if !old(self)@.dir.sending() && m.dir.inverted().sending() {
                    Seq::empty()
                } else {
                    old(self)@.buffers_tx
                },
                ..old(self)@
            }),
            old(self)@.wf() ==> final(self)@.wf(),
    {
        // All changes come from the other side, so the direction is inverted to how it is here.
        let new_dir = m.dir.invert();
        if self.dir != new_dir {
            let was_receiving = self.dir.is_receiving();
            let was_sending = self.dir.is_sending();
            let is_receiving = new_dir.is_receiving();
            let is_sending = new_dir.is_sending();
            self.dir = new_dir;
            if was_receiving && !is_receiving {
                self.clear_receive_buffers();
            }
            if !was_sending && is_sending {
                self.clear_send_buffers();
            }
        }
    }

    /// Changes in payload types.
    fn change_codecs(&mut self, m: &MediaLine, accepted: &Vec<bool>)
        requires
            accepted@.len() == m.rtp_params@.len(),
        ensures
            final(self)@ == (MediaModel {
                params: old(self)@.params.filter(still_offered(m.rtp_params@, accepted@)),
                ..old(self)@
            }),
            old(self)@.wf() ==> final(self)@.wf(),
    {
        let ghost before = self.params@;
        let ghost keep = still_offered(m.rtp_params@, accepted@);
        let mut kept: Vec<CodecParams> = Vec::new();
        let mut i: usize = 0;
        assert(before.take(0).filter(keep) =~= Seq::empty()) by {
            reveal(Seq::filter);
        }
        while i < self.params.len()
            invariant
                i <= self.params@.len(),
                self@ == old(self)@,
                before == self.params@,
                accepted@.len() == m.rtp_params@.len(),
                keep == still_offered(m.rtp_params@, accepted@),
                kept@ == before.take(i as int).filter(keep),
            decreases self.params@.len() - i,
        {
            proof {
                reveal(Seq::filter);
                assert(before.take(i + 1).drop_last() =~= before.take(i as int));
            }
            if is_accepted(&m.rtp_params, accepted, self.params[i].pt) {
                kept.push(self.params[i]);
            }
            i = i + 1;
        }
        assert(before.take(i as int) =~= before);
        self.params = kept;
    }

    /// Changes in extensions.
    fn change_extensions(&mut self, m: &MediaLine, session_exts: &Extensions)
        ensures
            final(self)@ == (MediaModel {
                exts: same_mappings(mapped(m.extmaps@), session_exts@),
                ..old(self)@
            }),
            old(self)@.wf() ==> final(self)@.wf(),
    {
        let mut exts = Extensions::new();
        let mut i: usize = 0;
        while i < m.extmaps.len()
            invariant
                i <= m.extmaps@.len(),
                exts@ == mapped(m.extmaps@.take(i as int)),
            decreases m.extmaps@.len() - i,
        {
            exts.set_mapping(&m.extmaps[i]);
            assert(m.extmaps@.take(i + 1).drop_last() =~= m.extmaps@.take(i as int));
            i = i + 1;
        }
        assert(m.extmaps@.take(i as int) =~= m.extmaps@);
        exts.keep_same(session_exts);
        self.set_exts(exts);
    }

    /// Changes in SSRCs.
    fn change_receivers(&mut self, m: &MediaLine)
        ensures
            final(self)@ == (MediaModel {
                sources_rx: announced(old(self)@.sources_rx, m.ssrc_info@),
                ..old(self)@
            }),
            old(self)@.wf() ==> final(self)@.wf(),
    {
        let ghost before = self@;
        let ghost infos = m.ssrc_info@;
        let mut i: usize = 0;
        while i < m.ssrc_info.len()
            invariant
                i <= m.ssrc_info@.len(),
                infos == m.ssrc_info@,
                self@ == (MediaModel {
                    sources_rx: announced(before.sources_rx, infos.take(i as int)),
                    ..before
                }),
                before.wf() ==> self@.wf(),
            decreases m.ssrc_info@.len() - i,
        {
            let info = m.ssrc_info[i];
            let ghost rx = self@.sources_rx;
            if let Some(repairs) = info.repair {
                self.get_or_create_source_rx(repairs, already_happened());
                assert(self@.sources_rx =~= with_rx(rx, repairs, Instant { nanos: 0 }));
            }
            let r = self.get_or_create_source_rx(info.ssrc, already_happened());
            if let Some(repairs) = info.repair {
                if r.repairs().is_none() {
                    r.set_repairs(repairs);
                }
            }
            assert(infos.take(i + 1).drop_last() =~= infos.take(i as int));
            i = i + 1;
        }
        assert(infos.take(i as int) =~= infos);
    }
}

/// Whether one of the accepted codecs has that payload type.
fn is_accepted(params: &Vec<CodecParams>, accepted: &Vec<bool>, pt: Pt) -> (r: bool)
    requires
        accepted@.len() == params@.len(),
    ensures
        r == accepted_pt(params@, accepted@, pt),
{
    let mut i: usize = 0;
    while i < params.len()
        invariant
            i <= params@.len() == accepted@.len(),
            forall|j: int| 0 <= j < i ==> !(accepted@[j] && (#[trigger] params@[j]).pt == pt),
        decreases params@.len() - i,
    {
        if accepted[i] && params[i].pt == pt {
            assert(params@[i as int].pt == pt);
            return true;
        }
        i = i + 1;
    }
    false
}

} // verus!
