//! The senders and receivers of an m-line.

use super::{has_rx, has_tx, Media, MediaModel};
use crate::header::RtpHeader;
use crate::ids::{Rid, Ssrc};
use crate::receiver::{receivers_model, ReceiverModel, ReceiverSource};
use crate::rtcp::KeyframeRequestKind;
use crate::search::{first, first_from, lemma_first};
use crate::sender::SenderSource;
use crate::time::Instant;
use vstd::prelude::*;

verus! {

/// Receivers with that SSRC.
pub open spec fn rx_under(ssrc: Ssrc) -> spec_fn(ReceiverModel) -> bool {
    |s: ReceiverModel| s.ssrc == ssrc
}

/// Receivers of that encoding.
pub open spec fn rx_of(rid: Rid) -> spec_fn(ReceiverModel) -> bool {
    |s: ReceiverModel| s.rid == Some(rid)
}

/// Senders with that SSRC.
pub open spec fn tx_under(ssrc: Ssrc) -> spec_fn(SenderSource) -> bool {
    |s: SenderSource| s.ssrc == ssrc
}

/// Senders of that encoding, either those that resend or those that do not.
pub open spec fn tx_for(rid: Option<Rid>, is_rtx: bool) -> spec_fn(SenderSource) -> bool {
    |s: SenderSource| s.rid == rid && is_rtx == s.repairs is Some
}

/// The index of the receiver of an SSRC.
pub open spec fn rx_index(rx: Seq<ReceiverModel>, ssrc: Ssrc) -> Option<int> {
    first(rx, rx_under(ssrc))
}

/// The index of the sender of an SSRC.
pub open spec fn tx_index(tx: Seq<SenderSource>, ssrc: Ssrc) -> Option<int> {
    first(tx, tx_under(ssrc))
}

/// The SSRC whose packets the receiver of `ssrc` gets resends of.
pub open spec fn repairs_of(rx: Seq<ReceiverModel>, ssrc: Ssrc) -> Option<Ssrc> {
    match rx_index(rx, ssrc) {
        Some(i) => rx[i].repairs,
        None => None,
    }
}

/// The receivers with one for `ssrc` among them: a new one comes last.
pub open spec fn with_rx(rx: Seq<ReceiverModel>, ssrc: Ssrc, now: Instant) -> Seq<
    ReceiverModel,
> {
    if has_rx(rx, ssrc) {
        rx
    } else {
        rx.push(ReceiverModel::fresh(ssrc, now))
    }
}

/// The index of the receiver of `ssrc`, or where a new one would come.
pub open spec fn rx_slot(rx: Seq<ReceiverModel>, ssrc: Ssrc) -> int {
    match rx_index(rx, ssrc) {
        Some(i) => i,
        None => rx.len() as int,
    }
}

/// The senders with one for `ssrc` among them: a new one comes last.
pub open spec fn with_tx(tx: Seq<SenderSource>, ssrc: Ssrc) -> Seq<SenderSource> {
    if has_tx(tx, ssrc) {
        tx
    } else {
        tx.push(SenderSource::fresh(ssrc))
    }
}

/// The index of the sender of `ssrc`, or where a new one would come.
pub open spec fn tx_slot(tx: Seq<SenderSource>, ssrc: Ssrc) -> int {
    match tx_index(tx, ssrc) {
        Some(i) => i,
        None => tx.len() as int,
    }
}

/// The senders after `ssrc` was added, which resends the packets of `repairs`.
pub open spec fn added_tx(tx: Seq<SenderSource>, ssrc: Ssrc, repairs: Option<Ssrc>) -> Seq<
    SenderSource,
> {
    let k = tx_slot(tx, ssrc);
    with_tx(tx, ssrc).update(k, with_tx(tx, ssrc)[k].repairing(repairs))
}

/// The SSRC whose packets are repaired, as the header of a resend tells it by its encoding.
pub open spec fn repaired_ssrc(rx: Seq<ReceiverModel>, rid_repair: Option<Rid>) -> Option<Ssrc> {
    match rid_repair {
        Some(id) => match first(rx, rx_of(id)) {
            Some(i) => Some(rx[i].ssrc),
            None => None,
        },
        None => None,
    }
}

/// The receiver of a packet after it has learned what the packet's header tells.
pub open spec fn informed_rx(
    s: ReceiverModel,
    rx: Seq<ReceiverModel>,
    header: RtpHeader,
) -> ReceiverModel {
    s.repairing(repaired_ssrc(rx, header.ext_vals.rid_repair)).encoding(header.ext_vals.rid)
}

/// An index as a mathematical one.
pub open spec fn as_index(i: Option<usize>) -> Option<int> {
    match i {
        Some(i) => Some(i as int),
        None => None,
    }
}

/// Whether a receiver exists is whether it can be found.
pub proof fn lemma_rx_index(rx: Seq<ReceiverModel>, ssrc: Ssrc)
    ensures
        has_rx(rx, ssrc) <==> rx_index(rx, ssrc) is Some,
        rx_index(rx, ssrc) matches Some(i) ==> 0 <= i < rx.len() && rx[i].ssrc == ssrc,
{
    lemma_first(rx, rx_under(ssrc));
    if has_rx(rx, ssrc) {
        let i = choose|i: int| 0 <= i < rx.len() && #[trigger] rx[i].ssrc == ssrc;
        assert(rx_under(ssrc)(rx[i]));
    }
}

/// Whether a sender exists is whether it can be found.
pub proof fn lemma_tx_index(tx: Seq<SenderSource>, ssrc: Ssrc)
    ensures
        has_tx(tx, ssrc) <==> tx_index(tx, ssrc) is Some,
        tx_index(tx, ssrc) matches Some(i) ==> 0 <= i < tx.len() && tx[i].ssrc == ssrc,
{
    lemma_first(tx, tx_under(ssrc));
    if has_tx(tx, ssrc) {
        let i = choose|i: int| 0 <= i < tx.len() && #[trigger] tx[i].ssrc == ssrc;
        assert(tx_under(ssrc)(tx[i]));
    }
}

/// Where the receiver of `ssrc` is.
pub(crate) fn position_rx(rx: &Vec<ReceiverSource>, ssrc: Ssrc) -> (r: Option<usize>)
    ensures
        as_index(r) == rx_index(receivers_model(rx@), ssrc),
        r matches Some(i) ==> i < rx@.len(),
{
    let ghost all = receivers_model(rx@);
    let mut i: usize = 0;
    while i < rx.len()
        invariant
            i <= rx@.len(),
            all == receivers_model(rx@),
            rx_index(all, ssrc) == first_from(all, rx_under(ssrc), i as int),
        decreases rx@.len() - i,
    {
        if rx[i].ssrc() == ssrc {
            return Some(i);
        }
        i = i + 1;
    }
    None
}

/// Where the sender of `ssrc` is.
pub(crate) fn position_tx(tx: &Vec<SenderSource>, ssrc: Ssrc) -> (r: Option<usize>)
    ensures
        as_index(r) == tx_index(tx@, ssrc),
{
    let mut i: usize = 0;
    while i < tx.len()
        invariant
            i <= tx@.len(),
            tx_index(tx@, ssrc) == first_from(tx@, tx_under(ssrc), i as int),
        decreases tx@.len() - i,
    {
        if tx[i].ssrc == ssrc {
            return Some(i);
        }
        i = i + 1;
    }
    None
}

/// Where the sender of an encoding is: the one that resends, or the one that does not.
pub(crate) fn position_source_tx(
    sources_tx: &Vec<SenderSource>,
    rid: Option<Rid>,
    is_rtx: bool,
) -> (r: Option<usize>)
    ensures
        as_index(r) == first(sources_tx@, tx_for(rid, is_rtx)),
        r matches Some(i) ==> i < sources_tx@.len(),
{
    let ghost p = tx_for(rid, is_rtx);
    let mut i: usize = 0;
    while i < sources_tx.len()
        invariant
            i <= sources_tx@.len(),
            p == tx_for(rid, is_rtx),
            first(sources_tx@, p) == first_from(sources_tx@, p, i as int),
        decreases sources_tx@.len() - i,
    {
        if sources_tx[i].rid == rid && is_rtx == sources_tx[i].repairs.is_some() {
            return Some(i);
        }
        i = i + 1;
    }
    None
}

/// The sender of an encoding: the one that resends, or the one that does not.
pub(crate) fn get_source_tx(
    sources_tx: &mut Vec<SenderSource>,
    rid: Option<Rid>,
    is_rtx: bool,
) -> (r: Option<&mut SenderSource>)
    ensures
        match (r, first(old(sources_tx)@, tx_for(rid, is_rtx))) {
            (Some(s), Some(k)) => {
                &&& 0 <= k < old(sources_tx)@.len()
                &&& *s == old(sources_tx)@[k]
                &&& final(sources_tx)@ == old(sources_tx)@.update(k, *final(s))
            },
            (None, None) => final(sources_tx)@ == old(sources_tx)@,
            _ => false,
        },
{
    match position_source_tx(sources_tx, rid, is_rtx) {
        Some(i) => Some(&mut sources_tx[i]),
        None => None,
    }
}

impl Media {
    /// Whether there is a receiver with that SSRC.
    pub fn has_ssrc_rx(&self, ssrc: Ssrc) -> (r: bool)
        ensures
            r == has_rx(self@.sources_rx, ssrc),
    {
        proof {
            lemma_rx_index(self@.sources_rx, ssrc);
        }
        position_rx(&self.sources_rx, ssrc).is_some()
    }

    /// Whether there is a sender with that SSRC.
    pub fn has_ssrc_tx(&self, ssrc: Ssrc) -> (r: bool)
        ensures
            r == has_tx(self@.sources_tx, ssrc),
    {
        proof {
            lemma_tx_index(self.sources_tx@, ssrc);
        }
        position_tx(&self.sources_tx, ssrc).is_some()
    }

    /// The SSRC whose packets the receiver with the SSRC `ssrc` gets resends of.
    pub fn get_repaired_rx_ssrc(&self, ssrc: Ssrc) -> (r: Option<Ssrc>)
        ensures
            r == repairs_of(self@.sources_rx, ssrc),
    {
        proof {
            lemma_rx_index(self@.sources_rx, ssrc);
        }
        match position_rx(&self.sources_rx, ssrc) {
            Some(i) => self.sources_rx[i].repairs(),
            None => None,
        }
    }

    /// The sender that was added first.
    pub fn first_source_tx(&self) -> (r: Option<&SenderSource>)
        ensures
            match r {
                Some(s) => self@.sources_tx.len() > 0 && *s == self@.sources_tx[0],
                None => self@.sources_tx.len() == 0,
            },
    {
        if self.sources_tx.len() == 0 {
            None
        } else {
            Some(&self.sources_tx[0])
        }
    }

    /// The SSRCs of the senders, in the order in which they were added.
    pub fn source_tx_ssrcs(&self) -> (r: Vec<Ssrc>)
        ensures
            r@ == Seq::new(self@.sources_tx.len(), |i: int| self@.sources_tx[i].ssrc),
    {
        let mut r: Vec<Ssrc> = Vec::new();
        let mut i: usize = 0;
        while i < self.sources_tx.len()
            invariant
                i <= self.sources_tx@.len(),
                r@ == Seq::new(i as nat, |j: int| self.sources_tx@[j].ssrc),
            decreases self.sources_tx@.len() - i,
        {
            r.push(self.sources_tx[i].ssrc);
            i = i + 1;
        }
        r
    }

    /// The senders, in the order in which they were added.
    pub fn sources_tx(&self) -> (r: &[SenderSource])
        ensures
            r@ == self@.sources_tx,
    {
        self.sources_tx.as_slice()
    }

    /// The receivers, in the order in which they came up.
    pub fn sources_rx(&self) -> (r: &[ReceiverSource])
        ensures
            receivers_model(r@) == self@.sources_rx,
    {
        self.sources_rx.as_slice()
    }

    /// The receiver with that SSRC, which is created where there is none.
    pub fn get_or_create_source_rx(&mut self, ssrc: Ssrc, now: Instant) -> (r: &mut ReceiverSource)
        ensures
            ({
                let rx = with_rx(old(self)@.sources_rx, ssrc, now);
                let k = rx_slot(old(self)@.sources_rx, ssrc);
                &&& 0 <= k < rx.len()
                &&& r@ == rx[k]
                &&& r@.ssrc == ssrc
                &&& final(self)@ == (MediaModel {
                    sources_rx: rx.update(k, final(r)@),
                    ..old(self)@
                })
            }),
            old(self)@.wf() && final(r)@.ssrc == ssrc ==> final(self)@.wf(),
    {
        let ghost m = self@;
        let ghost rx = with_rx(m.sources_rx, ssrc, now);
        proof {
            lemma_rx_index(m.sources_rx, ssrc);
            if m.wf() {
                lemma_with_rx_wf(m, ssrc, now);
            }
        }
        let idx: usize = match position_rx(&self.sources_rx, ssrc) {
            Some(idx) => idx,
            None => {
                self.sources_rx.push(ReceiverSource::new(ssrc, now));
                self.sources_rx.len() - 1
            },
        };
        let ghost all = self.sources_rx@;
        assert(receivers_model(all) =~= rx);
        let r = &mut self.sources_rx[idx];
        assert(receivers_model(all.update(idx as int, *final(r))) =~= rx.update(
            idx as int,
            final(r)@,
        ));
        r
    }

    /// The receiver of a packet with that header, which is created where there is none. If
    /// `do_update_receivers`, it learns from the header which encoding it receives and which SSRC
    /// it repairs, unless it knows already.
    pub fn get_source_rx(
        &mut self,
        header: &RtpHeader,
        now: Instant,
        do_update_receivers: bool,
    ) -> (r: &mut ReceiverSource)
        ensures
            ({
                let rx = with_rx(old(self)@.sources_rx, header.ssrc, now);
                let k = rx_slot(old(self)@.sources_rx, header.ssrc);
                &&& 0 <= k < rx.len()
                &&& rx[k].ssrc == header.ssrc
                &&& r@ == if do_update_receivers {
                    informed_rx(rx[k], old(self)@.sources_rx, *header)
                } else {
                    rx[k]
                }
                &&& final(self)@ == (MediaModel {
                    sources_rx: rx.update(k, final(r)@),
                    ..old(self)@
                })
            }),
            old(self)@.wf() && final(r)@.ssrc == header.ssrc ==> final(self)@.wf(),
    {
        let repairs_ssrc = if do_update_receivers {
            match header.ext_vals.rid_repair {
                Some(id) => self.ssrc_of_rid(id),
                None => None,
            }
        } else {
            None
        };

        let source = self.get_or_create_source_rx(header.ssrc, now);

        if do_update_receivers {
            if let Some(repairs) = repairs_ssrc {
                if source.repairs().is_none() {
                    source.set_repairs(repairs);
                }
            }
            if let Some(rid) = header.ext_vals.rid {
                if source.rid().is_none() {
                    source.set_rid(rid);
                }
            }
        }
        source
    }

    /// The SSRC of the first receiver of an encoding.
    fn ssrc_of_rid(&self, rid: Rid) -> (r: Option<Ssrc>)
        ensures
            r == repaired_ssrc(self@.sources_rx, Some(rid)),
    {
        let mut i: usize = 0;
        while i < self.sources_rx.len()
            invariant
                i <= self.sources_rx@.len(),
                first(self@.sources_rx, rx_of(rid)) == first_from(
                    self@.sources_rx,
                    rx_of(rid),
                    i as int,
                ),
            decreases self.sources_rx@.len() - i,
        {
            if self.sources_rx[i].rid() == Some(rid) {
                return Some(self.sources_rx[i].ssrc());
            }
            i = i + 1;
        }
        None
    }

    /// Adds a sender with that SSRC, unless there is one, and lets it resend the packets of
    /// `repairs`, unless it resends others already.
    pub fn maybe_add_source_tx(&mut self, ssrc: Ssrc, repairs: Option<Ssrc>)
        ensures
            final(self)@ == (MediaModel {
                sources_tx: added_tx(old(self)@.sources_tx, ssrc, repairs),
                ..old(self)@
            }),
            old(self)@.wf() ==> final(self)@.wf(),
    {
        proof {
            lemma_tx_index(self@.sources_tx, ssrc);
            if self@.wf() {
                lemma_added_tx_wf(self@, ssrc, repairs);
            }
        }
        let idx: usize = match position_tx(&self.sources_tx, ssrc) {
            Some(idx) => idx,
            None => {
                self.sources_tx.push(SenderSource::new(ssrc));
                self.sources_tx.len() - 1
            },
        };
        let s = &mut self.sources_tx[idx];
        if let Some(repairs) = repairs {
            if s.repairs.is_none() {
                s.repairs = Some(repairs);
            }
        }
    }
}

/// A new receiver, and any change to the receiver of `ssrc` that leaves it its SSRC, keeps the
/// invariant.
proof fn lemma_with_rx_wf(m: MediaModel, ssrc: Ssrc, now: Instant)
    requires
        m.wf(),
    ensures
        ({
            let rx = with_rx(m.sources_rx, ssrc, now);
            let k = rx_slot(m.sources_rx, ssrc);
            forall|s: ReceiverModel|
                s.ssrc == ssrc ==> (MediaModel {
                    sources_rx: #[trigger] rx.update(k, s),
                    ..m
                }).wf()
        }),
{
    let rx = with_rx(m.sources_rx, ssrc, now);
    let k = rx_slot(m.sources_rx, ssrc);
    lemma_rx_index(m.sources_rx, ssrc);
    assert forall|s: ReceiverModel| s.ssrc == ssrc implies (MediaModel {
        sources_rx: #[trigger] rx.update(k, s),
        ..m
    }).wf() by {
        let after = rx.update(k, s);
        assert forall|i: int, j: int| 0 <= i < j < after.len() implies after[i].ssrc
            != after[j].ssrc by {
            if !has_rx(m.sources_rx, ssrc) && j == k {
                assert(m.sources_rx[i].ssrc != ssrc);
            }
        }
        if let Some((wanted, KeyframeRequestKind::Fir)) = m.keyframe_request_tx {
            let i = choose|i: int|
                0 <= i < m.sources_rx.len() && #[trigger] m.sources_rx[i].ssrc == wanted;
            assert(after[i].ssrc == wanted);
        }
    }
}

/// Adding a sender keeps the invariant.
pub proof fn lemma_added_tx_wf(m: MediaModel, ssrc: Ssrc, repairs: Option<Ssrc>)
    requires
        m.wf(),
    ensures
        (MediaModel { sources_tx: added_tx(m.sources_tx, ssrc, repairs), ..m }).wf(),
{
    let tx = m.sources_tx;
    let after = added_tx(tx, ssrc, repairs);
    lemma_tx_index(tx, ssrc);
    assert forall|i: int, j: int| 0 <= i < j < after.len() implies after[i].ssrc
        != after[j].ssrc by {
        if !has_tx(tx, ssrc) && j == tx.len() {
            assert(tx[i].ssrc != ssrc);
        }
    }
    assert forall|s: Ssrc| has_tx(tx, s) implies has_tx(after, s) by {
        let i = choose|i: int| 0 <= i < tx.len() && #[trigger] tx[i].ssrc == s;
        assert(after[i].ssrc == s);
    }
}

} // verus!
