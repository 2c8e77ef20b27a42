//! What a new description of the other side makes of an m-line, part by part.

use super::places::{law_senders_are_found, receiver_at, sender_at};
use crate::codec::CodecParams;
use crate::direction::Direction;
use crate::ext::{mapped, ExtMap, Extension};
use crate::ids::Ssrc;
use crate::media::create::added_all_tx;
use crate::media::negotiate::{announced, still_offered};
use crate::media::sources::{
    added_tx, lemma_rx_index, lemma_tx_index, rx_slot, rx_under, with_rx,
};
use crate::media::MediaModel;
use crate::receiver::ReceiverModel;
use crate::sdp::{MediaLine, SsrcInfo};
use crate::search::{first, lemma_first};
use crate::sender::SenderSource;
use crate::time::Instant;
use vstd::prelude::*;

verus! {

/// This side sends in that direction.
pub open spec fn sends(d: Direction) -> bool {
    d == Direction::SendOnly || d == Direction::SendRecv
}

/// This side receives in that direction.
pub open spec fn receives(d: Direction) -> bool {
    d == Direction::RecvOnly || d == Direction::SendRecv
}

/// A description changes the direction, the codecs, the extensions, the receivers and what is
/// buffered, and nothing else: not who the m-line is, not its senders, not what was asked for and
/// not when things are due.
pub proof fn law_description_leaves_the_rest(
    m: MediaModel,
    line: MediaLine,
    accepted: Seq<bool>,
    session_exts: Map<u8, Extension>,
)
    ensures
        ({
            let after = m.changed(line, accepted, session_exts);
            after == (MediaModel {
                dir: after.dir,
                params: after.params,
                exts: after.exts,
                sources_rx: after.sources_rx,
                buffers_rx: after.buffers_rx,
                buffers_tx: after.buffers_tx,
                ..m
            })
        }),
{
}

/// After a description this side sends what the other side receives, and receives what it sends.
pub proof fn law_description_turns_the_direction(
    m: MediaModel,
    line: MediaLine,
    accepted: Seq<bool>,
    session_exts: Map<u8, Extension>,
)
    ensures
        ({
            let dir = m.changed(line, accepted, session_exts).dir;
            &&& sends(dir) <==> receives(line.dir)
            &&& receives(dir) <==> sends(line.dir)
        }),
{
}

/// The samples that wait to be read are the same after a description, of every payload type and
/// encoding, unless receiving ended: then none is left.
pub proof fn law_samples_outlive_a_description(
    m: MediaModel,
    line: MediaLine,
    accepted: Seq<bool>,
    session_exts: Map<u8, Extension>,
)
    ensures
        ({
            let after = m.changed(line, accepted, session_exts);
            if receives(m.dir) && !receives(after.dir) {
                after.buffers_rx.len() == 0
            } else {
                after.buffers_rx == m.buffers_rx
            }
        }),
{
}

/// The packets that were sent and those that wait are the same after a description, of every payload
/// type, unless sending began: then none is left.
pub proof fn law_packets_outlive_a_description(
    m: MediaModel,
    line: MediaLine,
    accepted: Seq<bool>,
    session_exts: Map<u8, Extension>,
)
    ensures
        ({
            let after = m.changed(line, accepted, session_exts);
            if !sends(m.dir) && sends(after.dir) {
                after.buffers_tx.len() == 0
            } else {
                after.buffers_tx == m.buffers_tx
            }
        }),
{
}

/// Codecs of which the description offers the payload type with parameters that are accepted.
pub open spec fn offered_again(line: MediaLine, accepted: Seq<bool>) -> spec_fn(CodecParams) -> bool {
    |c: CodecParams|
        exists|i: int|
            0 <= i < line.rtp_params@.len() && accepted[i] && (#[trigger] line.rtp_params@[i]).pt
                == c.pt
}

/// Of the codecs those stay, as they are and in their order, of which the description offers the
/// payload type with parameters that are accepted. The others go, and none is added.
pub proof fn law_codecs_outlive_a_description(
    m: MediaModel,
    line: MediaLine,
    accepted: Seq<bool>,
    session_exts: Map<u8, Extension>,
)
    ensures
        m.changed(line, accepted, session_exts).params == m.params.filter(
            offered_again(line, accepted),
        ),
{
    let keep = still_offered(line.rtp_params@, accepted);
    assert(keep =~= offered_again(line, accepted)) by {
        assert forall|c: CodecParams| #[trigger]
            keep(c) == offered_again(line, accepted)(c) by {}
    }
}

/// The line at `i` is the last for that id.
pub open spec fn last_line_at(lines: Seq<ExtMap>, id: u8, i: int) -> bool {
    &&& 0 <= i < lines.len()
    &&& lines[i].id == id
    &&& forall|j: int| i < j < lines.len() ==> (#[trigger] lines[j]).id != id
}

/// What an id stands for is what the last line for it says.
proof fn lemma_mapped(lines: Seq<ExtMap>, id: u8)
    ensures
        mapped(lines).contains_key(id) <==> exists|i: int| last_line_at(lines, id, i),
        forall|i: int| #[trigger] last_line_at(lines, id, i) ==> mapped(lines)[id] == lines[i].ext,
    decreases lines.len(),
{
    if lines.len() > 0 {
        let front = lines.drop_last();
        let n = lines.len() - 1;
        lemma_mapped(front, id);
        if lines[n].id == id {
            assert(last_line_at(lines, id, n));
            assert forall|i: int| #[trigger] last_line_at(lines, id, i) implies i == n by {
                if i < n {
                    assert(lines[n].id != id);
                }
            }
        } else {
            assert forall|i: int| #[trigger] last_line_at(lines, id, i) <==> last_line_at(
                front,
                id,
                i,
            ) by {
                if last_line_at(lines, id, i) {
                    assert forall|j: int| i < j < front.len() implies (#[trigger] front[j]).id
                        != id by {
                        assert(lines[j].id != id);
                    }
                }
                if last_line_at(front, id, i) {
                    assert forall|j: int| i < j < lines.len() implies (#[trigger] lines[j]).id
                        != id by {
                        if j < n {
                            assert(front[j].id != id);
                        }
                    }
                }
            }
            if exists|i: int| last_line_at(front, id, i) {
                let i = choose|i: int| last_line_at(front, id, i);
                assert(last_line_at(lines, id, i));
            }
            if exists|i: int| last_line_at(lines, id, i) {
                let i = choose|i: int| last_line_at(lines, id, i);
                assert(last_line_at(front, id, i));
            }
        }
    }
}

/// After a description an id stands for an extension if and only if it does so for the session, and
/// the last line for the id in the description says the same.
pub proof fn law_extensions_are_agreed(
    m: MediaModel,
    line: MediaLine,
    accepted: Seq<bool>,
    session_exts: Map<u8, Extension>,
    id: u8,
    ext: Extension,
)
    ensures
        ({
            let after = m.changed(line, accepted, session_exts).exts;
            after.contains_key(id) && after[id] == ext <==> {
                &&& session_exts.contains_key(id)
                &&& session_exts[id] == ext
                &&& exists|i: int|
                    #[trigger] last_line_at(line.extmaps@, id, i) && line.extmaps@[i].ext == ext
            }
        }),
{
    lemma_mapped(line.extmaps@, id);
    let theirs = mapped(line.extmaps@);
    if theirs.contains_key(id) && theirs[id] == ext {
        let i = choose|i: int| last_line_at(line.extmaps@, id, i);
        assert(last_line_at(line.extmaps@, id, i) && line.extmaps@[i].ext == ext);
    }
}

/// A receiver as it is when its SSRC comes up.
pub open spec fn new_receiver(r: ReceiverModel, ssrc: Ssrc, now: Instant) -> bool {
    &&& r.ssrc == ssrc
    &&& r.rid is None
    &&& r.repairs is None
    &&& r.last_used == now
    &&& r.sender_info is None
    &&& r.sender_info_at is None
    &&& r.fir_seq_no == 0
}

/// There is one receiver with an SSRC after it came up: the one that there was, in its place, or a
/// new one behind the others. The others are as before.
pub proof fn law_receiver_comes_up(rx: Seq<ReceiverModel>, ssrc: Ssrc, now: Instant)
    ensures
        ({
            let after = with_rx(rx, ssrc, now);
            let k = rx_slot(rx, ssrc);
            if exists|i: int| receiver_at(rx, ssrc, i) {
                after == rx && receiver_at(rx, ssrc, k)
            } else {
                &&& k == rx.len()
                &&& after.len() == rx.len() + 1
                &&& forall|i: int| 0 <= i < rx.len() ==> #[trigger] after[i] == rx[i]
                &&& new_receiver(after[k], ssrc, now)
            }
        }),
{
    lemma_rx_index(rx, ssrc);
    lemma_first(rx, rx_under(ssrc));
    if let Some(i) = first(rx, rx_under(ssrc)) {
        assert forall|j: int| 0 <= j < i implies (#[trigger] rx[j]).ssrc != ssrc by {
            assert(!rx_under(ssrc)(rx[j]));
        }
        assert(receiver_at(rx, ssrc, i));
    }
    if exists|i: int| receiver_at(rx, ssrc, i) {
        let i = choose|i: int| receiver_at(rx, ssrc, i);
        assert(rx[i].ssrc == ssrc);
    }
}

/// One announcement after others adds to what those made: first the receiver of the SSRC that is
/// repaired comes up, if there is one and it has none, then that of the SSRC itself, which then
/// repairs what it did, or else what the announcement says. Nothing else changes.
pub proof fn law_one_more_announcement(
    rx: Seq<ReceiverModel>,
    infos: Seq<SsrcInfo>,
    info: SsrcInfo,
)
    ensures
        announced(rx, Seq::empty()) == rx,
        ({
            let past = Instant { nanos: 0 };
            let before = announced(rx, infos);
            let repaired = match info.repair {
                Some(r) => with_rx(before, r, past),
                None => before,
            };
            let both = with_rx(repaired, info.ssrc, past);
            let after = announced(rx, infos.push(info));
            let k = rx_slot(repaired, info.ssrc);
            &&& after.len() == both.len()
            &&& 0 <= k < both.len()
            &&& forall|i: int| 0 <= i < both.len() && i != k ==> #[trigger] after[i] == both[i]
            &&& after[k] == (ReceiverModel { repairs: after[k].repairs, ..both[k] })
            &&& after[k].repairs == if both[k].repairs is Some {
                both[k].repairs
            } else {
                info.repair
            }
        }),
{
    assert(infos.push(info).drop_last() =~= infos);
    let past = Instant { nanos: 0 };
    let before = announced(rx, infos);
    let repaired = match info.repair {
        Some(r) => with_rx(before, r, past),
        None => before,
    };
    lemma_rx_index(repaired, info.ssrc);
}

/// A sender that is added is the one that there was, in its place, or a new one behind the others
/// that has sent nothing. It then repairs what it did, or else what is said. The others are as
/// before.
pub proof fn law_one_more_sender(tx: Seq<SenderSource>, ssrc: Ssrc, repairs: Option<Ssrc>, i: int)
    ensures
        ({
            let after = added_tx(tx, ssrc, repairs);
            let known = exists|j: int| 0 <= j < tx.len() && (#[trigger] tx[j]).ssrc == ssrc;
            &&& after.len() == if known {
                tx.len()
            } else {
                tx.len() + 1
            }
            &&& 0 <= i < tx.len() && tx[i].ssrc != ssrc ==> after[i] == tx[i]
            &&& sender_at(tx, ssrc, i) ==> {
                &&& after[i] == (SenderSource { repairs: after[i].repairs, ..tx[i] })
                &&& after[i].repairs == if tx[i].repairs is Some {
                    tx[i].repairs
                } else {
                    repairs
                }
            }
            &&& !known ==> {
                let new = after[tx.len() as int];
                &&& new.ssrc == ssrc
                &&& new.rid is None
                &&& new.repairs == repairs
                &&& new.last_seq_no is None
                &&& new.last_used is None
            }
        }),
{
    lemma_tx_index(tx, ssrc);
    law_senders_are_found(tx, ssrc, None, i);
}

/// Adding senders one after the other is adding each to those before it.
pub proof fn law_senders_are_added_one_by_one(
    tx: Seq<SenderSource>,
    ssrcs: Seq<(Ssrc, Option<Ssrc>)>,
    ssrc: Ssrc,
    repairs: Option<Ssrc>,
)
    ensures
        added_all_tx(tx, Seq::empty()) == tx,
        added_all_tx(tx, ssrcs.push((ssrc, repairs))) == added_tx(
            added_all_tx(tx, ssrcs),
            ssrc,
            repairs,
        ),
{
    assert(ssrcs.push((ssrc, repairs)).drop_last() =~= ssrcs);
}

} // verus!
