//! What negotiation changes, and what it leaves.

use crate::codec::CodecParams;
use crate::direction::Direction;
use crate::ext::Extension;
use crate::header::RtpHeader;
use crate::ids::{SeqNo, Ssrc};
use crate::media::{distinct_rx, distinct_tx, has_rx, has_tx, MediaModel};
use crate::media::create::added_all_tx;
use crate::media::negotiate::{announced, announced_one, still_offered};
use crate::media::receive::filled;
use crate::media::send::answerable;
use crate::media::sources::{
    added_tx, informed_rx, lemma_rx_index, lemma_tx_index, repairs_of, rx_index, rx_slot, rx_under,
    tx_slot, tx_under, with_rx,
};
use crate::receiver::ReceiverModel;
use crate::sdp::{MediaLine, SsrcInfo};
use crate::search::{
    first, lemma_filter_again, lemma_filter_contains, lemma_first, lemma_first_is,
    lemma_first_of_more,
};
use crate::sender::SenderSource;
use crate::time::Instant;
use vstd::prelude::*;

verus! {

/// Seen from the other side and back again, a direction is what it was. What one side sends, the
/// other receives.
pub proof fn law_direction_inverts(d: Direction)
    ensures
        d.inverted().inverted() == d,
        d.inverted().sending() == d.receiving(),
        d.inverted().receiving() == d.sending(),
{
}

/// Whether nothing that `a` knows of its receivers is gone or changed in `b`: the receivers are
/// still there, in the same places, and an encoding or a repaired SSRC that was known is the same.
pub open spec fn keeps_receivers(a: Seq<ReceiverModel>, b: Seq<ReceiverModel>) -> bool {
    &&& a.len() <= b.len()
    &&& forall|i: int|
        #![trigger b[i]]
        0 <= i < a.len() ==> {
            &&& b[i].ssrc == a[i].ssrc
            &&& a[i].repairs is Some ==> b[i].repairs == a[i].repairs
            &&& a[i].rid is Some ==> b[i].rid == a[i].rid
        }
}

/// Announcing an SSRC takes nothing away.
proof fn lemma_announced_one_keeps(rx: Seq<ReceiverModel>, info: SsrcInfo)
    ensures
        keeps_receivers(rx, announced_one(rx, info)),
{
    let past = Instant { nanos: 0 };
    let repaired = match info.repair {
        Some(ssrc) => with_rx(rx, ssrc, past),
        None => rx,
    };
    lemma_rx_index(repaired, info.ssrc);
}

/// Receivers are never removed by what the other side announces, and what was known of them stays.
pub proof fn law_announced_receivers_stay(rx: Seq<ReceiverModel>, infos: Seq<SsrcInfo>)
    ensures
        keeps_receivers(rx, announced(rx, infos)),
    decreases infos.len(),
{
    if infos.len() > 0 {
        law_announced_receivers_stay(rx, infos.drop_last());
        lemma_announced_one_keeps(announced(rx, infos.drop_last()), infos.last());
    }
}

/// Announcements of an SSRC that say which SSRC it repairs.
pub open spec fn tells_repair(ssrc: Ssrc) -> spec_fn(SsrcInfo) -> bool {
    |info: SsrcInfo| info.ssrc == ssrc && info.repair is Some
}

/// The first SSRC that `ssrc` is announced to repair.
pub open spec fn announced_repair(infos: Seq<SsrcInfo>, ssrc: Ssrc) -> Option<Ssrc> {
    match first(infos, tells_repair(ssrc)) {
        Some(i) => infos[i].repair,
        None => None,
    }
}

/// Whether `ssrc` is announced, or announced to be repaired.
pub open spec fn mentioned(infos: Seq<SsrcInfo>, ssrc: Ssrc) -> bool {
    exists|i: int|
        #![trigger infos[i]]
        0 <= i < infos.len() && (infos[i].ssrc == ssrc || infos[i].repair == Some(ssrc))
}

/// A receiver of which nothing but the SSRC is known changes nothing about the others.
proof fn lemma_with_rx(rx: Seq<ReceiverModel>, ssrc: Ssrc, now: Instant, s: Ssrc)
    ensures
        has_rx(with_rx(rx, ssrc, now), s) <==> has_rx(rx, s) || s == ssrc,
        repairs_of(with_rx(rx, ssrc, now), s) == repairs_of(rx, s),
        rx_index(with_rx(rx, ssrc, now), ssrc) == Some(rx_slot(rx, ssrc)),
{
    let all = with_rx(rx, ssrc, now);
    lemma_rx_index(rx, s);
    lemma_rx_index(rx, ssrc);
    lemma_first(rx, rx_under(ssrc));
    if !has_rx(rx, ssrc) {
        let n = rx.len() as int;
        assert(all[n].ssrc == ssrc);
        assert forall|j: int| 0 <= j < n implies !rx_under(ssrc)(#[trigger] all[j]) by {
            assert(!rx_under(ssrc)(rx[j]));
        }
        lemma_first_is(all, rx_under(ssrc), n);
        if has_rx(rx, s) {
            lemma_index_stays(rx, all, s);
        } else if s != ssrc {
            lemma_rx_index(all, s);
            if has_rx(all, s) {
                let i = rx_index(all, s)->0;
                assert(rx[i].ssrc == s);
            }
        }
    }
}

/// What one announcement adds to what is known.
proof fn lemma_announced_one(rx: Seq<ReceiverModel>, info: SsrcInfo, s: Ssrc)
    ensures
        ({
            let after = announced_one(rx, info);
            &&& has_rx(after, s) <==> has_rx(rx, s) || info.ssrc == s || info.repair == Some(s)
            &&& repairs_of(after, s) == if repairs_of(rx, s) is Some {
                repairs_of(rx, s)
            } else if info.ssrc == s {
                info.repair
            } else {
                None
            }
        }),
{
    let past = Instant { nanos: 0 };
    let repaired = match info.repair {
        Some(ssrc) => with_rx(rx, ssrc, past),
        None => rx,
    };
    if let Some(ssrc) = info.repair {
        lemma_with_rx(rx, ssrc, past, s);
    }
    lemma_with_rx(repaired, info.ssrc, past, s);
    let both = with_rx(repaired, info.ssrc, past);
    let k = rx_slot(repaired, info.ssrc);
    let after = announced_one(rx, info);
    lemma_rx_index(both, info.ssrc);
    lemma_rx_index(both, s);
    lemma_rx_index(after, s);
    assert forall|i: int| 0 <= i < both.len() implies (#[trigger] after[i]).ssrc
        == both[i].ssrc by {}
    lemma_first(both, rx_under(s));
    if has_rx(both, s) {
        let i = rx_index(both, s)->0;
        assert(after[i].ssrc == s);
        assert forall|j: int| 0 <= j < i implies !rx_under(s)(#[trigger] after[j]) by {
            assert(!rx_under(s)(both[j]));
        }
        lemma_first_is(after, rx_under(s), i);
    } else if has_rx(after, s) {
        let i = rx_index(after, s)->0;
        assert(both[i].ssrc == s);
    }
}

/// What the receivers of an m-line are after SSRCs were announced:
///
/// - there is a receiver for each SSRC that had one, and for each that was announced or announced
///   to be repaired, and for no other;
/// - each repairs the SSRC that it was known to repair, or else the first that it was announced to
///   repair.
pub proof fn law_announced_receivers(rx: Seq<ReceiverModel>, infos: Seq<SsrcInfo>, ssrc: Ssrc)
    ensures
        has_rx(announced(rx, infos), ssrc) <==> has_rx(rx, ssrc) || mentioned(infos, ssrc),
        repairs_of(announced(rx, infos), ssrc) == if repairs_of(rx, ssrc) is Some {
            repairs_of(rx, ssrc)
        } else {
            announced_repair(infos, ssrc)
        },
    decreases infos.len(),
{
    if infos.len() > 0 {
        let front = infos.drop_last();
        let n = front.len() as int;
        law_announced_receivers(rx, front, ssrc);
        lemma_announced_one(announced(rx, front), infos.last(), ssrc);
        assert(mentioned(infos, ssrc) <==> mentioned(front, ssrc) || infos.last().ssrc == ssrc
            || infos.last().repair == Some(ssrc)) by {
            if mentioned(front, ssrc) {
                let i = choose|i: int|
                    #![trigger front[i]]
                    0 <= i < n && (front[i].ssrc == ssrc || front[i].repair == Some(ssrc));
                assert(infos[i] == front[i]);
            }
            assert(infos[n] == infos.last());
            if mentioned(infos, ssrc) {
                let i = choose|i: int|
                    #![trigger infos[i]]
                    0 <= i < infos.len() && (infos[i].ssrc == ssrc || infos[i].repair == Some(
                        ssrc,
                    ));
                if i < n {
                    assert(front[i] == infos[i]);
                }
            }
        }
        lemma_first(front, tells_repair(ssrc));
        lemma_first_of_more(infos, tells_repair(ssrc));
    }
}

/// Announcements tell nothing of a receiver but which SSRC it repairs: a receiver that existed is
/// otherwise as it was, in its place, and one that came up is otherwise as new. No SSRC comes up
/// twice.
pub proof fn law_announcements_tell_only_repairs(rx: Seq<ReceiverModel>, infos: Seq<SsrcInfo>)
    ensures
        ({
            let after = announced(rx, infos);
            &&& rx.len() <= after.len()
            &&& forall|i: int|
                #![trigger after[i]]
                0 <= i < after.len() ==> after[i] == (ReceiverModel {
                    repairs: after[i].repairs,
                    ..if i < rx.len() {
                        rx[i]
                    } else {
                        ReceiverModel::fresh(after[i].ssrc, Instant { nanos: 0 })
                    }
                })
            &&& distinct_rx(rx) ==> distinct_rx(after)
        }),
    decreases infos.len(),
{
    if infos.len() > 0 {
        let before = announced(rx, infos.drop_last());
        let info = infos.last();
        let past = Instant { nanos: 0 };
        law_announcements_tell_only_repairs(rx, infos.drop_last());
        let repaired = match info.repair {
            Some(ssrc) => with_rx(before, ssrc, past),
            None => before,
        };
        let both = with_rx(repaired, info.ssrc, past);
        let after = announced(rx, infos);
        lemma_rx_index(repaired, info.ssrc);
        if let Some(ssrc) = info.repair {
            lemma_distinct_with_rx(before, ssrc, past);
        }
        lemma_distinct_with_rx(repaired, info.ssrc, past);
        assert forall|i: int, j: int|
            distinct_rx(both) && 0 <= i < j < after.len() implies after[i].ssrc
            != after[j].ssrc by {
            assert(both[i].ssrc != both[j].ssrc);
        }
    }
}

/// A receiver that is only added where its SSRC has none leaves no SSRC with two.
proof fn lemma_distinct_with_rx(rx: Seq<ReceiverModel>, ssrc: Ssrc, now: Instant)
    ensures
        distinct_rx(rx) ==> distinct_rx(with_rx(rx, ssrc, now)),
{
    let all = with_rx(rx, ssrc, now);
    assert forall|i: int, j: int|
        distinct_rx(rx) && 0 <= i < j < all.len() implies all[i].ssrc != all[j].ssrc by {
        assert(rx[i].ssrc == all[i].ssrc);
        if j < rx.len() {
            assert(rx[j].ssrc == all[j].ssrc);
        }
    }
}

/// Whether the receivers know all that an announcement tells.
spec fn knows(rx: Seq<ReceiverModel>, info: SsrcInfo) -> bool {
    &&& has_rx(rx, info.ssrc)
    &&& info.repair matches Some(repaired) ==> {
        &&& has_rx(rx, repaired)
        &&& rx[rx_index(rx, info.ssrc)->0].repairs is Some
    }
}

/// A receiver that exists stays where it is when more are known.
proof fn lemma_index_stays(a: Seq<ReceiverModel>, b: Seq<ReceiverModel>, ssrc: Ssrc)
    requires
        keeps_receivers(a, b),
        has_rx(a, ssrc),
    ensures
        has_rx(b, ssrc),
        rx_index(b, ssrc) == rx_index(a, ssrc),
{
    lemma_rx_index(a, ssrc);
    lemma_first(a, rx_under(ssrc));
    let i = rx_index(a, ssrc)->0;
    assert(b[i].ssrc == ssrc);
    assert forall|j: int| 0 <= j < i implies !rx_under(ssrc)(#[trigger] b[j]) by {
        assert(!rx_under(ssrc)(a[j]));
    }
    lemma_first_is(b, rx_under(ssrc), i);
}

/// What an announcement tells is known after it, and stays known.
proof fn lemma_announced_knows(rx: Seq<ReceiverModel>, infos: Seq<SsrcInfo>, i: int)
    requires
        0 <= i < infos.len(),
    ensures
        knows(announced(rx, infos), infos[i]),
    decreases infos.len(),
{
    let before = announced(rx, infos.drop_last());
    let after = announced(rx, infos);
    lemma_announced_one_keeps(before, infos.last());
    if i < infos.len() - 1 {
        lemma_announced_knows(rx, infos.drop_last(), i);
        assert(infos.drop_last()[i] == infos[i]);
        lemma_index_stays(before, after, infos[i].ssrc);
        lemma_rx_index(before, infos[i].ssrc);
        if let Some(repaired) = infos[i].repair {
            lemma_index_stays(before, after, repaired);
        }
    } else {
        let past = Instant { nanos: 0 };
        let info = infos[i];
        let repaired = match info.repair {
            Some(ssrc) => with_rx(before, ssrc, past),
            None => before,
        };
        let both = with_rx(repaired, info.ssrc, past);
        let k = rx_slot(repaired, info.ssrc);
        lemma_rx_index(repaired, info.ssrc);
        lemma_first(repaired, rx_under(info.ssrc));
        assert(after[k].ssrc == info.ssrc);
        assert forall|j: int| 0 <= j < k implies !rx_under(info.ssrc)(#[trigger] after[j]) by {
            assert(!rx_under(info.ssrc)(repaired[j]));
        }
        lemma_first_is(after, rx_under(info.ssrc), k);
        if let Some(ssrc) = info.repair {
            assert(has_rx(repaired, ssrc)) by {
                if !has_rx(before, ssrc) {
                    assert(repaired[before.len() as int].ssrc == ssrc);
                }
            }
            let j = choose|j: int| 0 <= j < repaired.len() && #[trigger] repaired[j].ssrc == ssrc;
            assert(after[j].ssrc == ssrc);
        }
    }
}

/// An announcement of what is known changes nothing.
proof fn lemma_known_announcement(rx: Seq<ReceiverModel>, infos: Seq<SsrcInfo>)
    requires
        forall|i: int| 0 <= i < infos.len() ==> knows(rx, #[trigger] infos[i]),
    ensures
        announced(rx, infos) == rx,
    decreases infos.len(),
{
    if infos.len() > 0 {
        let info = infos.last();
        assert(knows(rx, infos[infos.len() - 1]));
        assert forall|i: int| 0 <= i < infos.drop_last().len() implies knows(
            rx,
            #[trigger] infos.drop_last()[i],
        ) by {
            assert(knows(rx, infos[i]));
        }
        lemma_known_announcement(rx, infos.drop_last());
        lemma_rx_index(rx, info.ssrc);
        assert(announced_one(rx, info) =~= rx);
    }
}

/// An m-line that is described a second time in the same way does not change.
pub proof fn law_same_description_changes_nothing(
    m: MediaModel,
    line: MediaLine,
    accepted: Seq<bool>,
    session_exts: Map<u8, Extension>,
)
    ensures
        m.changed(line, accepted, session_exts).changed(line, accepted, session_exts) == m.changed(
            line,
            accepted,
            session_exts,
        ),
{
    let once = m.changed(line, accepted, session_exts);
    let keep = still_offered(line.rtp_params@, accepted);
    assert forall|i: int| 0 <= i < line.ssrc_info@.len() implies knows(
        once.sources_rx,
        #[trigger] line.ssrc_info@[i],
    ) by {
        lemma_announced_knows(m.sources_rx, line.ssrc_info@, i);
    }
    lemma_known_announcement(once.sources_rx, line.ssrc_info@);
    lemma_filter_again(m.params, keep);
}

/// A new description adds no codec: each codec of the m-line was one before, and the other side
/// still offers its payload type.
pub proof fn law_description_adds_no_codec(
    m: MediaModel,
    line: MediaLine,
    accepted: Seq<bool>,
    session_exts: Map<u8, Extension>,
    c: CodecParams,
)
    ensures
        m.changed(line, accepted, session_exts).params.contains(c) <==> m.params.contains(c)
            && still_offered(line.rtp_params@, accepted)(c),
{
    lemma_filter_contains(m.params, still_offered(line.rtp_params@, accepted), c);
}

/// When sending ends, the packets that were sent are kept, and requests for resends are answered
/// as before.
pub proof fn law_late_requests_are_answered(
    m: MediaModel,
    line: MediaLine,
    accepted: Seq<bool>,
    session_exts: Map<u8, Extension>,
    ssrc: Ssrc,
    lost: Seq<SeqNo>,
)
    requires
        m.dir.sending(),
    ensures
        ({
            let later = m.changed(line, accepted, session_exts);
            &&& later.nack_reference(ssrc) == m.nack_reference(ssrc)
            &&& later.nacked(ssrc, lost).next_sending() == m.nacked(ssrc, lost).next_sending()
        }),
{
}

/// When receiving ends, no sample that came in before is left to read. When sending begins, no
/// packet from before is left to send.
pub proof fn law_new_direction_starts_afresh(
    m: MediaModel,
    line: MediaLine,
    accepted: Seq<bool>,
    session_exts: Map<u8, Extension>,
)
    ensures
        ({
            let later = m.changed(line, accepted, session_exts);
            &&& m.dir.receiving() && !later.dir.receiving() ==> first(later.buffers_rx, filled())
                is None
            &&& !m.dir.sending() && later.dir.sending() ==> later.next_sending() is None
        }),
{
    let later = m.changed(line, accepted, session_exts);
    lemma_first(later.resends, answerable(later.buffers_tx, later.sources_tx));
}

/// Adding a sender a second time changes nothing, and adding one never takes one away or changes
/// what it repairs.
pub proof fn law_adding_a_sender_again(tx: Seq<SenderSource>, ssrc: Ssrc, repairs: Option<Ssrc>)
    ensures
        added_tx(added_tx(tx, ssrc, repairs), ssrc, repairs) == added_tx(tx, ssrc, repairs),
        tx.len() <= added_tx(tx, ssrc, repairs).len(),
        forall|i: int|
            #![trigger tx[i]]
            0 <= i < tx.len() ==> {
                let s = added_tx(tx, ssrc, repairs)[i];
                &&& s.ssrc == tx[i].ssrc
                &&& s.rid == tx[i].rid
                &&& tx[i].repairs is Some ==> s.repairs == tx[i].repairs
            },
{
    let once = added_tx(tx, ssrc, repairs);
    let k = tx_slot(tx, ssrc);
    lemma_tx_index(tx, ssrc);
    lemma_first(tx, tx_under(ssrc));
    assert(once[k].ssrc == ssrc);
    assert(has_tx(once, ssrc));
    assert forall|j: int| 0 <= j < k implies !tx_under(ssrc)(#[trigger] once[j]) by {
        assert(!tx_under(ssrc)(tx[j]));
    }
    lemma_first_is(once, tx_under(ssrc), k);
    assert(added_tx(once, ssrc, repairs) =~= once);
}

/// Every SSRC that an m-line is offered with has a sender.
pub proof fn law_offered_ssrcs_have_senders(
    tx: Seq<SenderSource>,
    ssrcs: Seq<(Ssrc, Option<Ssrc>)>,
    i: int,
)
    requires
        0 <= i < ssrcs.len(),
    ensures
        has_tx(added_all_tx(tx, ssrcs), ssrcs[i].0),
    decreases ssrcs.len(),
{
    let before = added_all_tx(tx, ssrcs.drop_last());
    let after = added_all_tx(tx, ssrcs);
    let (ssrc, repairs) = ssrcs.last();
    law_adding_a_sender_again(before, ssrc, repairs);
    lemma_tx_index(before, ssrc);
    if i < ssrcs.len() - 1 {
        law_offered_ssrcs_have_senders(tx, ssrcs.drop_last(), i);
        let j = choose|j: int| 0 <= j < before.len() && #[trigger] before[j].ssrc == ssrcs[i].0;
        assert(after[j].ssrc == ssrcs[i].0);
    } else {
        assert(after[tx_slot(before, ssrc)].ssrc == ssrc);
    }
}

/// Offers of an SSRC.
pub open spec fn offering(ssrc: Ssrc) -> spec_fn((Ssrc, Option<Ssrc>)) -> bool {
    |offer: (Ssrc, Option<Ssrc>)| offer.0 == ssrc
}

/// Offers of an SSRC that say which SSRC it repairs.
pub open spec fn offering_repair(ssrc: Ssrc) -> spec_fn((Ssrc, Option<Ssrc>)) -> bool {
    |offer: (Ssrc, Option<Ssrc>)| offer.0 == ssrc && offer.1 is Some
}

/// The first SSRC that `ssrc` is offered to repair.
pub open spec fn offered_repair(ssrcs: Seq<(Ssrc, Option<Ssrc>)>, ssrc: Ssrc) -> Option<Ssrc> {
    match first(ssrcs, offering_repair(ssrc)) {
        Some(i) => ssrcs[i].1,
        None => None,
    }
}

/// What the senders of an m-line are that is offered with SSRCs: one for each SSRC, in the order in
/// which the SSRCs first occur in the offer, each with the first SSRC that it is offered to repair.
pub proof fn law_offered_senders(ssrcs: Seq<(Ssrc, Option<Ssrc>)>, ssrc: Ssrc)
    ensures
        ({
            let tx = added_all_tx(Seq::empty(), ssrcs);
            &&& has_tx(tx, ssrc) <==> first(ssrcs, offering(ssrc)) is Some
            &&& distinct_tx(tx)
            &&& forall|i: int, j: int|
                #![trigger tx[i], tx[j]]
                0 <= i < j < tx.len() ==> first(ssrcs, offering(tx[i].ssrc))->0 < first(
                    ssrcs,
                    offering(tx[j].ssrc),
                )->0
            &&& forall|i: int|
                #![trigger tx[i]]
                0 <= i < tx.len() ==> tx[i] == SenderSource::fresh(tx[i].ssrc).repairing(
                    offered_repair(ssrcs, tx[i].ssrc),
                )
        }),
    decreases ssrcs.len(),
{
    let tx = added_all_tx(Seq::empty(), ssrcs);
    if ssrcs.len() == 0 {
        lemma_tx_index(tx, ssrc);
    } else {
        let front = ssrcs.drop_last();
        let before = added_all_tx(Seq::empty(), front);
        let (new, repairs) = ssrcs.last();
        let k = tx_slot(before, new);
        law_offered_senders(front, ssrc);
        law_offered_senders(front, new);
        lemma_tx_index(before, new);
        lemma_first_of_more(ssrcs, offering(ssrc));
        assert forall|i: int| 0 <= i < before.len() implies (#[trigger] tx[i]).ssrc
            == before[i].ssrc by {}
        assert(tx[k].ssrc == new);
        assert(has_tx(tx, ssrc) <==> has_tx(before, ssrc) || ssrc == new) by {
            if has_tx(before, ssrc) {
                let i = choose|i: int| 0 <= i < before.len() && #[trigger] before[i].ssrc == ssrc;
                assert(tx[i].ssrc == ssrc);
            }
            if has_tx(tx, ssrc) {
                let i = choose|i: int| 0 <= i < tx.len() && #[trigger] tx[i].ssrc == ssrc;
                if i < before.len() {
                    assert(before[i].ssrc == ssrc);
                }
            }
        }
        assert forall|i: int| 0 <= i < before.len() implies #[trigger] first(
            ssrcs,
            offering(tx[i].ssrc),
        ) == first(front, offering(before[i].ssrc)) && first(front, offering(before[i].ssrc))
            is Some by {
            law_offered_senders(front, before[i].ssrc);
            assert(has_tx(before, before[i].ssrc));
            lemma_first_of_more(ssrcs, offering(tx[i].ssrc));
        }
        lemma_first_of_more(ssrcs, offering(new));
        assert forall|i: int, j: int| 0 <= i < j < tx.len() implies tx[i].ssrc != tx[j].ssrc
            && first(ssrcs, offering(tx[i].ssrc))->0 < first(ssrcs, offering(tx[j].ssrc))->0 by {
            assert(tx[i].ssrc == before[i].ssrc);
            lemma_first(front, offering(before[i].ssrc));
            if j < before.len() {
                assert(tx[j].ssrc == before[j].ssrc);
            }
        }
        assert forall|i: int| 0 <= i < tx.len() implies #[trigger] tx[i] == SenderSource::fresh(
            tx[i].ssrc,
        ).repairing(offered_repair(ssrcs, tx[i].ssrc)) by {
            lemma_first(front, offering_repair(tx[i].ssrc));
            lemma_first_of_more(ssrcs, offering_repair(tx[i].ssrc));
            lemma_first(front, offering(tx[i].ssrc));
            if i < before.len() {
                assert(before[i] == SenderSource::fresh(before[i].ssrc).repairing(
                    offered_repair(front, before[i].ssrc),
                ));
            }
        }
    }
}

/// A packet never makes a receiver forget what it knows: the SSRC it has, the encoding it
/// receives and the SSRC it repairs.
pub proof fn law_packets_do_not_change_what_is_known(
    rx: Seq<ReceiverModel>,
    header: RtpHeader,
    now: Instant,
)
    ensures
        ({
            let all = with_rx(rx, header.ssrc, now);
            let k = rx_slot(rx, header.ssrc);
            keeps_receivers(
                rx,
                all.update(k, informed_rx(all[k], rx, header)),
            )
        }),
{
    lemma_rx_index(rx, header.ssrc);
}

} // verus!
