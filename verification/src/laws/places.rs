//! Where things stand: what it is to be the first of its kind.

use crate::buffer_rx::RxBufferModel;
use crate::buffer_tx::{numbered, PacketModel, TxBufferModel};
use crate::codec::CodecParams;
use crate::ids::{Pt, Rid, SeqNo, Ssrc};
use crate::media::feedback::main_rx;
use crate::media::receive::{filled, params_carrying, rx_buffer_for};
use crate::media::send::{holding, waiting};
use crate::media::sources::{rx_of, rx_under, tx_for, tx_under};
use crate::media::write::{buffer_for, params_for};
use crate::media::{has_rx, has_tx};
use crate::receiver::ReceiverModel;
use crate::search::{first, lemma_first, lemma_first_is};
use crate::sender::SenderSource;
use vstd::prelude::*;

verus! {

/// The sender at `i` is the first with that SSRC.
pub open spec fn sender_at(tx: Seq<SenderSource>, ssrc: Ssrc, i: int) -> bool {
    &&& 0 <= i < tx.len()
    &&& tx[i].ssrc == ssrc
    &&& forall|j: int| 0 <= j < i ==> (#[trigger] tx[j]).ssrc != ssrc
}

/// The sender at `i` is the first of that encoding that resends the packets of another.
pub open spec fn resender_at(tx: Seq<SenderSource>, rid: Option<Rid>, i: int) -> bool {
    &&& 0 <= i < tx.len()
    &&& tx[i].rid == rid
    &&& tx[i].repairs is Some
    &&& forall|j: int| 0 <= j < i ==> (#[trigger] tx[j]).rid != rid || tx[j].repairs is None
}

/// The sender at `i` is the first of that encoding that sends packets of its own.
pub open spec fn main_sender_at(tx: Seq<SenderSource>, rid: Option<Rid>, i: int) -> bool {
    &&& 0 <= i < tx.len()
    &&& tx[i].rid == rid
    &&& tx[i].repairs is None
    &&& forall|j: int| 0 <= j < i ==> (#[trigger] tx[j]).rid != rid || tx[j].repairs is Some
}

/// The receiver at `i` is the first with that SSRC.
pub open spec fn receiver_at(rx: Seq<ReceiverModel>, ssrc: Ssrc, i: int) -> bool {
    &&& 0 <= i < rx.len()
    &&& rx[i].ssrc == ssrc
    &&& forall|j: int| 0 <= j < i ==> (#[trigger] rx[j]).ssrc != ssrc
}

/// The receiver at `i` is the first that is known to receive that encoding.
pub open spec fn encoding_at(rx: Seq<ReceiverModel>, rid: Rid, i: int) -> bool {
    &&& 0 <= i < rx.len()
    &&& rx[i].rid == Some(rid)
    &&& forall|j: int| 0 <= j < i ==> (#[trigger] rx[j]).rid != Some(rid)
}

/// The receiver at `i` is the first of that encoding that does not get resends of another.
pub open spec fn main_receiver_at(rx: Seq<ReceiverModel>, rid: Option<Rid>, i: int) -> bool {
    &&& 0 <= i < rx.len()
    &&& rx[i].rid == rid
    &&& rx[i].repairs is None
    &&& forall|j: int| 0 <= j < i ==> (#[trigger] rx[j]).rid != rid || rx[j].repairs is Some
}

/// The packet at `q` is the first that was sent under that number.
pub open spec fn packet_at(packets: Seq<PacketModel>, number: SeqNo, q: int) -> bool {
    &&& 0 <= q < packets.len()
    &&& packets[q].seq_no == Some(number)
    &&& forall|j: int| 0 <= j < q ==> (#[trigger] packets[j]).seq_no != Some(number)
}

/// One of the packets has that SSRC.
pub open spec fn some_packet_of(packets: Seq<PacketModel>, ssrc: Ssrc) -> bool {
    exists|i: int| 0 <= i < packets.len() && (#[trigger] packets[i]).ssrc == ssrc
}

/// The buffer at `b` is the first with packets of that SSRC.
pub open spec fn buffer_of_ssrc_at(
    buffers: Seq<(Pt, TxBufferModel)>,
    ssrc: Ssrc,
    b: int,
) -> bool {
    &&& 0 <= b < buffers.len()
    &&& some_packet_of(buffers[b].1.packets, ssrc)
    &&& forall|j: int| 0 <= j < b ==> !some_packet_of((#[trigger] buffers[j]).1.packets, ssrc)
}

/// The buffer at `b` is the first with a packet that was not sent yet.
pub open spec fn waiting_buffer_at(buffers: Seq<(Pt, TxBufferModel)>, b: int) -> bool {
    &&& 0 <= b < buffers.len()
    &&& buffers[b].1.next < buffers[b].1.packets.len()
    &&& forall|j: int|
        0 <= j < b ==> (#[trigger] buffers[j]).1.next >= buffers[j].1.packets.len()
}

/// The buffer at `b` is the first under that payload type.
pub open spec fn send_buffer_at(buffers: Seq<(Pt, TxBufferModel)>, pt: Pt, b: int) -> bool {
    &&& 0 <= b < buffers.len()
    &&& buffers[b].0 == pt
    &&& forall|j: int| 0 <= j < b ==> (#[trigger] buffers[j]).0 != pt
}

/// The buffer at `b` is the first under that payload type and encoding.
pub open spec fn receive_buffer_at(
    buffers: Seq<((Pt, Option<Rid>), RxBufferModel)>,
    pt: Pt,
    rid: Option<Rid>,
    b: int,
) -> bool {
    &&& 0 <= b < buffers.len()
    &&& buffers[b].0 == (pt, rid)
    &&& forall|j: int| 0 <= j < b ==> (#[trigger] buffers[j]).0 != (pt, rid)
}

/// The buffer at `b` is the first with a sample to read.
pub open spec fn filled_buffer_at(
    buffers: Seq<((Pt, Option<Rid>), RxBufferModel)>,
    b: int,
) -> bool {
    &&& 0 <= b < buffers.len()
    &&& buffers[b].1.ready.len() > 0
    &&& forall|j: int| 0 <= j < b ==> (#[trigger] buffers[j]).1.ready.len() == 0
}

/// The codec at `i` is the first under that payload type.
pub open spec fn codec_at(params: Seq<CodecParams>, pt: Pt, i: int) -> bool {
    &&& 0 <= i < params.len()
    &&& params[i].pt == pt
    &&& forall|j: int| 0 <= j < i ==> (#[trigger] params[j]).pt != pt
}

/// The codec at `i` is the first whose packets, or resends of them, come under that payload type.
pub open spec fn carrier_at(params: Seq<CodecParams>, pt: Pt, i: int) -> bool {
    &&& 0 <= i < params.len()
    &&& params[i].pt == pt || params[i].resend == Some(pt)
    &&& forall|j: int|
        0 <= j < i ==> (#[trigger] params[j]).pt != pt && params[j].resend != Some(pt)
}

/// An m-line has a sender or a receiver for an SSRC if and only if one of them has it.
pub proof fn law_known_ssrcs(tx: Seq<SenderSource>, rx: Seq<ReceiverModel>, ssrc: Ssrc)
    ensures
        has_tx(tx, ssrc) <==> !(forall|i: int|
            0 <= i < tx.len() ==> (#[trigger] tx[i]).ssrc != ssrc),
        has_rx(rx, ssrc) <==> !(forall|i: int|
            0 <= i < rx.len() ==> (#[trigger] rx[i]).ssrc != ssrc),
{
}

/// What the operations find among senders is the first of its kind.
pub proof fn law_senders_are_found(
    tx: Seq<SenderSource>,
    ssrc: Ssrc,
    rid: Option<Rid>,
    i: int,
)
    ensures
        first(tx, tx_under(ssrc)) == Some(i) <==> sender_at(tx, ssrc, i),
        first(tx, tx_under(ssrc)) is None <==> forall|j: int|
            0 <= j < tx.len() ==> (#[trigger] tx[j]).ssrc != ssrc,
        first(tx, tx_for(rid, true)) == Some(i) <==> resender_at(tx, rid, i),
        first(tx, tx_for(rid, true)) is None <==> forall|j: int|
            0 <= j < tx.len() ==> (#[trigger] tx[j]).rid != rid || tx[j].repairs is None,
        first(tx, tx_for(rid, false)) == Some(i) <==> main_sender_at(tx, rid, i),
        first(tx, tx_for(rid, false)) is None <==> forall|j: int|
            0 <= j < tx.len() ==> (#[trigger] tx[j]).rid != rid || tx[j].repairs is Some,
{
    lemma_first(tx, tx_under(ssrc));
    lemma_first(tx, tx_for(rid, true));
    lemma_first(tx, tx_for(rid, false));
    if sender_at(tx, ssrc, i) {
        assert forall|j: int| 0 <= j < i implies !tx_under(ssrc)(#[trigger] tx[j]) by {}
        lemma_first_is(tx, tx_under(ssrc), i);
    }
    if resender_at(tx, rid, i) {
        lemma_first_is(tx, tx_for(rid, true), i);
    }
    if main_sender_at(tx, rid, i) {
        lemma_first_is(tx, tx_for(rid, false), i);
    }
    assert forall|j: int| 0 <= j < tx.len() && first(tx, tx_under(ssrc)) is None implies (
    #[trigger] tx[j]).ssrc != ssrc by {
        assert(!tx_under(ssrc)(tx[j]));
    }
    assert forall|j: int| 0 <= j < tx.len() && first(tx, tx_for(rid, true)) is None implies (
    #[trigger] tx[j]).rid != rid || tx[j].repairs is None by {
        assert(!tx_for(rid, true)(tx[j]));
    }
    assert forall|j: int| 0 <= j < tx.len() && first(tx, tx_for(rid, false)) is None implies (
    #[trigger] tx[j]).rid != rid || tx[j].repairs is Some by {
        assert(!tx_for(rid, false)(tx[j]));
    }
}

/// What the operations find among receivers is the first of its kind.
pub proof fn law_receivers_are_found(
    rx: Seq<ReceiverModel>,
    ssrc: Ssrc,
    id: Rid,
    rid: Option<Rid>,
    i: int,
)
    ensures
        first(rx, rx_under(ssrc)) == Some(i) <==> receiver_at(rx, ssrc, i),
        first(rx, rx_under(ssrc)) is None <==> forall|j: int|
            0 <= j < rx.len() ==> (#[trigger] rx[j]).ssrc != ssrc,
        first(rx, rx_of(id)) == Some(i) <==> encoding_at(rx, id, i),
        first(rx, rx_of(id)) is None <==> forall|j: int|
            0 <= j < rx.len() ==> (#[trigger] rx[j]).rid != Some(id),
        first(rx, main_rx(rid)) == Some(i) <==> main_receiver_at(rx, rid, i),
        first(rx, main_rx(rid)) is None <==> forall|j: int|
            0 <= j < rx.len() ==> (#[trigger] rx[j]).rid != rid || rx[j].repairs is Some,
{
    lemma_first(rx, rx_under(ssrc));
    lemma_first(rx, rx_of(id));
    lemma_first(rx, main_rx(rid));
    if receiver_at(rx, ssrc, i) {
        lemma_first_is(rx, rx_under(ssrc), i);
    }
    if encoding_at(rx, id, i) {
        lemma_first_is(rx, rx_of(id), i);
    }
    if main_receiver_at(rx, rid, i) {
        lemma_first_is(rx, main_rx(rid), i);
    }
    assert forall|j: int| 0 <= j < rx.len() && first(rx, rx_under(ssrc)) is None implies (
    #[trigger] rx[j]).ssrc != ssrc by {
        assert(!rx_under(ssrc)(rx[j]));
    }
    assert forall|j: int| 0 <= j < rx.len() && first(rx, rx_of(id)) is None implies (
    #[trigger] rx[j]).rid != Some(id) by {
        assert(!rx_of(id)(rx[j]));
    }
    assert forall|j: int| 0 <= j < rx.len() && first(rx, main_rx(rid)) is None implies (
    #[trigger] rx[j]).rid != rid || rx[j].repairs is Some by {
        assert(!main_rx(rid)(rx[j]));
    }
}

/// What the operations find among packets and their buffers is the first of its kind.
pub proof fn law_packets_are_found(
    buffers: Seq<(Pt, TxBufferModel)>,
    packets: Seq<PacketModel>,
    ssrc: Ssrc,
    number: SeqNo,
    pt: Pt,
    b: int,
)
    ensures
        first(packets, numbered(number)) == Some(b) <==> packet_at(packets, number, b),
        first(packets, numbered(number)) is None <==> forall|j: int|
            0 <= j < packets.len() ==> (#[trigger] packets[j]).seq_no != Some(number),
        first(buffers, holding(ssrc)) == Some(b) <==> buffer_of_ssrc_at(buffers, ssrc, b),
        first(buffers, holding(ssrc)) is None <==> forall|j: int|
            0 <= j < buffers.len() ==> !some_packet_of((#[trigger] buffers[j]).1.packets, ssrc),
        first(buffers, waiting()) == Some(b) <==> waiting_buffer_at(buffers, b),
        first(buffers, waiting()) is None <==> forall|j: int|
            0 <= j < buffers.len() ==> (#[trigger] buffers[j]).1.next
                >= buffers[j].1.packets.len(),
        first(buffers, buffer_for(pt)) == Some(b) <==> send_buffer_at(buffers, pt, b),
        first(buffers, buffer_for(pt)) is None <==> forall|j: int|
            0 <= j < buffers.len() ==> (#[trigger] buffers[j]).0 != pt,
{
    lemma_first(packets, numbered(number));
    lemma_first(buffers, holding(ssrc));
    lemma_first(buffers, waiting());
    lemma_first(buffers, buffer_for(pt));
    assert forall|j: int| 0 <= j < buffers.len() implies holding(ssrc)(#[trigger] buffers[j])
        == some_packet_of(buffers[j].1.packets, ssrc) by {
        let all = buffers[j].1.packets;
        if some_packet_of(all, ssrc) {
            let i = choose|i: int| 0 <= i < all.len() && (#[trigger] all[i]).ssrc == ssrc;
            assert(buffers[j].1.packets[i].ssrc == ssrc);
        }
    }
    if packet_at(packets, number, b) {
        lemma_first_is(packets, numbered(number), b);
    }
    if buffer_of_ssrc_at(buffers, ssrc, b) {
        lemma_first_is(buffers, holding(ssrc), b);
    }
    if waiting_buffer_at(buffers, b) {
        lemma_first_is(buffers, waiting(), b);
    }
    if send_buffer_at(buffers, pt, b) {
        lemma_first_is(buffers, buffer_for(pt), b);
    }
    assert forall|j: int| 0 <= j < packets.len() && first(packets, numbered(number)) is None implies
        (#[trigger] packets[j]).seq_no != Some(number) by {
        assert(!numbered(number)(packets[j]));
    }
    assert forall|j: int| 0 <= j < buffers.len() && first(buffers, waiting()) is None implies (
    #[trigger] buffers[j]).1.next >= buffers[j].1.packets.len() by {
        assert(!waiting()(buffers[j]));
    }
    assert forall|j: int| 0 <= j < buffers.len() && first(buffers, buffer_for(pt)) is None implies (
    #[trigger] buffers[j]).0 != pt by {
        assert(!buffer_for(pt)(buffers[j]));
    }
}

/// What the operations find among samples and codecs is the first of its kind.
pub proof fn law_samples_and_codecs_are_found(
    buffers: Seq<((Pt, Option<Rid>), RxBufferModel)>,
    params: Seq<CodecParams>,
    pt: Pt,
    rid: Option<Rid>,
    b: int,
)
    ensures
        first(buffers, rx_buffer_for((pt, rid))) == Some(b) <==> receive_buffer_at(
            buffers,
            pt,
            rid,
            b,
        ),
        first(buffers, rx_buffer_for((pt, rid))) is None <==> forall|j: int|
            0 <= j < buffers.len() ==> (#[trigger] buffers[j]).0 != (pt, rid),
        first(buffers, filled()) == Some(b) <==> filled_buffer_at(buffers, b),
        first(buffers, filled()) is None <==> forall|j: int|
            0 <= j < buffers.len() ==> (#[trigger] buffers[j]).1.ready.len() == 0,
        first(params, params_for(pt)) == Some(b) <==> codec_at(params, pt, b),
        first(params, params_for(pt)) is None <==> forall|j: int|
            0 <= j < params.len() ==> (#[trigger] params[j]).pt != pt,
        first(params, params_carrying(pt)) == Some(b) <==> carrier_at(params, pt, b),
        first(params, params_carrying(pt)) is None <==> forall|j: int|
            0 <= j < params.len() ==> (#[trigger] params[j]).pt != pt && params[j].resend != Some(
                pt,
            ),
{
    lemma_first(buffers, rx_buffer_for((pt, rid)));
    lemma_first(buffers, filled());
    lemma_first(params, params_for(pt));
    lemma_first(params, params_carrying(pt));
    if receive_buffer_at(buffers, pt, rid, b) {
        lemma_first_is(buffers, rx_buffer_for((pt, rid)), b);
    }
    if filled_buffer_at(buffers, b) {
        lemma_first_is(buffers, filled(), b);
    }
    if codec_at(params, pt, b) {
        lemma_first_is(params, params_for(pt), b);
    }
    if carrier_at(params, pt, b) {
        lemma_first_is(params, params_carrying(pt), b);
    }
    assert forall|j: int|
        0 <= j < buffers.len() && first(buffers, rx_buffer_for((pt, rid))) is None implies (
    #[trigger] buffers[j]).0 != (pt, rid) by {
        assert(!rx_buffer_for((pt, rid))(buffers[j]));
    }
    assert forall|j: int| 0 <= j < buffers.len() && first(buffers, filled()) is None implies (
    #[trigger] buffers[j]).1.ready.len() == 0 by {
        assert(!filled()(buffers[j]));
    }
    assert forall|j: int| 0 <= j < params.len() && first(params, params_for(pt)) is None implies (
    #[trigger] params[j]).pt != pt by {
        assert(!params_for(pt)(params[j]));
    }
    assert forall|j: int| 0 <= j < params.len() && first(params, params_carrying(pt)) is None implies
        (#[trigger] params[j]).pt != pt && params[j].resend != Some(pt) by {
        assert(!params_carrying(pt)(params[j]));
    }
}

} // verus!
