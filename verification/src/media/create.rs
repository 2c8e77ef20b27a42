//! New m-lines.

use super::sources::added_tx;
use super::{Media, MediaKind, MediaModel};
use crate::direction::Direction;
use crate::ext::Extensions;
use crate::ids::{Mid, Ssrc};
use crate::sdp::{AddMedia, MediaLine, Msid, MsidModel};
use crate::sender::SenderSource;
use crate::time::{already_happened, Instant};
use std::collections::VecDeque;
use vstd::prelude::*;

verus! {

/// The identifiers of an m-line, which the session draws at random.
#[derive(Debug)]
pub struct Identity {
    pub mid: Mid,
    pub cname: String,
    pub msid: Msid,
}

impl MediaModel {
    /// An m-line with nothing negotiated: video, to be sent and received.
    pub open spec fn blank(mid: Mid, cname: Seq<char>, msid: MsidModel) -> MediaModel {
        MediaModel {
            mid,
            index: 0,
            cname,
            msid,
            kind: MediaKind::Video,
            exts: Map::empty(),
            dir: Direction::SendRecv,
            params: Seq::empty(),
            sources_rx: Seq::empty(),
            sources_tx: Seq::empty(),
            last_cleanup: Instant { nanos: 0 },
            last_regular_feedback: Instant { nanos: 0 },
            buffers_rx: Seq::empty(),
            buffers_tx: Seq::empty(),
            resends: Seq::empty(),
            need_open_event: true,
            keyframe_request_rx: None,
            keyframe_request_tx: None,
            simulcast: None,
        }
    }
}

/// The senders after several SSRCs were added, one after the other, each with the SSRC that it
/// repairs.
pub open spec fn added_all_tx(tx: Seq<SenderSource>, ssrcs: Seq<(Ssrc, Option<Ssrc>)>) -> Seq<
    SenderSource,
>
    decreases ssrcs.len(),
{
    if ssrcs.len() == 0 {
        tx
    } else {
        added_tx(added_all_tx(tx, ssrcs.drop_last()), ssrcs.last().0, ssrcs.last().1)
    }
}

impl Media {
    /// An m-line with nothing negotiated: video, to be sent and received.
    pub fn new(id: Identity) -> (r: Media)
        ensures
            r@ == MediaModel::blank(id.mid, id.cname@, id.msid@),
            r@.wf(),
    {
        let r = Media {
            mid: id.mid,
            index: 0,
            cname: id.cname,
            msid: id.msid,
            kind: MediaKind::Video,
            exts: Extensions::new(),
            dir: Direction::SendRecv,
            params: Vec::new(),
            sources_rx: Vec::new(),
            sources_tx: Vec::new(),
            last_cleanup: already_happened(),
            last_regular_feedback: already_happened(),
            buffers_rx: Vec::new(),
            buffers_tx: Vec::new(),
            resends: VecDeque::new(),
            need_open_event: true,
            keyframe_request_rx: None,
            keyframe_request_tx: None,
            simulcast: None,
        };
        assert(r@ =~= MediaModel::blank(id.mid, id.cname@, id.msid@));
        r
    }

    /// The m-line that the other side described. Of the identity, the mid is the description's.
    pub fn from_remote_media_line(
        l: &MediaLine,
        index: usize,
        exts: Extensions,
        id: Identity,
    ) -> (r: Media)
        requires
            l.typ is Audio || l.typ is Video,
        ensures
            r@ == (MediaModel {
                index,
                kind: if l.typ is Audio {
                    MediaKind::Audio
                } else {
                    MediaKind::Video
                },
                exts: exts@,
                dir: l.dir.inverted(),
                params: l.rtp_params@,
                ..MediaModel::blank(l.mid, id.cname@, id.msid@)
            }),
            r@.wf(),
    {
        let mut r = Media::new(Identity { mid: l.mid, cname: id.cname, msid: id.msid });
        r.index = index;
        r.kind = MediaKind::from(l.typ);
        r.exts = exts;
        // The other side's direction is the reverse.
        r.dir = l.dir.invert();
        r.params = l.rtp_params.clone();
        assert(r@.params =~= l.rtp_params@);
        r
    }

    /// The m-line that is offered to the other side.
    pub fn from_add_media(a: AddMedia, exts: Extensions) -> (r: Media)
        ensures
            r@ == (MediaModel {
                index: a.index,
                kind: a.kind,
                exts: exts@,
                dir: a.dir,
                params: a.params@,
                sources_tx: added_all_tx(Seq::empty(), a.ssrcs@),
                ..MediaModel::blank(a.mid, a.cname@, a.msid@)
            }),
            r@.wf(),
    {
        let mut r = Media::new(Identity { mid: a.mid, cname: a.cname, msid: a.msid });
        r.index = a.index;
        r.kind = a.kind;
        r.exts = exts;
        r.dir = a.dir;
        r.params = a.params;
        let ghost before = r@;
        let ssrcs = a.ssrcs;
        let mut i: usize = 0;
        while i < ssrcs.len()
            invariant
                i <= ssrcs@.len(),
                before.sources_tx == Seq::<SenderSource>::empty(),
                r@ == (MediaModel {
                    sources_tx: added_all_tx(Seq::empty(), ssrcs@.take(i as int)),
                    ..before
                }),
                r@.wf(),
            decreases ssrcs@.len() - i,
        {
            let (ssrc, repairs) = ssrcs[i];
            r.maybe_add_source_tx(ssrc, repairs);
            assert(ssrcs@.take(i + 1).drop_last() =~= ssrcs@.take(i as int));
            i = i + 1;
        }
        assert(ssrcs@.take(i as int) =~= ssrcs@);
        r
    }
}

} // verus!
