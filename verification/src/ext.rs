//! RTP header extensions.

use crate::ids::{Mid, Rid};
use crate::time::Instant;
use vstd::prelude::*;

verus! {

/// Kinds of RTP header extensions.
#[derive(Debug, Clone, Copy, PartialEq, Eq, Hash, Structural)]
pub enum Extension {
    AbsoluteSendTime,
    TransportSequenceNumber,
    RtpMid,
    RtpStreamId,
    RepairedRtpStreamId,
    /// Another kind, under the number that the session gives it.
    Other(u16),
}

/// One `extmap` line: the extension that a header id stands for.
#[derive(Debug, Clone, Copy, PartialEq, Eq, Hash)]
pub struct ExtMap {
    pub id: u8,
    pub ext: Extension,
}

/// The values of the header extensions of one packet.
#[derive(Debug, Clone, Copy, PartialEq, Eq, Hash)]
pub struct ExtensionValues {
    pub abs_send_time: Option<Instant>,
    pub mid: Option<Mid>,
    pub transport_cc: Option<u16>,
    pub rid: Option<Rid>,
    pub rid_repair: Option<Rid>,
}

/// The extensions in use, by header id.
#[derive(Debug)]
pub struct Extensions {
    slots: Vec<Option<Extension>>,
}

/// The mappings of the `extmap` lines, where of two lines with one id the later counts.
pub open spec fn mapped(lines: Seq<ExtMap>) -> Map<u8, Extension>
    decreases lines.len(),
{
    if lines.len() == 0 {
        Map::empty()
    } else {
        mapped(lines.drop_last()).insert(lines.last().id, lines.last().ext)
    }
}

/// The mappings that `a` and `b` agree on.
pub open spec fn same_mappings(a: Map<u8, Extension>, b: Map<u8, Extension>) -> Map<
    u8,
    Extension,
> {
    Map::new(
        |id: u8| a.contains_key(id) && b.contains_key(id) && a[id] == b[id],
        |id: u8| a[id],
    )
}

impl View for Extensions {
    type V = Map<u8, Extension>;

    closed spec fn view(&self) -> Map<u8, Extension> {
        Map::new(
            |id: u8| id < self.slots@.len() && self.slots@[id as int] is Some,
            |id: u8| self.slots@[id as int]->0,
        )
    }
}

impl Extensions {
    /// No extension at all.
    pub fn new() -> (r: Extensions)
        ensures
            r@ == Map::<u8, Extension>::empty(),
    {
        Extensions { slots: Vec::new() }
    }

    /// The extension under `id`.
    pub fn get(&self, id: u8) -> (r: Option<Extension>)
        ensures
            r == (if self@.contains_key(id) {
                Some(self@[id])
            } else {
                None
            }),
    {
        if (id as usize) < self.slots.len() {
            self.slots[id as usize]
        } else {
            None
        }
    }

    /// Lets the id of the line stand for its extension.
    pub fn set_mapping(&mut self, x: &ExtMap)
        ensures
            final(self)@ == old(self)@.insert(x.id, x.ext),
    {
        while self.slots.len() <= x.id as usize
            invariant
                self@ == old(self)@,
            decreases x.id + 1 - self.slots.len(),
        {
            self.slots.push(None);
            assert(self@ =~= old(self)@);
        }
        let i: usize = x.id as usize;
        self.slots.set(i, Some(x.ext));
        assert(self@ =~= old(self)@.insert(x.id, x.ext));
    }

    /// Keeps the mappings that `other` has too.
    pub fn keep_same(&mut self, other: &Extensions)
        ensures
            final(self)@ == same_mappings(old(self)@, other@),
    {
        let ghost before = self.slots@;
        let mut i: usize = 0;
        while i < self.slots.len() && i < 256
            invariant
                0 <= i <= 256,
                i <= self.slots@.len() == before.len(),
                before == old(self).slots@,
                forall|j: int| i <= j < before.len() ==> self.slots@[j] == #[trigger] before[j],
                forall|j: int|
                    #![trigger self.slots@[j]]
                    0 <= j < i ==> self.slots@[j] == (if other@.contains_key(j as u8) && before[j]
                        == Some(other@[j as u8]) {
                        before[j]
                    } else {
                        None
                    }),
            decreases self.slots@.len() - i,
        {
            let theirs = other.get(i as u8);
            if self.slots[i] != theirs {
                self.slots.set(i, None);
            }
            i = i + 1;
        }
        assert(self@ =~= same_mappings(old(self)@, other@));
    }
}

} // verus!
