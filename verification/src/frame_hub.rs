//! The latest encoded frame or audio packet that stream clients wait for:
//! each publication replaces the previous one and moves the sequence number
//! on, and a client that has seen sequence `s` takes the payload once a later
//! one is there.

use vstd::prelude::*;

verus! {

/// What the hub holds: how many payloads have been published, and the last.
pub struct LatestModel {
    pub sequence: u64,
    pub payload: Option<Seq<u8>>,
}

/// The hub after publishing `payload`.
pub open spec fn after_publish(m: LatestModel, payload: Seq<u8>) -> LatestModel {
    LatestModel { sequence: (m.sequence + 1) as u64, payload: Some(payload) }
}

/// What a client that has seen sequence `last` takes: the sequence number
/// and payload, once a later payload is there.
pub open spec fn delivered_after(m: LatestModel, last: u64) -> Option<(u64, Seq<u8>)> {
    match m.payload {
        Some(p) => if m.sequence > last {
            Some((m.sequence, p))
        } else {
            None
        },
        None => None,
    }
}

/// The latest published payload.
pub struct LatestPublished {
    sequence: u64,
    payload: Option<Vec<u8>>,
}

impl View for LatestPublished {
    type V = LatestModel;

    closed spec fn view(&self) -> LatestModel {
        LatestModel {
            sequence: self.sequence,
            payload: match &self.payload {
                Some(p) => Some(p@),
                None => None,
            },
        }
    }
}

impl LatestPublished {
    /// Nothing published yet.
    pub fn new() -> (h: Self)
        ensures
            h@ == (LatestModel { sequence: 0, payload: None }),
    {
        LatestPublished { sequence: 0, payload: None }
    }

    /// The sequence number of the latest payload (0 before the first).
    pub fn sequence(&self) -> (s: u64)
        ensures
            s == self@.sequence,
    {
        self.sequence
    }

    /// Replaces the payload and moves the sequence number on.
    pub fn publish(&mut self, payload: Vec<u8>)
        requires
            old(self)@.sequence < u64::MAX,
        ensures
            final(self)@ == after_publish(old(self)@, payload@),
    {
        self.sequence = self.sequence + 1;
        self.payload = Some(payload);
    }

    /// The sequence number and payload for a client that has seen sequence
    /// `last_sequence`, if a later payload is there.
    pub fn after(&self, last_sequence: u64) -> (r: Option<(u64, Vec<u8>)>)
        ensures
            match delivered_after(self@, last_sequence) {
                Some((s, p)) => r matches Some((s2, p2)) && s2 == s && p2@ == p,
                None => r is None,
            },
    {
        match &self.payload {
            Some(p) => if self.sequence > last_sequence {
                Some((self.sequence, p.clone()))
            } else {
                None
            },
            None => None,
        }
    }
}

/// A client that has seen any earlier sequence number takes what was just
/// published; one that has seen the new sequence number waits.
pub proof fn lemma_published_is_delivered(m: LatestModel, payload: Seq<u8>, last: u64)
    requires
        m.sequence < u64::MAX,
    ensures
        last <= m.sequence ==> delivered_after(after_publish(m, payload), last) == Some(
            ((m.sequence + 1) as u64, payload),
        ),
        last >= m.sequence + 1 ==> delivered_after(after_publish(m, payload), last) is None,
{
}

} // verus!
