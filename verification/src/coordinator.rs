//! Proposal content coordination.
//!
//! A proposal travels on two lanes: the timely protocol messages (the
//! init header and the final block identifier) and the bulk content,
//! streamed as chunks.  The stream here is the validator-side buffer for
//! one proposal: every chunk accepted for the proposal's (height, round)
//! is handed on in arrival order, a chunk of any other proposal is turned
//! away, and once the sender signals end-of-content the stream closes and
//! accepts nothing more.  Waiting on channels happens outside; this type
//! carries the ordering guarantee.

use vstd::prelude::*;

use crate::types::{Height, Round};

verus! {

/// The chunk sequences a stream holds, each chunk as its byte sequence.
pub open spec fn chunk_views(chunks: Seq<Vec<u8>>) -> Seq<Seq<u8>> {
    Seq::new(chunks.len(), |i: int| chunks[i]@)
}

/// The ordered content of one proposal, identified by (height, round).
pub struct ProposalStream {
    /// The height of the proposal the stream belongs to.
    pub height: Height,
    /// The round of the proposal the stream belongs to.
    pub round: Round,
    /// Chunks accepted so far, in arrival order.
    pub chunks: Vec<Vec<u8>>,
    /// Whether end-of-content has been seen.
    pub closed: bool,
}

impl ProposalStream {
    /// The content forwarded so far, chunk by chunk, in arrival order.
    pub open spec fn contents(self) -> Seq<Seq<u8>> {
        chunk_views(self.chunks@)
    }

    /// An empty, open stream for the proposal at (height, round).
    pub fn new(height: Height, round: Round) -> (s: ProposalStream)
        ensures
            s.height == height,
            s.round == round,
            s.contents() == Seq::<Seq<u8>>::empty(),
            !s.closed,
    {
        let s = ProposalStream { height, round, chunks: Vec::new(), closed: false };
        proof {
            assert(s.contents() =~= Seq::<Seq<u8>>::empty());
        }
        s
    }

    /// Appends one chunk of this proposal's content.
    pub fn receive_chunk(&mut self, chunk: Vec<u8>)
        requires
            !old(self).closed,
        ensures
            final(self).contents() == old(self).contents().push(chunk@),
            final(self).height == old(self).height,
            final(self).round == old(self).round,
            !final(self).closed,
    {
        self.chunks.push(chunk);
        proof {
            assert(final(self).contents() =~= old(self).contents().push(chunk@));
        }
    }

    /// Accepts a chunk only when it belongs to this stream's proposal:
    /// content of a concurrent proposal for another (height, round) never
    /// interleaves into this one.
    pub fn accept_chunk(&mut self, height: Height, round: Round, chunk: Vec<u8>) -> (accepted:
        bool)
        requires
            !old(self).closed,
        ensures
            accepted == (height == old(self).height && round == old(self).round),
            accepted ==> final(self).contents() == old(self).contents().push(chunk@),
            !accepted ==> *final(self) == *old(self),
            final(self).height == old(self).height,
            final(self).round == old(self).round,
            !final(self).closed,
    {
        if height == self.height && round == self.round {
            self.receive_chunk(chunk);
            true
        } else {
            false
        }
    }

    /// Records end-of-content; the forwarded content is complete and the
    /// stream accepts nothing more.
    pub fn close(&mut self)
        ensures
            final(self).contents() == old(self).contents(),
            final(self).height == old(self).height,
            final(self).round == old(self).round,
            final(self).closed,
    {
        self.closed = true;
    }

    /// Forwards a batch of chunks, in the order given.
    ///
    /// Law: content ordering.  Whatever was forwarded before, after this
    /// call the stream holds exactly the old content followed by the
    /// batch, chunk for chunk in the batch's order.
    pub fn forward_content(&mut self, chunks: Vec<Vec<u8>>)
        requires
            !old(self).closed,
        ensures
            final(self).contents() == old(self).contents() + chunk_views(chunks@),
            final(self).height == old(self).height,
            final(self).round == old(self).round,
            !final(self).closed,
    {
        let ghost orig = chunks@;
        let ghost base = self.contents();
        let mut rest = chunks;
        while rest.len() > 0
            invariant
                !self.closed,
                self.height == old(self).height,
                self.round == old(self).round,
                orig.len() >= rest@.len(),
                rest@ =~= orig.subrange(orig.len() - rest@.len(), orig.len() as int),
                self.contents() =~= base + chunk_views(
                    orig.subrange(0, orig.len() - rest@.len()),
                ),
            decreases rest@.len(),
        {
            let ghost k = orig.len() - rest@.len();
            let c = rest.remove(0);
            proof {
                assert(c == orig[k]);
                assert(rest@ =~= orig.subrange(k + 1, orig.len() as int));
            }
            self.receive_chunk(c);
            proof {
                assert(self.contents() =~= base + chunk_views(orig.subrange(0, k + 1)));
            }
        }
        proof {
            assert(orig.subrange(0, orig.len() as int) =~= orig);
            assert(final(self).contents() =~= base + chunk_views(orig));
        }
    }
}

} // verus!
