use vstd::prelude::*;

verus! {

/// How many bytes one read asks for at most.
pub const READ_CHUNK: usize = 512;

/// How many bytes of one request are kept at most; reading stops there.
pub const MAX_REQUEST_BYTES: usize = 8224;

/// Collects the bytes of one request, chunk by chunk, up to a fixed cap.
///
/// The caller asks `wanted()` how many bytes to read next, reads at most that
/// many from the connection and hands them to `push`, until `push` says that
/// reading is over: the peer closed (an empty read) or the cap was reached.
pub struct RequestReader {
    data: Vec<u8>,
    finished: bool,
}

impl RequestReader {
    /// The bytes received so far.
    pub closed spec fn received(&self) -> Seq<u8> {
        self.data@
    }

    /// Whether reading is over.
    pub closed spec fn is_finished(&self) -> bool {
        self.finished
    }

    /// The reader never holds more than the cap, and is finished once it
    /// holds that much.
    pub closed spec fn wf(&self) -> bool {
        &&& self.data@.len() <= MAX_REQUEST_BYTES
        &&& self.data@.len() == MAX_REQUEST_BYTES ==> self.finished
    }

    /// How many bytes the next read may ask for, in a given state.
    pub open spec fn wanted_spec(received: Seq<u8>, finished: bool) -> nat {
        if finished {
            0
        } else if MAX_REQUEST_BYTES - received.len() < READ_CHUNK {
            (MAX_REQUEST_BYTES - received.len()) as nat
        } else {
            READ_CHUNK as nat
        }
    }

    pub fn new() -> (r: Self)
        ensures
            r.wf(),
            r.received() == Seq::<u8>::empty(),
            !r.is_finished(),
    {
        RequestReader { data: Vec::with_capacity(READ_CHUNK), finished: false }
    }

    /// The size of the next read: a chunk, or less when the cap is near; zero
    /// once reading is over.
    pub fn wanted(&self) -> (r: usize)
        requires
            self.wf(),
        ensures
            r == Self::wanted_spec(self.received(), self.is_finished()),
    {
        if self.finished {
            0
        } else if MAX_REQUEST_BYTES - self.data.len() < READ_CHUNK {
            MAX_REQUEST_BYTES - self.data.len()
        } else {
            READ_CHUNK
        }
    }

    pub fn is_done(&self) -> (r: bool)
        ensures
            r == self.is_finished(),
    {
        self.finished
    }

    /// Takes the bytes of one read. An empty chunk means that the peer closed.
    /// Returns whether more should be read.
    pub fn push(&mut self, chunk: &[u8]) -> (more: bool)
        requires
            old(self).wf(),
            !old(self).is_finished(),
            chunk@.len() <= Self::wanted_spec(old(self).received(), false),
        ensures
            final(self).wf(),
            final(self).received() == old(self).received() + chunk@,
            final(self).is_finished() == (chunk@.len() == 0 || final(self).received().len()
                == MAX_REQUEST_BYTES),
            more == !final(self).is_finished(),
    {
        let ghost before = self.data@;
        let mut i: usize = 0;
        while i < chunk.len()
            invariant
                i <= chunk@.len(),
                self.data@ == before + chunk@.subrange(0, i as int),
                before.len() + chunk@.len() <= MAX_REQUEST_BYTES,
            decreases chunk@.len() - i,
        {
            self.data.push(chunk[i]);
            i = i + 1;
            assert(self.data@ =~= before + chunk@.subrange(0, i as int));
        }
        assert(chunk@.subrange(0, chunk@.len() as int) =~= chunk@);
        self.finished = chunk.len() == 0 || self.data.len() == MAX_REQUEST_BYTES;
        !self.finished
    }

    /// The bytes received, once reading is over or given up.
    pub fn into_bytes(self) -> (r: Vec<u8>)
        ensures
            r@ == self.received(),
    {
        self.data
    }
}

/// A reader never holds more than the cap, and one that reached the cap asks
/// for nothing more: however long the stream, reading stops there.
pub proof fn lemma_reading_stops_at_cap(r: RequestReader)
    requires
        r.wf(),
    ensures
        r.received().len() <= MAX_REQUEST_BYTES,
        r.received().len() == MAX_REQUEST_BYTES ==> r.is_finished()
            && RequestReader::wanted_spec(r.received(), r.is_finished()) == 0,
        r.received().len() + RequestReader::wanted_spec(r.received(), r.is_finished())
            <= MAX_REQUEST_BYTES,
{
}

} // verus!
