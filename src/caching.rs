use vstd::prelude::*;

verus! {

/// The bookkeeping of a stream decorator that hands its bytes on and keeps
/// a compressed copy, while that copy stays within a bound. The compressor
/// itself runs outside; each step reports how many bytes went through and
/// what compressed output came of them.
pub struct CachingReader {
    max_blob_len: u64,
    uncompressed: u64,
    compressed: Option<Vec<u8>>,
    finished: bool,
    produced: Ghost<Seq<u8>>,
}

impl CachingReader {
    /// The bound on the stored compressed copy.
    pub closed spec fn bound(&self) -> nat {
        self.max_blob_len as nat
    }

    /// Uncompressed bytes handed on so far.
    pub closed spec fn passed(&self) -> nat {
        self.uncompressed as nat
    }

    /// All compressed output reported so far, kept or not.
    pub closed spec fn produced(&self) -> Seq<u8> {
        self.produced@
    }

    /// End of stream has been seen.
    pub closed spec fn is_finished(&self) -> bool {
        self.finished
    }

    /// The copy is kept exactly while the output stays within the bound.
    pub closed spec fn wf(&self) -> bool {
        match self.compressed {
            Some(b) => b@ == self.produced@ && self.produced@.len() <= self.max_blob_len,
            None => self.produced@.len() > self.max_blob_len,
        }
    }

    pub fn new(max_blob_len: u64) -> (r: CachingReader)
        ensures
            r.wf(),
            r.bound() == max_blob_len,
            r.passed() == 0,
            r.produced() == Seq::<u8>::empty(),
            !r.is_finished(),
    {
        CachingReader {
            max_blob_len,
            uncompressed: 0,
            compressed: Some(Vec::new()),
            finished: false,
            produced: Ghost(Seq::empty()),
        }
    }

    fn absorb(&mut self, chunk: &[u8])
        requires
            old(self).wf(),
        ensures
            final(self).wf(),
            final(self).produced@ == old(self).produced@ + chunk@,
            final(self).max_blob_len == old(self).max_blob_len,
            final(self).uncompressed == old(self).uncompressed,
            final(self).finished == old(self).finished,
    {
        self.produced = Ghost(self.produced@ + chunk@);
        let keep = match &self.compressed {
            Some(b) => (chunk.len() as u64) <= self.max_blob_len - (b.len() as u64),
            None => false,
        };
        if keep {
            let mut b = self.compressed.take().unwrap();
            let ghost start = b@;
            let mut i: usize = 0;
            while i < chunk.len()
                invariant
                    i <= chunk@.len(),
                    b@ == start + chunk@.take(i as int),
                decreases chunk@.len() - i,
            {
                b.push(chunk[i]);
                i = i + 1;
                assert(b@ =~= start + chunk@.take(i as int));
            }
            assert(chunk@.take(chunk@.len() as int) =~= chunk@);
            self.compressed = Some(b);
        } else {
            self.compressed = None;
        }
    }

    /// Records that `n` more bytes were handed on, and the compressed output
    /// they gave. Nothing is stored while the stream is still running.
    pub fn on_data(&mut self, n: u64, compressed_chunk: &[u8])
        requires
            old(self).wf(),
            !old(self).is_finished(),
            old(self).passed() + n <= u64::MAX,
        ensures
            final(self).wf(),
            !final(self).is_finished(),
            final(self).bound() == old(self).bound(),
            final(self).passed() == old(self).passed() + n,
            final(self).produced() == old(self).produced() + compressed_chunk@,
    {
        self.absorb(compressed_chunk);
        self.uncompressed = self.uncompressed + n;
    }

    /// Records the compressor's last output at end of stream, and gives what
    /// the completion hook receives: the uncompressed length, and the whole
    /// compressed output where it stayed within the bound.
    pub fn finish(&mut self, tail: &[u8]) -> (r: (u64, Option<Vec<u8>>))
        requires
            old(self).wf(),
            !old(self).is_finished(),
        ensures
            final(self).is_finished(),
            final(self).produced() == old(self).produced() + tail@,
            r.0 == old(self).passed(),
            r.1 is Some <==> final(self).produced().len() <= old(self).bound(),
            r.1 matches Some(b) ==> b@ == final(self).produced(),
    {
        self.absorb(tail);
        self.finished = true;
        (self.uncompressed, self.compressed.take())
    }
}

} // verus!
