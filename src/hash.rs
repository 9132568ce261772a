use vstd::prelude::*;

verus! {

#[verifier::external_type_specification]
#[verifier::external_body]
pub struct ExHasher(crc32fast::Hasher);

/// The bytes a crc32fast hasher has been fed since it was made.
pub uninterp spec fn crc32_input(h: crc32fast::Hasher) -> Seq<u8>;

/// The CRC-32 (IEEE) checksum of `data`.
pub uninterp spec fn crc32_of(data: Seq<u8>) -> u32;

/// Relies on crc32fast's `Hasher::new`: a hasher that has been fed nothing.
pub assume_specification[ crc32fast::Hasher::new ]() -> (r: crc32fast::Hasher)
    ensures
        crc32_input(r) == Seq::<u8>::empty(),
;

/// Relies on crc32fast's `Hasher::update`: feeds `buf` after what came before.
/// Its byte counter is a `u64`, which the `requires` keeps from overflowing.
pub assume_specification[ crc32fast::Hasher::update ](h: &mut crc32fast::Hasher, buf: &[u8])
    requires
        crc32_input(*old(h)).len() + buf@.len() <= u64::MAX,
    ensures
        crc32_input(*final(h)) == crc32_input(*old(h)) + buf@,
;

/// Relies on crc32fast's `Hasher::finalize`: the CRC-32 of all bytes fed.
pub assume_specification[ crc32fast::Hasher::finalize ](h: crc32fast::Hasher) -> (r: u32)
    ensures
        r == crc32_of(crc32_input(h)),
;

/// A streaming CRC-32 over data that arrives in pieces (a file read in
/// fixed-size buffers).
pub struct ChecksumStream {
    hasher: crc32fast::Hasher,
    total: u64,
}

impl View for ChecksumStream {
    type V = Seq<u8>;

    closed spec fn view(&self) -> Seq<u8> {
        crc32_input(self.hasher)
    }
}

impl ChecksumStream {
    /// `total` counts the bytes fed.
    pub closed spec fn wf(&self) -> bool {
        self.total as nat == crc32_input(self.hasher).len()
    }

    pub fn new() -> (r: ChecksumStream)
        ensures
            r@ == Seq::<u8>::empty(),
            r.wf(),
    {
        ChecksumStream { hasher: crc32fast::Hasher::new(), total: 0 }
    }

    /// Feeds one buffer and returns its length, for progress reports; feeds
    /// nothing and returns `None` if the byte count would pass `u64::MAX`.
    pub fn feed(&mut self, chunk: &[u8]) -> (n: Option<u64>)
        requires
            old(self).wf(),
        ensures
            final(self).wf(),
            old(self)@.len() + chunk@.len() <= u64::MAX ==> n == Some(chunk@.len() as u64) && final(self)@
                == old(self)@ + chunk@,
            old(self)@.len() + chunk@.len() > u64::MAX ==> n is None && final(self)@ == old(self)@,
    {
        let len: usize = chunk.len();
        assert(len <= u64::MAX);
        if self.total > u64::MAX - len as u64 {
            return None;
        }
        self.hasher.update(chunk);
        self.total = self.total + len as u64;
        Some(len as u64)
    }

    /// The checksum of everything fed.
    pub fn finish(self) -> (r: u32)
        ensures
            r == crc32_of(self@),
    {
        self.hasher.finalize()
    }
}

/// The checksum of one buffer.
pub fn checksum_of(data: &[u8]) -> (r: u32)
    ensures
        r == crc32_of(data@),
{
    let mut s = ChecksumStream::new();
    let n: usize = data.len();
    assert(n <= u64::MAX);
    let _ = s.feed(data);
    assert(Seq::<u8>::empty() + data@ =~= data@);
    s.finish()
}

} // verus!
