//! The exchange hash: the digest of everything that the two sides have said
//! to agree on keys.

use vstd::prelude::*;
use crate::algorithm::kex::KexHash;
use crate::crypto::{digest, hash};
use crate::namelist::views;
use crate::wire::{mpint_bytes, put_bytes, put_mpint, put_string, string_bytes};

verus! {

/// The bytes of `chunks`, one after the other.
pub open spec fn flatten(chunks: Seq<Seq<u8>>) -> Seq<u8>
    decreases chunks.len(),
{
    if chunks.len() == 0 {
        Seq::empty()
    } else {
        flatten(chunks.drop_last()) + chunks.last()
    }
}

/// What a transcript that holds `start` holds after it has absorbed `chunks`
/// one by one.
pub open spec fn absorbed(start: Seq<u8>, chunks: Seq<Seq<u8>>) -> Seq<u8>
    decreases chunks.len(),
{
    if chunks.len() == 0 {
        start
    } else {
        absorbed(start, chunks.drop_last()) + chunks.last()
    }
}

/// Absorbing chunks one by one is absorbing their bytes at once.
pub proof fn lemma_absorbed(start: Seq<u8>, chunks: Seq<Seq<u8>>)
    ensures
        absorbed(start, chunks) == start + flatten(chunks),
    decreases chunks.len(),
{
    if chunks.len() == 0 {
        assert(start + flatten(chunks) =~= start);
    } else {
        lemma_absorbed(start, chunks.drop_last());
        assert(start + flatten(chunks.drop_last()) + chunks.last() =~= start + flatten(chunks));
    }
}

/// The digest of a transcript does not depend on how its bytes were cut into
/// chunks: two runs of chunks with the same bytes give the same digest.
pub proof fn lemma_digest_ignores_chunking(alg: KexHash, a: Seq<Seq<u8>>, b: Seq<Seq<u8>>)
    requires
        flatten(a) == flatten(b),
    ensures
        digest(alg, absorbed(Seq::empty(), a)) == digest(alg, absorbed(Seq::empty(), b)),
{
    lemma_absorbed(Seq::empty(), a);
    lemma_absorbed(Seq::empty(), b);
}

/// The bytes that a digest is taken of, gathered piece by piece.
pub struct Transcript {
    bytes: Vec<u8>,
}

impl View for Transcript {
    type V = Seq<u8>;

    closed spec fn view(&self) -> Seq<u8> {
        self.bytes@
    }
}

impl Transcript {
    /// A transcript that holds nothing.
    pub fn new() -> (r: Transcript)
        ensures
            r@ == Seq::<u8>::empty(),
    {
        Transcript { bytes: Vec::new() }
    }

    /// Takes in the bytes of `chunk`.
    pub fn absorb(&mut self, chunk: &[u8])
        ensures
            final(self)@ == old(self)@ + chunk@,
    {
        put_bytes(&mut self.bytes, chunk);
    }

    /// Takes in the chunks one by one.
    pub fn absorb_all(&mut self, chunks: &Vec<Vec<u8>>)
        ensures
            final(self)@ == absorbed(old(self)@, views(chunks@)),
    {
        let mut i: usize = 0;
        while i < chunks.len()
            invariant
                i <= chunks@.len(),
                self@ == absorbed(old(self)@, views(chunks@).take(i as int)),
            decreases chunks@.len() - i,
        {
            assert(views(chunks@).take(i + 1).drop_last() =~= views(chunks@).take(i as int));
            self.absorb(chunks[i].as_slice());
            i += 1;
        }
        assert(views(chunks@).take(i as int) =~= views(chunks@));
    }

    /// Takes in `s` as a string: length, then bytes.
    pub fn absorb_string(&mut self, s: &[u8])
        requires
            s@.len() <= u32::MAX,
        ensures
            final(self)@ == old(self)@ + string_bytes(s@),
    {
        put_string(&mut self.bytes, s);
    }

    /// Takes in the number of magnitude `magnitude` as an `mpint`.
    pub fn absorb_mpint(&mut self, magnitude: &[u8])
        requires
            magnitude@.len() < u32::MAX,
        ensures
            final(self)@ == old(self)@ + mpint_bytes(magnitude@),
    {
        put_mpint(&mut self.bytes, magnitude);
    }

    /// The digest of what was taken in.
    pub fn digest(&self, alg: KexHash) -> (r: Vec<u8>)
        ensures
            r@ == digest(alg, self@),
            r@.len() == alg.spec_size(),
    {
        hash(alg, self.bytes.as_slice())
    }
}

/// What the two sides have said in a key exchange.
pub struct Exchange {
    /// The client's identification string, without the line end.
    pub client_id: Vec<u8>,
    /// The server's identification string, without the line end.
    pub server_id: Vec<u8>,
    /// The payload of the client's algorithm proposal.
    pub client_kexinit: Vec<u8>,
    /// The payload of the server's algorithm proposal.
    pub server_kexinit: Vec<u8>,
    /// The server's public host key.
    pub host_key: Vec<u8>,
    /// What the key exchange algorithm adds before the public keys: nothing
    /// but where the server proposes the group, and there the sizes that the
    /// client asked for and the group, as they stood in the messages.
    pub prelude: Vec<u8>,
    /// The client's ephemeral public key.
    pub client_public: Vec<u8>,
    /// The server's ephemeral public key.
    pub server_public: Vec<u8>,
    /// The magnitude of the shared secret.
    pub secret: Vec<u8>,
}

impl Exchange {
    /// Whether every part is short enough for its length prefix.
    pub open spec fn wf(self) -> bool {
        &&& self.client_id@.len() <= u32::MAX
        &&& self.server_id@.len() <= u32::MAX
        &&& self.client_kexinit@.len() <= u32::MAX
        &&& self.server_kexinit@.len() <= u32::MAX
        &&& self.host_key@.len() <= u32::MAX
        &&& self.client_public@.len() <= u32::MAX
        &&& self.server_public@.len() <= u32::MAX
        &&& self.secret@.len() < u32::MAX
    }

    /// The bytes that the exchange hash is taken of: the two identification
    /// strings, the two proposals and the host key as strings, what the
    /// algorithm adds, the two ephemeral public keys as strings, then the
    /// shared secret as an `mpint`.
    pub open spec fn transcript(self) -> Seq<u8> {
        string_bytes(self.client_id@) + string_bytes(self.server_id@) + string_bytes(
            self.client_kexinit@,
        ) + string_bytes(self.server_kexinit@) + string_bytes(self.host_key@) + self.prelude@
            + string_bytes(self.client_public@) + string_bytes(self.server_public@) + mpint_bytes(
            self.secret@,
        )
    }

    /// The exchange hash under the hash function `alg`.
    pub open spec fn spec_hash(self, alg: KexHash) -> Seq<u8> {
        digest(alg, self.transcript())
    }

    /// The exchange hash under the hash function `alg`.
    pub fn hash(&self, alg: KexHash) -> (r: Vec<u8>)
        requires
            self.wf(),
        ensures
            r@ == self.spec_hash(alg),
            r@.len() == alg.spec_size(),
    {
        let mut t = Transcript::new();
        t.absorb_string(self.client_id.as_slice());
        t.absorb_string(self.server_id.as_slice());
        t.absorb_string(self.client_kexinit.as_slice());
        t.absorb_string(self.server_kexinit.as_slice());
        t.absorb_string(self.host_key.as_slice());
        t.absorb(self.prelude.as_slice());
        t.absorb_string(self.client_public.as_slice());
        t.absorb_string(self.server_public.as_slice());
        t.absorb_mpint(self.secret.as_slice());
        assert(t@ =~= self.transcript());
        t.digest(alg)
    }
}

} // verus!
