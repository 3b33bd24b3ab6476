//! Encryption of a byte stream piece by piece: each call starts from the
//! initialisation vector that the piece before it left behind.

use vstd::prelude::*;
use crate::algorithm::{Algorithm, Cipher};
use crate::algorithm::cipher::Mode;
use crate::crypto::{cipher_decrypt, cipher_encrypt, cipher_takes, decrypted, encrypted};
use crate::wire::copy_range;

verus! {

/// Whether `key` and `iv` have the sizes that `cipher` asks for.
pub open spec fn keyed(cipher: Cipher, key: Seq<u8>, iv: Seq<u8>) -> bool {
    key.len() == cipher.spec_key_size() && iv.len() == cipher.spec_iv_size()
}

/// Whether `n` bytes are a whole number of blocks of `cipher`.
pub open spec fn whole_blocks(cipher: Cipher, n: nat) -> bool {
    n % cipher.spec_block_size() == 0
}

/// What `cipher` makes of `data`: the data itself without encryption.
pub open spec fn sealed(cipher: Cipher, key: Seq<u8>, iv: Seq<u8>, data: Seq<u8>) -> Seq<u8> {
    if cipher == Cipher::Null {
        data
    } else {
        encrypted(cipher.spec_name(), key, iv, data)
    }
}

/// What `cipher` recovers from `data`: the data itself without encryption.
pub open spec fn opened(cipher: Cipher, key: Seq<u8>, iv: Seq<u8>, data: Seq<u8>) -> Seq<u8> {
    if cipher == Cipher::Null {
        data
    } else {
        decrypted(cipher.spec_name(), key, iv, data)
    }
}

/// The big-endian number `counter` plus `n`, in as many bytes, the carry out
/// of the first byte dropped.
pub open spec fn counter_add(counter: Seq<u8>, n: nat) -> Seq<u8>
    decreases counter.len(),
{
    if counter.len() == 0 {
        Seq::empty()
    } else {
        let sum = counter.last() as nat + n;
        counter_add(counter.drop_last(), sum / 256).push((sum % 256) as u8)
    }
}

/// The initialisation vector for the piece that follows `ciphertext`, which
/// was made starting from `iv`: in counter mode `iv` advanced by the number of
/// blocks, in chaining mode the last block of `ciphertext`.
pub open spec fn next_iv(cipher: Cipher, iv: Seq<u8>, ciphertext: Seq<u8>) -> Seq<u8> {
    let block = cipher.spec_block_size();
    match cipher.spec_mode() {
        Mode::Clear => iv,
        Mode::Counter => counter_add(iv, ciphertext.len() / block),
        Mode::Chaining => if ciphertext.len() >= block {
            ciphertext.subrange(ciphertext.len() - block, ciphertext.len() as int)
        } else {
            iv
        },
    }
}

/// Adding to a counter keeps its size.
pub proof fn lemma_counter_add_len(counter: Seq<u8>, n: nat)
    ensures
        counter_add(counter, n).len() == counter.len(),
    decreases counter.len(),
{
    if counter.len() > 0 {
        lemma_counter_add_len(counter.drop_last(), (counter.last() as nat + n) / 256);
    }
}

/// The next initialisation vector has the size of the one before.
pub proof fn lemma_next_iv_len(cipher: Cipher, iv: Seq<u8>, ciphertext: Seq<u8>)
    requires
        iv.len() == cipher.spec_iv_size(),
    ensures
        next_iv(cipher, iv, ciphertext).len() == iv.len(),
{
    lemma_counter_add_len(iv, ciphertext.len() / cipher.spec_block_size());
}

proof fn lemma_takes(cipher: Cipher, key: Seq<u8>, iv: Seq<u8>, n: nat)
    requires
        cipher != Cipher::Null,
        keyed(cipher, key, iv),
        whole_blocks(cipher, n),
    ensures
        cipher_takes(cipher.spec_name(), key.len(), iv.len(), n),
{
    assert(cipher.spec_name() == cipher.spec_name());
}

/// Whether encryption keeps the length of `text` and decryption gives `text`
/// back.
pub open spec fn reversible(cipher: Cipher, key: Seq<u8>, iv: Seq<u8>, text: Seq<u8>) -> bool {
    &&& sealed(cipher, key, iv, text).len() == text.len()
    &&& opened(cipher, key, iv, sealed(cipher, key, iv, text)) == text
}

/// What `cipher` makes of `data`, starting from `iv`; `open` gives `data` back.
pub fn seal(cipher: Cipher, key: &[u8], iv: &[u8], data: &[u8]) -> (r: Vec<u8>)
    requires
        keyed(cipher, key@, iv@),
        whole_blocks(cipher, data@.len()),
    ensures
        r@ == sealed(cipher, key@, iv@, data@),
        reversible(cipher, key@, iv@, data@),
{
    if cipher == Cipher::Null {
        let r = copy_range(data, 0, data.len());
        assert(data@.subrange(0, data@.len() as int) =~= data@);
        return r;
    }
    proof {
        lemma_takes(cipher, key@, iv@, data@.len());
    }
    match cipher_encrypt(cipher.name(), key, iv, data) {
        Some(r) => r,
        None => {
            assert(false);
            Vec::new()
        },
    }
}

/// What `cipher` recovers from `data`, starting from `iv`.
pub fn open(cipher: Cipher, key: &[u8], iv: &[u8], data: &[u8]) -> (r: Vec<u8>)
    requires
        keyed(cipher, key@, iv@),
        whole_blocks(cipher, data@.len()),
    ensures
        r@ == opened(cipher, key@, iv@, data@),
        r@.len() == data@.len(),
{
    if cipher == Cipher::Null {
        let r = copy_range(data, 0, data.len());
        assert(data@.subrange(0, data@.len() as int) =~= data@);
        return r;
    }
    proof {
        lemma_takes(cipher, key@, iv@, data@.len());
    }
    match cipher_decrypt(cipher.name(), key, iv, data) {
        Some(r) => r,
        None => {
            assert(false);
            Vec::new()
        },
    }
}

/// The big-endian number `counter` plus `n`, in as many bytes.
pub fn add_to_counter(counter: &[u8], n: usize) -> (r: Vec<u8>)
    ensures
        r@ == counter_add(counter@, n as nat),
{
    let mut r = copy_range(counter, 0, counter.len());
    assert(r@ =~= counter@);
    let mut carry: usize = n;
    let mut i: usize = counter.len();
    while i > 0
        invariant
            i <= counter@.len(),
            r@.len() == counter@.len(),
            r@.take(i as int) == counter@.take(i as int),
            counter_add(counter@, n as nat) == counter_add(counter@.take(i as int), carry as nat)
                + r@.skip(i as int),
        decreases i,
    {
        let ghost before = r@;
        let ghost front = counter@.take(i as int);
        i -= 1;
        let sum: usize = (counter[i] as usize) + (carry % 256);
        let digit: u8 = (sum % 256) as u8;
        let next: usize = carry / 256 + sum / 256;
        r.set(i, digit);
        proof {
            let total = front.last() as nat + carry as nat;
            assert(front.last() == counter@[i as int]);
            assert(total % 256 == sum as nat % 256);
            assert(total / 256 == next as nat);
            assert(front.drop_last() =~= counter@.take(i as int));
            assert(r@.skip(i as int) =~= seq![digit] + before.skip(i + 1));
            assert(counter_add(front.drop_last(), next as nat).push(digit) + before.skip(i + 1)
                =~= counter_add(front.drop_last(), next as nat) + r@.skip(i as int));
            assert(r@.take(i as int) =~= counter@.take(i as int));
        }
        carry = next;
    }
    assert(counter@.take(0) =~= Seq::<u8>::empty());
    assert(r@.skip(0) =~= r@);
    assert(Seq::<u8>::empty() + r@ =~= r@);
    r
}

/// The initialisation vector for the piece that follows `ciphertext`.
pub fn advance(cipher: Cipher, iv: &[u8], ciphertext: &[u8]) -> (r: Vec<u8>)
    requires
        iv@.len() == cipher.spec_iv_size(),
    ensures
        r@ == next_iv(cipher, iv@, ciphertext@),
        r@.len() == iv@.len(),
{
    proof {
        lemma_next_iv_len(cipher, iv@, ciphertext@);
    }
    let block = cipher.block_size();
    match cipher.mode() {
        Mode::Clear => {
            let r = copy_range(iv, 0, iv.len());
            assert(iv@.subrange(0, iv@.len() as int) =~= iv@);
            r
        },
        Mode::Counter => add_to_counter(iv, ciphertext.len() / block),
        Mode::Chaining => if ciphertext.len() >= block {
            copy_range(ciphertext, ciphertext.len() - block, ciphertext.len())
        } else {
            let r = copy_range(iv, 0, iv.len());
            assert(iv@.subrange(0, iv@.len() as int) =~= iv@);
            r
        },
    }
}

} // verus!
