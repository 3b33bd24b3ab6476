//! Primitive encodings of the SSH wire format: big-endian integers, booleans,
//! length-prefixed strings, multiple precision integers.

use vstd::prelude::*;

verus! {

/// The four bytes of `n`, most significant first.
#[verifier::opaque]
pub open spec fn u32_be(n: u32) -> Seq<u8> {
    seq![
        (n / 0x100_0000) as u8,
        (n / 0x1_0000 % 0x100) as u8,
        (n / 0x100 % 0x100) as u8,
        (n % 0x100) as u8,
    ]
}

/// The number whose big-endian bytes are the first four of `b`.
#[verifier::opaque]
pub open spec fn u32_from_be(b: Seq<u8>) -> u32
    recommends
        b.len() >= 4,
{
    (b[0] as int * 0x100_0000 + b[1] as int * 0x1_0000 + b[2] as int * 0x100 + b[3] as int) as u32
}

/// Reading back the bytes of a number gives the number.
pub proof fn lemma_u32_round_trip(n: u32)
    ensures
        u32_be(n).len() == 4,
        u32_from_be(u32_be(n)) == n,
{
    reveal(u32_be);
    reveal(u32_from_be);
}

/// Writing the number read from four bytes gives the four bytes.
pub proof fn lemma_u32_bytes_round_trip(b: Seq<u8>)
    requires
        b.len() == 4,
    ensures
        u32_be(u32_from_be(b)) == b,
{
    reveal(u32_be);
    reveal(u32_from_be);
    let (b0, b1, b2, b3) = (b[0] as int, b[1] as int, b[2] as int, b[3] as int);
    let v = b0 * 0x100_0000 + b1 * 0x1_0000 + b2 * 0x100 + b3;
    assert(0 <= v < 0x1_0000_0000);
    assert(v / 0x100_0000 == b0);
    assert(v / 0x1_0000 == b0 * 0x100 + b1);
    assert(v / 0x100 == b0 * 0x1_0000 + b1 * 0x100 + b2);
    assert(u32_be(u32_from_be(b)) =~= b);
}

/// A string on the wire: its length as a `u32`, then its bytes.
pub open spec fn string_bytes(s: Seq<u8>) -> Seq<u8>
    recommends
        s.len() <= u32::MAX,
{
    u32_be(s.len() as u32) + s
}

/// A boolean on the wire: one byte, 1 for true and 0 for false.
pub open spec fn bool_byte(b: bool) -> u8 {
    if b {
        1
    } else {
        0
    }
}

/// The number of leading zero bytes of `b`.
pub open spec fn leading_zeros(b: Seq<u8>) -> nat
    decreases b.len(),
{
    if b.len() == 0 || b[0] != 0 {
        0
    } else {
        1 + leading_zeros(b.skip(1))
    }
}

/// The body of an `mpint` for the non-negative number whose big-endian
/// magnitude is `magnitude`: leading zero bytes are dropped, and a single zero
/// byte is put in front where the first remaining byte has its high bit set.
/// Zero is the empty body.
pub open spec fn mpint_body(magnitude: Seq<u8>) -> Seq<u8> {
    let digits = magnitude.skip(leading_zeros(magnitude) as int);
    if digits.len() > 0 && digits[0] >= 0x80 {
        seq![0u8] + digits
    } else {
        digits
    }
}

/// An `mpint` on the wire: its body as a string.
pub open spec fn mpint_bytes(magnitude: Seq<u8>) -> Seq<u8>
    recommends
        magnitude.len() < u32::MAX,
{
    string_bytes(mpint_body(magnitude))
}

/// The number read from bytes depends on the first four alone.
pub proof fn lemma_u32_from_prefix(a: Seq<u8>, b: Seq<u8>)
    requires
        a.len() >= 4,
        b.len() >= 4,
        a.take(4) == b.take(4),
    ensures
        u32_from_be(a) == u32_from_be(b),
{
    reveal(u32_from_be);
    assert(forall|i: int| 0 <= i < 4 ==> a[i] == a.take(4)[i]);
    assert(forall|i: int| 0 <= i < 4 ==> b[i] == b.take(4)[i]);
}

/// What is left of `b` after a `u32`, with the number; `None` where `b` has
/// fewer than four bytes.
pub open spec fn take_u32(b: Seq<u8>) -> Option<(u32, Seq<u8>)> {
    if b.len() >= 4 {
        Some((u32_from_be(b), b.skip(4)))
    } else {
        None
    }
}

/// What is left of `b` after one byte, with the byte.
pub open spec fn take_u8(b: Seq<u8>) -> Option<(u8, Seq<u8>)> {
    if b.len() >= 1 {
        Some((b[0], b.skip(1)))
    } else {
        None
    }
}

/// What is left of `b` after a boolean, with its value: every byte but 0 reads
/// as true.
pub open spec fn take_bool(b: Seq<u8>) -> Option<(bool, Seq<u8>)> {
    if b.len() >= 1 {
        Some((b[0] != 0, b.skip(1)))
    } else {
        None
    }
}

/// What is left of `b` after a string, with the string's bytes; `None` where
/// the length prefix is cut short or announces more than `b` holds.
pub open spec fn take_string(b: Seq<u8>) -> Option<(Seq<u8>, Seq<u8>)> {
    if b.len() >= 4 && b.len() - 4 >= u32_from_be(b) {
        let n = u32_from_be(b) as int;
        Some((b.subrange(4, 4 + n), b.skip(4 + n)))
    } else {
        None
    }
}

/// What is left of `b` after `n` bytes, with those bytes; `None` where `b` has
/// fewer.
pub open spec fn take_bytes(b: Seq<u8>, n: nat) -> Option<(Seq<u8>, Seq<u8>)> {
    if b.len() >= n {
        Some((b.take(n as int), b.skip(n as int)))
    } else {
        None
    }
}

/// Bytes in front of anything read back as themselves.
pub proof fn lemma_take_bytes(s: Seq<u8>, rest: Seq<u8>)
    ensures
        take_bytes(s + rest, s.len()) == Some((s, rest)),
{
    assert((s + rest).take(s.len() as int) =~= s);
    assert((s + rest).skip(s.len() as int) =~= rest);
}

/// A `u32` in front of anything reads back as itself.
pub proof fn lemma_take_u32(n: u32, rest: Seq<u8>)
    ensures
        take_u32(u32_be(n) + rest) == Some((n, rest)),
{
    let b = u32_be(n) + rest;
    lemma_u32_round_trip(n);
    assert(b.take(4) =~= u32_be(n));
    assert(u32_be(n).take(4) =~= u32_be(n));
    lemma_u32_from_prefix(b, u32_be(n));
    assert(b.skip(4) =~= rest);
}

/// A byte in front of anything reads back as itself.
pub proof fn lemma_take_u8(x: u8, rest: Seq<u8>)
    ensures
        take_u8(seq![x] + rest) == Some((x, rest)),
{
    assert((seq![x] + rest).skip(1) =~= rest);
}

/// A boolean in front of anything reads back as itself.
pub proof fn lemma_take_bool(x: bool, rest: Seq<u8>)
    ensures
        take_bool(seq![bool_byte(x)] + rest) == Some((x, rest)),
{
    assert((seq![bool_byte(x)] + rest).skip(1) =~= rest);
}

/// A string in front of anything reads back as itself.
pub proof fn lemma_take_string(s: Seq<u8>, rest: Seq<u8>)
    requires
        s.len() <= u32::MAX,
    ensures
        take_string(string_bytes(s) + rest) == Some((s, rest)),
{
    let b = string_bytes(s) + rest;
    let n = s.len() as u32;
    lemma_u32_round_trip(n);
    assert(b.take(4) =~= u32_be(n));
    assert(u32_be(n).take(4) =~= u32_be(n));
    lemma_u32_from_prefix(b, u32_be(n));
    assert(b.subrange(4, 4 + s.len() as int) =~= s);
    assert(b.skip(4 + s.len() as int) =~= rest);
}

/// Appends the big-endian bytes of `n`.
pub fn put_u32(out: &mut Vec<u8>, n: u32)
    ensures
        final(out)@ == old(out)@ + u32_be(n),
{
    out.push((n / 0x100_0000) as u8);
    out.push((n / 0x1_0000 % 0x100) as u8);
    out.push((n / 0x100 % 0x100) as u8);
    out.push((n % 0x100) as u8);
    reveal(u32_be);
    assert(out@ =~= old(out)@ + u32_be(n));
}

/// Appends one byte for a boolean.
pub fn put_bool(out: &mut Vec<u8>, b: bool)
    ensures
        final(out)@ == old(out)@ + seq![bool_byte(b)],
{
    out.push(if b { 1 } else { 0 });
    assert(out@ =~= old(out)@ + seq![bool_byte(b)]);
}

/// Appends the bytes of `s` as they are.
pub fn put_bytes(out: &mut Vec<u8>, s: &[u8])
    ensures
        final(out)@ == old(out)@ + s@,
{
    let mut i: usize = 0;
    while i < s.len()
        invariant
            i <= s.len(),
            out@ == old(out)@ + s@.take(i as int),
        decreases s.len() - i,
    {
        out.push(s[i]);
        assert(s@.take(i + 1) =~= s@.take(i as int).push(s@[i as int]));
        i += 1;
    }
    assert(s@.take(i as int) =~= s@);
}

/// Appends `s` as a string: length, then bytes.
pub fn put_string(out: &mut Vec<u8>, s: &[u8])
    requires
        s@.len() <= u32::MAX,
    ensures
        final(out)@ == old(out)@ + string_bytes(s@),
{
    put_u32(out, s.len() as u32);
    put_bytes(out, s);
    assert(out@ =~= old(out)@ + string_bytes(s@));
}

/// The bytes of `s` from `from` up to `to`, copied.
pub fn copy_range(s: &[u8], from: usize, to: usize) -> (r: Vec<u8>)
    requires
        from <= to <= s@.len(),
    ensures
        r@ == s@.subrange(from as int, to as int),
{
    let mut r: Vec<u8> = Vec::new();
    let mut i: usize = from;
    while i < to
        invariant
            from <= i <= to <= s@.len(),
            r@ == s@.subrange(from as int, i as int),
        decreases to - i,
    {
        r.push(s[i]);
        assert(s@.subrange(from as int, i + 1) =~= s@.subrange(from as int, i as int).push(
            s@[i as int],
        ));
        i += 1;
    }
    r
}

/// The body of the `mpint` for the magnitude `magnitude`.
pub fn mpint_body_of(magnitude: &[u8]) -> (r: Vec<u8>)
    ensures
        r@ == mpint_body(magnitude@),
        r@.len() <= magnitude@.len() + 1,
{
    let mut i: usize = 0;
    assert(magnitude@.skip(0) =~= magnitude@);
    while i < magnitude.len() && magnitude[i] == 0
        invariant
            i <= magnitude@.len(),
            leading_zeros(magnitude@) == i + leading_zeros(magnitude@.skip(i as int)),
        decreases magnitude@.len() - i,
    {
        assert(magnitude@.skip(i as int).skip(1) =~= magnitude@.skip(i + 1));
        i += 1;
    }
    assert(leading_zeros(magnitude@) == i);
    let mut r: Vec<u8> = Vec::new();
    if i < magnitude.len() && magnitude[i] >= 0x80 {
        r.push(0);
    }
    put_bytes(&mut r, &copy_range(magnitude, i, magnitude.len()).as_slice());
    assert(r@ =~= mpint_body(magnitude@));
    r
}

/// Appends the `mpint` for the magnitude `magnitude`.
pub fn put_mpint(out: &mut Vec<u8>, magnitude: &[u8])
    requires
        magnitude@.len() < u32::MAX,
    ensures
        final(out)@ == old(out)@ + mpint_bytes(magnitude@),
{
    let body = mpint_body_of(magnitude);
    put_string(out, body.as_slice());
}

/// The `u32` that starts at index `p` of `buf`.
pub fn u32_at(buf: &[u8], p: usize) -> (v: u32)
    requires
        p + 4 <= buf@.len(),
    ensures
        v == u32_from_be(buf@.skip(p as int)),
{
    reveal(u32_from_be);
    (buf[p] as u32) * 0x100_0000 + (buf[p + 1] as u32) * 0x1_0000 + (buf[p + 2] as u32) * 0x100 + (
    buf[p + 3] as u32)
}

/// A cursor over a byte buffer, from which fields are read front to back.
pub struct Reader<'a> {
    buf: &'a [u8],
    pos: usize,
}

impl<'a> Reader<'a> {
    #[verifier::type_invariant]
    spec fn in_bounds(self) -> bool {
        self.pos <= self.buf@.len()
    }

    /// The bytes that have not been read yet.
    pub closed spec fn remaining(self) -> Seq<u8> {
        self.buf@.skip(self.pos as int)
    }

    /// A cursor at the start of `buf`.
    pub fn new(buf: &'a [u8]) -> (r: Self)
        ensures
            r.remaining() == buf@,
    {
        assert(buf@.skip(0) =~= buf@);
        Reader { buf, pos: 0 }
    }

    /// The number of bytes that have not been read yet.
    pub fn len(&self) -> (n: usize)
        ensures
            n == self.remaining().len(),
    {
        proof {
            use_type_invariant(self);
        }
        self.buf.len() - self.pos
    }

    /// Reads one byte; leaves the cursor in place where none is left.
    pub fn read_u8(&mut self) -> (r: Option<u8>)
        ensures
            match take_u8(old(self).remaining()) {
                Some((v, rest)) => r == Some(v) && final(self).remaining() == rest,
                None => r is None && final(self).remaining() == old(self).remaining(),
            },
    {
        proof {
            use_type_invariant(&*self);
        }
        if self.buf.len() - self.pos < 1 {
            return None;
        }
        let v = self.buf[self.pos];
        assert(self.buf@.skip(self.pos as int).skip(1) =~= self.buf@.skip(self.pos + 1));
        self.pos = self.pos + 1;
        Some(v)
    }

    /// Reads a boolean; leaves the cursor in place where no byte is left.
    pub fn read_bool(&mut self) -> (r: Option<bool>)
        ensures
            match take_bool(old(self).remaining()) {
                Some((v, rest)) => r == Some(v) && final(self).remaining() == rest,
                None => r is None && final(self).remaining() == old(self).remaining(),
            },
    {
        match self.read_u8() {
            Some(v) => Some(v != 0),
            None => None,
        }
    }

    /// Reads a `u32`; leaves the cursor in place where fewer than four bytes
    /// are left.
    pub fn read_u32(&mut self) -> (r: Option<u32>)
        ensures
            match take_u32(old(self).remaining()) {
                Some((v, rest)) => r == Some(v) && final(self).remaining() == rest,
                None => r is None && final(self).remaining() == old(self).remaining(),
            },
    {
        proof {
            use_type_invariant(&*self);
        }
        if self.buf.len() - self.pos < 4 {
            return None;
        }
        let p = self.pos;
        let v = u32_at(self.buf, p);
        assert(self.buf@.skip(p as int).skip(4) =~= self.buf@.skip(p + 4));
        self.pos = p + 4;
        Some(v)
    }

    /// Reads a string; leaves the cursor in place where the buffer does not
    /// hold all of it.
    pub fn read_string(&mut self) -> (r: Option<Vec<u8>>)
        ensures
            match take_string(old(self).remaining()) {
                Some((v, rest)) => r is Some && r->0@ == v && final(self).remaining() == rest,
                None => r is None && final(self).remaining() == old(self).remaining(),
            },
    {
        proof {
            use_type_invariant(&*self);
        }
        let start = self.pos;
        if self.buf.len() - start < 4 {
            return None;
        }
        let n = u32_at(self.buf, start) as usize;
        let from = start + 4;
        if self.buf.len() - from < n {
            return None;
        }
        let v = copy_range(self.buf, from, from + n);
        assert(self.buf@.skip(start as int).subrange(4, 4 + n) =~= self.buf@.subrange(
            from as int,
            from + n,
        ));
        assert(self.buf@.skip(start as int).skip(4 + n) =~= self.buf@.skip(from + n));
        self.pos = from + n;
        Some(v)
    }

    /// Reads `n` bytes; leaves the cursor in place where fewer are left.
    pub fn read_bytes(&mut self, n: usize) -> (r: Option<Vec<u8>>)
        ensures
            match take_bytes(old(self).remaining(), n as nat) {
                Some((v, rest)) => r is Some && r->0@ == v && final(self).remaining() == rest,
                None => r is None && final(self).remaining() == old(self).remaining(),
            },
    {
        proof {
            use_type_invariant(&*self);
        }
        let from = self.pos;
        if self.buf.len() - from < n {
            return None;
        }
        let v = copy_range(self.buf, from, from + n);
        assert(self.buf@.skip(from as int).take(n as int) =~= self.buf@.subrange(
            from as int,
            from + n,
        ));
        assert(self.buf@.skip(from as int).skip(n as int) =~= self.buf@.skip(from + n));
        self.pos = from + n;
        Some(v)
    }

    /// Reads all that is left.
    pub fn read_rest(&mut self) -> (r: Vec<u8>)
        ensures
            r@ == old(self).remaining(),
            final(self).remaining().len() == 0,
    {
        proof {
            use_type_invariant(&*self);
        }
        let v = copy_range(self.buf, self.pos, self.buf.len());
        assert(self.buf@.skip(self.pos as int) =~= self.buf@.subrange(
            self.pos as int,
            self.buf@.len() as int,
        ));
        self.pos = self.buf.len();
        v
    }
}

} // verus!
