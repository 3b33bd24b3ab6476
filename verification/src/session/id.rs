//! The identification string that each side sends before anything else.

use vstd::prelude::*;
use crate::error::Error;
use crate::namelist::bytes_eq;
use crate::wire::{copy_range, put_bytes};

verus! {

/// The line feed that ends an identification line.
pub const LF: u8 = 0x0a;

/// The carriage return that comes before the line feed.
pub const CR: u8 = 0x0d;

/// The space between the software version and the comments.
pub const SPACE: u8 = 0x20;

/// The most bytes that an identification line can have, line end included.
pub const MAX_LINE: usize = 255;

/// The start of every identification string: `SSH-`.
pub open spec fn marker() -> Seq<u8> {
    seq![0x53u8, 0x53, 0x48, 0x2d]
}

/// The start of an identification string of protocol version 2: `SSH-2.0-`.
pub open spec fn prefix() -> Seq<u8> {
    seq![0x53u8, 0x53, 0x48, 0x2d, 0x32, 0x2e, 0x30, 0x2d]
}

/// An identification string of protocol version 2.
#[derive(Debug, Clone, PartialEq, Eq)]
pub struct Id {
    /// The name and version of the software.
    pub softwareversion: Vec<u8>,
    /// What the software has to add, if anything.
    pub comments: Option<Vec<u8>>,
}

/// An identification string as contracts see it.
pub struct IdView {
    /// The name and version of the software.
    pub softwareversion: Seq<u8>,
    /// What the software has to add, if anything.
    pub comments: Option<Seq<u8>>,
}

impl View for Id {
    type V = IdView;

    open spec fn view(&self) -> IdView {
        IdView {
            softwareversion: self.softwareversion@,
            comments: match self.comments {
                Some(c) => Some(c@),
                None => None,
            },
        }
    }
}

/// The place of the first `x` in `b`, or the length of `b` where there is
/// none.
pub open spec fn index_of(b: Seq<u8>, x: u8) -> nat
    decreases b.len(),
{
    if b.len() == 0 || b[0] == x {
        0
    } else {
        1 + index_of(b.skip(1), x)
    }
}

/// The first `x` in `b` is where no `x` comes before.
pub proof fn lemma_index_of(b: Seq<u8>, x: u8, i: nat)
    requires
        i <= b.len(),
        forall|j: int| 0 <= j < i ==> b[j] != x,
        i < b.len() ==> b[i as int] == x,
    ensures
        index_of(b, x) == i,
    decreases b.len(),
{
    if i > 0 {
        assert(b[0] != x);
        let rest = b.skip(1);
        assert forall|j: int| 0 <= j < i - 1 implies rest[j] != x by {
            assert(rest[j] == b[j + 1]);
        }
        lemma_index_of(rest, x, (i - 1) as nat);
    }
}

/// The place of the first `x` in `b`, or the length of `b` where there is
/// none.
pub fn find(b: &[u8], x: u8) -> (r: usize)
    ensures
        r == index_of(b@, x),
        r <= b@.len(),
        r < b@.len() ==> b@[r as int] == x,
        forall|j: int| 0 <= j < r ==> b@[j] != x,
{
    let mut i: usize = 0;
    while i < b.len() && b[i] != x
        invariant
            i <= b@.len(),
            forall|j: int| 0 <= j < i ==> b@[j] != x,
        decreases b@.len() - i,
    {
        i += 1;
    }
    proof {
        lemma_index_of(b@, x, i as nat);
    }
    i
}

impl IdView {
    /// Whether the identification can be sent: the software version is not
    /// empty and holds no space, neither part holds a line feed, the comments
    /// do not end in a carriage return, nor does the software version where
    /// there are no comments, and the line keeps within 255 bytes.
    pub open spec fn wf(self) -> bool {
        &&& self.softwareversion.len() > 0
        &&& index_of(self.softwareversion, SPACE) == self.softwareversion.len()
        &&& index_of(self.line(), LF) == self.line().len()
        &&& self.line().last() != CR
        &&& self.line().len() + 2 <= MAX_LINE
    }

    /// The identification string, without its line end.
    pub open spec fn line(self) -> Seq<u8> {
        match self.comments {
            Some(c) => prefix() + self.softwareversion + seq![SPACE] + c,
            None => prefix() + self.softwareversion,
        }
    }
}

/// The identification that the line `line` holds, given without its line end:
/// after `SSH-2.0-` the software version up to the first space, which must not
/// be empty, and after the space the comments.
pub open spec fn parsed(line: Seq<u8>) -> Option<IdView> {
    if line.len() > prefix().len() && line.take(prefix().len() as int) == prefix() {
        let rest = line.skip(prefix().len() as int);
        let n = index_of(rest, SPACE) as int;
        if n == 0 {
            None
        } else if n < rest.len() {
            Some(IdView { softwareversion: rest.take(n), comments: Some(rest.skip(n + 1)) })
        } else {
            Some(IdView { softwareversion: rest, comments: None })
        }
    } else {
        None
    }
}

proof fn lemma_index_of_prefix(a: Seq<u8>, b: Seq<u8>, x: u8)
    requires
        index_of(a, x) == a.len(),
    ensures
        index_of(a + b, x) == a.len() + index_of(b, x),
    decreases a.len(),
{
    if a.len() == 0 {
        assert(a + b =~= b);
    } else {
        assert((a + b).skip(1) =~= a.skip(1) + b);
        lemma_index_of_prefix(a.skip(1), b, x);
    }
}

/// Reading the line of an identification gives the identification back.
pub proof fn lemma_parsed_line(id: IdView)
    requires
        id.wf(),
    ensures
        parsed(id.line()) == Some(id),
{
    let line = id.line();
    let rest = line.skip(prefix().len() as int);
    assert(line.take(prefix().len() as int) =~= prefix());
    match id.comments {
        Some(c) => {
            assert(rest =~= id.softwareversion + (seq![SPACE] + c));
            lemma_index_of_prefix(id.softwareversion, seq![SPACE] + c, SPACE);
            let n = id.softwareversion.len() as int;
            assert(rest.take(n) =~= id.softwareversion);
            assert(rest.skip(n + 1) =~= c);
        },
        None => {
            assert(rest =~= id.softwareversion);
        },
    }
}

/// The line of an identification that was read from a line is that line.
pub proof fn lemma_line_parsed(line: Seq<u8>)
    requires
        parsed(line) is Some,
    ensures
        parsed(line)->0.line() == line,
{
    let rest = line.skip(prefix().len() as int);
    let n = index_of(rest, SPACE) as int;
    assert(line =~= line.take(prefix().len() as int) + rest);
    if n < rest.len() {
        lemma_index_of_found(rest, SPACE);
        assert(rest =~= rest.take(n) + seq![SPACE] + rest.skip(n + 1));
        assert(line =~= prefix() + rest.take(n) + seq![SPACE] + rest.skip(n + 1));
    }
}

/// Where `index_of` points inside `b`, there `x` is.
pub proof fn lemma_index_of_found(b: Seq<u8>, x: u8)
    ensures
        index_of(b, x) <= b.len(),
        index_of(b, x) < b.len() ==> b[index_of(b, x) as int] == x,
    decreases b.len(),
{
    if b.len() > 0 && b[0] != x {
        lemma_index_of_found(b.skip(1), x);
    }
}

impl Id {
    /// An identification of protocol version 2.
    pub fn v2(softwareversion: Vec<u8>, comments: Option<Vec<u8>>) -> (r: Id)
        ensures
            r.softwareversion == softwareversion,
            r.comments == comments,
    {
        Id { softwareversion, comments }
    }

    /// The identification string, without its line end.
    pub fn to_bytes(&self) -> (r: Vec<u8>)
        ensures
            r@ == self@.line(),
    {
        let mut r: Vec<u8> = vec![0x53u8, 0x53, 0x48, 0x2d, 0x32, 0x2e, 0x30, 0x2d];
        assert(r@ =~= prefix());
        put_bytes(&mut r, self.softwareversion.as_slice());
        match &self.comments {
            Some(c) => {
                r.push(SPACE);
                put_bytes(&mut r, c.as_slice());
                assert(r@ =~= prefix() + self.softwareversion@ + seq![SPACE] + c@);
            },
            None => {},
        }
        r
    }

    /// The identification that the line `line` holds, given without its line
    /// end; `IdentificationInvalid` where it holds none.
    pub fn parse(line: &[u8]) -> (r: Result<Id, Error>)
        ensures
            match parsed(line@) {
                Some(id) => r is Ok && r->Ok_0@ == id && id.line() == line@,
                None => r is Err && r->Err_0 == Error::IdentificationInvalid,
            },
    {
        proof {
            if parsed(line@) is Some {
                lemma_line_parsed(line@);
            }
        }
        let start: Vec<u8> = vec![0x53u8, 0x53, 0x48, 0x2d, 0x32, 0x2e, 0x30, 0x2d];
        assert(start@ =~= prefix());
        if line.len() <= 8 || !bytes_eq(copy_range(line, 0, 8).as_slice(), start.as_slice()) {
            assert(line@.subrange(0, 8) =~= line@.take(8));
            return Err(Error::IdentificationInvalid);
        }
        assert(line@.subrange(0, 8) =~= line@.take(8));
        let rest = copy_range(line, 8, line.len());
        assert(rest@ =~= line@.skip(8));
        let n = find(rest.as_slice(), SPACE);
        if n == 0 {
            Err(Error::IdentificationInvalid)
        } else if n < rest.len() {
            let softwareversion = copy_range(rest.as_slice(), 0, n);
            let comments = copy_range(rest.as_slice(), n + 1, rest.len());
            assert(softwareversion@ =~= rest@.take(n as int));
            assert(comments@ =~= rest@.skip(n + 1));
            Ok(Id { softwareversion, comments: Some(comments) })
        } else {
            Ok(Id { softwareversion: rest, comments: None })
        }
    }
}

/// The line `line` without the carriage return at its end, if it has one.
pub open spec fn without_cr(line: Seq<u8>) -> Seq<u8> {
    if line.len() > 0 && line.last() == CR {
        line.drop_last()
    } else {
        line
    }
}

/// What the bytes `b` that a peer has sent so far say of its identification:
/// the identification and the number of bytes up to the end of its line, once
/// a line that starts with `SSH-` is complete; `None` while it is not; and
/// `IdentificationInvalid` where that line holds no identification of protocol
/// version 2, or a line is longer than 255 bytes. Lines that do not start with
/// `SSH-` are passed over.
pub open spec fn identified(b: Seq<u8>) -> Result<Option<(IdView, nat)>, Error>
    decreases b.len(),
{
    let n = index_of(b, LF);
    if n >= b.len() {
        if b.len() >= MAX_LINE {
            Err(Error::IdentificationInvalid)
        } else {
            Ok(None)
        }
    } else if n >= MAX_LINE {
        Err(Error::IdentificationInvalid)
    } else {
        let line = without_cr(b.take(n as int));
        if line.len() >= 4 && line.take(4) == marker() {
            match parsed(line) {
                Some(id) => Ok(Some((id, n + 1))),
                None => Err(Error::IdentificationInvalid),
            }
        } else {
            match identified(b.skip(n + 1 as int)) {
                Ok(Some((id, m))) => Ok(Some((id, n + 1 + m))),
                Ok(None) => Ok(None),
                Err(e) => Err(e),
            }
        }
    }
}

/// What the bytes `b` that a peer has sent so far say of its identification.
pub fn identify(b: &[u8]) -> (r: Result<Option<(Id, usize)>, Error>)
    ensures
        match identified(b@) {
            Ok(Some((id, n))) => r matches Ok(Some(found)) && found.0@ == id && found.1 == n && n
                <= b@.len() && id.line().len() < MAX_LINE,
            Ok(None) => r is Ok && r->Ok_0 is None,
            Err(e) => r is Err && r->Err_0 == e,
        },
{
    let mark: Vec<u8> = vec![0x53u8, 0x53, 0x48, 0x2d];
    assert(mark@ =~= marker());
    let mut from: usize = 0;
    assert(b@.skip(0) =~= b@);
    loop
        invariant
            from <= b@.len(),
            mark@ == marker(),
            identified(b@) == match identified(b@.skip(from as int)) {
                Ok(Some((id, m))) => Ok::<Option<(IdView, nat)>, Error>(Some((id, (from + m) as nat))),
                Ok(None) => Ok(None),
                Err(e) => Err(e),
            },
        decreases b@.len() - from,
    {
        let rest = copy_range(b, from, b.len());
        assert(rest@ =~= b@.skip(from as int));
        let n = find(rest.as_slice(), LF);
        if n >= rest.len() {
            if rest.len() >= MAX_LINE {
                return Err(Error::IdentificationInvalid);
            }
            return Ok(None);
        }
        if n >= MAX_LINE {
            return Err(Error::IdentificationInvalid);
        }
        let end = if n > 0 && rest[n - 1] == CR {
            n - 1
        } else {
            n
        };
        let line = copy_range(rest.as_slice(), 0, end);
        if n > 0 {
            assert(rest@.take(n as int).drop_last() =~= rest@.subrange(0, n - 1));
        }
        assert(rest@.take(n as int) =~= rest@.subrange(0, n as int));
        assert(line@ == without_cr(rest@.take(n as int)));
        if line.len() >= 4 && bytes_eq(copy_range(line.as_slice(), 0, 4).as_slice(), mark.as_slice()) {
            assert(line@.subrange(0, 4) =~= line@.take(4));
            return match Id::parse(line.as_slice()) {
                Ok(id) => Ok(Some((id, from + n + 1))),
                Err(e) => Err(e),
            };
        }
        proof {
            if line@.len() >= 4 {
                assert(line@.subrange(0, 4) =~= line@.take(4));
            }
            assert(b@.skip(from as int).skip(n + 1) =~= b@.skip(from + n + 1));
        }
        from = from + n + 1;
    }
}

} // verus!
