//! Name lists: comma-separated names in one string, and the choice of the
//! name that both sides of a connection support.

use vstd::prelude::*;

verus! {

/// The byte that separates the names of a list.
pub const COMMA: u8 = 0x2c;

/// A name that can stand in a list: not empty, and without a comma.
pub open spec fn is_name(n: Seq<u8>) -> bool {
    n.len() > 0 && forall|i: int| 0 <= i < n.len() ==> n[i] != COMMA
}

/// The views of a vector of names.
pub open spec fn views(names: Seq<Vec<u8>>) -> Seq<Seq<u8>> {
    names.map_values(|n: Vec<u8>| n@)
}

/// The names joined by commas.
pub open spec fn join(names: Seq<Seq<u8>>) -> Seq<u8>
    decreases names.len(),
{
    if names.len() == 0 {
        Seq::empty()
    } else if names.len() == 1 {
        names[0]
    } else {
        join(names.drop_last()) + seq![COMMA] + names.last()
    }
}

/// The state of a scan of `b` from the left: the names completed by a comma so
/// far, and the bytes since the last comma. Empty names are passed over.
pub open spec fn scan(b: Seq<u8>) -> (Seq<Seq<u8>>, Seq<u8>)
    decreases b.len(),
{
    if b.len() == 0 {
        (Seq::empty(), Seq::empty())
    } else {
        let (names, current) = scan(b.drop_last());
        if b.last() != COMMA {
            (names, current.push(b.last()))
        } else if current.len() > 0 {
            (names.push(current), Seq::empty())
        } else {
            (names, Seq::empty())
        }
    }
}

/// The names of the list `b`, in order, empty ones left out.
pub open spec fn split(b: Seq<u8>) -> Seq<Seq<u8>> {
    let (names, current) = scan(b);
    if current.len() > 0 {
        names.push(current)
    } else {
        names
    }
}

proof fn lemma_scan_name(a: Seq<u8>, n: Seq<u8>)
    requires
        forall|i: int| 0 <= i < n.len() ==> n[i] != COMMA,
    ensures
        scan(a + n) == (scan(a).0, scan(a).1 + n),
    decreases n.len(),
{
    if n.len() == 0 {
        assert(a + n =~= a);
        assert(scan(a).1 + n =~= scan(a).1);
    } else {
        lemma_scan_name(a, n.drop_last());
        assert((a + n).drop_last() =~= a + n.drop_last());
        assert((scan(a).1 + n.drop_last()).push(n.last()) =~= scan(a).1 + n);
    }
}

proof fn lemma_scan_join(names: Seq<Seq<u8>>)
    requires
        names.len() > 0,
        forall|i: int| 0 <= i < names.len() ==> is_name(#[trigger] names[i]),
    ensures
        scan(join(names)) == (names.drop_last(), names.last()),
    decreases names.len(),
{
    let empty = Seq::<u8>::empty();
    if names.len() == 1 {
        lemma_scan_name(empty, names[0]);
        assert(empty + names[0] =~= names[0]);
        assert(names.drop_last() =~= Seq::<Seq<u8>>::empty());
    } else {
        let front = names.drop_last();
        assert forall|i: int| 0 <= i < front.len() implies is_name(#[trigger] front[i]) by {
            assert(front[i] == names[i]);
        }
        lemma_scan_join(front);
        let a = join(front) + seq![COMMA];
        assert(a.drop_last() =~= join(front));
        assert(is_name(front.last()));
        assert(scan(a) == (front.drop_last().push(front.last()), empty));
        assert(front.drop_last().push(front.last()) =~= front);
        lemma_scan_name(a, names.last());
        assert(empty + names.last() =~= names.last());
    }
}

/// Splitting a list that was joined from names gives the names back.
pub proof fn lemma_split_join(names: Seq<Seq<u8>>)
    requires
        forall|i: int| 0 <= i < names.len() ==> is_name(#[trigger] names[i]),
    ensures
        split(join(names)) == names,
{
    if names.len() > 0 {
        lemma_scan_join(names);
        assert(is_name(names.last()));
        assert(names.drop_last().push(names.last()) =~= names);
    }
}

/// Whether two byte strings are the same.
pub fn bytes_eq(a: &[u8], b: &[u8]) -> (r: bool)
    ensures
        r == (a@ == b@),
{
    if a.len() != b.len() {
        return false;
    }
    let mut i: usize = 0;
    while i < a.len()
        invariant
            a@.len() == b@.len(),
            i <= a@.len(),
            a@.take(i as int) == b@.take(i as int),
        decreases a@.len() - i,
    {
        if a[i] != b[i] {
            return false;
        }
        assert(a@.take(i + 1) =~= a@.take(i as int).push(a@[i as int]));
        assert(b@.take(i + 1) =~= b@.take(i as int).push(b@[i as int]));
        i += 1;
    }
    assert(a@.take(i as int) =~= a@);
    assert(b@.take(i as int) =~= b@);
    true
}

/// The list that holds `names`, joined by commas.
pub fn join_names(names: &Vec<Vec<u8>>) -> (r: Vec<u8>)
    ensures
        r@ == join(views(names@)),
{
    let mut r: Vec<u8> = Vec::new();
    let mut i: usize = 0;
    while i < names.len()
        invariant
            i <= names@.len(),
            r@ == join(views(names@).take(i as int)),
        decreases names@.len() - i,
    {
        let ghost before = views(names@).take(i as int);
        let ghost after = views(names@).take(i + 1);
        assert(after.drop_last() =~= before);
        assert(after.last() == names@[i as int]@);
        if i > 0 {
            r.push(COMMA);
        }
        crate::wire::put_bytes(&mut r, names[i].as_slice());
        assert(r@ =~= join(after));
        i += 1;
    }
    assert(views(names@).take(i as int) =~= views(names@));
    r
}

/// The names of the list `b`, in order, empty ones left out.
pub fn split_names(b: &[u8]) -> (r: Vec<Vec<u8>>)
    ensures
        views(r@) == split(b@),
{
    let mut names: Vec<Vec<u8>> = Vec::new();
    let mut current: Vec<u8> = Vec::new();
    let mut i: usize = 0;
    while i < b.len()
        invariant
            i <= b@.len(),
            (views(names@), current@) == scan(b@.take(i as int)),
        decreases b@.len() - i,
    {
        assert(b@.take(i + 1).drop_last() =~= b@.take(i as int));
        let ghost before = views(names@);
        if b[i] != COMMA {
            current.push(b[i]);
        } else if current.len() > 0 {
            let ghost done = current@;
            names.push(current);
            assert(views(names@) =~= before.push(done));
            current = Vec::new();
        } else {
        }
        i += 1;
    }
    assert(b@.take(i as int) =~= b@);
    if current.len() > 0 {
        let ghost before = views(names@);
        let ghost done = current@;
        names.push(current);
        assert(views(names@) =~= before.push(done));
    }
    names
}

/// Whether `name` is one of `names`.
pub fn has_name(names: &Vec<Vec<u8>>, name: &[u8]) -> (r: bool)
    ensures
        r == views(names@).contains(name@),
{
    let mut i: usize = 0;
    while i < names.len()
        invariant
            i <= names@.len(),
            forall|j: int| 0 <= j < i ==> views(names@)[j] != name@,
        decreases names@.len() - i,
    {
        if bytes_eq(names[i].as_slice(), name) {
            assert(views(names@)[i as int] == name@);
            return true;
        }
        i += 1;
    }
    false
}

/// Whether `i` is the place in `ours` of the first name that `theirs` holds
/// too.
pub open spec fn is_first_common(ours: Seq<Seq<u8>>, theirs: Seq<Seq<u8>>, i: int) -> bool {
    &&& 0 <= i < ours.len()
    &&& theirs.contains(ours[i])
    &&& forall|j: int| 0 <= j < i ==> !theirs.contains(#[trigger] ours[j])
}

/// Whether the two lists share no name.
pub open spec fn nothing_common(ours: Seq<Seq<u8>>, theirs: Seq<Seq<u8>>) -> bool {
    forall|j: int| 0 <= j < ours.len() ==> !theirs.contains(#[trigger] ours[j])
}

/// The name that negotiation settles on: the first of the client's list that
/// the server's list holds too.
pub open spec fn preferred(client: Seq<Seq<u8>>, server: Seq<Seq<u8>>) -> Option<Seq<u8>>
    decreases client.len(),
{
    if client.len() == 0 {
        None
    } else if server.contains(client[0]) {
        Some(client[0])
    } else {
        preferred(client.skip(1), server)
    }
}

/// Negotiation picks the first name of the client's list that is present in
/// the server's list, and fails only where the lists share no name.
pub proof fn lemma_preferred_is_first_common(client: Seq<Seq<u8>>, server: Seq<Seq<u8>>)
    ensures
        match preferred(client, server) {
            Some(n) => exists|i: int| is_first_common(client, server, i) && client[i] == n,
            None => nothing_common(client, server),
        },
    decreases client.len(),
{
    if client.len() == 0 {
    } else if server.contains(client[0]) {
        assert(is_first_common(client, server, 0));
    } else {
        let rest = client.skip(1);
        lemma_preferred_is_first_common(rest, server);
        match preferred(rest, server) {
            Some(n) => {
                let i = choose|i: int| is_first_common(rest, server, i) && rest[i] == n;
                assert forall|j: int| 0 <= j < i + 1 implies !server.contains(
                    #[trigger] client[j],
                ) by {
                    if j > 0 {
                        assert(client[j] == rest[j - 1]);
                    }
                }
                assert(is_first_common(client, server, i + 1));
            },
            None => {
                assert forall|j: int| 0 <= j < client.len() implies !server.contains(
                    #[trigger] client[j],
                ) by {
                    if j > 0 {
                        assert(client[j] == rest[j - 1]);
                    }
                }
            },
        }
    }
}

/// The first common name is one name: two places that both qualify are the
/// same place.
pub proof fn lemma_first_common_unique(ours: Seq<Seq<u8>>, theirs: Seq<Seq<u8>>, i: int, j: int)
    requires
        is_first_common(ours, theirs, i),
        is_first_common(ours, theirs, j),
    ensures
        i == j,
{
}

/// The place in `client` of the name that negotiation settles on, or `None`
/// where the lists share no name.
pub fn negotiate(client: &Vec<Vec<u8>>, server: &Vec<Vec<u8>>) -> (r: Option<usize>)
    ensures
        match r {
            Some(i) => is_first_common(views(client@), views(server@), i as int) && preferred(
                views(client@),
                views(server@),
            ) == Some(client@[i as int]@),
            None => nothing_common(views(client@), views(server@)) && preferred(
                views(client@),
                views(server@),
            ) is None,
        },
{
    let ghost c = views(client@);
    let ghost s = views(server@);
    let mut i: usize = 0;
    while i < client.len()
        invariant
            i <= client@.len(),
            c == views(client@),
            s == views(server@),
            forall|j: int| 0 <= j < i ==> !s.contains(#[trigger] c[j]),
        decreases client@.len() - i,
    {
        if has_name(server, client[i].as_slice()) {
            proof {
                assert(is_first_common(c, s, i as int));
                lemma_preferred_is_first_common(c, s);
            }
            return Some(i);
        }
        i += 1;
    }
    proof {
        lemma_preferred_is_first_common(c, s);
    }
    None
}

} // verus!
