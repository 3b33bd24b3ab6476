//! The algorithms that a session can negotiate, each with the name it goes by
//! on the wire.

use vstd::prelude::*;
use vstd::string::*;
use crate::namelist::{bytes_eq, is_name, join, join_names, negotiate, preferred, split, split_names, views};
use crate::wire::copy_range;

pub mod cipher;
pub mod compress;
pub mod kex;
pub mod key;

pub use cipher::Cipher;
pub use compress::Compress;
pub use kex::Kex;
pub use key::Key;

verus! {

/// A family of algorithms that are told apart by name.
pub trait Algorithm: Sized + Copy {
    /// The name of the algorithm as it stands in a name list.
    spec fn name_bytes(self) -> Seq<u8>;

    /// The name of the algorithm as text.
    spec fn spec_name(self) -> Seq<char>;

    /// Every algorithm of the family, in the order of its declaration.
    spec fn known() -> Seq<Self>;

    /// The name of the algorithm.
    fn name(&self) -> (r: &'static str)
        ensures
            r@ == self.spec_name(),
            r.spec_bytes() == self.name_bytes(),
    ;

    /// Every algorithm of the family, in the order of its declaration.
    fn all() -> (r: Vec<Self>)
        ensures
            r@ == Self::known(),
    ;

    /// Names are well formed and tell the algorithms apart, and `known` leaves
    /// none out.
    proof fn lemma_names(a: Self, b: Self)
        ensures
            is_name(a.name_bytes()),
            a.name_bytes() == b.name_bytes() ==> a == b,
            Self::known().contains(a),
    ;
}

/// The names of `algs`, in order.
pub open spec fn names<A: Algorithm>(algs: Seq<A>) -> Seq<Seq<u8>> {
    algs.map_values(|a: A| a.name_bytes())
}

/// The algorithm of the family `A` that goes by the name `name`, if there is
/// one.
pub open spec fn named<A: Algorithm>(name: Seq<u8>) -> Option<A> {
    if exists|a: A| a.name_bytes() == name {
        Some(choose|a: A| a.name_bytes() == name)
    } else {
        None
    }
}

/// Every algorithm is found again by its name.
pub proof fn lemma_named_name<A: Algorithm>(a: A)
    ensures
        named::<A>(a.name_bytes()) == Some(a),
{
    let b = choose|b: A| b.name_bytes() == a.name_bytes();
    A::lemma_names(b, a);
}

/// The algorithm of the family `A` that goes by the name `name`, if there is
/// one.
pub fn from_name<A: Algorithm>(name: &[u8]) -> (r: Option<A>)
    ensures
        r == named::<A>(name@),
{
    let all = A::all();
    let mut i: usize = 0;
    while i < all.len()
        invariant
            i <= all@.len(),
            all@ == A::known(),
            forall|j: int| 0 <= j < i ==> (#[trigger] all@[j]).name_bytes() != name@,
        decreases all@.len() - i,
    {
        let a = all[i];
        if bytes_eq(name, a.name().as_bytes()) {
            proof {
                lemma_named_name(a);
            }
            return Some(a);
        }
        i += 1;
    }
    proof {
        assert forall|a: A| a.name_bytes() != name@ by {
            A::lemma_names(a, a);
            let j = choose|j: int| 0 <= j < A::known().len() && A::known()[j] == a;
            assert(all@[j].name_bytes() != name@);
        }
    }
    None
}

/// The names of `algs`, in order.
pub fn names_of<A: Algorithm>(algs: &Vec<A>) -> (r: Vec<Vec<u8>>)
    ensures
        views(r@) == names(algs@),
{
    let mut r: Vec<Vec<u8>> = Vec::new();
    let mut i: usize = 0;
    while i < algs.len()
        invariant
            i <= algs@.len(),
            views(r@) == names(algs@.take(i as int)),
        decreases algs@.len() - i,
    {
        let bytes = algs[i].name().as_bytes();
        let ghost before = views(r@);
        r.push(copy_range(bytes, 0, bytes.len()));
        assert(bytes@.subrange(0, bytes@.len() as int) =~= bytes@);
        assert(views(r@) =~= before.push(bytes@));
        assert(names(algs@.take(i + 1)) =~= names(algs@.take(i as int)).push(
            algs@[i as int].name_bytes(),
        ));
        i += 1;
    }
    assert(algs@.take(i as int) =~= algs@);
    r
}

/// The name list that offers `algs`, most preferred first.
pub fn name_list<A: Algorithm>(algs: &Vec<A>) -> (r: Vec<u8>)
    ensures
        r@ == join(names(algs@)),
{
    join_names(&names_of(algs))
}

/// The algorithm that two name lists agree on: the one named by the first
/// name of the client's list that the server's list holds too, where the lists
/// share a name and this family knows it.
pub open spec fn agreed<A: Algorithm>(client: Seq<u8>, server: Seq<u8>) -> Option<A> {
    match preferred(split(client), split(server)) {
        Some(name) => named::<A>(name),
        None => None,
    }
}

/// The algorithm that the two name lists agree on, if any.
pub fn select<A: Algorithm>(client: &[u8], server: &[u8]) -> (r: Option<A>)
    ensures
        r == agreed::<A>(client@, server@),
{
    let ours = split_names(client);
    let theirs = split_names(server);
    match negotiate(&ours, &theirs) {
        Some(i) => from_name(ours[i].as_slice()),
        None => None,
    }
}

} // verus!
