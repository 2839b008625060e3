//! A list of file names as bytes: each name is ended by a NUL byte, except
//! that the last one may do without.

use vstd::prelude::*;
use vstd::utf8::{decode_utf8, valid_utf8};

verus! {

/// The bytes of `s` after its last NUL: the name that no NUL has ended yet.
pub open spec fn pending(s: Seq<u8>) -> Seq<u8>
    decreases s.len(),
{
    if s.len() == 0 || s.last() == 0 {
        seq![]
    } else {
        pending(s.drop_last()).push(s.last())
    }
}

/// The names in `s` that a NUL ends, in their order.
pub open spec fn finished(s: Seq<u8>) -> Seq<Seq<u8>>
    decreases s.len(),
{
    if s.len() == 0 {
        seq![]
    } else if s.last() == 0 {
        finished(s.drop_last()).push(pending(s.drop_last()))
    } else {
        finished(s.drop_last())
    }
}

/// The names that `s` lists: those that a NUL ends, and after them what
/// follows the last NUL, if that is not empty or there is no other name.
pub open spec fn listed(s: Seq<u8>) -> Seq<Seq<u8>> {
    if finished(s).len() == 0 || pending(s).len() > 0 {
        finished(s).push(pending(s))
    } else {
        finished(s)
    }
}

/// Every name is valid UTF-8.
pub open spec fn all_valid(names: Seq<Seq<u8>>) -> bool {
    forall|i: int| 0 <= i < names.len() ==> valid_utf8(#[trigger] names[i])
}

/// The names as texts.
pub open spec fn decoded(names: Seq<Seq<u8>>) -> Seq<Seq<char>> {
    Seq::new(names.len(), |i: int| decode_utf8(names[i]))
}

/// How the names change when one more byte is read.
pub proof fn lemma_names_push(s: Seq<u8>, byte: u8)
    ensures
        pending(s.push(byte)) == if byte == 0 {
            Seq::<u8>::empty()
        } else {
            pending(s).push(byte)
        },
        finished(s.push(byte)) == if byte == 0 {
            finished(s).push(pending(s))
        } else {
            finished(s)
        },
{
    assert(s.push(byte).drop_last() =~= s);
}

/// A name that a NUL has ended stays what it is, whatever follows.
pub proof fn lemma_finished_stays(s: Seq<u8>, t: Seq<u8>)
    requires
        s.len() <= t.len(),
        t.take(s.len() as int) == s,
    ensures
        finished(s).len() <= finished(t).len(),
        forall|i: int| 0 <= i < finished(s).len() ==> #[trigger] finished(t)[i] == finished(s)[i],
    decreases t.len() - s.len(),
{
    if s.len() == t.len() {
        assert(t =~= s);
    } else {
        assert(t.drop_last().take(s.len() as int) =~= s);
        lemma_finished_stays(s, t.drop_last());
    }
}

/// The names that NULs end are among those that are listed.
pub proof fn lemma_listed_holds_finished(s: Seq<u8>)
    ensures
        finished(s).len() <= listed(s).len(),
        forall|i: int| 0 <= i < finished(s).len() ==> #[trigger] listed(s)[i] == finished(s)[i],
{
}

} // verus!
