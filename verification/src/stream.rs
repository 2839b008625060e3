//! Streams of bytes that can fail: what a reader hands out, one item for each
//! byte or failed read.

use vstd::prelude::*;

verus! {

/// `std::io::Error`: a failed read. Nothing is said of what it holds.
#[verifier::external_type_specification]
#[verifier::external_body]
pub struct ExIoError(std::io::Error);

/// Every item of the stream is a byte, none a failed read.
pub open spec fn all_ok(items: Seq<Result<u8, std::io::Error>>) -> bool {
    forall|i: int| 0 <= i < items.len() ==> (#[trigger] items[i]) is Ok
}

/// The bytes that a stream without a failed read delivers.
pub open spec fn delivered(items: Seq<Result<u8, std::io::Error>>) -> Seq<u8> {
    Seq::new(items.len(), |i: int| items[i]->Ok_0)
}

/// The first failed read of the stream is at `i`.
pub open spec fn fails_at(items: Seq<Result<u8, std::io::Error>>, i: int) -> bool {
    0 <= i < items.len() && items[i] is Err && all_ok(items.take(i))
}

/// A stream fails first at one place only.
pub proof fn lemma_fails_once(items: Seq<Result<u8, std::io::Error>>, i: int, j: int)
    requires
        fails_at(items, i),
        fails_at(items, j),
    ensures
        i == j,
{
    if i < j {
        assert(items.take(j)[i] is Err);
    }
    if j < i {
        assert(items.take(i)[j] is Err);
    }
}

} // verus!
