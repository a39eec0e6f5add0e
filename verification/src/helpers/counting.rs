//! Counting a set by numbering its elements.

use vstd::prelude::*;
use vstd::relations::injective_on;
use vstd::set_lib::{lemma_int_range, lemma_map_size, set_int_range};

verus! {

/// A set whose elements are numbered from zero up to `count`, each number
/// used once and none left out, has `count` elements.
pub proof fn lemma_numbered_set_size<A>(
    elements: Set<A>,
    count: int,
    decode: spec_fn(int) -> A,
    encode: spec_fn(A) -> int,
)
    requires
        0 <= count,
        forall|i: int|
            0 <= i < count ==> elements.contains(#[trigger] decode(i)) && encode(decode(i)) == i,
        forall|a: A|
            elements.contains(a) ==> 0 <= #[trigger] encode(a) < count && decode(encode(a)) == a,
    ensures
        elements.finite(),
        elements.len() == count,
{
    let numbers = set_int_range(0, count);
    lemma_int_range(0, count);
    assert(injective_on(decode, numbers)) by {
        assert forall|i: int, j: int|
            numbers.contains(i) && numbers.contains(j) && #[trigger] decode(i) == #[trigger] decode(
                j,
            ) implies i == j by {
            assert(encode(decode(i)) == i);
            assert(encode(decode(j)) == j);
        }
    }
    assert(numbers.map(decode) =~= elements) by {
        assert forall|a: A| elements.contains(a) implies numbers.map(decode).contains(a) by {
            let i = encode(a);
            assert(numbers.contains(i) && decode(i) == a);
        }
        assert forall|a: A| numbers.map(decode).contains(a) implies elements.contains(a) by {
            let i = choose|i: int| numbers.contains(i) && a == decode(i);
            assert(elements.contains(decode(i)));
        }
    }
    lemma_map_size(numbers, elements, decode);
}

} // verus!
