//! A set of small positions packed into sixteen bits, with rank and select.
//!
//! Positions are numbered from zero. The *rank* of a position is the number
//! of members strictly below it; *select* is the inverse on members.

use vstd::prelude::*;

verus! {

/// A set of positions in `0..16`, one bit per position.
#[derive(Clone, Copy, Debug, PartialEq, Eq, Hash, Structural)]
pub struct Bitfield(pub u16);

impl Bitfield {
    /// Whether position `i` belongs to the set.
    pub open spec fn contains(self, i: int) -> bool {
        0 <= i < 16 && (self.0 >> (i as u16)) & 1 == 1
    }

    /// How many members lie strictly below position `n`.
    pub open spec fn count_below(self, n: int) -> int
        decreases n,
    {
        if n <= 0 {
            0
        } else {
            self.count_below(n - 1) + if self.contains(n - 1) {
                1int
            } else {
                0int
            }
        }
    }

    /// The member below `width` that has exactly `k` members below it.
    pub open spec fn nth(self, k: int, width: int) -> int {
        choose|p: int| 0 <= p < width && self.contains(p) && self.count_below(p) == k
    }

    /// How many members below `width` lie strictly above position `p`.
    pub open spec fn count_above(self, p: int, width: int) -> int {
        self.count_below(width) - self.count_below(p + 1)
    }

    /// The member below `width` that has exactly `k` members above it.
    pub open spec fn nth_from_end(self, k: int, width: int) -> int {
        self.nth(self.count_below(width) - 1 - k, width)
    }

    /// The set without members.
    pub open spec fn none() -> Bitfield {
        Bitfield(0)
    }

    /// The set of all positions below `width`.
    pub open spec fn below(width: int) -> Bitfield {
        if width <= 0 {
            Bitfield(0)
        } else {
            Bitfield(0xFFFFu16 >> ((16 - width) as u16))
        }
    }

    /// The set with position `i` put in.
    pub open spec fn inserted(self, i: int) -> Bitfield {
        Bitfield(self.0 | (1u16 << (i as u16)))
    }

    /// The set with position `i` taken out.
    pub open spec fn removed(self, i: int) -> Bitfield {
        Bitfield(self.0 & !(1u16 << (i as u16)))
    }

    /// The members of either set.
    pub open spec fn united(self, other: Bitfield) -> Bitfield {
        Bitfield(self.0 | other.0)
    }

    /// The positions below `width` that are not members.
    pub open spec fn complemented(self, width: int) -> Bitfield {
        Bitfield(!self.0 & Self::below(width).0)
    }

    /// The set whose bits are `bits`.
    pub fn new(bits: u16) -> (r: Bitfield)
        ensures
            r.0 == bits,
    {
        Bitfield(bits)
    }

    /// The set without members.
    pub fn empty() -> (r: Bitfield)
        ensures
            r == Bitfield::none(),
            forall|i: int| #![trigger r.contains(i)] !r.contains(i),
            forall|n: int| r.count_below(n) == 0,
    {
        proof {
            Bitfield::lemma_none();
        }
        Bitfield(0)
    }

    /// The set of all positions below `width`.
    pub fn full(width: u8) -> (r: Bitfield)
        requires
            width <= 16,
        ensures
            r == Bitfield::below(width as int),
            forall|i: int| #![trigger r.contains(i)] r.contains(i) == (0 <= i < width),
            r.count_below(width as int) == width,
    {
        let r = if width == 0 {
            Bitfield(0)
        } else {
            Bitfield(0xFFFFu16 >> ((16 - width) as u16))
        };
        proof {
            Bitfield::lemma_below(width as int);
        }
        r
    }

    /// Membership test. Positions from 16 on are never members.
    pub fn has(self, index: u8) -> (r: bool)
        ensures
            r == self.contains(index as int),
    {
        index < 16 && (self.0 >> (index as u16)) & 1 == 1
    }

    /// Inserts position `index`.
    pub fn add(&mut self, index: u8)
        requires
            index < 16,
        ensures
            *final(self) == old(self).inserted(index as int),
            forall|i: int|
                #![trigger final(self).contains(i)]
                final(self).contains(i) == (i == index || old(self).contains(i)),
    {
        proof {
            self.lemma_inserted(index as int);
        }
        self.0 = self.0 | (1u16 << (index as u16));
    }

    /// Deletes position `index`.
    pub fn remove(&mut self, index: u8)
        requires
            index < 16,
        ensures
            *final(self) == old(self).removed(index as int),
            forall|i: int|
                #![trigger final(self).contains(i)]
                final(self).contains(i) == (i != index && old(self).contains(i)),
    {
        proof {
            self.lemma_removed(index as int);
        }
        self.0 = self.0 & !(1u16 << (index as u16));
    }

    /// The members of either set.
    pub fn union(self, other: Bitfield) -> (r: Bitfield)
        ensures
            r == self.united(other),
            forall|i: int|
                #![trigger r.contains(i)]
                r.contains(i) == (self.contains(i) || other.contains(i)),
    {
        let r = Bitfield(self.0 | other.0);
        proof {
            self.lemma_united(other);
            assert(r == self.united(other));
        }
        r
    }

    /// The positions below `width` that are not members.
    pub fn complement(self, width: u8) -> (r: Bitfield)
        requires
            width <= 16,
        ensures
            r == self.complemented(width as int),
            forall|i: int|
                #![trigger r.contains(i)]
                r.contains(i) == (0 <= i < width && !self.contains(i)),
            r.count_below(width as int) == width - self.count_below(width as int),
    {
        let mask = Bitfield::full(width);
        let r = Bitfield(!self.0 & mask.0);
        proof {
            self.lemma_complemented(width as int);
        }
        r
    }

    /// The number of members below `width`.
    pub fn count(self, width: u8) -> (r: u8)
        requires
            width <= 16,
        ensures
            r == self.count_below(width as int),
            r <= width,
    {
        let mut total: u8 = 0;
        let mut i: u8 = 0;
        while i < width
            invariant
                i <= width <= 16,
                total == self.count_below(i as int),
                total <= i,
            decreases width - i,
        {
            if self.has(i) {
                total = total + 1;
            }
            i = i + 1;
        }
        total
    }

    /// The member below `width` with exactly `k` members below it, if there
    /// are more than `k` members below `width`.
    pub fn select(self, k: u8, width: u8) -> (r: Option<u8>)
        requires
            width <= 16,
        ensures
            r is Some <==> k < self.count_below(width as int),
            r matches Some(p) ==> p == self.nth(k as int, width as int),
            r matches Some(p) ==> p < width && self.contains(p as int) && self.count_below(
                p as int,
            ) == k,
    {
        let mut seen: u8 = 0;
        let mut i: u8 = 0;
        while i < width
            invariant
                i <= width <= 16,
                seen == self.count_below(i as int),
                seen <= k,
                seen <= i,
            decreases width - i,
        {
            if self.has(i) {
                if seen == k {
                    proof {
                        self.lemma_rank_below_count(i as int, width as int);
                        self.lemma_nth_of_rank(i as int, width as int);
                    }
                    return Some(i);
                }
                seen = seen + 1;
            }
            i = i + 1;
        }
        None
    }

    /// The rank of position `index`, if it is a member.
    pub fn indexof(self, index: u8) -> (r: Option<usize>)
        ensures
            r is Some <==> self.contains(index as int),
            r matches Some(k) ==> k == self.count_below(index as int),
    {
        if self.has(index) {
            Some(self.count(index) as usize)
        } else {
            None
        }
    }

    /// The member below `width` with rank `k`, if there is one.
    pub fn index(self, k: usize, width: u8) -> (r: Option<u8>)
        requires
            width <= 16,
        ensures
            r is Some <==> k < self.count_below(width as int),
            r matches Some(p) ==> p == self.nth(k as int, width as int),
    {
        proof {
            self.lemma_count_nonnegative(width as int);
        }
        if k >= 16 {
            None
        } else {
            self.select(k as u8, width)
        }
    }

    /// The number of members below `width` that lie above position `index`.
    pub fn count_from_end(self, index: u8, width: u8) -> (r: u8)
        requires
            index < width <= 16,
        ensures
            r == self.count_above(index as int, width as int),
    {
        proof {
            self.lemma_count_monotone(index as int + 1, width as int);
        }
        self.count(width) - self.count(index + 1)
    }

    /// The member below `width` with exactly `k` members above it, if there
    /// is one.
    pub fn lookup_from_end(self, k: u8, width: u8) -> (r: Option<u8>)
        requires
            width <= 16,
        ensures
            r is Some <==> k < self.count_below(width as int),
            r matches Some(p) ==> p == self.nth_from_end(k as int, width as int),
    {
        let total = self.count(width);
        if k >= total {
            None
        } else {
            self.select(total - 1 - k, width)
        }
    }

    /// What `none` holds.
    pub proof fn lemma_none()
        ensures
            forall|i: int| #![trigger Bitfield::none().contains(i)] !Bitfield::none().contains(i),
            forall|n: int| Bitfield::none().count_below(n) == 0,
    {
        let r = Bitfield::none();
        assert forall|i: int| #![trigger r.contains(i)] !r.contains(i) by {
            if 0 <= i < 16 {
                lemma_zero_bit(i as u16);
            }
        }
        assert forall|n: int| r.count_below(n) == 0 by {
            lemma_count_empty(r, n);
        }
    }

    /// What `below` holds.
    pub proof fn lemma_below(width: int)
        requires
            0 <= width <= 16,
        ensures
            forall|i: int|
                #![trigger Bitfield::below(width).contains(i)]
                Bitfield::below(width).contains(i) == (0 <= i < width),
            Bitfield::below(width).count_below(width) == width,
    {
        let r = Bitfield::below(width);
        Bitfield::lemma_none();
        assert forall|i: int| #![trigger r.contains(i)] r.contains(i) == (0 <= i < width) by {
            if 0 <= i < 16 && width > 0 {
                lemma_mask_bit(width as u16, i as u16);
            } else if width <= 0 {
                assert(!Bitfield::none().contains(i));
            }
        }
        lemma_count_complement(Bitfield::none(), r, width, width);
    }

    /// What `inserted` holds.
    pub proof fn lemma_inserted(self, p: int)
        requires
            0 <= p < 16,
        ensures
            forall|i: int|
                #![trigger self.inserted(p).contains(i)]
                self.inserted(p).contains(i) == (i == p || self.contains(i)),
    {
        assert forall|i: int|
            #![trigger self.inserted(p).contains(i)]
            self.inserted(p).contains(i) == (i == p || self.contains(i)) by {
            if 0 <= i < 16 {
                lemma_set_bit(self.0, p as u16, i as u16);
            }
        }
    }

    /// What `removed` holds.
    pub proof fn lemma_removed(self, p: int)
        requires
            0 <= p < 16,
        ensures
            forall|i: int|
                #![trigger self.removed(p).contains(i)]
                self.removed(p).contains(i) == (i != p && self.contains(i)),
            forall|n: int|
                self.removed(p).count_below(n) == self.count_below(n) - if self.contains(p) && p
                    < n {
                    1int
                } else {
                    0int
                },
    {
        assert forall|i: int|
            #![trigger self.removed(p).contains(i)]
            self.removed(p).contains(i) == (i != p && self.contains(i)) by {
            if 0 <= i < 16 {
                lemma_clear_bit(self.0, p as u16, i as u16);
            }
        }
        assert forall|n: int|
            self.removed(p).count_below(n) == self.count_below(n) - if self.contains(p) && p < n {
                1int
            } else {
                0int
            } by {
            lemma_count_without(self, self.removed(p), p, n);
        }
    }

    /// What `united` holds.
    pub proof fn lemma_united(self, other: Bitfield)
        ensures
            forall|i: int|
                #![trigger self.united(other).contains(i)]
                self.united(other).contains(i) == (self.contains(i) || other.contains(i)),
    {
        assert forall|i: int|
            #![trigger self.united(other).contains(i)]
            self.united(other).contains(i) == (self.contains(i) || other.contains(i)) by {
            if 0 <= i < 16 {
                lemma_union_bit(self.0, other.0, i as u16);
            }
        }
    }

    /// What `complemented` holds.
    pub proof fn lemma_complemented(self, width: int)
        requires
            0 <= width <= 16,
        ensures
            forall|i: int|
                #![trigger self.complemented(width).contains(i)]
                self.complemented(width).contains(i) == (0 <= i < width && !self.contains(i)),
            self.complemented(width).count_below(width) == width - self.count_below(width),
    {
        let r = self.complemented(width);
        assert forall|i: int|
            #![trigger r.contains(i)]
            r.contains(i) == (0 <= i < width && !self.contains(i)) by {
            if 0 <= i < 16 {
                lemma_complement_bit(self.0, width as u16, i as u16);
            }
        }
        lemma_count_complement(self, r, width, width);
    }

    /// Ranks never go down as the position goes up.
    pub proof fn lemma_count_monotone(self, a: int, b: int)
        requires
            a <= b,
        ensures
            0 <= self.count_below(a) <= self.count_below(b),
        decreases b - a,
    {
        if a < b {
            self.lemma_count_monotone(a, b - 1);
        } else {
            self.lemma_count_nonnegative(a);
        }
    }

    /// A rank is at least zero and at most the position.
    pub proof fn lemma_count_nonnegative(self, n: int)
        ensures
            0 <= self.count_below(n),
            n >= 0 ==> self.count_below(n) <= n,
        decreases n,
    {
        if n > 0 {
            self.lemma_count_nonnegative(n - 1);
        }
    }

    /// A member has a smaller rank than any position above it.
    pub proof fn lemma_rank_below_count(self, p: int, q: int)
        requires
            self.contains(p),
            p < q,
        ensures
            0 <= self.count_below(p) < self.count_below(q),
    {
        self.lemma_count_monotone(p + 1, q);
        self.lemma_count_nonnegative(p);
    }

    /// Two members with the same rank are the same position.
    pub proof fn lemma_rank_injective(self, p: int, q: int)
        requires
            self.contains(p),
            self.contains(q),
            self.count_below(p) == self.count_below(q),
        ensures
            p == q,
    {
        if p < q {
            self.lemma_rank_below_count(p, q);
        } else if q < p {
            self.lemma_rank_below_count(q, p);
        }
    }

    /// Select undoes rank: the member ranked like `p` is `p`.
    pub proof fn lemma_nth_of_rank(self, p: int, width: int)
        requires
            self.contains(p),
            p < width,
        ensures
            self.nth(self.count_below(p), width) == p,
    {
        let q = self.nth(self.count_below(p), width);
        self.lemma_rank_injective(p, q);
    }

    /// Rank undoes select: for every `k` below the member count there is a
    /// member ranked `k`, and `nth` names it.
    pub proof fn lemma_rank_of_nth(self, k: int, width: int)
        requires
            0 <= k < self.count_below(width),
        ensures
            0 <= self.nth(k, width) < width,
            self.contains(self.nth(k, width)),
            self.count_below(self.nth(k, width)) == k,
        decreases width,
    {
        if width > 0 {
            if k < self.count_below(width - 1) {
                self.lemma_rank_of_nth(k, width - 1);
                let p = self.nth(k, width - 1);
                assert(0 <= p < width && self.contains(p) && self.count_below(p) == k);
            } else {
                let p = width - 1;
                assert(0 <= p < width && self.contains(p) && self.count_below(p) == k);
            }
        }
    }
}

/// Taking one member out lowers by one the counts that reached past it, and
/// no others.
pub proof fn lemma_count_without(whole: Bitfield, part: Bitfield, p: int, n: int)
    requires
        forall|i: int|
            #![trigger part.contains(i)]
            part.contains(i) == (i != p && whole.contains(i)),
    ensures
        part.count_below(n) == whole.count_below(n) - if whole.contains(p) && p < n {
            1int
        } else {
            0int
        },
    decreases n,
{
    if n > 0 {
        lemma_count_without(whole, part, p, n - 1);
    }
}

/// A set and its complement below `width` share out the positions.
pub proof fn lemma_count_complement(whole: Bitfield, rest: Bitfield, width: int, n: int)
    requires
        forall|i: int|
            #![trigger rest.contains(i)]
            rest.contains(i) == (0 <= i < width && !whole.contains(i)),
        0 <= n <= width <= 16,
    ensures
        rest.count_below(n) == n - whole.count_below(n),
    decreases n,
{
    if n > 0 {
        lemma_count_complement(whole, rest, width, n - 1);
    }
}

/// A set without members counts nothing.
pub proof fn lemma_count_empty(none: Bitfield, n: int)
    requires
        forall|i: int| #![trigger none.contains(i)] !none.contains(i),
    ensures
        none.count_below(n) == 0,
    decreases n,
{
    if n > 0 {
        lemma_count_empty(none, n - 1);
    }
}

/// Sets with the same members are counted alike.
pub proof fn lemma_count_same(a: Bitfield, b: Bitfield, n: int)
    requires
        forall|i: int| #![trigger a.contains(i)] 0 <= i < n ==> a.contains(i) == b.contains(i),
    ensures
        a.count_below(n) == b.count_below(n),
    decreases n,
{
    if n > 0 {
        lemma_count_same(a, b, n - 1);
    }
}

/// Bit `j` of the mask of the lowest `width` bits.
proof fn lemma_mask_bit(width: u16, j: u16)
    by (bit_vector)
    requires
        1 <= width <= 16,
        j < 16,
    ensures
        (((0xFFFFu16 >> ((16 - width) as u16)) >> j) & 1 == 1) == (j < width),
{
}

/// Bit `j` of zero.
proof fn lemma_zero_bit(j: u16)
    by (bit_vector)
    requires
        j < 16,
    ensures
        (0u16 >> j) & 1 != 1,
{
}

/// Bit `j` after bit `i` has been set.
proof fn lemma_set_bit(bits: u16, i: u16, j: u16)
    by (bit_vector)
    requires
        i < 16,
        j < 16,
    ensures
        (((bits | (1u16 << i)) >> j) & 1 == 1) == (j == i || (bits >> j) & 1 == 1),
{
}

/// Bit `j` after bit `i` has been cleared.
proof fn lemma_clear_bit(bits: u16, i: u16, j: u16)
    by (bit_vector)
    requires
        i < 16,
        j < 16,
    ensures
        (((bits & !(1u16 << i)) >> j) & 1 == 1) == (j != i && (bits >> j) & 1 == 1),
{
}

/// Bit `j` of a union.
proof fn lemma_union_bit(one: u16, other: u16, j: u16)
    by (bit_vector)
    requires
        j < 16,
    ensures
        (((one | other) >> j) & 1 == 1) == ((one >> j) & 1 == 1 || (other >> j) & 1 == 1),
{
}

/// Bit `j` of the complement within the lowest `width` bits.
proof fn lemma_complement_bit(bits: u16, width: u16, j: u16)
    by (bit_vector)
    requires
        width <= 16,
        j < 16,
    ensures
        width >= 1 ==> (((!bits & (0xFFFFu16 >> ((16 - width) as u16))) >> j) & 1 == 1) == (j
            < width && (bits >> j) & 1 != 1),
        ((!bits & 0u16) >> j) & 1 != 1,
{
}

} // verus!
