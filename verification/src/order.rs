//! Three-way comparison and the lexicographic order of sequences.

use vstd::prelude::*;

verus! {

/// The outcome of comparing two values of one type.
#[derive(Clone, Copy, Debug, PartialEq, Eq, Structural)]
pub enum Order {
    Less,
    Equal,
    Greater,
}

impl Order {
    /// The outcome of the comparison with its two sides exchanged.
    pub open spec fn reverse(self) -> Order {
        match self {
            Order::Less => Order::Greater,
            Order::Equal => Order::Equal,
            Order::Greater => Order::Less,
        }
    }
}

/// Numbers by their size.
pub open spec fn order_nat(a: nat, b: nat) -> Order {
    if a < b {
        Order::Less
    } else if a == b {
        Order::Equal
    } else {
        Order::Greater
    }
}

/// Characters by their code points.
pub open spec fn order_char(a: char, b: char) -> Order {
    if a < b {
        Order::Less
    } else if a == b {
        Order::Equal
    } else {
        Order::Greater
    }
}

/// Sequences by their first differing element; a proper prefix comes first.
pub open spec fn order_seq<T>(a: Seq<T>, b: Seq<T>, elem: spec_fn(T, T) -> Order) -> Order
    decreases a.len(),
{
    if a.len() == 0 {
        order_nat(0, b.len())
    } else if b.len() == 0 {
        Order::Greater
    } else if elem(a[0], b[0]) != Order::Equal {
        elem(a[0], b[0])
    } else {
        order_seq(a.drop_first(), b.drop_first(), elem)
    }
}

/// `elem` calls two values equal exactly when they are the same value.
pub open spec fn separates<T>(elem: spec_fn(T, T) -> Order) -> bool {
    forall|x: T, y: T| (#[trigger] elem(x, y) == Order::Equal) == (x == y)
}

/// Exchanging the two sides of `elem` reverses its outcome.
pub open spec fn antisymmetric<T>(elem: spec_fn(T, T) -> Order) -> bool {
    forall|x: T, y: T| #[trigger] elem(y, x) == elem(x, y).reverse()
}

/// What precedes something precedes all that comes after it.
pub open spec fn transitive<T>(elem: spec_fn(T, T) -> Order) -> bool {
    forall|x: T, y: T, z: T|
        #![trigger elem(x, y), elem(y, z)]
        elem(x, y) == Order::Less && elem(y, z) == Order::Less ==> elem(x, z) == Order::Less
}

/// `elem` is a total order on all values of its type.
pub open spec fn total_order<T>(elem: spec_fn(T, T) -> Order) -> bool {
    &&& separates(elem)
    &&& antisymmetric(elem)
    &&& transitive(elem)
}

proof fn lemma_seq_separates<T>(a: Seq<T>, b: Seq<T>, elem: spec_fn(T, T) -> Order)
    requires
        separates(elem),
    ensures
        (order_seq(a, b, elem) == Order::Equal) == (a == b),
    decreases a.len(),
{
    if a.len() > 0 && b.len() > 0 {
        lemma_seq_separates(a.drop_first(), b.drop_first(), elem);
        assert(elem(a[0], b[0]) == Order::Equal ==> a[0] == b[0]);
        if a[0] == b[0] {
            assert(elem(a[0], b[0]) == Order::Equal);
            if a.drop_first() == b.drop_first() {
                assert(a =~= seq![a[0]] + a.drop_first());
                assert(b =~= seq![b[0]] + b.drop_first());
            }
        }
    } else if a.len() == b.len() {
        assert(a =~= b);
    }
}

proof fn lemma_seq_antisymmetric<T>(a: Seq<T>, b: Seq<T>, elem: spec_fn(T, T) -> Order)
    requires
        antisymmetric(elem),
    ensures
        order_seq(b, a, elem) == order_seq(a, b, elem).reverse(),
    decreases a.len(),
{
    if a.len() > 0 && b.len() > 0 {
        lemma_seq_antisymmetric(a.drop_first(), b.drop_first(), elem);
        assert(elem(b[0], a[0]) == elem(a[0], b[0]).reverse());
    }
}

proof fn lemma_seq_transitive<T>(
    a: Seq<T>,
    b: Seq<T>,
    c: Seq<T>,
    elem: spec_fn(T, T) -> Order,
)
    requires
        total_order(elem),
        order_seq(a, b, elem) == Order::Less,
        order_seq(b, c, elem) == Order::Less,
    ensures
        order_seq(a, c, elem) == Order::Less,
    decreases a.len(),
{
    if a.len() > 0 {
        assert((elem(a[0], b[0]) == Order::Equal) == (a[0] == b[0]));
        assert((elem(b[0], c[0]) == Order::Equal) == (b[0] == c[0]));
        assert((elem(a[0], c[0]) == Order::Equal) == (a[0] == c[0]));
        if a[0] == b[0] && b[0] == c[0] {
            lemma_seq_transitive(a.drop_first(), b.drop_first(), c.drop_first(), elem);
        }
    }
}

/// A total order of elements orders the sequences of them totally.
pub proof fn lemma_order_seq_total<T>(elem: spec_fn(T, T) -> Order)
    requires
        total_order(elem),
    ensures
        total_order(|a: Seq<T>, b: Seq<T>| order_seq(a, b, elem)),
{
    let lifted = |a: Seq<T>, b: Seq<T>| order_seq(a, b, elem);
    assert forall|a: Seq<T>, b: Seq<T>| (#[trigger] lifted(a, b) == Order::Equal) == (a == b) by {
        lemma_seq_separates(a, b, elem);
    }
    assert forall|a: Seq<T>, b: Seq<T>| #[trigger] lifted(b, a) == lifted(a, b).reverse() by {
        lemma_seq_antisymmetric(a, b, elem);
    }
    assert forall|a: Seq<T>, b: Seq<T>, c: Seq<T>|
        #![trigger lifted(a, b), lifted(b, c)]
        lifted(a, b) == Order::Less && lifted(b, c) == Order::Less implies lifted(a, c)
        == Order::Less by {
        lemma_seq_transitive(a, b, c, elem);
    }
}

/// Sequences that share a beginning are ordered by what follows it.
pub proof fn lemma_order_seq_common_prefix<T>(
    prefix: Seq<T>,
    a: Seq<T>,
    b: Seq<T>,
    elem: spec_fn(T, T) -> Order,
)
    requires
        separates(elem),
    ensures
        order_seq(prefix + a, prefix + b, elem) == order_seq(a, b, elem),
    decreases prefix.len(),
{
    if prefix.len() == 0 {
        assert(prefix + a =~= a);
        assert(prefix + b =~= b);
    } else {
        lemma_order_seq_common_prefix(prefix.drop_first(), a, b, elem);
        assert((prefix + a).drop_first() =~= prefix.drop_first() + a);
        assert((prefix + b).drop_first() =~= prefix.drop_first() + b);
        assert(elem(prefix[0], prefix[0]) == Order::Equal);
    }
}

} // verus!
