//! Which of two versions comes first.

use vstd::prelude::*;

use crate::decimal::{all_digits, is_digit, value};
use crate::identifier::{
    identifiers, lemma_identifiers_nonempty, lemma_identifiers_single,
    lemma_order_build_total, lemma_order_identifier_total, order_build, order_identifier,
};
use crate::order::{lemma_order_seq_common_prefix, order_char, Order};
use crate::version::{lemma_order_version_total, order_version, VersionView};

verus! {

/// The identifier `x` comes before the identifier `y`: numbers by their size
/// and then by their length, numbers before all others, and the others by the
/// first character in which they differ.
pub open spec fn comes_first(x: Seq<char>, y: Seq<char>) -> bool {
    let x_is_number = forall|i: int| 0 <= i < x.len() ==> '0' <= #[trigger] x[i] && x[i] <= '9';
    let y_is_number = forall|i: int| 0 <= i < y.len() ==> '0' <= #[trigger] y[i] && y[i] <= '9';
    if x_is_number && y_is_number {
        value(x) < value(y) || value(x) == value(y) && x.len() < y.len()
    } else if x_is_number || y_is_number {
        x_is_number
    } else {
        exists|i: int|
            #![trigger x.take(i), y.take(i)]
            0 <= i <= x.len() && i < y.len() && x.take(i) == y.take(i) && (i == x.len() || x[i]
                < y[i])
    }
}

proof fn lemma_comes_first(x: Seq<char>, y: Seq<char>)
    requires
        comes_first(x, y),
    ensures
        order_identifier(x, y) == Order::Less,
{
    assert(all_digits(x) == (forall|i: int|
        0 <= i < x.len() ==> '0' <= #[trigger] x[i] && x[i] <= '9')) by {
        if forall|i: int| 0 <= i < x.len() ==> '0' <= #[trigger] x[i] && x[i] <= '9' {
            assert(all_digits(x));
        } else {
            let i = choose|i: int| 0 <= i < x.len() && !('0' <= #[trigger] x[i] && x[i] <= '9');
            assert(!is_digit(x[i]));
        }
    }
    assert(all_digits(y) == (forall|i: int|
        0 <= i < y.len() ==> '0' <= #[trigger] y[i] && y[i] <= '9')) by {
        if forall|i: int| 0 <= i < y.len() ==> '0' <= #[trigger] y[i] && y[i] <= '9' {
            assert(all_digits(y));
        } else {
            let i = choose|i: int| 0 <= i < y.len() && !('0' <= #[trigger] y[i] && y[i] <= '9');
            assert(!is_digit(y[i]));
        }
    }
    if !all_digits(x) && !all_digits(y) {
        let i = choose|i: int|
            #![trigger x.take(i), y.take(i)]
            0 <= i <= x.len() && i < y.len() && x.take(i) == y.take(i) && (i == x.len() || x[i]
                < y[i]);
        let by_char = |c: char, d: char| order_char(c, d);
        lemma_order_seq_common_prefix(x.take(i), x.skip(i), y.skip(i), by_char);
        assert(x =~= x.take(i) + x.skip(i));
        assert(y =~= x.take(i) + y.skip(i));
        assert(y.skip(i)[0] == y[i]);
        if i < x.len() {
            assert(x.skip(i)[0] == x[i]);
        }
    }
}

proof fn lemma_identifiers_joined(a: Seq<char>, b: Seq<char>)
    ensures
        identifiers(a + seq!['.'] + b) == identifiers(a) + identifiers(b),
    decreases b.len(),
{
    let t = a + seq!['.'] + b;
    if b.len() == 0 {
        assert(b =~= Seq::<char>::empty());
        assert(t.drop_last() =~= a);
        assert(identifiers(t) =~= identifiers(a) + identifiers(b));
    } else {
        lemma_identifiers_joined(a, b.drop_last());
        assert(t.drop_last() =~= a + seq!['.'] + b.drop_last());
        assert(t.last() == b.last());
        lemma_identifiers_nonempty(b.drop_last());
        assert(identifiers(t) =~= identifiers(a) + identifiers(b));
    }
}

/// The identifiers of a text that begins with whole ones.
proof fn lemma_identifiers_around(front: Seq<char>, x: Seq<char>, rest: Seq<char>) -> (around: (
    Seq<Seq<char>>,
    Seq<Seq<char>>,
))
    requires
        front.len() == 0 || front.last() == '.',
        rest.len() == 0 || rest[0] == '.',
        forall|i: int| 0 <= i < x.len() ==> #[trigger] x[i] != '.',
    ensures
        identifiers(front + x + rest) == around.0 + (seq![x] + around.1),
        front.len() == 0 ==> around.0 == Seq::<Seq<char>>::empty(),
        front.len() > 0 ==> around.0 == identifiers(front.drop_last()),
{
    lemma_identifiers_single(x);
    let after = if rest.len() == 0 {
        assert(x + rest =~= x);
        assert(identifiers(x + rest) =~= seq![x] + Seq::<Seq<char>>::empty());
        Seq::<Seq<char>>::empty()
    } else {
        assert(x + rest =~= x + seq!['.'] + rest.drop_first());
        lemma_identifiers_joined(x, rest.drop_first());
        identifiers(rest.drop_first())
    };
    assert(identifiers(x + rest) == seq![x] + after);
    if front.len() == 0 {
        assert(front + x + rest =~= x + rest);
        assert(identifiers(x + rest) =~= Seq::<Seq<char>>::empty() + (seq![x] + after));
        (Seq::empty(), after)
    } else {
        let p = front.drop_last();
        assert(front + x + rest =~= p + seq!['.'] + (x + rest));
        lemma_identifiers_joined(p, x + rest);
        (identifiers(p), after)
    }
}

proof fn lemma_first_difference(
    front: Seq<char>,
    x: Seq<char>,
    rest_x: Seq<char>,
    y: Seq<char>,
    rest_y: Seq<char>,
)
    requires
        front.len() == 0 || front.last() == '.',
        rest_x.len() == 0 || rest_x[0] == '.',
        rest_y.len() == 0 || rest_y[0] == '.',
        forall|i: int| 0 <= i < x.len() ==> #[trigger] x[i] != '.',
        forall|i: int| 0 <= i < y.len() ==> #[trigger] y[i] != '.',
        comes_first(x, y),
    ensures
        order_build(front + x + rest_x, front + y + rest_y) == Order::Less,
{
    let by_identifier = |a: Seq<char>, b: Seq<char>| order_identifier(a, b);
    lemma_comes_first(x, y);
    let (before, after_x) = lemma_identifiers_around(front, x, rest_x);
    let (same, after_y) = lemma_identifiers_around(front, y, rest_y);
    lemma_order_identifier_total();
    lemma_order_seq_common_prefix(before, seq![x] + after_x, seq![y] + after_y, by_identifier);
    assert((seq![x] + after_x)[0] == x);
    assert((seq![y] + after_y)[0] == y);
}

/// The numbers decide first, the major one before the minor one, and that
/// before the patch number.
pub proof fn law_order_by_numbers(a: VersionView, b: VersionView)
    requires
        a.major < b.major || a.major == b.major && (a.minor < b.minor || a.minor == b.minor
            && a.patch < b.patch),
    ensures
        order_version(a, b) == Order::Less,
        order_version(b, a) == Order::Greater,
{
}

/// With the same numbers a pre-release comes before the release.
pub proof fn law_order_release_last(a: VersionView, b: VersionView)
    requires
        a.major == b.major,
        a.minor == b.minor,
        a.patch == b.patch,
        a.pre.len() > 0,
        b.pre.len() == 0,
    ensures
        order_version(a, b) == Order::Less,
        order_version(b, a) == Order::Greater,
{
}

/// With the same numbers the first identifier in which two pre-releases differ
/// decides.
pub proof fn law_order_by_pre_release(
    a: VersionView,
    b: VersionView,
    front: Seq<char>,
    x: Seq<char>,
    rest_x: Seq<char>,
    y: Seq<char>,
    rest_y: Seq<char>,
)
    requires
        a.major == b.major,
        a.minor == b.minor,
        a.patch == b.patch,
        a.pre.len() > 0,
        b.pre.len() > 0,
        a.pre == front + x + rest_x,
        b.pre == front + y + rest_y,
        front.len() == 0 || front.last() == '.',
        rest_x.len() == 0 || rest_x[0] == '.',
        rest_y.len() == 0 || rest_y[0] == '.',
        forall|i: int| 0 <= i < x.len() ==> #[trigger] x[i] != '.',
        forall|i: int| 0 <= i < y.len() ==> #[trigger] y[i] != '.',
        comes_first(x, y),
    ensures
        order_version(a, b) == Order::Less,
        order_version(b, a) == Order::Greater,
{
    lemma_first_difference(front, x, rest_x, y, rest_y);
    lemma_order_build_total();
    let by_build = |p: Seq<char>, q: Seq<char>| order_build(p, q);
    assert((by_build(a.pre, b.pre) == Order::Equal) == (a.pre == b.pre));
    lemma_reversed(a, b);
}

/// With the same numbers a pre-release comes before those that add further
/// identifiers to it.
pub proof fn law_order_fewer_identifiers_first(a: VersionView, b: VersionView, more: Seq<char>)
    requires
        a.major == b.major,
        a.minor == b.minor,
        a.patch == b.patch,
        a.pre.len() > 0,
        b.pre == a.pre + seq!['.'] + more,
    ensures
        order_version(a, b) == Order::Less,
        order_version(b, a) == Order::Greater,
{
    let by_identifier = |a: Seq<char>, b: Seq<char>| order_identifier(a, b);
    lemma_identifiers_joined(a.pre, more);
    lemma_identifiers_nonempty(more);
    lemma_order_identifier_total();
    lemma_order_seq_common_prefix(
        identifiers(a.pre),
        Seq::empty(),
        identifiers(more),
        by_identifier,
    );
    assert(identifiers(a.pre) + Seq::<Seq<char>>::empty() =~= identifiers(a.pre));
    assert(a.pre.len() != b.pre.len());
    lemma_reversed(a, b);
}

/// With the same numbers and the same pre-release the first identifier in
/// which the build metadata differ decides.
pub proof fn law_order_by_build(
    a: VersionView,
    b: VersionView,
    front: Seq<char>,
    x: Seq<char>,
    rest_x: Seq<char>,
    y: Seq<char>,
    rest_y: Seq<char>,
)
    requires
        a.major == b.major,
        a.minor == b.minor,
        a.patch == b.patch,
        a.pre == b.pre,
        a.build == front + x + rest_x,
        b.build == front + y + rest_y,
        front.len() == 0 || front.last() == '.',
        rest_x.len() == 0 || rest_x[0] == '.',
        rest_y.len() == 0 || rest_y[0] == '.',
        forall|i: int| 0 <= i < x.len() ==> #[trigger] x[i] != '.',
        forall|i: int| 0 <= i < y.len() ==> #[trigger] y[i] != '.',
        comes_first(x, y),
    ensures
        order_version(a, b) == Order::Less,
        order_version(b, a) == Order::Greater,
{
    lemma_first_difference(front, x, rest_x, y, rest_y);
    lemma_reversed(a, b);
}

/// With the same numbers and the same pre-release, build metadata come before
/// those that add further identifiers to them.
pub proof fn law_order_shorter_build_first(a: VersionView, b: VersionView, more: Seq<char>)
    requires
        a.major == b.major,
        a.minor == b.minor,
        a.patch == b.patch,
        a.pre == b.pre,
        b.build == a.build + seq!['.'] + more,
    ensures
        order_version(a, b) == Order::Less,
        order_version(b, a) == Order::Greater,
{
    let by_identifier = |a: Seq<char>, b: Seq<char>| order_identifier(a, b);
    lemma_identifiers_joined(a.build, more);
    lemma_identifiers_nonempty(more);
    lemma_order_identifier_total();
    lemma_order_seq_common_prefix(
        identifiers(a.build),
        Seq::empty(),
        identifiers(more),
        by_identifier,
    );
    assert(identifiers(a.build) + Seq::<Seq<char>>::empty() =~= identifiers(a.build));
    lemma_reversed(a, b);
}

/// Two versions are equal in order if and only if they agree in every part.
pub proof fn law_order_equal(a: VersionView, b: VersionView)
    ensures
        (order_version(a, b) == Order::Equal) == (a.major == b.major && a.minor == b.minor && a.patch
            == b.patch && a.pre == b.pre && a.build == b.build),
{
    lemma_order_version_total();
    let version = |x: VersionView, y: VersionView| order_version(x, y);
    assert((version(a, b) == Order::Equal) == (a == b));
}

proof fn lemma_reversed(a: VersionView, b: VersionView)
    requires
        order_version(a, b) == Order::Less,
    ensures
        order_version(b, a) == Order::Greater,
{
    lemma_order_version_total();
    let version = |x: VersionView, y: VersionView| order_version(x, y);
    assert(version(b, a) == version(a, b).reverse());
}

} // verus!
