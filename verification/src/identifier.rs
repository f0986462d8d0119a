//! Dot-separated identifiers: the text after the hyphen of a pre-release
//! version, and the text after the plus sign of a version with build metadata.

use vstd::prelude::*;

use crate::decimal::{
    all_digits, chars_of, decimal, is_digit, lemma_decimal_len_u64, lemma_decimal_value,
    lemma_value_decimal, lemma_value_injective, parse_u64, parsed_u64, value,
};
use crate::order::{
    lemma_order_seq_common_prefix, lemma_order_seq_total, order_char, order_nat, order_seq,
    total_order, Order,
};

verus! {

/// The parts of `s` between its dots, in order. There is always at least one.
pub open spec fn identifiers(s: Seq<char>) -> Seq<Seq<char>>
    decreases s.len(),
{
    if s.len() == 0 {
        seq![s]
    } else {
        let init = identifiers(s.drop_last());
        if s.last() == '.' {
            init.push(Seq::empty())
        } else {
            init.drop_last().push(init.last().push(s.last()))
        }
    }
}

/// A character that may occur in an identifier.
pub open spec fn is_identifier_char(c: char) -> bool {
    is_digit(c) || ('A' <= c && c <= 'Z') || ('a' <= c && c <= 'z') || c == '-'
}

/// An identifier of build metadata: ASCII letters, digits and hyphens, at
/// least one of them.
pub open spec fn is_build_identifier(id: Seq<char>) -> bool {
    &&& id.len() > 0
    &&& forall|i: int| 0 <= i < id.len() ==> is_identifier_char(#[trigger] id[i])
}

/// An identifier of a pre-release: as for build metadata, and a number has no
/// leading zero.
pub open spec fn is_pre_identifier(id: Seq<char>) -> bool {
    &&& is_build_identifier(id)
    &&& all_digits(id) && id.len() > 1 ==> id[0] != '0'
}

/// The length up to which a text of identifiers can be stored: below 64
/// petabytes, and on a machine with addresses of 32 bits what a single
/// allocation holds beside the length of the text.
pub open spec fn identifier_limit() -> nat {
    if usize::MAX > 0xffff_ffff {
        (usize::MAX / 256) as nat
    } else {
        (usize::MAX / 2 - 7) as nat
    }
}

/// The length up to which a text of identifiers can be stored.
pub fn max_identifier_len() -> (limit: usize)
    ensures
        limit == identifier_limit(),
{
    if usize::MAX > 0xffff_ffff {
        usize::MAX / 256
    } else {
        usize::MAX / 2 - 7
    }
}

/// `s` is what may stand after the hyphen of a version, or is empty.
pub open spec fn is_prerelease(s: Seq<char>) -> bool {
    &&& s.len() <= identifier_limit()
    &&& s.len() > 0 ==> forall|i: int|
        0 <= i < identifiers(s).len() ==> is_pre_identifier(#[trigger] identifiers(s)[i])
}

/// `s` is what may stand after the plus sign of a version, or is empty.
pub open spec fn is_build(s: Seq<char>) -> bool {
    &&& s.len() <= identifier_limit()
    &&& s.len() > 0 ==> forall|i: int|
        0 <= i < identifiers(s).len() ==> is_build_identifier(#[trigger] identifiers(s)[i])
}

/// `s` can be the label of a pre-release: a counter can be put behind it.
pub open spec fn is_label(s: Seq<char>) -> bool {
    &&& s.len() > 0
    &&& is_prerelease(s)
    &&& has_room(s)
}

/// A dot and a counter still fit behind `s`.
pub open spec fn has_room(s: Seq<char>) -> bool {
    s.len() + 21 <= identifier_limit()
}

/// The text of a pre-release with a label and a counter, such as `beta.2`.
pub open spec fn numbered(label: Seq<char>, n: nat) -> Seq<char> {
    label.push('.') + decimal(n)
}

/// The place of the last dot of `s`.
pub open spec fn last_dot(s: Seq<char>) -> Option<int>
    decreases s.len(),
{
    if s.len() == 0 {
        None
    } else if s.last() == '.' {
        Some(s.len() - 1)
    } else {
        last_dot(s.drop_last())
    }
}

/// What stands behind the last dot of `s`, read as a number.
pub open spec fn suffix_number(s: Seq<char>) -> Option<nat> {
    match last_dot(s) {
        Some(i) => parsed_u64(s.skip(i + 1)),
        None => None,
    }
}

/// The label of a pre-release: what stands before its last dot if a number
/// stands behind it, and otherwise all of it.
pub open spec fn label_of(s: Seq<char>) -> Seq<char> {
    match (last_dot(s), suffix_number(s)) {
        (Some(i), Some(_)) => s.take(i),
        _ => s,
    }
}

/// The pre-release `s` has a counter, or has no dot and so counts as zero.
pub open spec fn has_number(s: Seq<char>) -> bool {
    last_dot(s) is Some ==> suffix_number(s) is Some
}

/// The counter of a pre-release, zero where it has no dot.
pub open spec fn number_of(s: Seq<char>) -> nat {
    match suffix_number(s) {
        Some(n) => n,
        None => 0,
    }
}

/// The last dot is a dot, and none follows it.
pub proof fn lemma_last_dot(s: Seq<char>)
    ensures
        match last_dot(s) {
            Some(i) => {
                &&& 0 <= i < s.len()
                &&& s[i] == '.'
                &&& forall|j: int| i < j < s.len() ==> s[j] != '.'
            },
            None => forall|j: int| 0 <= j < s.len() ==> s[j] != '.',
        },
    decreases s.len(),
{
    if s.len() > 0 {
        lemma_last_dot(s.drop_last());
        assert forall|j: int| 0 <= j < s.len() - 1 implies s.drop_last()[j] == s[j] by {}
    }
}

/// The place of a dot that no other follows is the place of the last dot.
pub proof fn lemma_last_dot_unique(s: Seq<char>, i: int)
    requires
        0 <= i < s.len(),
        s[i] == '.',
        forall|j: int| i < j < s.len() ==> s[j] != '.',
    ensures
        last_dot(s) == Some(i),
{
    lemma_last_dot(s);
}

/// A text without a dot is one identifier.
pub proof fn lemma_identifiers_single(s: Seq<char>)
    requires
        forall|j: int| 0 <= j < s.len() ==> s[j] != '.',
    ensures
        identifiers(s) == seq![s],
    decreases s.len(),
{
    if s.len() > 0 {
        let init = s.drop_last();
        assert forall|j: int| 0 <= j < init.len() implies init[j] != '.' by {
            assert(init[j] == s[j]);
        }
        lemma_identifiers_single(init);
        assert(s =~= init.push(s.last()));
        assert(identifiers(s) =~= seq![s]);
    }
}

/// A dot and a text without one add that text as the last identifier.
pub proof fn lemma_identifiers_push(s: Seq<char>, id: Seq<char>)
    requires
        forall|j: int| 0 <= j < id.len() ==> id[j] != '.',
    ensures
        identifiers(s.push('.') + id) == identifiers(s).push(id),
    decreases id.len(),
{
    let t = s.push('.') + id;
    if id.len() == 0 {
        assert(t =~= s.push('.'));
        assert(t.drop_last() =~= s);
        assert(id =~= Seq::<char>::empty());
    } else {
        let init = id.drop_last();
        assert forall|j: int| 0 <= j < init.len() implies init[j] != '.' by {
            assert(init[j] == id[j]);
        }
        lemma_identifiers_push(s, init);
        assert(t.drop_last() =~= s.push('.') + init);
        assert(id =~= init.push(id.last()));
        assert(identifiers(t) =~= identifiers(s).push(id));
    }
}

/// A text of digits has no dot.
proof fn lemma_digits_no_dot(s: Seq<char>)
    requires
        all_digits(s),
    ensures
        forall|j: int| 0 <= j < s.len() ==> s[j] != '.',
{
    assert forall|j: int| 0 <= j < s.len() implies s[j] != '.' by {
        assert(is_digit(s[j]));
    }
}

/// Label and counter are read back from the text that they make up.
pub proof fn lemma_numbered(label: Seq<char>, n: nat)
    requires
        n <= u64::MAX,
    ensures
        label_of(numbered(label, n)) == label,
        number_of(numbered(label, n)) == n,
        has_number(numbered(label, n)),
        numbered(label, n).len() > 0,
        identifiers(numbered(label, n)) == identifiers(label).push(decimal(n)),
{
    let s = numbered(label, n);
    lemma_value_decimal(n);
    lemma_digits_no_dot(decimal(n));
    lemma_identifiers_push(label, decimal(n));
    let i = label.len() as int;
    assert forall|j: int| i < j < s.len() implies s[j] != '.' by {
        assert(s[j] == decimal(n)[j - i - 1]);
    }
    lemma_last_dot_unique(s, i);
    assert(s.skip(i + 1) =~= decimal(n));
    assert(s.take(i) =~= label);
    assert(is_digit(decimal(n)[0]));
}

/// A counter can be put behind every label.
pub proof fn lemma_numbered_is_prerelease(label: Seq<char>, n: u64)
    requires
        is_label(label),
    ensures
        is_prerelease(numbered(label, n as nat)),
{
    let id = decimal(n as nat);
    let s = numbered(label, n as nat);
    lemma_numbered(label, n as nat);
    lemma_value_decimal(n as nat);
    lemma_decimal_len_u64(n);
    assert(is_pre_identifier(id)) by {
        assert forall|i: int| 0 <= i < id.len() implies is_identifier_char(#[trigger] id[i]) by {
            assert(is_digit(id[i]));
        }
    }
    assert forall|i: int| 0 <= i < identifiers(s).len() implies is_pre_identifier(
        #[trigger] identifiers(s)[i],
    ) by {
        if i < identifiers(label).len() {
            assert(identifiers(s)[i] == identifiers(label)[i]);
        }
    }
}

/// There is always at least one identifier.
pub proof fn lemma_identifiers_nonempty(s: Seq<char>)
    ensures
        identifiers(s).len() > 0,
    decreases s.len(),
{
    if s.len() > 0 {
        lemma_identifiers_nonempty(s.drop_last());
    }
}

/// The identifiers before the last dot, and the one behind it.
pub proof fn lemma_identifiers_split(s: Seq<char>)
    requires
        last_dot(s) is Some,
    ensures
        identifiers(s) == identifiers(s.take(last_dot(s)->0)).push(s.skip(last_dot(s)->0 + 1)),
{
    lemma_last_dot(s);
    let i = last_dot(s)->0;
    let id = s.skip(i + 1);
    assert forall|j: int| 0 <= j < id.len() implies id[j] != '.' by {
        assert(id[j] == s[i + 1 + j]);
    }
    lemma_identifiers_push(s.take(i), id);
    assert(s =~= s.take(i).push('.') + id);
}

/// The label of a pre-release is itself a pre-release, and not empty.
pub proof fn lemma_label_of(s: Seq<char>)
    requires
        is_prerelease(s),
        s.len() > 0,
    ensures
        is_prerelease(label_of(s)),
        0 < label_of(s).len() <= s.len(),
{
    lemma_last_dot(s);
    if label_of(s) != s {
        let i = last_dot(s)->0;
        let label = s.take(i);
        lemma_identifiers_split(s);
        lemma_identifiers_nonempty(label);
        assert forall|k: int| 0 <= k < identifiers(label).len() implies is_pre_identifier(
            #[trigger] identifiers(label)[k],
        ) by {
            assert(identifiers(s)[k] == identifiers(label)[k]);
        }
        if i == 0 {
            assert(identifiers(label)[0] == label);
        }
    }
}

/// A pre-release with a counter is made up of its label and that counter.
pub proof fn lemma_numbered_parts(s: Seq<char>)
    requires
        is_prerelease(s),
        suffix_number(s) is Some,
    ensures
        s == numbered(label_of(s), number_of(s)),
{
    lemma_last_dot(s);
    lemma_identifiers_split(s);
    let i = last_dot(s)->0;
    let id = s.skip(i + 1);
    let ids = identifiers(s);
    assert(ids[ids.len() - 1] == id);
    assert(is_pre_identifier(id));
    assert(is_identifier_char(id[0]));
    lemma_decimal_value(id);
    assert(s =~= s.take(i).push('.') + id);
}

/// A text is determined by its identifiers.
pub proof fn lemma_identifiers_injective(a: Seq<char>, b: Seq<char>)
    requires
        identifiers(a) == identifiers(b),
    ensures
        a == b,
    decreases a.len(),
{
    lemma_last_dot(a);
    lemma_last_dot(b);
    if last_dot(a) is None {
        lemma_identifiers_single(a);
    } else {
        lemma_identifiers_split(a);
        lemma_identifiers_nonempty(a.take(last_dot(a)->0));
    }
    if last_dot(b) is None {
        lemma_identifiers_single(b);
    } else {
        lemma_identifiers_split(b);
        lemma_identifiers_nonempty(b.take(last_dot(b)->0));
    }
    if last_dot(a) is None && last_dot(b) is None {
        assert(identifiers(a)[0] == identifiers(b)[0]);
    } else if last_dot(a) is Some && last_dot(b) is Some {
        let i = last_dot(a)->0;
        let k = last_dot(b)->0;
        assert(identifiers(a).drop_last() =~= identifiers(a.take(i)));
        assert(identifiers(b).drop_last() =~= identifiers(b.take(k)));
        lemma_identifiers_injective(a.take(i), b.take(k));
        assert(identifiers(a).last() == a.skip(i + 1));
        assert(identifiers(b).last() == b.skip(k + 1));
        assert(a =~= a.take(i).push('.') + a.skip(i + 1));
        assert(b =~= b.take(k).push('.') + b.skip(k + 1));
    } else {
        assert(seq![a].len() == 1 && seq![b].len() == 1);
        assert(identifiers(a).len() != identifiers(b).len());
    }
}

/// Identifiers of digits come first, by their number and then their length;
/// the others follow in ASCII order.
pub open spec fn order_identifier(a: Seq<char>, b: Seq<char>) -> Order {
    if all_digits(a) && all_digits(b) {
        if value(a) == value(b) {
            order_nat(a.len(), b.len())
        } else {
            order_nat(value(a), value(b))
        }
    } else if all_digits(a) {
        Order::Less
    } else if all_digits(b) {
        Order::Greater
    } else {
        order_seq(a, b, |c: char, d: char| order_char(c, d))
    }
}

/// Build metadata: by identifiers from left to right.
pub open spec fn order_build(a: Seq<char>, b: Seq<char>) -> Order {
    order_seq(
        identifiers(a),
        identifiers(b),
        |x: Seq<char>, y: Seq<char>| order_identifier(x, y),
    )
}

/// Pre-releases: by identifiers from left to right, and all of them before
/// the release itself, which has none.
pub open spec fn order_prerelease(a: Seq<char>, b: Seq<char>) -> Order {
    if a.len() == 0 && b.len() == 0 {
        Order::Equal
    } else if a.len() == 0 {
        Order::Greater
    } else if b.len() == 0 {
        Order::Less
    } else {
        order_build(a, b)
    }
}

/// The identifiers are totally ordered.
pub proof fn lemma_order_identifier_total()
    ensures
        total_order(|a: Seq<char>, b: Seq<char>| order_identifier(a, b)),
{
    let ascii = |c: char, d: char| order_char(c, d);
    lemma_order_seq_total(ascii);
    let text = |a: Seq<char>, b: Seq<char>| order_seq(a, b, ascii);
    let id = |a: Seq<char>, b: Seq<char>| order_identifier(a, b);
    assert forall|a: Seq<char>, b: Seq<char>| (#[trigger] id(a, b) == Order::Equal) == (a == b) by {
        if all_digits(a) && all_digits(b) && value(a) == value(b) && a.len() == b.len() {
            lemma_value_injective(a, b);
        }
        assert((text(a, b) == Order::Equal) == (a == b));
    }
    assert forall|a: Seq<char>, b: Seq<char>| #[trigger] id(b, a) == id(a, b).reverse() by {
        assert(text(b, a) == text(a, b).reverse());
    }
    assert forall|a: Seq<char>, b: Seq<char>, c: Seq<char>|
        #![trigger id(a, b), id(b, c)]
        id(a, b) == Order::Less && id(b, c) == Order::Less implies id(a, c) == Order::Less by {
        assert(text(a, b) == Order::Less && text(b, c) == Order::Less ==> text(a, c)
            == Order::Less);
    }
}

/// Build metadata is totally ordered.
pub proof fn lemma_order_build_total()
    ensures
        total_order(|a: Seq<char>, b: Seq<char>| order_build(a, b)),
{
    let id = |x: Seq<char>, y: Seq<char>| order_identifier(x, y);
    lemma_order_identifier_total();
    lemma_order_seq_total(id);
    let ids = |a: Seq<Seq<char>>, b: Seq<Seq<char>>| order_seq(a, b, id);
    let build = |a: Seq<char>, b: Seq<char>| order_build(a, b);
    assert forall|a: Seq<char>, b: Seq<char>| (#[trigger] build(a, b) == Order::Equal) == (a
        == b) by {
        assert((ids(identifiers(a), identifiers(b)) == Order::Equal) == (identifiers(a)
            == identifiers(b)));
        if identifiers(a) == identifiers(b) {
            lemma_identifiers_injective(a, b);
        }
    }
    assert forall|a: Seq<char>, b: Seq<char>| #[trigger] build(b, a) == build(a, b).reverse() by {
        assert(ids(identifiers(b), identifiers(a)) == ids(
            identifiers(a),
            identifiers(b),
        ).reverse());
    }
    assert forall|a: Seq<char>, b: Seq<char>, c: Seq<char>|
        #![trigger build(a, b), build(b, c)]
        build(a, b) == Order::Less && build(b, c) == Order::Less implies build(a, c)
        == Order::Less by {
        assert(ids(identifiers(a), identifiers(b)) == Order::Less && ids(
            identifiers(b),
            identifiers(c),
        ) == Order::Less ==> ids(identifiers(a), identifiers(c)) == Order::Less);
    }
}

/// Pre-releases are totally ordered.
pub proof fn lemma_order_prerelease_total()
    ensures
        total_order(|a: Seq<char>, b: Seq<char>| order_prerelease(a, b)),
{
    lemma_order_build_total();
    let build = |a: Seq<char>, b: Seq<char>| order_build(a, b);
    let pre = |a: Seq<char>, b: Seq<char>| order_prerelease(a, b);
    assert forall|a: Seq<char>, b: Seq<char>| (#[trigger] pre(a, b) == Order::Equal) == (a == b) by {
        assert((build(a, b) == Order::Equal) == (a == b));
        if a.len() == 0 && b.len() == 0 {
            assert(a =~= b);
        }
    }
    assert forall|a: Seq<char>, b: Seq<char>| #[trigger] pre(b, a) == pre(a, b).reverse() by {
        assert(build(b, a) == build(a, b).reverse());
    }
    assert forall|a: Seq<char>, b: Seq<char>, c: Seq<char>|
        #![trigger pre(a, b), pre(b, c)]
        pre(a, b) == Order::Less && pre(b, c) == Order::Less implies pre(a, c) == Order::Less by {
        assert(build(a, b) == Order::Less && build(b, c) == Order::Less ==> build(a, c)
            == Order::Less);
    }
}

/// A counter that is raised moves a pre-release up, whatever its label.
pub proof fn lemma_order_numbered(label: Seq<char>, m: nat, n: nat)
    requires
        m < n <= u64::MAX,
    ensures
        order_prerelease(numbered(label, m), numbered(label, n)) == Order::Less,
{
    let id = |x: Seq<char>, y: Seq<char>| order_identifier(x, y);
    lemma_order_identifier_total();
    lemma_numbered(label, m);
    lemma_numbered(label, n);
    lemma_value_decimal(m);
    lemma_value_decimal(n);
    let shared = identifiers(label);
    let a = seq![decimal(m)];
    let b = seq![decimal(n)];
    lemma_order_seq_common_prefix(shared, a, b, id);
    assert(shared + a =~= shared.push(decimal(m)));
    assert(shared + b =~= shared.push(decimal(n)));
}

/// A pre-release with a counter comes after the bare label.
pub proof fn lemma_order_first_counter(label: Seq<char>, n: nat)
    requires
        n <= u64::MAX,
        label.len() > 0,
    ensures
        order_prerelease(label, numbered(label, n)) == Order::Less,
{
    let id = |x: Seq<char>, y: Seq<char>| order_identifier(x, y);
    lemma_order_identifier_total();
    lemma_numbered(label, n);
    let shared = identifiers(label);
    let b = seq![decimal(n)];
    lemma_order_seq_common_prefix(shared, Seq::empty(), b, id);
    assert(shared + Seq::empty() =~= shared);
    assert(shared + b =~= shared.push(decimal(n)));
}

/// The place of the last dot.
fn find_last_dot(chars: &Vec<char>) -> (place: Option<usize>)
    ensures
        match place {
            Some(i) => last_dot(chars@) == Some(i as int),
            None => last_dot(chars@) is None,
        },
{
    let mut end: usize = chars.len();
    assert(chars@.take(end as int) =~= chars@);
    while end > 0
        invariant
            end <= chars@.len(),
            last_dot(chars@) == last_dot(chars@.take(end as int)),
        decreases end,
    {
        let ghost prefix = chars@.take(end as int);
        assert(prefix.drop_last() =~= chars@.take(end - 1));
        assert(prefix.last() == chars@[end - 1]);
        if chars[end - 1] == '.' {
            return Some(end - 1);
        }
        end -= 1;
    }
    None
}

/// The label of a pre-release text.
pub fn label_text(pre: &str) -> (label: String)
    ensures
        label@ == label_of(pre@),
{
    let chars = chars_of(pre);
    match find_last_dot(&chars) {
        Some(i) => {
            proof {
                lemma_last_dot(pre@);
            }
            if parse_u64(&chars, i + 1).is_some() {
                pre.substring_char(0, i).to_owned()
            } else {
                pre.to_owned()
            }
        },
        None => pre.to_owned(),
    }
}

/// The pre-release text has a counter, or no dot.
pub fn suffix_is_number(pre: &str) -> (numeric: bool)
    ensures
        numeric == has_number(pre@),
{
    let chars = chars_of(pre);
    match find_last_dot(&chars) {
        Some(i) => {
            proof {
                lemma_last_dot(pre@);
            }
            parse_u64(&chars, i + 1).is_some()
        },
        None => true,
    }
}

/// The counter of a pre-release text.
pub fn suffix_value(pre: &str) -> (number: u64)
    requires
        has_number(pre@),
    ensures
        number == number_of(pre@),
{
    let chars = chars_of(pre);
    match find_last_dot(&chars) {
        Some(i) => {
            proof {
                lemma_last_dot(pre@);
            }
            parse_u64(&chars, i + 1).unwrap()
        },
        None => 0,
    }
}

} // verus!
