//! What holds of the texts of numbers, pre-releases and versions, character by
//! character.

use vstd::prelude::*;

use crate::bump::BumpSpec;
use crate::decimal::{all_digits, decimal, is_digit, parsed_u64, value};
use crate::identifier::{
    has_number, has_room, identifier_limit, identifiers, is_build, is_build_identifier,
    is_identifier_char, is_label, is_pre_identifier, is_prerelease, label_of,
    lemma_identifiers_nonempty, lemma_identifiers_push, lemma_identifiers_single, lemma_last_dot,
    lemma_last_dot_unique, number_of, numbered,
};
use crate::release::BumpError;
use crate::version::{lemma_parsed_text, parsed, Version, VersionView};

verus! {

/// A number below ten is written as one digit, and a greater one as the digits
/// of its tens followed by the digit of the rest.
pub proof fn law_decimal_digits(n: nat, d: nat)
    requires
        d < 10,
    ensures
        decimal(d).len() == 1,
        decimal(d)[0] as int == '0' as int + d,
        n > 0 ==> {
            &&& decimal(10 * n + d).len() == decimal(n).len() + 1
            &&& decimal(10 * n + d).take(decimal(n).len() as int) == decimal(n)
            &&& decimal(10 * n + d)[decimal(n).len() as int] as int == '0' as int + d
        },
{
    if n > 0 {
        let m = 10 * n + d;
        assert(m / 10 == n && m % 10 == d);
        assert(decimal(m).take(decimal(n).len() as int) =~= decimal(n));
    }
}

/// A further digit makes a text of digits stand for ten times its number and
/// that digit, and no digit stands for zero.
pub proof fn law_value_of_digits(s: Seq<char>, c: char)
    requires
        '0' <= c && c <= '9',
    ensures
        value(Seq::empty()) == 0,
        value(s.push(c)) == 10 * value(s) + (c as int - '0' as int),
{
    assert(s.push(c).drop_last() =~= s);
}

/// Digits are read as their number if it fits in 64 bits. A plus sign before
/// them changes nothing.
pub proof fn law_digits_are_read(s: Seq<char>)
    requires
        forall|i: int| 0 <= i < s.len() ==> '0' <= #[trigger] s[i] && s[i] <= '9',
    ensures
        s.len() > 0 && value(s) <= u64::MAX ==> parsed_u64(s) == Some(value(s)),
        s.len() == 0 || value(s) > u64::MAX ==> parsed_u64(s) is None,
        parsed_u64(seq!['+'] + s) == parsed_u64(s),
{
    assert((seq!['+'] + s).skip(1) =~= s);
    assert(all_digits(s));
}

/// A text with any other character in it is not read as a number.
pub proof fn law_other_texts_are_no_numbers(s: Seq<char>, i: int)
    requires
        0 <= i < s.len(),
        s[i] < '0' || s[i] > '9',
        i == 0 ==> s[i] != '+',
    ensures
        parsed_u64(s) is None,
{
    if s[0] == '+' {
        assert(s.skip(1)[i - 1] == s[i]);
        assert(!is_digit(s.skip(1)[i - 1]));
    } else {
        assert(!is_digit(s[i]));
    }
}

/// Label and counter stand before and behind the last dot.
pub proof fn law_label_and_counter(label: Seq<char>, counter: Seq<char>)
    requires
        forall|i: int| 0 <= i < counter.len() ==> #[trigger] counter[i] != '.',
        parsed_u64(counter) is Some,
    ensures
        label_of(label + seq!['.'] + counter) == label,
        has_number(label + seq!['.'] + counter),
        number_of(label + seq!['.'] + counter) == parsed_u64(counter)->0,
{
    let s = label + seq!['.'] + counter;
    let i = label.len() as int;
    assert forall|j: int| i < j < s.len() implies s[j] != '.' by {
        assert(s[j] == counter[j - i - 1]);
    }
    lemma_last_dot_unique(s, i);
    assert(s.skip(i + 1) =~= counter);
    assert(s.take(i) =~= label);
}

/// A text without a dot is all label, and counts as zero.
pub proof fn law_label_without_dot(s: Seq<char>)
    requires
        forall|i: int| 0 <= i < s.len() ==> #[trigger] s[i] != '.',
    ensures
        label_of(s) == s,
        has_number(s),
        number_of(s) == 0,
{
    lemma_last_dot(s);
}

/// A text with something other than a number behind its last dot is all
/// label, and has no counter.
pub proof fn law_label_without_counter(head: Seq<char>, tail: Seq<char>)
    requires
        forall|i: int| 0 <= i < tail.len() ==> #[trigger] tail[i] != '.',
        parsed_u64(tail) is None,
    ensures
        label_of(head + seq!['.'] + tail) == head + seq!['.'] + tail,
        !has_number(head + seq!['.'] + tail),
{
    let s = head + seq!['.'] + tail;
    let i = head.len() as int;
    assert forall|j: int| i < j < s.len() implies s[j] != '.' by {
        assert(s[j] == tail[j - i - 1]);
    }
    lemma_last_dot_unique(s, i);
    assert(s.skip(i + 1) =~= tail);
}

/// A pre-release with a label and a counter is written as the label, a dot and
/// the digits of the counter.
pub proof fn law_numbered_text(label: Seq<char>, n: nat)
    ensures
        numbered(label, n) == label + seq!['.'] + decimal(n),
        numbered(label, 0) == label + seq!['.', '0'],
{
    assert(label.push('.') =~= label + seq!['.']);
    assert(decimal(0) =~= seq!['0']);
    assert(label + seq!['.'] + seq!['0'] =~= label + seq!['.', '0']);
}

/// Texts can be stored up to a length that depends on the machine alone.
pub proof fn law_identifier_limit()
    ensures
        usize::MAX > 0xffff_ffff ==> identifier_limit() == 0xff_ffff_ffff_ffff,
        usize::MAX <= 0xffff_ffff ==> identifier_limit() == 0x7fff_fff8,
{
}

/// A single identifier is a pre-release if it is made up of ASCII letters,
/// digits and hyphens and is not a number with a leading zero.
pub proof fn law_single_identifier(x: Seq<char>)
    requires
        0 < x.len() <= identifier_limit(),
        forall|i: int| 0 <= i < x.len() ==> #[trigger] x[i] != '.',
    ensures
        is_build(x) == (forall|i: int|
            0 <= i < x.len() ==> ('0' <= #[trigger] x[i] && x[i] <= '9') || ('A' <= x[i] && x[i]
                <= 'Z') || ('a' <= x[i] && x[i] <= 'z') || x[i] == '-'),
        is_prerelease(x) == (is_build(x) && (x.len() > 1 && x[0] == '0' ==> exists|i: int|
            0 <= i < x.len() && !('0' <= #[trigger] x[i] && x[i] <= '9'))),
{
    lemma_identifiers_single(x);
    assert(identifiers(x)[0] == x);
    assert(is_build(x) == is_build_identifier(x));
    assert(is_prerelease(x) == is_pre_identifier(x));
    if is_build_identifier(x) {
        assert forall|i: int| 0 <= i < x.len() implies ('0' <= #[trigger] x[i] && x[i] <= '9') || (
        'A' <= x[i] && x[i] <= 'Z') || ('a' <= x[i] && x[i] <= 'z') || x[i] == '-' by {
            assert(is_identifier_char(x[i]));
        }
    }
    if x.len() > 1 && x[0] == '0' && !all_digits(x) {
        let k = choose|k: int| 0 <= k < x.len() && !is_digit(#[trigger] x[k]);
        assert(!('0' <= x[k] && x[k] <= '9'));
    }
}

/// Identifiers are joined by dots: what stands before the last dot and what
/// stands behind it are both as they must be, and neither is empty.
pub proof fn law_joined_identifiers(head: Seq<char>, x: Seq<char>)
    requires
        head.len() + 1 + x.len() <= identifier_limit(),
        forall|i: int| 0 <= i < x.len() ==> #[trigger] x[i] != '.',
    ensures
        is_prerelease(Seq::empty()),
        is_build(Seq::empty()),
        is_prerelease(head + seq!['.'] + x) == (head.len() > 0 && x.len() > 0 && is_prerelease(head)
            && is_prerelease(x)),
        is_build(head + seq!['.'] + x) == (head.len() > 0 && x.len() > 0 && is_build(head)
            && is_build(x)),
{
    let s = head + seq!['.'] + x;
    assert(s =~= head.push('.') + x);
    lemma_identifiers_push(head, x);
    lemma_identifiers_single(x);
    lemma_identifiers_single(Seq::<char>::empty());
    lemma_identifiers_nonempty(head);
    let ids = identifiers(s);
    let n = identifiers(head).len() as int;
    assert(ids[n] == x);
    assert(identifiers(x)[0] == x);
    assert forall|i: int| 0 <= i < n implies #[trigger] ids[i] == identifiers(head)[i] by {}
    if head.len() == 0 {
        assert(head =~= Seq::<char>::empty());
        assert(ids[0] == head);
        assert(!is_build_identifier(ids[0]));
    }
    if is_build(s) {
        assert(is_build_identifier(ids[n]));
        assert forall|i: int| 0 <= i < n implies is_build_identifier(
            #[trigger] identifiers(head)[i],
        ) by {
            assert(is_build_identifier(ids[i]));
        }
    }
    if is_prerelease(s) {
        assert(is_pre_identifier(ids[n]));
        assert forall|i: int| 0 <= i < n implies is_pre_identifier(
            #[trigger] identifiers(head)[i],
        ) by {
            assert(is_pre_identifier(ids[i]));
        }
        if head.len() == 0 {
            assert(is_pre_identifier(ids[0]));
        }
    }
    if head.len() > 0 && x.len() > 0 {
        if is_build(head) && is_build(x) {
            assert(is_build_identifier(identifiers(x)[0]));
        }
        if is_prerelease(head) && is_prerelease(x) {
            assert(is_pre_identifier(identifiers(x)[0]));
        }
    }
}

/// A label is a pre-release that is not empty and leaves room for a counter.
pub proof fn law_labels(s: Seq<char>)
    ensures
        is_label(s) == (s.len() > 0 && is_prerelease(s) && s.len() + 21 <= identifier_limit()),
        has_room(s) == (s.len() + 21 <= identifier_limit()),
{
}

/// A version is valid if its numbers fit in 64 bits and its other two parts
/// are as they must be.
pub proof fn law_valid_versions(v: VersionView)
    ensures
        v.valid() == (v.major <= u64::MAX && v.minor <= u64::MAX && v.patch <= u64::MAX
            && is_prerelease(v.pre) && is_build(v.build)),
{
}

/// A version is written as its numbers with dots between them, then a hyphen
/// and the pre-release if it has one, and then a plus sign and the build
/// metadata if it has any.
pub proof fn law_version_text(v: VersionView)
    ensures
        ({
            let base = decimal(v.major) + seq!['.'] + decimal(v.minor) + seq!['.'] + decimal(v.patch);
            &&& v.pre.len() == 0 && v.build.len() == 0 ==> v.text() == base
            &&& v.pre.len() > 0 && v.build.len() == 0 ==> v.text() == base + seq!['-'] + v.pre
            &&& v.pre.len() == 0 && v.build.len() > 0 ==> v.text() == base + seq!['+'] + v.build
            &&& v.pre.len() > 0 && v.build.len() > 0 ==> v.text() == base + seq!['-'] + v.pre
                + seq!['+'] + v.build
        }),
{
    let base = decimal(v.major) + seq!['.'] + decimal(v.minor) + seq!['.'] + decimal(v.patch);
    if v.pre.len() == 0 && v.build.len() == 0 {
        assert(v.text() =~= base);
    } else if v.build.len() == 0 {
        assert(v.text() =~= base + seq!['-'] + v.pre);
    } else if v.pre.len() == 0 {
        assert(v.text() =~= base + seq!['+'] + v.build);
    } else {
        assert(v.text() =~= base + seq!['-'] + v.pre + seq!['+'] + v.build);
    }
}

/// Reading and writing undo each other: a text is read as the valid version
/// whose text it is, and as none if it is the text of none.
pub proof fn law_reading_undoes_writing(text: Seq<char>, v: VersionView)
    ensures
        parsed(text) == Some(v) ==> v.valid() && v.text() == text && text.len()
            <= identifier_limit(),
        v.valid() && v.text() == text && text.len() <= identifier_limit() ==> parsed(text) == Some(
            v,
        ),
{
    if v.valid() && v.text() == text && text.len() <= identifier_limit() {
        lemma_parsed_text(v);
    }
    if parsed(text) is Some {
        let w = parsed(text)->0;
        assert(w.reads(text));
    }
}

/// What the parts of a version are called.
pub proof fn law_version_parts(v: VersionView, w: VersionView, pre: Seq<char>)
    ensures
        v.is_stable() == (v.pre.len() == 0),
        v.same_base(w) == (v.major == w.major && v.minor == w.minor && v.patch == w.patch),
        v.with_pre(pre).major == v.major,
        v.with_pre(pre).minor == v.minor,
        v.with_pre(pre).patch == v.patch,
        v.with_pre(pre).pre == pre,
        v.with_pre(pre).build == v.build,
        v.released() == v.with_pre(Seq::empty()),
{
}

/// The model of a version has its numbers and texts.
pub proof fn law_version_view(v: Version)
    ensures
        v@.major == v.major,
        v@.minor == v.minor,
        v@.patch == v.patch,
        v@.pre == v.pre@,
        v@.build == v.build@,
{
}

/// Each choice has the name that it is asked for by, and no two share one.
pub proof fn law_names(spec: BumpSpec, other: BumpSpec)
    ensures
        spec is Auto ==> spec.name() == seq!['a', 'u', 't', 'o'],
        spec is Keep ==> spec.name() == seq!['n', 'o'],
        spec is Patch ==> spec.name() == seq!['p', 'a', 't', 'c', 'h'],
        spec is Minor ==> spec.name() == seq!['m', 'i', 'n', 'o', 'r'],
        spec is Major ==> spec.name() == seq!['m', 'a', 'j', 'o', 'r'],
        spec is PreRelease ==> spec.name() == seq![
            'p',
            'r',
            'e',
            'r',
            'e',
            'l',
            'e',
            'a',
            's',
            'e',
        ],
        spec.name() == other.name() ==> spec == other,
        spec.names_number() == (spec is Major || spec is Minor || spec is Patch),
{
    reveal_strlit("auto");
    reveal_strlit("no");
    reveal_strlit("patch");
    reveal_strlit("minor");
    reveal_strlit("major");
    reveal_strlit("prerelease");
    assert("auto"@ =~= seq!['a', 'u', 't', 'o']);
    assert("no"@ =~= seq!['n', 'o']);
    assert("patch"@ =~= seq!['p', 'a', 't', 'c', 'h']);
    assert("minor"@ =~= seq!['m', 'i', 'n', 'o', 'r']);
    assert("major"@ =~= seq!['m', 'a', 'j', 'o', 'r']);
    assert("prerelease"@ =~= seq!['p', 'r', 'e', 'r', 'e', 'l', 'e', 'a', 's', 'e']);
    assert("auto"@[0] != "no"@[0] && "auto"@[0] != "patch"@[0] && "auto"@[0] != "minor"@[0]
        && "auto"@[0] != "major"@[0] && "auto"@[0] != "prerelease"@[0]);
    assert("no"@[0] != "patch"@[0] && "no"@[0] != "minor"@[0] && "no"@[0] != "major"@[0] && "no"@[0]
        != "prerelease"@[0]);
    assert("patch"@[0] != "minor"@[0] && "patch"@[1] != "prerelease"@[1] && "minor"@[1]
        != "major"@[1] && "minor"@[0] != "prerelease"@[0]);
}

/// A user is told the version of which there is no next pre-release, and that
/// there is no history otherwise.
pub proof fn law_messages(error: BumpError)
    ensures
        error is NotAPreRelease ==> error.message()
            == "Cannot use 'prerelease' on stable version "@ + error->version@.text()
            + ". Use '--bump major/minor/patch --pre-id <label>' to start a pre-release series."@,
        error is NoHistory ==> error.message()
            == "Did not have access to the Git history - please assure to not be on a detached HEAD"@,
{
}

} // verus!
