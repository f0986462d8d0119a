//! Semantic versions: their text, their parts and their order.

use vstd::prelude::*;

use crate::decimal::{decimal, is_digit, lemma_value_decimal, u64_text};
use crate::identifier::{
    identifier_limit, identifiers, is_build, is_identifier_char, is_label, is_pre_identifier,
    is_prerelease, lemma_identifiers_nonempty, lemma_numbered_is_prerelease, lemma_order_build_total,
    lemma_order_prerelease_total, max_identifier_len, numbered, order_build, order_prerelease,
};
use crate::order::{order_nat, total_order, Order};
use crate::semver_calls::{semver_order, semver_parse, semver_prerelease};

verus! {

/// A version as a mathematical value.
#[verifier::ext_equal]
pub struct VersionView {
    pub major: nat,
    pub minor: nat,
    pub patch: nat,
    pub pre: Seq<char>,
    pub build: Seq<char>,
}

impl VersionView {
    /// The numbers fit in 64 bits, and pre-release and build metadata are
    /// made up as they must be.
    pub open spec fn valid(self) -> bool {
        &&& self.major <= u64::MAX
        &&& self.minor <= u64::MAX
        &&& self.patch <= u64::MAX
        &&& is_prerelease(self.pre)
        &&& is_build(self.build)
    }

    /// A version without a pre-release part.
    pub open spec fn is_stable(self) -> bool {
        self.pre.len() == 0
    }

    /// Major, minor and patch agree.
    pub open spec fn same_base(self, other: VersionView) -> bool {
        self.major == other.major && self.minor == other.minor && self.patch == other.patch
    }

    /// The same version with another pre-release part.
    pub open spec fn with_pre(self, pre: Seq<char>) -> VersionView {
        VersionView { pre, ..self }
    }

    /// The same version with the pre-release part taken off.
    pub open spec fn released(self) -> VersionView {
        self.with_pre(Seq::empty())
    }

    /// What follows the three numbers in the text of the version.
    pub open spec fn tail(self) -> Seq<char> {
        let pre = if self.pre.len() > 0 {
            seq!['-'] + self.pre
        } else {
            Seq::empty()
        };
        let build = if self.build.len() > 0 {
            seq!['+'] + self.build
        } else {
            Seq::empty()
        };
        pre + build
    }

    /// The text of the version, such as `1.2.3-beta.0+linux`.
    pub open spec fn text(self) -> Seq<char> {
        decimal(self.major) + (seq!['.'] + (decimal(self.minor) + (seq!['.'] + (decimal(
            self.patch,
        ) + self.tail()))))
    }

    /// `text` is the text of this version.
    pub open spec fn reads(self, text: Seq<char>) -> bool {
        self.valid() && self.text() == text
    }
}

/// The version that a text stands for, where it stands for one.
pub open spec fn parsed(text: Seq<char>) -> Option<VersionView> {
    if text.len() <= identifier_limit() && exists|v: VersionView| v.reads(text) {
        Some(choose|v: VersionView| v.reads(text))
    } else {
        None
    }
}

/// Versions by major, minor and patch number, then by pre-release, and last
/// by build metadata.
pub open spec fn order_version(a: VersionView, b: VersionView) -> Order {
    if a.major != b.major {
        order_nat(a.major, b.major)
    } else if a.minor != b.minor {
        order_nat(a.minor, b.minor)
    } else if a.patch != b.patch {
        order_nat(a.patch, b.patch)
    } else if a.pre != b.pre {
        order_prerelease(a.pre, b.pre)
    } else {
        order_build(a.build, b.build)
    }
}

/// Versions are totally ordered.
pub proof fn lemma_order_version_total()
    ensures
        total_order(|a: VersionView, b: VersionView| order_version(a, b)),
{
    let by_pre = |a: Seq<char>, b: Seq<char>| order_prerelease(a, b);
    let by_build = |a: Seq<char>, b: Seq<char>| order_build(a, b);
    lemma_order_prerelease_total();
    lemma_order_build_total();
    let version = |a: VersionView, b: VersionView| order_version(a, b);
    assert forall|a: VersionView, b: VersionView|
        (#[trigger] version(a, b) == Order::Equal) == (a == b) by {
        assert((by_pre(a.pre, b.pre) == Order::Equal) == (a.pre == b.pre));
        assert((by_build(a.build, b.build) == Order::Equal) == (a.build == b.build));
    }
    assert forall|a: VersionView, b: VersionView|
        #[trigger] version(b, a) == version(a, b).reverse() by {
        assert(by_pre(b.pre, a.pre) == by_pre(a.pre, b.pre).reverse());
        assert(by_build(b.build, a.build) == by_build(a.build, b.build).reverse());
    }
    assert forall|a: VersionView, b: VersionView, c: VersionView|
        #![trigger version(a, b), version(b, c)]
        version(a, b) == Order::Less && version(b, c) == Order::Less implies version(a, c)
        == Order::Less by {
        assert((by_pre(a.pre, c.pre) == Order::Equal) == (a.pre == c.pre));
        assert(by_pre(a.pre, b.pre) == Order::Less && by_pre(b.pre, c.pre) == Order::Less ==> by_pre(
            a.pre,
            c.pre,
        ) == Order::Less);
        assert(by_build(a.build, b.build) == Order::Less && by_build(b.build, c.build)
            == Order::Less ==> by_build(a.build, c.build) == Order::Less);
    }
}

/// A text splits in only one way into characters that satisfy `p` and a rest
/// that does not begin with one.
proof fn lemma_split_unique(
    a: Seq<char>,
    rest_a: Seq<char>,
    b: Seq<char>,
    rest_b: Seq<char>,
    p: spec_fn(char) -> bool,
)
    requires
        a + rest_a == b + rest_b,
        forall|i: int| 0 <= i < a.len() ==> p(#[trigger] a[i]),
        forall|i: int| 0 <= i < b.len() ==> p(#[trigger] b[i]),
        rest_a.len() > 0 ==> !p(rest_a[0]),
        rest_b.len() > 0 ==> !p(rest_b[0]),
    ensures
        a == b,
        rest_a == rest_b,
{
    let whole = a + rest_a;
    assert(whole.len() == b.len() + rest_b.len());
    if a.len() < b.len() {
        assert(whole[a.len() as int] == rest_a[0]);
        assert(whole[a.len() as int] == b[a.len() as int]);
    } else if b.len() < a.len() {
        assert(whole[b.len() as int] == rest_b[0]);
        assert(whole[b.len() as int] == a[b.len() as int]);
    }
    assert(a =~= whole.take(a.len() as int));
    assert(b =~= whole.take(a.len() as int));
    assert(rest_a =~= whole.skip(a.len() as int));
    assert(rest_b =~= whole.skip(a.len() as int));
}

/// The characters of dot-separated identifiers.
proof fn lemma_identifier_chars(s: Seq<char>)
    requires
        forall|i: int, j: int|
            0 <= i < identifiers(s).len() && 0 <= j < identifiers(s)[i].len()
                ==> is_identifier_char(#[trigger] identifiers(s)[i][j]),
    ensures
        forall|j: int| 0 <= j < s.len() ==> is_identifier_char(#[trigger] s[j]) || s[j] == '.',
    decreases s.len(),
{
    if s.len() > 0 {
        let init = s.drop_last();
        let ids = identifiers(init);
        lemma_identifiers_nonempty(init);
        let last = ids.len() - 1;
        if s.last() != '.' {
            assert(identifiers(s)[last] == ids[last].push(s.last()));
            assert(identifiers(s)[last][ids[last].len() as int] == s.last());
        }
        assert forall|i: int, j: int| 0 <= i < ids.len() && 0 <= j < ids[i].len() implies
            is_identifier_char(#[trigger] ids[i][j]) by {
            assert(identifiers(s)[i][j] == ids[i][j]);
        }
        lemma_identifier_chars(init);
        assert forall|j: int| 0 <= j < s.len() implies is_identifier_char(#[trigger] s[j]) || s[j]
            == '.' by {
            if j < init.len() {
                assert(s[j] == init[j]);
            }
        }
    }
}

/// A pre-release text holds no plus sign.
proof fn lemma_prerelease_no_plus(s: Seq<char>)
    requires
        is_prerelease(s),
    ensures
        forall|j: int| 0 <= j < s.len() ==> #[trigger] s[j] != '+',
{
    if s.len() > 0 {
        assert forall|i: int, j: int|
            0 <= i < identifiers(s).len() && 0 <= j < identifiers(s)[i].len() implies
            is_identifier_char(#[trigger] identifiers(s)[i][j]) by {
            assert(is_pre_identifier(identifiers(s)[i]));
        }
        lemma_identifier_chars(s);
    }
}

/// A decimal numeral and what follows it are determined by the text of both.
proof fn lemma_number_unique(m: nat, rest_m: Seq<char>, n: nat, rest_n: Seq<char>)
    requires
        decimal(m) + rest_m == decimal(n) + rest_n,
        rest_m.len() > 0 ==> !is_digit(rest_m[0]),
        rest_n.len() > 0 ==> !is_digit(rest_n[0]),
    ensures
        m == n,
        rest_m == rest_n,
{
    lemma_value_decimal(m);
    lemma_value_decimal(n);
    lemma_split_unique(decimal(m), rest_m, decimal(n), rest_n, |c: char| is_digit(c));
}

/// Two valid versions with one text are one version.
pub proof fn lemma_text_injective(v: VersionView, w: VersionView)
    requires
        v.valid(),
        w.valid(),
        v.text() == w.text(),
    ensures
        v == w,
{
    let v3 = decimal(v.patch) + v.tail();
    let w3 = decimal(w.patch) + w.tail();
    let v2 = decimal(v.minor) + (seq!['.'] + v3);
    let w2 = decimal(w.minor) + (seq!['.'] + w3);
    lemma_number_unique(v.major, seq!['.'] + v2, w.major, seq!['.'] + w2);
    assert((seq!['.'] + v2).skip(1) =~= v2);
    assert((seq!['.'] + w2).skip(1) =~= w2);
    lemma_number_unique(v.minor, seq!['.'] + v3, w.minor, seq!['.'] + w3);
    assert((seq!['.'] + v3).skip(1) =~= v3);
    assert((seq!['.'] + w3).skip(1) =~= w3);
    lemma_number_unique(v.patch, v.tail(), w.patch, w.tail());
    lemma_tail_injective(v, w);
}

/// Pre-release and build metadata are determined by what follows the numbers.
proof fn lemma_tail_injective(v: VersionView, w: VersionView)
    requires
        v.valid(),
        w.valid(),
        v.tail() == w.tail(),
    ensures
        v.pre == w.pre,
        v.build == w.build,
{
    let v_pre = if v.pre.len() > 0 { seq!['-'] + v.pre } else { Seq::empty() };
    let w_pre = if w.pre.len() > 0 { seq!['-'] + w.pre } else { Seq::empty() };
    let v_build = if v.build.len() > 0 { seq!['+'] + v.build } else { Seq::empty() };
    let w_build = if w.build.len() > 0 { seq!['+'] + w.build } else { Seq::empty() };
    lemma_prerelease_no_plus(v.pre);
    lemma_prerelease_no_plus(w.pre);
    lemma_split_unique(v_pre, v_build, w_pre, w_build, |c: char| c != '+');
    assert(v.pre =~= if v_pre.len() > 0 { v_pre.skip(1) } else { Seq::empty() });
    assert(w.pre =~= if w_pre.len() > 0 { w_pre.skip(1) } else { Seq::empty() });
    assert(v.build =~= if v_build.len() > 0 { v_build.skip(1) } else { Seq::empty() });
    assert(w.build =~= if w_build.len() > 0 { w_build.skip(1) } else { Seq::empty() });
}

/// The text of a version is read back as that version.
pub proof fn lemma_parsed_text(v: VersionView)
    requires
        v.valid(),
        v.text().len() <= identifier_limit(),
    ensures
        parsed(v.text()) == Some(v),
{
    assert(v.reads(v.text()));
    let w = choose|w: VersionView| w.reads(v.text());
    lemma_text_injective(v, w);
}

/// Why a text is not a version or not a pre-release.
#[derive(Clone, Copy, Debug, PartialEq, Eq, Structural)]
pub enum ParseError {
    /// The text is not made up as it must be.
    Malformed,
    /// The text is longer than can be stored.
    TooLong,
}

/// The text after the hyphen of a version, or nothing.
#[derive(Debug, PartialEq, Eq)]
pub struct Prerelease {
    text: String,
}

impl View for Prerelease {
    type V = Seq<char>;

    closed spec fn view(&self) -> Seq<char> {
        self.text@
    }
}

impl Clone for Prerelease {
    fn clone(&self) -> (copy: Prerelease)
        ensures
            copy@ == self@,
    {
        proof {
            use_type_invariant(self);
        }
        Prerelease { text: self.text.clone() }
    }
}

impl Prerelease {
    #[verifier::type_invariant]
    pub open spec fn well_formed(self) -> bool {
        is_prerelease(self@)
    }

    /// No pre-release.
    pub fn empty() -> (pre: Prerelease)
        ensures
            pre@ == Seq::<char>::empty(),
    {
        Prerelease { text: String::new() }
    }

    /// The pre-release with the given text.
    pub fn new(text: &str) -> (pre: Result<Prerelease, ParseError>)
        ensures
            match pre {
                Ok(pre) => is_prerelease(text@) && pre@ == text@,
                Err(ParseError::TooLong) => text@.len() > identifier_limit(),
                Err(ParseError::Malformed) => text@.len() <= identifier_limit()
                    && !is_prerelease(text@),
            },
    {
        if text.unicode_len() > max_identifier_len() {
            return Err(ParseError::TooLong);
        }
        match semver_prerelease(text) {
            Ok(text) => Ok(Prerelease { text }),
            Err(_) => Err(ParseError::Malformed),
        }
    }

    /// The pre-release with a label and a counter, such as `beta.2`.
    pub fn numbered(label: &str, n: u64) -> (pre: Prerelease)
        requires
            is_label(label@),
        ensures
            pre@ == numbered(label@, n as nat),
    {
        let mut text = label.to_owned();
        proof {
            reveal_strlit(".");
            lemma_numbered_is_prerelease(label@, n);
        }
        text.append(".");
        text.append(u64_text(n).as_str());
        assert(text@ =~= numbered(label@, n as nat));
        Prerelease::new(text.as_str()).unwrap()
    }

    pub fn as_str(&self) -> (text: &str)
        ensures
            text@ == self@,
    {
        self.text.as_str()
    }

    pub fn is_empty(&self) -> (empty: bool)
        ensures
            empty == (self@.len() == 0),
    {
        self.text.as_str().is_empty()
    }
}

/// The text after the plus sign of a version, or nothing.
#[derive(Debug, PartialEq, Eq)]
pub struct BuildMetadata {
    text: String,
}

impl View for BuildMetadata {
    type V = Seq<char>;

    closed spec fn view(&self) -> Seq<char> {
        self.text@
    }
}

impl Clone for BuildMetadata {
    fn clone(&self) -> (copy: BuildMetadata)
        ensures
            copy@ == self@,
    {
        proof {
            use_type_invariant(self);
        }
        BuildMetadata { text: self.text.clone() }
    }
}

impl BuildMetadata {
    #[verifier::type_invariant]
    pub open spec fn well_formed(self) -> bool {
        is_build(self@)
    }

    pub fn as_str(&self) -> (text: &str)
        ensures
            text@ == self@,
    {
        self.text.as_str()
    }

    pub fn is_empty(&self) -> (empty: bool)
        ensures
            empty == (self@.len() == 0),
    {
        self.text.as_str().is_empty()
    }
}

/// A semantic version.
#[derive(Debug, PartialEq, Eq)]
pub struct Version {
    pub major: u64,
    pub minor: u64,
    pub patch: u64,
    pub pre: Prerelease,
    pub build: BuildMetadata,
}

impl View for Version {
    type V = VersionView;

    open spec fn view(&self) -> VersionView {
        VersionView {
            major: self.major as nat,
            minor: self.minor as nat,
            patch: self.patch as nat,
            pre: self.pre@,
            build: self.build@,
        }
    }
}

impl Clone for Version {
    fn clone(&self) -> (copy: Version)
        ensures
            copy@ == self@,
    {
        Version {
            major: self.major,
            minor: self.minor,
            patch: self.patch,
            pre: self.pre.clone(),
            build: self.build.clone(),
        }
    }
}

impl Version {
    /// The version with the given text.
    pub fn parse(text: &str) -> (version: Result<Version, ParseError>)
        ensures
            match version {
                Ok(v) => v@.valid() && parsed(text@) == Some(v@),
                Err(ParseError::TooLong) => text@.len() > identifier_limit(),
                Err(ParseError::Malformed) => text@.len() <= identifier_limit() && parsed(text@) is None,
            },
    {
        if text.unicode_len() > max_identifier_len() {
            return Err(ParseError::TooLong);
        }
        match semver_parse(text) {
            Ok((major, minor, patch, pre, build)) => {
                let v = Version {
                    major,
                    minor,
                    patch,
                    pre: Prerelease { text: pre },
                    build: BuildMetadata { text: build },
                };
                proof {
                    assert(v@.reads(text@));
                    lemma_parsed_text(v@);
                }
                Ok(v)
            },
            Err(_) => Err(ParseError::Malformed),
        }
    }

    /// How this version compares with another.
    pub fn compare(&self, other: &Version) -> (order: Order)
        ensures
            order == order_version(self@, other@),
    {
        proof {
            use_type_invariant(&self.pre);
            use_type_invariant(&self.build);
            use_type_invariant(&other.pre);
            use_type_invariant(&other.build);
        }
        semver_order(self, other)
    }

    /// The text of the version.
    pub fn to_string(&self) -> (text: String)
        ensures
            text@ == self@.text(),
    {
        proof {
            reveal_strlit(".");
            reveal_strlit("-");
            reveal_strlit("+");
        }
        let mut text = u64_text(self.major);
        text.append(".");
        text.append(u64_text(self.minor).as_str());
        text.append(".");
        text.append(u64_text(self.patch).as_str());
        if !self.pre.is_empty() {
            text.append("-");
            text.append(self.pre.as_str());
        }
        if !self.build.is_empty() {
            text.append("+");
            text.append(self.build.as_str());
        }
        assert(text@ =~= self@.text());
        text
    }
}

} // verus!
