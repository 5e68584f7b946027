use vstd::prelude::*;
use crate::text::{decimal, push_char, u64_to_decimal};

verus! {

#[verifier::external_type_specification]
#[verifier::external_body]
pub struct ExSemverVersion(semver::Version);

#[verifier::external_type_specification]
#[verifier::external_body]
pub struct ExSemverVersionReq(semver::VersionReq);

/// What a version is made of: major, minor and patch numbers, pre-release and
/// build metadata (empty when absent).
pub type VersionModel = (u64, u64, u64, Seq<char>, Seq<char>);

/// A semantic version. Its numbers and identifiers are held as plain values;
/// the parsed `semver::Version` they were read from is carried along for the
/// comparisons that only `semver` computes. The fields are private: a
/// `SemVer` is only made by parsing or by cloning and never changed, so the
/// plain fields always describe `inner`.
#[derive(Debug, PartialEq, Eq)]
pub struct SemVer {
    major: u64,
    minor: u64,
    patch: u64,
    pre: String,
    build: String,
    inner: semver::Version,
}

impl View for SemVer {
    type V = VersionModel;

    closed spec fn view(&self) -> VersionModel {
        (self.major, self.minor, self.patch, self.pre@, self.build@)
    }
}

/// The result of three-way comparisons.
#[derive(Debug, PartialEq, Eq, Clone, Copy)]
pub enum Order {
    Less,
    Equal,
    Greater,
}

pub open spec fn flip(o: Order) -> Order {
    match o {
        Order::Less => Order::Greater,
        Order::Equal => Order::Equal,
        Order::Greater => Order::Less,
    }
}

/// Three-way comparison of two numbers.
pub open spec fn num_order(a: u64, b: u64) -> Order {
    if a < b {
        Order::Less
    } else if a == b {
        Order::Equal
    } else {
        Order::Greater
    }
}

/// The order of versions on their numbers alone: major, then minor, then
/// patch.
pub open spec fn numeric_order(a: VersionModel, b: VersionModel) -> Order {
    if a.0 != b.0 {
        num_order(a.0, b.0)
    } else if a.1 != b.1 {
        num_order(a.1, b.1)
    } else {
        num_order(a.2, b.2)
    }
}

/// What `semver::Version::parse` makes of a text, as a `VersionModel`
/// (`None` where it returns an error).
pub uninterp spec fn semver_parse(text: Seq<char>) -> Option<VersionModel>;

/// What `<semver::Version as Ord>::cmp` answers for two versions.
pub uninterp spec fn semver_order(a: VersionModel, b: VersionModel) -> Order;

/// Whether `semver::VersionReq::from_str` accepts a text.
pub uninterp spec fn semver_req_parses(text: Seq<char>) -> bool;

/// What `semver::VersionReq::matches` answers for the requirement parsed from
/// `req` and a version.
pub uninterp spec fn semver_req_matches(req: Seq<char>, v: VersionModel) -> bool;

/// `semver::Version::parse` (the same as `Version::from_str`): the parsed
/// version's parts are copied out as plain values. The result is named
/// `semver_parse`.
#[verifier::external_body]
fn parse_semver(text: &str) -> (r: Option<SemVer>)
    ensures
        r is Some <==> semver_parse(text@) is Some,
        r matches Some(v) ==> semver_parse(text@) == Some(v@),
{
    match semver::Version::parse(text) {
        Ok(v) => Some(SemVer {
            major: v.major,
            minor: v.minor,
            patch: v.patch,
            pre: v.pre.as_str().to_string(),
            build: v.build.as_str().to_string(),
            inner: v,
        }),
        Err(_) => None,
    }
}

/// A version that `semver` parses from some text.
pub open spec fn is_semver(m: VersionModel) -> bool {
    exists|t: Seq<char>| semver_parse(t) == Some(m)
}

impl SemVer {
    /// Every `SemVer` is a version that `semver` parsed.
    #[verifier::type_invariant]
    pub open spec fn parsed(self) -> bool {
        is_semver(self@)
    }
}

/// `<semver::Version as Ord>::cmp`, named `semver_order`. Besides the name it
/// states what the source and `Ord`'s contract show: the order is derived
/// from the fields in the order major, minor, patch, pre-release, build, so
/// versions whose numbers differ are ordered by their numbers; only equal
/// versions compare equal; swapping the arguments flips the answer; and the
/// order is transitive over the versions that `semver` parses.
#[verifier::external_body]
pub(crate) fn compare_semver(a: &SemVer, b: &SemVer) -> (r: Order)
    ensures
        r == semver_order(a@, b@),
        semver_order(b@, a@) == flip(r),
        r == Order::Equal <==> a@ == b@,
        numeric_order(a@, b@) != Order::Equal ==> r == numeric_order(a@, b@),
        forall|c: VersionModel|
            is_semver(c) && semver_order(c, a@) != Order::Greater && r != Order::Greater
                ==> #[trigger] semver_order(c, b@) != Order::Greater,
{
    match a.inner.cmp(&b.inner) {
        std::cmp::Ordering::Less => Order::Less,
        std::cmp::Ordering::Equal => Order::Equal,
        std::cmp::Ordering::Greater => Order::Greater,
    }
}

/// `<semver::Version as Clone>::clone`; nothing is stated of it, the plain
/// fields that describe it are copied beside it.
#[verifier::external_body]
fn clone_semver(v: &semver::Version) -> semver::Version {
    v.clone()
}

impl Clone for SemVer {
    fn clone(&self) -> (r: Self)
        ensures
            r@ == self@,
    {
        proof {
            use_type_invariant(self);
        }
        SemVer {
            major: self.major,
            minor: self.minor,
            patch: self.patch,
            pre: self.pre.clone(),
            build: self.build.clone(),
            inner: clone_semver(&self.inner),
        }
    }
}

/// The text of a version, as `semver` displays it: `major.minor.patch`, then
/// `-pre` and `+build` where they are not empty.
pub open spec fn version_text(v: VersionModel) -> Seq<char> {
    decimal(v.0 as nat) + seq!['.'] + decimal(v.1 as nat) + seq!['.'] + decimal(v.2 as nat) + (if v.3.len() == 0 {
        Seq::empty()
    } else {
        seq!['-'] + v.3
    }) + (if v.4.len() == 0 {
        Seq::empty()
    } else {
        seq!['+'] + v.4
    })
}

impl SemVer {
    /// Parses a semantic version.
    pub fn parse(text: &str) -> (r: Option<SemVer>)
        ensures
            r is Some <==> semver_parse(text@) is Some,
            r matches Some(v) ==> semver_parse(text@) == Some(v@),
    {
        parse_semver(text)
    }

    /// The major number.
    pub fn major(&self) -> (r: u64)
        ensures
            r == self@.0,
    {
        self.major
    }

    /// The minor number.
    pub fn minor(&self) -> (r: u64)
        ensures
            r == self@.1,
    {
        self.minor
    }

    /// The patch number.
    pub fn patch(&self) -> (r: u64)
        ensures
            r == self@.2,
    {
        self.patch
    }

    /// The pre-release identifiers (empty when there are none).
    pub fn pre(&self) -> (r: &str)
        ensures
            r@ == self@.3,
    {
        self.pre.as_str()
    }

    /// The build metadata (empty when there is none).
    pub fn build(&self) -> (r: &str)
        ensures
            r@ == self@.4,
    {
        self.build.as_str()
    }

    /// Three-way comparison in semantic-version order: versions whose numbers
    /// differ are ordered by their numbers, only equal versions compare
    /// equal, and swapping the versions flips the answer.
    pub fn compare(&self, other: &SemVer) -> (r: Order)
        ensures
            r == semver_order(self@, other@),
            semver_order(other@, self@) == flip(r),
            r == Order::Equal <==> self@ == other@,
            numeric_order(self@, other@) != Order::Equal ==> r == numeric_order(self@, other@),
    {
        compare_semver(self, other)
    }

    /// The text of the version.
    pub fn to_string(&self) -> (r: String)
        ensures
            r@ == version_text(self@),
    {
        let mut r = u64_to_decimal(self.major);
        push_char(&mut r, '.');
        r.append(u64_to_decimal(self.minor).as_str());
        push_char(&mut r, '.');
        r.append(u64_to_decimal(self.patch).as_str());
        let ghost numbers = r@;
        if self.pre.unicode_len() > 0 {
            push_char(&mut r, '-');
            r.append(self.pre.as_str());
        }
        let ghost with_pre = r@;
        if self.build.unicode_len() > 0 {
            push_char(&mut r, '+');
            r.append(self.build.as_str());
        }
        proof {
            let v = self@;
            let p: Seq<char> = if v.3.len() == 0 { Seq::empty() } else { seq!['-'] + v.3 };
            let b: Seq<char> = if v.4.len() == 0 { Seq::empty() } else { seq!['+'] + v.4 };
            assert(with_pre =~= numbers + p);
            assert(r@ =~= numbers + p + b);
        }
        r
    }
}

/// A version requirement such as `>=0.14, <1`, held as the text it was
/// parsed from, beside the parsed `semver::VersionReq`. The fields are
/// private: a `SemVerReq` is only made by parsing and never changed, so the
/// text always describes `inner`.
#[derive(Debug, PartialEq, Eq)]
pub struct SemVerReq {
    text: String,
    inner: semver::VersionReq,
}

impl View for SemVerReq {
    type V = Seq<char>;

    closed spec fn view(&self) -> Seq<char> {
        self.text@
    }
}

/// `<semver::VersionReq as FromStr>::from_str` (the same as
/// `semver::VersionReq::parse`): succeeds as `semver_req_parses` says, and the text is
/// kept beside the parsed requirement.
#[verifier::external_body]
fn parse_semver_req(text: &str) -> (r: Option<SemVerReq>)
    ensures
        r is Some <==> semver_req_parses(text@),
        r matches Some(q) ==> q@ == text@,
{
    match <semver::VersionReq as std::str::FromStr>::from_str(text) {
        Ok(q) => Some(SemVerReq { text: text.to_string(), inner: q }),
        Err(_) => None,
    }
}

/// `semver::VersionReq::matches`, named `semver_req_matches`.
#[verifier::external_body]
fn matches_semver_req(req: &SemVerReq, v: &SemVer) -> (r: bool)
    ensures
        r == semver_req_matches(req@, v@),
{
    req.inner.matches(&v.inner)
}

impl SemVerReq {
    /// Parses a version requirement.
    pub fn parse(text: &str) -> (r: Option<SemVerReq>)
        ensures
            r is Some <==> semver_req_parses(text@),
            r matches Some(q) ==> q@ == text@,
    {
        parse_semver_req(text)
    }

    /// The text the requirement was parsed from.
    pub fn text(&self) -> (r: &str)
        ensures
            r@ == self@,
    {
        self.text.as_str()
    }

    /// Whether a version satisfies the requirement.
    pub fn matches(&self, v: &SemVer) -> (r: bool)
        ensures
            r == semver_req_matches(self@, v@),
    {
        matches_semver_req(self, v)
    }
}

} // verus!
