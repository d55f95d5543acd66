//! Version identities in the loose scheme the engine uses for its tags
//! (`4`, `4.2`, `4.2.1-stable`), and version requests that are either a range
//! or, at the same time, one exact version.
use vstd::prelude::*;

use crate::common::GdError;
use crate::text::{chars_of, find_from, lemma_next_index_of_bounds, next_index_of, push_str, slice_of, string_of};

verus! {

// ---------------------------------------------------------------------------
// The grammar: major(.minor(.patch)?)?(-pre)?(+build)?
// ---------------------------------------------------------------------------

pub open spec fn is_digit(c: char) -> bool {
    '0' <= c && c <= '9'
}

pub open spec fn is_identifier_char(c: char) -> bool {
    is_digit(c) || ('a' <= c && c <= 'z') || ('A' <= c && c <= 'Z') || c == '-'
}

pub open spec fn all_digits(s: Seq<char>) -> bool {
    forall|i: int| 0 <= i < s.len() ==> is_digit(#[trigger] s[i])
}

/// A numeric component: one or more digits, with no leading zero.
pub open spec fn numeric_component(s: Seq<char>) -> bool {
    s.len() > 0 && all_digits(s) && (s[0] == '0' ==> s.len() == 1)
}

/// One dot-separated identifier of a pre-release label (`pre`) or of build
/// metadata; a purely numeric pre-release identifier has no leading zero.
pub open spec fn identifier_ok(s: Seq<char>, pre: bool) -> bool {
    &&& s.len() > 0
    &&& forall|i: int| 0 <= i < s.len() ==> is_identifier_char(#[trigger] s[i])
    &&& (pre && all_digits(s)) ==> numeric_component(s)
}

/// The identifiers of `s` from index `i` on, separated by dots, are all valid.
pub open spec fn identifiers_from(s: Seq<char>, i: int, pre: bool) -> bool
    decreases s.len() - i,
{
    let j = next_index_of(s, '.', i);
    if i < 0 || i > s.len() || j < i {
        false
    } else {
        identifier_ok(s.subrange(i, j), pre) && (j < s.len() ==> identifiers_from(s, j + 1, pre))
    }
}

pub open spec fn identifiers_ok(s: Seq<char>, pre: bool) -> bool {
    identifiers_from(s, 0, pre)
}

/// The value of a string of decimal digits.
pub open spec fn decimal_value(s: Seq<char>) -> nat
    decreases s.len(),
{
    if s.len() == 0 {
        0
    } else {
        decimal_value(s.drop_last()) * 10 + ((s.last() as u32 - '0' as u32) as nat)
    }
}

/// The text before the first `+`.
pub open spec fn head_text(s: Seq<char>) -> Seq<char> {
    s.subrange(0, next_index_of(s, '+', 0))
}

/// The build metadata: the text after the first `+`, if there is one.
pub open spec fn build_text(s: Seq<char>) -> Option<Seq<char>> {
    let b = next_index_of(s, '+', 0);
    if b < s.len() {
        Some(s.subrange(b + 1, s.len() as int))
    } else {
        None
    }
}

/// The numeric part: the head up to its first `-`.
pub open spec fn core_text(s: Seq<char>) -> Seq<char> {
    let h = head_text(s);
    h.subrange(0, next_index_of(h, '-', 0))
}

/// The pre-release label: the head after its first `-`, if there is one.
pub open spec fn pre_text(s: Seq<char>) -> Option<Seq<char>> {
    let h = head_text(s);
    let p = next_index_of(h, '-', 0);
    if p < h.len() {
        Some(h.subrange(p + 1, h.len() as int))
    } else {
        None
    }
}

pub open spec fn major_text(core: Seq<char>) -> Seq<char> {
    core.subrange(0, next_index_of(core, '.', 0))
}

pub open spec fn minor_text(core: Seq<char>) -> Option<Seq<char>> {
    let a = next_index_of(core, '.', 0);
    if a < core.len() {
        Some(core.subrange(a + 1, next_index_of(core, '.', a + 1)))
    } else {
        None
    }
}

pub open spec fn patch_text(core: Seq<char>) -> Option<Seq<char>> {
    let a = next_index_of(core, '.', 0);
    let b = next_index_of(core, '.', a + 1);
    if a < core.len() && b < core.len() {
        Some(core.subrange(b + 1, core.len() as int))
    } else {
        None
    }
}

pub open spec fn optional_numeric(t: Option<Seq<char>>) -> bool {
    match t {
        Some(x) => numeric_component(x) && decimal_value(x) <= u64::MAX,
        None => true,
    }
}

pub open spec fn optional_value(t: Option<Seq<char>>) -> u64 {
    match t {
        Some(x) => decimal_value(x) as u64,
        None => 0,
    }
}

/// `s` is a version in the loose scheme, with every number fitting in a `u64`.
pub open spec fn version_text_ok(s: Seq<char>) -> bool {
    let core = core_text(s);
    &&& numeric_component(major_text(core))
    &&& decimal_value(major_text(core)) <= u64::MAX
    &&& optional_numeric(minor_text(core))
    &&& optional_numeric(patch_text(core))
    &&& match pre_text(s) {
        Some(p) => identifiers_ok(p, true),
        None => true,
    }
    &&& match build_text(s) {
        Some(b) => identifiers_ok(b, false),
        None => true,
    }
}

/// A fully populated version: missing components are zero, build metadata
/// plays no part.
pub struct VersionModel {
    pub major: u64,
    pub minor: u64,
    pub patch: u64,
    pub pre: Seq<char>,
}

/// Whether the label `p` is one of the labels to drop.
pub open spec fn label_ignored(ignored: Option<Seq<Seq<char>>>, p: Seq<char>) -> bool {
    match ignored {
        Some(labels) => labels.contains(p),
        None => false,
    }
}

/// The version that the text `s` denotes, with an ignored pre-release label
/// dropped.
pub open spec fn parsed_version(s: Seq<char>, ignored: Option<Seq<Seq<char>>>) -> VersionModel {
    let core = core_text(s);
    VersionModel {
        major: decimal_value(major_text(core)) as u64,
        minor: optional_value(minor_text(core)),
        patch: optional_value(patch_text(core)),
        pre: match pre_text(s) {
            Some(p) => if label_ignored(ignored, p) {
                Seq::empty()
            } else {
                p
            },
            None => Seq::empty(),
        },
    }
}

/// The views of a list of labels.
pub open spec fn labels_view(ignored: Option<Vec<String>>) -> Option<Seq<Seq<char>>> {
    match ignored {
        Some(v) => Some(v@.map_values(|l: String| l@)),
        None => None,
    }
}

/// The label that upstream tags carry on stable releases.
pub open spec fn stable_labels() -> Option<Seq<Seq<char>>> {
    Some(seq![seq!['s', 't', 'a', 'b', 'l', 'e']])
}

/// The list of labels to drop when reading upstream tags: `stable`.
pub fn stable_label_list() -> (r: Option<Vec<String>>)
    ensures
        labels_view(r) == stable_labels(),
{
    let word = vec!['s', 't', 'a', 'b', 'l', 'e'];
    let mut v: Vec<String> = Vec::new();
    v.push(string_of(&word, 0, word.len()));
    proof {
        assert(word@.subrange(0, 6) =~= seq!['s', 't', 'a', 'b', 'l', 'e']);
        assert(v@.map_values(|l: String| l@) =~= seq![seq!['s', 't', 'a', 'b', 'l', 'e']]);
    }
    Some(v)
}

// ---------------------------------------------------------------------------
// Precedence
// ---------------------------------------------------------------------------

/// Relies on semver's `Ord for Prerelease`: whether pre-release label `a` has
/// lower precedence than `b`. Depends on the two labels alone.
pub uninterp spec fn prerelease_precedes(a: Seq<char>, b: Seq<char>) -> bool;

/// Precedence of versions: major, minor and patch in turn; then a version with
/// a pre-release label comes before the same numbers without one.
pub open spec fn precedes(a: VersionModel, b: VersionModel) -> bool {
    if a.major != b.major {
        a.major < b.major
    } else if a.minor != b.minor {
        a.minor < b.minor
    } else if a.patch != b.patch {
        a.patch < b.patch
    } else if a.pre.len() == 0 {
        false
    } else if b.pre.len() == 0 {
        true
    } else {
        prerelease_precedes(a.pre, b.pre)
    }
}

/// Relies on `semver::Prerelease::new` and the `Ord` of `semver::Prerelease`.
#[verifier::external_body]
fn prerelease_lt(a: &str, b: &str) -> (r: bool)
    ensures
        r == prerelease_precedes(a@, b@),
{
    match (semver::Prerelease::new(a), semver::Prerelease::new(b)) {
        (Ok(x), Ok(y)) => x < y,
        _ => false,
    }
}

// ---------------------------------------------------------------------------
// Ranges
// ---------------------------------------------------------------------------

/// Relies on `semver::VersionReq::parse`: whether `text` is a version
/// requirement. Depends on the text alone.
pub uninterp spec fn range_text_valid(text: Seq<char>) -> bool;

/// Relies on `semver::VersionReq::matches`: whether the requirement written
/// `text` accepts the version with these numbers and pre-release label (and no
/// build metadata). Depends on its arguments alone.
pub uninterp spec fn range_accepts(text: Seq<char>, major: u64, minor: u64, patch: u64, pre: Seq<char>) -> bool;

/// Relies on `semver::VersionReq::parse` succeeding or failing.
#[verifier::external_body]
fn range_parses(text: &str) -> (r: bool)
    ensures
        r == range_text_valid(text@),
{
    semver::VersionReq::parse(text).is_ok()
}

/// Relies on `semver::VersionReq::matches`, on a version built from plain numbers.
#[verifier::external_body]
fn range_matches(text: &str, major: u64, minor: u64, patch: u64, pre: &str) -> (r: bool)
    requires
        range_text_valid(text@),
    ensures
        r == range_accepts(text@, major, minor, patch, pre@),
{
    match (semver::VersionReq::parse(text), semver::Prerelease::new(pre)) {
        (Ok(req), Ok(pre)) => req.matches(
            &semver::Version { major, minor, patch, pre, build: semver::BuildMetadata::EMPTY },
        ),
        _ => false,
    }
}


// ---------------------------------------------------------------------------
// Versions
// ---------------------------------------------------------------------------

/// A version identity: always fully populated.
#[derive(Clone, Debug)]
pub struct Version {
    pub major: u64,
    pub minor: u64,
    pub patch: u64,
    /// The pre-release label, empty for a release.
    pub pre: String,
}

impl View for Version {
    type V = VersionModel;

    open spec fn view(&self) -> VersionModel {
        VersionModel { major: self.major, minor: self.minor, patch: self.patch, pre: self.pre@ }
    }
}

impl Version {
    /// Whether `self` has lower precedence than `other`.
    pub fn precedes(&self, other: &Version) -> (r: bool)
        ensures
            r == precedes(self@, other@),
    {
        if self.major != other.major {
            self.major < other.major
        } else if self.minor != other.minor {
            self.minor < other.minor
        } else if self.patch != other.patch {
            self.patch < other.patch
        } else if self.pre.unicode_len() == 0 {
            false
        } else if other.pre.unicode_len() == 0 {
            true
        } else {
            prerelease_lt(self.pre.as_str(), other.pre.as_str())
        }
    }

    /// Whether the two versions are the same.
    pub fn same(&self, other: &Version) -> (r: bool)
        ensures
            r == (self@ == other@),
    {
        self.major == other.major && self.minor == other.minor && self.patch == other.patch
            && self.pre == other.pre
    }
}

impl PartialEq for Version {
    fn eq(&self, other: &Version) -> (r: bool) {
        self.same(other)
    }
}

impl vstd::std_specs::cmp::PartialEqSpecImpl for Version {
    open spec fn obeys_eq_spec() -> bool {
        true
    }

    open spec fn eq_spec(&self, other: &Version) -> bool {
        self@ == other@
    }
}

// ---------------------------------------------------------------------------
// Parsing
// ---------------------------------------------------------------------------

fn is_digit_char(c: char) -> (r: bool)
    ensures
        r == is_digit(c),
{
    '0' <= c && c <= '9'
}

fn all_digits_in(s: &Vec<char>) -> (r: bool)
    ensures
        r == all_digits(s@),
{
    let mut i: usize = 0;
    while i < s.len()
        invariant
            i <= s@.len(),
            forall|j: int| 0 <= j < i ==> is_digit(#[trigger] s@[j]),
        decreases s@.len() - i,
    {
        if !is_digit_char(s[i]) {
            return false;
        }
        i = i + 1;
    }
    true
}

fn numeric_ok(s: &Vec<char>) -> (r: bool)
    ensures
        r == numeric_component(s@),
{
    s.len() > 0 && all_digits_in(s) && (s[0] != '0' || s.len() == 1)
}

fn identifier_valid(s: &Vec<char>, pre: bool) -> (r: bool)
    ensures
        r == identifier_ok(s@, pre),
{
    if s.len() == 0 {
        return false;
    }
    let mut i: usize = 0;
    while i < s.len()
        invariant
            i <= s@.len(),
            forall|j: int| 0 <= j < i ==> is_identifier_char(#[trigger] s@[j]),
        decreases s@.len() - i,
    {
        let c = s[i];
        if !(is_digit_char(c) || ('a' <= c && c <= 'z') || ('A' <= c && c <= 'Z') || c == '-') {
            return false;
        }
        i = i + 1;
    }
    if pre && all_digits_in(s) {
        numeric_ok(s)
    } else {
        true
    }
}

fn identifiers_valid(s: &Vec<char>, pre: bool) -> (r: bool)
    ensures
        r == identifiers_ok(s@, pre),
{
    let mut i: usize = 0;
    loop
        invariant
            i <= s@.len(),
            identifiers_ok(s@, pre) == identifiers_from(s@, i as int, pre),
        decreases s@.len() - i,
    {
        let j = find_from(s, '.', i);
        let part = slice_of(s, i, j);
        if !identifier_valid(&part, pre) {
            return false;
        }
        if j == s.len() {
            return true;
        }
        i = j + 1;
    }
}

proof fn lemma_decimal_prefix(s: Seq<char>, i: int)
    requires
        0 <= i <= s.len(),
    ensures
        decimal_value(s.subrange(0, i)) <= decimal_value(s),
    decreases s.len(),
{
    if i == s.len() {
        assert(s.subrange(0, i) =~= s);
    } else {
        lemma_decimal_prefix(s.drop_last(), i);
        assert(s.drop_last().subrange(0, i) =~= s.subrange(0, i));
    }
}

/// The value of a string of digits, if it fits in a `u64`.
fn decimal_of(s: &Vec<char>) -> (r: Option<u64>)
    requires
        all_digits(s@),
    ensures
        r is Some <==> decimal_value(s@) <= u64::MAX,
        r is Some ==> r->0 == decimal_value(s@),
{
    let mut acc: u64 = 0;
    let mut i: usize = 0;
    while i < s.len()
        invariant
            i <= s@.len(),
            all_digits(s@),
            acc == decimal_value(s@.subrange(0, i as int)),
        decreases s@.len() - i,
    {
        let c = s[i];
        assert(is_digit(s@[i as int]));
        let d = (c as u32 - '0' as u32) as u64;
        let ghost next = s@.subrange(0, i + 1);
        assert(next.drop_last() =~= s@.subrange(0, i as int));
        assert(decimal_value(next) == acc * 10 + d);
        if acc > (u64::MAX - d) / 10 {
            assert(acc * 10 + d > u64::MAX) by (nonlinear_arith)
                requires
                    acc > (u64::MAX - d) / 10,
                    d <= 9,
            ;
            proof {
                lemma_decimal_prefix(s@, i + 1);
            }
            return None;
        }
        assert(acc * 10 + d <= u64::MAX) by (nonlinear_arith)
            requires
                acc <= (u64::MAX - d) / 10,
                d <= 9,
        ;
        acc = acc * 10 + d;
        i = i + 1;
    }
    assert(s@.subrange(0, s@.len() as int) =~= s@);
    Some(acc)
}

fn label_in(ignored: &Option<Vec<String>>, p: &String) -> (r: bool)
    ensures
        r == label_ignored(labels_view(*ignored), p@),
{
    match ignored {
        None => false,
        Some(labels) => {
            let ghost lv = labels@.map_values(|l: String| l@);
            assert(labels_view(*ignored) == Some(lv));
            let mut i: usize = 0;
            while i < labels.len()
                invariant
                    labels_view(*ignored) == Some(lv),
                    i <= labels@.len(),
                    lv == labels@.map_values(|l: String| l@),
                    forall|j: int| 0 <= j < i ==> lv[j] != p@,
                decreases labels@.len() - i,
            {
                if labels[i] == *p {
                    assert(lv[i as int] == labels@[i as int]@);
                    assert(lv[i as int] == p@);
                    assert(lv.contains(p@));
                    return true;
                }
                i = i + 1;
            }
            assert(!lv.contains(p@));
            false
        }
    }
}

/// Parses a version in the loose scheme: `major(.minor(.patch)?)?(-pre)?(+build)?`,
/// with minor and patch zero where absent and the build metadata dropped. A
/// pre-release label listed in `ignored_pre_releases` is dropped too.
pub fn parse_semver_version(value: &str, ignored_pre_releases: &Option<Vec<String>>) -> (r: Result<Version, GdError>)
    ensures
        r is Ok <==> version_text_ok(value@),
        r is Ok ==> r->Ok_0@ == parsed_version(value@, labels_view(*ignored_pre_releases)),
        r is Err ==> r->Err_0 is InvalidVersion,
{
    let s = chars_of(value);
    let ghost sv = s@;
    let b = find_from(&s, '+', 0);
    let head = slice_of(&s, 0, b);
    assert(head@ =~= head_text(sv));
    if b < s.len() {
        let build = slice_of(&s, b + 1, s.len());
        if !identifiers_valid(&build, false) {
            return Err(GdError::InvalidVersion(String::from_str(value)));
        }
    }
    let p = find_from(&head, '-', 0);
    let core = slice_of(&head, 0, p);
    assert(core@ =~= core_text(sv));
    let mut pre = String::new();
    if p < head.len() {
        let label = slice_of(&head, p + 1, head.len());
        if !identifiers_valid(&label, true) {
            return Err(GdError::InvalidVersion(String::from_str(value)));
        }
        pre = string_of(&head, p + 1, head.len());
        if label_in(ignored_pre_releases, &pre) {
            pre = String::new();
        }
    }
    let a = find_from(&core, '.', 0);
    let major_part = slice_of(&core, 0, a);
    if !numeric_ok(&major_part) {
        return Err(GdError::InvalidVersion(String::from_str(value)));
    }
    let major = match decimal_of(&major_part) {
        Some(n) => n,
        None => return Err(GdError::InvalidVersion(String::from_str(value))),
    };
    let mut minor: u64 = 0;
    let mut patch: u64 = 0;
    if a < core.len() {
        let m = find_from(&core, '.', a + 1);
        let minor_part = slice_of(&core, a + 1, m);
        if !numeric_ok(&minor_part) {
            return Err(GdError::InvalidVersion(String::from_str(value)));
        }
        minor = match decimal_of(&minor_part) {
            Some(n) => n,
            None => return Err(GdError::InvalidVersion(String::from_str(value))),
        };
        if m < core.len() {
            let patch_part = slice_of(&core, m + 1, core.len());
            if !numeric_ok(&patch_part) {
                return Err(GdError::InvalidVersion(String::from_str(value)));
            }
            patch = match decimal_of(&patch_part) {
                Some(n) => n,
                None => return Err(GdError::InvalidVersion(String::from_str(value))),
            };
        }
    }
    Ok(Version { major, minor, patch, pre })
}

// ---------------------------------------------------------------------------
// Text of a version
// ---------------------------------------------------------------------------

pub open spec fn digit_char(d: nat) -> char {
    seq!['0', '1', '2', '3', '4', '5', '6', '7', '8', '9'][d as int]
}

/// The decimal digits of `n`, without leading zeros.
pub open spec fn decimal_text(n: nat) -> Seq<char>
    decreases n,
{
    if n < 10 {
        seq![digit_char(n)]
    } else {
        decimal_text(n / 10).push(digit_char(n % 10))
    }
}

/// `major.minor.patch`, followed by `-pre` where there is a label.
pub open spec fn version_display(v: VersionModel) -> Seq<char> {
    let numbers = decimal_text(v.major as nat) + seq!['.'] + decimal_text(v.minor as nat) + seq!['.']
        + decimal_text(v.patch as nat);
    if v.pre.len() == 0 {
        numbers
    } else {
        numbers + seq!['-'] + v.pre
    }
}

fn push_decimal(out: &mut String, n: u64)
    ensures
        final(out)@ == old(out)@ + decimal_text(n as nat),
    decreases n,
{
    let digits = ['0', '1', '2', '3', '4', '5', '6', '7', '8', '9'];
    if n >= 10 {
        push_decimal(out, n / 10);
    }
    let d = (n % 10) as usize;
    out.push(digits[d]);
    proof {
        assert(digits@ =~= seq!['0', '1', '2', '3', '4', '5', '6', '7', '8', '9']);
        if n >= 10 {
            assert(old(out)@ + decimal_text(n as nat) =~= old(out)@ + decimal_text((n / 10) as nat) + seq![digit_char((n % 10) as nat)]);
        } else {
            assert(old(out)@ + decimal_text(n as nat) =~= old(out)@.push(digit_char(n as nat)));
        }
    }
}

impl Version {
    /// The version written out: `major.minor.patch`, and `-pre` where there is a label.
    pub fn to_text(&self) -> (r: String)
        ensures
            r@ == version_display(self@),
    {
        let mut out = String::new();
        push_decimal(&mut out, self.major);
        out.push('.');
        push_decimal(&mut out, self.minor);
        out.push('.');
        push_decimal(&mut out, self.patch);
        let ghost numbers = out@;
        assert(numbers =~= decimal_text(self.major as nat) + seq!['.'] + decimal_text(self.minor as nat)
            + seq!['.'] + decimal_text(self.patch as nat));
        if self.pre.unicode_len() > 0 {
            out.push('-');
            push_str(&mut out, self.pre.as_str());
            assert(out@ =~= numbers + seq!['-'] + self.pre@);
        }
        out
    }

    /// A copy with the same view.
    pub fn copy(&self) -> (r: Version)
        ensures
            r@ == self@,
    {
        Version { major: self.major, minor: self.minor, patch: self.patch, pre: self.pre.clone() }
    }
}

// ---------------------------------------------------------------------------
// Requests
// ---------------------------------------------------------------------------

/// A version requirement (`~4.2`, `^4`, `>=4.1, <4.3`, `4.2.1`), kept as the
/// text that was checked to be one.
#[derive(Debug)]
pub struct VersionRange {
    text: String,
}

impl Clone for VersionRange {
    fn clone(&self) -> (r: VersionRange) {
        self.copy()
    }
}

impl View for VersionRange {
    type V = Seq<char>;

    closed spec fn view(&self) -> Seq<char> {
        self.text@
    }
}

impl VersionRange {
    #[verifier::type_invariant]
    spec fn inv(&self) -> bool {
        range_text_valid(self.text@)
    }

    /// Accepts `text` exactly when it is a version requirement.
    pub fn parse(text: &str) -> (r: Result<VersionRange, GdError>)
        ensures
            r is Ok <==> range_text_valid(text@),
            r is Ok ==> r->Ok_0@ == text@,
            r is Err ==> r->Err_0 is InvalidVersion,
    {
        if range_parses(text) {
            Ok(VersionRange { text: String::from_str(text) })
        } else {
            Err(GdError::InvalidVersion(String::from_str(text)))
        }
    }

    /// The requirement as written.
    pub fn as_str(&self) -> (r: &str)
        ensures
            r@ == self@,
    {
        self.text.as_str()
    }

    /// Whether the requirement accepts `v`.
    pub fn matches(&self, v: &Version) -> (r: bool)
        ensures
            r == range_accepts(self@, v.major, v.minor, v.patch, v.pre@),
    {
        proof {
            use_type_invariant(self);
        }
        range_matches(self.text.as_str(), v.major, v.minor, v.patch, v.pre.as_str())
    }

    /// A copy with the same view.
    pub fn copy(&self) -> (r: VersionRange)
        ensures
            r@ == self@,
    {
        proof {
            use_type_invariant(self);
        }
        VersionRange { text: self.text.clone() }
    }
}

/// Whether an optional requirement accepts the version `v`: no requirement
/// accepts every version.
pub open spec fn range_allows(like: Option<Seq<char>>, v: VersionModel) -> bool {
    match like {
        Some(text) => range_accepts(text, v.major, v.minor, v.patch, v.pre),
        None => true,
    }
}

/// The view of an optional exact version.
pub open spec fn exact_view(exact: Option<Version>) -> Option<VersionModel> {
    match exact {
        Some(v) => Some(v@),
        None => None,
    }
}

/// The text of an optional requirement.
pub open spec fn like_view(like: Option<VersionRange>) -> Option<Seq<char>> {
    match like {
        Some(r) => Some(r@),
        None => None,
    }
}

/// A version request as typed by a user: always a requirement, and also an
/// exact version when the text reads as one.
#[derive(Clone, Debug)]
pub struct MaybeVersionOrVersionReq {
    pub input_str: String,
    pub version_like: VersionRange,
    pub version_exact: Option<Version>,
}

impl MaybeVersionOrVersionReq {
    /// Fails only where `s` is not a requirement; the exact version is set
    /// where `s` also parses as a version.
    pub fn from_str(s: &str) -> (r: Result<MaybeVersionOrVersionReq, GdError>)
        ensures
            r is Ok <==> range_text_valid(s@),
            r is Err ==> r->Err_0 is InvalidVersion,
            r is Ok ==> {
                let m = r->Ok_0;
                &&& m.input_str@ == s@
                &&& m.version_like@ == s@
                &&& (m.version_exact is Some <==> version_text_ok(s@))
                &&& (m.version_exact is Some ==> m.version_exact->0@ == parsed_version(s@, None))
            },
    {
        let like = VersionRange::parse(s)?;
        let exact = match parse_semver_version(s, &None) {
            Ok(v) => Some(v),
            Err(_) => None,
        };
        Ok(MaybeVersionOrVersionReq { input_str: String::from_str(s), version_like: like, version_exact: exact })
    }
}

/// The parts of an optional request: its text, its requirement and its exact
/// version, each `None` where there is no request.
pub fn flatten_version(version: &Option<MaybeVersionOrVersionReq>) -> (r: (
    Option<String>,
    Option<VersionRange>,
    Option<Version>,
))
    ensures
        version is None ==> r.0 is None && r.1 is None && r.2 is None,
        version is Some ==> {
            let m = version->0;
            &&& r.0 is Some && r.0->0@ == m.input_str@
            &&& r.1 is Some && r.1->0@ == m.version_like@
            &&& (r.2 is Some <==> m.version_exact is Some)
            &&& (r.2 is Some ==> r.2->0@ == m.version_exact->0@)
        },
{
    match version {
        None => (None, None, None),
        Some(v) => {
            let exact = match &v.version_exact {
                Some(e) => Some(e.copy()),
                None => None,
            };
            (Some(v.input_str.clone()), Some(v.version_like.copy()), exact)
        },
    }
}

/// Dot-separated identifiers hold identifier characters and dots only.
proof fn lemma_identifier_chars(s: Seq<char>, i: int, pre: bool)
    requires
        0 <= i <= s.len(),
        identifiers_from(s, i, pre),
    ensures
        forall|k: int| i <= k < s.len() ==> is_identifier_char(#[trigger] s[k]) || s[k] == '.',
    decreases s.len() - i,
{
    let j = next_index_of(s, '.', i);
    lemma_next_index_of_bounds(s, '.', i);
    if j < s.len() {
        lemma_identifier_chars(s, j + 1, pre);
    }
    assert forall|k: int| i <= k < j implies is_identifier_char(#[trigger] s[k]) by {
        assert(s.subrange(i, j)[k - i] == s[k]);
    }
}

proof fn lemma_numeric_chars(x: Seq<char>)
    requires
        numeric_component(x),
    ensures
        forall|k: int| 0 <= k < x.len() ==> is_digit(#[trigger] x[k]),
{
}

/// Version text holds digits, letters, `-`, `.` and `+` only; in particular
/// no `_`.
pub proof fn lemma_version_text_chars(v: Seq<char>)
    requires
        version_text_ok(v),
    ensures
        forall|k: int| 0 <= k < v.len() ==> #[trigger] v[k] != '_',
{
    let b = next_index_of(v, '+', 0);
    lemma_next_index_of_bounds(v, '+', 0);
    let head = head_text(v);
    let p = next_index_of(head, '-', 0);
    lemma_next_index_of_bounds(head, '-', 0);
    let core = core_text(v);
    let a = next_index_of(core, '.', 0);
    lemma_next_index_of_bounds(core, '.', 0);
    if a < core.len() {
        lemma_next_index_of_bounds(core, '.', a + 1);
    }
    let m = next_index_of(core, '.', a + 1);
    if b < v.len() {
        lemma_identifier_chars(v.subrange(b + 1, v.len() as int), 0, false);
    }
    if p < head.len() {
        lemma_identifier_chars(head.subrange(p + 1, head.len() as int), 0, true);
    }
    lemma_numeric_chars(major_text(core));
    if a < core.len() {
        lemma_numeric_chars(minor_text(core)->0);
        if m < core.len() {
            lemma_numeric_chars(patch_text(core)->0);
        }
    }
    assert forall|k: int| 0 <= k < v.len() implies #[trigger] v[k] != '_' by {
        if k > b {
            assert(v.subrange(b + 1, v.len() as int)[k - b - 1] == v[k]);
        } else if k < b {
            assert(head[k] == v[k]);
            if k > p {
                assert(head.subrange(p + 1, head.len() as int)[k - p - 1] == v[k]);
            } else if k < p {
                assert(core[k] == v[k]);
                if k < a {
                    assert(major_text(core)[k] == v[k]);
                } else if k > a {
                    if k < m {
                        assert(minor_text(core)->0[k - a - 1] == v[k]);
                    } else if k > m {
                        assert(patch_text(core)->0[k - m - 1] == v[k]);
                    }
                }
            }
        }
    }
}

} // verus!
