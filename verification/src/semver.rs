//! Semantic version tags: parsing `v1.2.3`, printing it back, bumping a
//! version and picking the highest version among a repository's tags.
use crate::text::{
    all_digits, chars_of, decimal, is_digit, lemma_decimal, lemma_split_on_append,
    lemma_split_on_no_sep, parse_u32, parse_u32_spec, push_char, push_decimal, split_chars, split_on,
    string_from_chars,
};
use vstd::prelude::*;

verus! {

/// A semantic version `major.minor.patch`.
#[derive(Debug, Clone, Copy, PartialEq, Eq, Structural, Ord)]
pub struct SemVer {
    pub major: u32,
    pub minor: u32,
    pub patch: u32,
}

/// Which component of a version a release bumps.
#[derive(Debug, Clone, Copy, PartialEq, Eq, Structural)]
pub enum VersionBump {
    Major,
    Minor,
    Patch,
}

/// Why a tag is not a semantic version; each variant carries the text it refused.
#[derive(Debug, Clone, PartialEq, Eq)]
pub enum SemVerError {
    /// The tag (without its leading `v`) does not have exactly three dot-separated parts.
    InvalidFormat(String),
    /// The first part is not a `u32`.
    InvalidMajor(String),
    /// The second part is not a `u32`.
    InvalidMinor(String),
    /// The third part is not a `u32`.
    InvalidPatch(String),
}

/// A bump name other than `major`, `minor` or `patch`; carries the refused text.
#[derive(Debug, Clone, PartialEq, Eq)]
pub struct BumpParseError {
    pub input: String,
}

/// The version with the given components.
pub open spec fn semver(major: u32, minor: u32, patch: u32) -> SemVer {
    SemVer { major, minor, patch }
}

/// `t` without one leading `v`, if it has one.
pub open spec fn strip_v(t: Seq<char>) -> Seq<char> {
    if t.len() > 0 && t[0] == 'v' {
        t.drop_first()
    } else {
        t
    }
}

/// The version that the tag text `t` denotes, if any: an optional leading `v`,
/// then exactly three `.`-separated parts, each a `u32` as `str::parse` reads it.
pub open spec fn tag_version(t: Seq<char>) -> Option<SemVer> {
    let parts = split_on(strip_v(t), '.');
    if parts.len() == 3 {
        match (parse_u32_spec(parts[0]), parse_u32_spec(parts[1]), parse_u32_spec(parts[2])) {
            (Some(a), Some(b), Some(c)) => Some(semver(a, b, c)),
            _ => None,
        }
    } else {
        None
    }
}

/// The tag text of a version: `v`, then the three components in base ten, joined by `.`.
pub open spec fn tag_text(v: SemVer) -> Seq<char> {
    seq!['v'] + decimal(v.major as nat) + seq!['.'] + decimal(v.minor as nat) + seq!['.']
        + decimal(v.patch as nat)
}

/// Version order: by major, then minor, then patch.
pub open spec fn version_lt(a: SemVer, b: SemVer) -> bool {
    ||| a.major < b.major
    ||| a.major == b.major && a.minor < b.minor
    ||| a.major == b.major && a.minor == b.minor && a.patch < b.patch
}

/// The bump can be applied without its component overflowing.
pub open spec fn bump_fits(v: SemVer, bump: VersionBump) -> bool {
    match bump {
        VersionBump::Major => v.major < u32::MAX,
        VersionBump::Minor => v.minor < u32::MAX,
        VersionBump::Patch => v.patch < u32::MAX,
    }
}

/// The version after a bump: the bumped component grows by one and the lesser ones restart at zero.
pub open spec fn bumped(v: SemVer, bump: VersionBump) -> SemVer {
    match bump {
        VersionBump::Major => semver((v.major + 1) as u32, 0, 0),
        VersionBump::Minor => semver(v.major, (v.minor + 1) as u32, 0),
        VersionBump::Patch => semver(v.major, v.minor, (v.patch + 1) as u32),
    }
}

/// `s` with every ASCII capital letter made small.
pub open spec fn ascii_lower(s: Seq<char>) -> Seq<char> {
    s.map_values(|c: char| if 'A' <= c && c <= 'Z' { ((c as int) + 32) as char } else { c })
}

/// What `str::to_lowercase` makes of the characters `s`: the Unicode lower case.
pub uninterp spec fn unicode_lowercase(s: Seq<char>) -> Seq<char>;

/// The bump whose name is exactly `lower`: `major`, `minor` or `patch`.
pub open spec fn bump_spelled(lower: Seq<char>) -> Option<VersionBump> {
    if lower == seq!['m', 'a', 'j', 'o', 'r'] {
        Some(VersionBump::Major)
    } else if lower == seq!['m', 'i', 'n', 'o', 'r'] {
        Some(VersionBump::Minor)
    } else if lower == seq!['p', 'a', 't', 'c', 'h'] {
        Some(VersionBump::Patch)
    } else {
        None
    }
}

/// The bump that the name `s` selects once it is made lower case.
pub open spec fn bump_named(s: Seq<char>) -> Option<VersionBump> {
    bump_spelled(unicode_lowercase(s))
}

/// Lowering ASCII text keeps it ASCII, and lowering it again changes nothing, so
/// an ASCII bump name and its lowered text name the same bump.
pub proof fn lemma_ascii_lowering_settles(s: Seq<char>)
    requires
        vstd::utf8::is_ascii_chars(s),
    ensures
        vstd::utf8::is_ascii_chars(ascii_lower(s)),
        ascii_lower(ascii_lower(s)) == ascii_lower(s),
        bump_spelled(ascii_lower(ascii_lower(s))) == bump_spelled(ascii_lower(s)),
{
    assert(ascii_lower(ascii_lower(s)) =~= ascii_lower(s));
}

/// The version a release starts from: the highest tagged version, or `0.0.0`.
pub open spec fn release_base(highest: Option<SemVer>) -> SemVer {
    match highest {
        Some(v) => v,
        None => semver(0, 0, 0),
    }
}

/// Whether `names[i]` is a tag name that denotes the version `v`.
pub open spec fn names_version(names: Seq<Option<String>>, i: int, v: SemVer) -> bool {
    &&& 0 <= i < names.len()
    &&& names[i] is Some
    &&& tag_version(names[i]->0@) == Some(v)
}

impl SemVer {
    /// The version `major.minor.patch`.
    pub fn new(major: u32, minor: u32, patch: u32) -> (r: Self)
        ensures
            r == semver(major, minor, patch),
    {
        SemVer { major, minor, patch }
    }

    /// Reads a version tag such as `v1.2.3` or `1.2.3`.
    pub fn from_tag(tag: &str) -> (r: Result<Self, SemVerError>)
        ensures
            r is Ok <==> tag_version(tag@) is Some,
            r matches Ok(v) ==> tag_version(tag@) == Some(v),
            ({
                let body = strip_v(tag@);
                let parts = split_on(body, '.');
                &&& parts.len() != 3 ==> (r matches Err(SemVerError::InvalidFormat(t))
                    && t@ == body)
                &&& parts.len() == 3 && parse_u32_spec(parts[0]) is None ==> (r matches Err(
                    SemVerError::InvalidMajor(p),
                ) && p@ == parts[0])
                &&& parts.len() == 3 && parse_u32_spec(parts[0]) is Some && parse_u32_spec(
                    parts[1],
                ) is None ==> (r matches Err(SemVerError::InvalidMinor(p)) && p@ == parts[1])
                &&& parts.len() == 3 && parse_u32_spec(parts[0]) is Some && parse_u32_spec(
                    parts[1],
                ) is Some && parse_u32_spec(parts[2]) is None ==> (r matches Err(
                    SemVerError::InvalidPatch(p),
                ) && p@ == parts[2])
            }),
    {
        let all = chars_of(tag);
        let body: &[char] = if all.len() > 0 && all[0] == 'v' {
            slice_skip_first(all.as_slice())
        } else {
            all.as_slice()
        };
        assert(body@ == strip_v(tag@));
        let parts = split_chars(body, '.');
        if parts.len() != 3 {
            return Err(SemVerError::InvalidFormat(string_from_chars(body)));
        }
        let ghost ps = split_on(body@, '.');
        assert(parts@[0]@ == ps[0] && parts@[1]@ == ps[1] && parts@[2]@ == ps[2]);
        let major = match parse_u32(parts[0].as_slice()) {
            Some(x) => x,
            None => {
                return Err(SemVerError::InvalidMajor(string_from_chars(parts[0].as_slice())));
            },
        };
        let minor = match parse_u32(parts[1].as_slice()) {
            Some(x) => x,
            None => {
                return Err(SemVerError::InvalidMinor(string_from_chars(parts[1].as_slice())));
            },
        };
        let patch = match parse_u32(parts[2].as_slice()) {
            Some(x) => x,
            None => {
                return Err(SemVerError::InvalidPatch(string_from_chars(parts[2].as_slice())));
            },
        };
        Ok(SemVer::new(major, minor, patch))
    }

    /// Bumps the major component and restarts minor and patch at zero.
    pub fn increment_major(&mut self)
        requires
            old(self).major < u32::MAX,
        ensures
            *final(self) == bumped(*old(self), VersionBump::Major),
    {
        self.major += 1;
        self.minor = 0;
        self.patch = 0;
    }

    /// Bumps the minor component and restarts patch at zero.
    pub fn increment_minor(&mut self)
        requires
            old(self).minor < u32::MAX,
        ensures
            *final(self) == bumped(*old(self), VersionBump::Minor),
    {
        self.minor += 1;
        self.patch = 0;
    }

    /// Bumps the patch component.
    pub fn increment_patch(&mut self)
        requires
            old(self).patch < u32::MAX,
        ensures
            *final(self) == bumped(*old(self), VersionBump::Patch),
    {
        self.patch += 1;
    }

    /// The tag text `v<major>.<minor>.<patch>`.
    pub fn to_tag(&self) -> (r: String)
        ensures
            r@ == tag_text(*self),
    {
        let mut r = String::new();
        push_char(&mut r, 'v');
        push_decimal(&mut r, self.major as u64);
        push_char(&mut r, '.');
        push_decimal(&mut r, self.minor as u64);
        push_char(&mut r, '.');
        push_decimal(&mut r, self.patch as u64);
        r
    }
}

/// `str::to_lowercase`: the string in Unicode lower case.
/// Trusted: the result is `unicode_lowercase` of the text, and on ASCII text only
/// the capital letters `A` to `Z` change, each into its small letter.
#[verifier::external_body]
fn to_lowercase(s: &str) -> (r: String)
    ensures
        r@ == unicode_lowercase(s@),
        vstd::string::is_ascii(s) ==> r@ == ascii_lower(s@),
{
    s.to_lowercase()
}

impl VersionBump {
    /// The bump named `major`, `minor` or `patch`, in any case: the name is
    /// made lower case with `str::to_lowercase` and then compared.
    pub fn from_name(s: &str) -> (r: Result<VersionBump, BumpParseError>)
        ensures
            r is Ok <==> bump_named(s@) is Some,
            r matches Ok(b) ==> bump_named(s@) == Some(b),
            r matches Err(e) ==> e.input@ == s@,
            vstd::string::is_ascii(s) ==> (r is Ok <==> bump_spelled(ascii_lower(s@)) is Some),
            vstd::string::is_ascii(s) ==> (r matches Ok(b) ==> bump_spelled(ascii_lower(s@))
                == Some(b)),
            vstd::string::is_ascii(s) ==> unicode_lowercase(s@) == ascii_lower(s@),
    {
        let lower = to_lowercase(s);
        match VersionBump::from_lowercase_name(lower.as_str()) {
            Some(b) => Ok(b),
            None => Err(BumpParseError { input: string_from_chars(chars_of(s).as_slice()) }),
        }
    }

    /// The bump whose name is exactly `lower`: `major`, `minor` or `patch`.
    pub fn from_lowercase_name(lower: &str) -> (r: Option<VersionBump>)
        ensures
            r == bump_spelled(lower@),
    {
        let cs = chars_of(lower);
        if chars_equal(cs.as_slice(), &['m', 'a', 'j', 'o', 'r']) {
            Some(VersionBump::Major)
        } else if chars_equal(cs.as_slice(), &['m', 'i', 'n', 'o', 'r']) {
            Some(VersionBump::Minor)
        } else if chars_equal(cs.as_slice(), &['p', 'a', 't', 'c', 'h']) {
            Some(VersionBump::Patch)
        } else {
            None
        }
    }

    /// Whether this bump can be applied to `v` without its component overflowing.
    pub fn fits(&self, v: &SemVer) -> (r: bool)
        ensures
            r == bump_fits(*v, *self),
    {
        match self {
            VersionBump::Major => v.major < u32::MAX,
            VersionBump::Minor => v.minor < u32::MAX,
            VersionBump::Patch => v.patch < u32::MAX,
        }
    }
}

impl core::str::FromStr for VersionBump {
    type Err = BumpParseError;

    fn from_str(s: &str) -> (r: Result<VersionBump, BumpParseError>)
        ensures
            r is Ok <==> bump_named(s@) is Some,
            r matches Ok(b) ==> bump_named(s@) == Some(b),
            r matches Err(e) ==> e.input@ == s@,
            vstd::string::is_ascii(s) ==> (r is Ok <==> bump_spelled(ascii_lower(s@)) is Some),
            vstd::string::is_ascii(s) ==> (r matches Ok(b) ==> bump_spelled(ascii_lower(s@))
                == Some(b)),
            vstd::string::is_ascii(s) ==> unicode_lowercase(s@) == ascii_lower(s@),
    {
        VersionBump::from_name(s)
    }
}

/// Whether `s` and `word` hold the same characters.
fn chars_equal(s: &[char], word: &[char]) -> (r: bool)
    ensures
        r == (s@ == word@),
{
    if s.len() != word.len() {
        return false;
    }
    let n = s.len();
    for i in 0..n
        invariant
            n == s@.len(),
            n == word@.len(),
            forall|j: int| 0 <= j < i ==> s@[j] == word@[j],
    {
        if s[i] != word[i] {
            return false;
        }
    }
    assert(s@ =~= word@);
    true
}

/// The highest version among the tag names that denote one; names that are
/// absent or are not version tags are passed over.
pub fn highest_semver_tag(names: &[Option<String>]) -> (r: Option<SemVer>)
    ensures
        highest_of(names@, r),
{
    let mut highest: Option<SemVer> = None;
    let n = names.len();
    for k in 0..n
        invariant
            n == names@.len(),
            highest is None <==> forall|i: int, v: SemVer|
                i < k ==> !names_version(names@, i, v),
            highest matches Some(h) ==> {
                &&& exists|i: int| i < k && names_version(names@, i, h)
                &&& forall|i: int, v: SemVer|
                    i < k && names_version(names@, i, v) ==> !version_lt(h, v)
            },
    {
        match &names[k] {
            Some(name) => {
                match SemVer::from_tag(name.as_str()) {
                    Ok(version) => {
                        let ghost prev = highest;
                        match highest {
                            None => {
                                highest = Some(version);
                            },
                            Some(current) => {
                                if version > current {
                                    highest = Some(version);
                                }
                            },
                        }
                        proof {
                            assert(names_version(names@, k as int, version));
                            assert forall|i: int, v: SemVer|
                                i < k + 1 && names_version(names@, i, v) implies !version_lt(
                                highest->0,
                                v,
                            ) by {
                                if i == k {
                                    assert(v == version);
                                }
                            }
                        }
                    },
                    Err(_) => {
                        assert forall|v: SemVer| !names_version(names@, k as int, v) by {}
                    },
                }
            },
            None => {},
        }
    }
    highest
}

/// The version a new release gets: the highest tagged version (or `0.0.0`), bumped.
pub fn release_version(highest: Option<SemVer>, bump: VersionBump) -> (r: SemVer)
    requires
        bump_fits(release_base(highest), bump),
    ensures
        r == bumped(release_base(highest), bump),
{
    let mut v = match highest {
        Some(h) => h,
        None => SemVer::new(0, 0, 0),
    };
    match bump {
        VersionBump::Major => v.increment_major(),
        VersionBump::Minor => v.increment_minor(),
        VersionBump::Patch => v.increment_patch(),
    }
    v
}

/// `h` is what the highest-tag search gives for `names`: nothing when no name is a
/// version tag, else a version some name denotes that no named version exceeds.
pub open spec fn highest_of(names: Seq<Option<String>>, h: Option<SemVer>) -> bool {
    &&& h is None <==> forall|i: int, v: SemVer| !names_version(names, i, v)
    &&& h matches Some(x) ==> {
        &&& exists|i: int| names_version(names, i, x)
        &&& forall|i: int, v: SemVer| names_version(names, i, v) ==> !version_lt(x, v)
    }
}

/// A run of digits holds no dot.
proof fn lemma_digits_no_dot(s: Seq<char>)
    requires
        all_digits(s),
    ensures
        !s.contains('.'),
{
    if s.contains('.') {
        let j = choose|j: int| 0 <= j < s.len() && s[j] == '.';
        assert(is_digit(s[j]));
    }
}

/// The numeral of a `u32` reads back as that `u32`.
proof fn lemma_parse_decimal(n: u32)
    ensures
        parse_u32_spec(decimal(n as nat)) == Some(n),
{
    lemma_decimal(n as nat);
}

/// Printing a version as a tag and reading the tag back gives the same version.
pub proof fn lemma_tag_round_trip(v: SemVer)
    ensures
        tag_version(tag_text(v)) == Some(v),
{
    let a = decimal(v.major as nat);
    let b = decimal(v.minor as nat);
    let c = decimal(v.patch as nat);
    lemma_decimal(v.major as nat);
    lemma_decimal(v.minor as nat);
    lemma_decimal(v.patch as nat);
    lemma_digits_no_dot(a);
    lemma_digits_no_dot(b);
    lemma_digits_no_dot(c);
    let t = tag_text(v);
    let body = a.push('.') + b;
    assert(strip_v(t) =~= body.push('.') + c);
    lemma_split_on_no_sep(a, '.');
    lemma_split_on_append(a, b, '.');
    lemma_split_on_append(body, c, '.');
    assert(split_on(strip_v(t), '.') =~= seq![a, b, c]);
    lemma_parse_decimal(v.major);
    lemma_parse_decimal(v.minor);
    lemma_parse_decimal(v.patch);
}

/// Version order is a strict total order: irreflexive, transitive, and any two
/// different versions are ordered one way or the other.
pub proof fn lemma_version_order(a: SemVer, b: SemVer, c: SemVer)
    ensures
        !version_lt(a, a),
        version_lt(a, b) && version_lt(b, c) ==> version_lt(a, c),
        version_lt(a, b) ==> !version_lt(b, a),
        a != b ==> version_lt(a, b) || version_lt(b, a),
{
}

/// A bump that fits yields a strictly higher version.
pub proof fn lemma_bump_increases(v: SemVer, bump: VersionBump)
    requires
        bump_fits(v, bump),
    ensures
        version_lt(v, bumped(v, bump)),
{
}

/// A release made from the highest version tag is higher than every version any
/// existing tag denotes, so its tag is none of the existing tag names.
pub proof fn lemma_release_above_existing(
    names: Seq<Option<String>>,
    h: Option<SemVer>,
    bump: VersionBump,
)
    requires
        highest_of(names, h),
        bump_fits(release_base(h), bump),
    ensures
        forall|i: int, v: SemVer|
            names_version(names, i, v) ==> version_lt(v, bumped(release_base(h), bump)),
        forall|i: int|
            0 <= i < names.len() && names[i] is Some ==> names[i]->0@ != tag_text(
                bumped(release_base(h), bump),
            ),
{
    let r = bumped(release_base(h), bump);
    assert forall|i: int, v: SemVer| names_version(names, i, v) implies version_lt(v, r) by {
        let x = h->0;
        lemma_version_order(v, x, r);
    }
    assert forall|i: int| 0 <= i < names.len() && names[i] is Some implies names[i]->0@
        != tag_text(r) by {
        if names[i]->0@ == tag_text(r) {
            lemma_tag_round_trip(r);
            assert(names_version(names, i, r));
            lemma_version_order(r, r, r);
        }
    }
}

/// The slice without its first element.
fn slice_skip_first(s: &[char]) -> (r: &[char])
    requires
        s@.len() > 0,
    ensures
        r@ == s@.drop_first(),
{
    let (_, rest) = s.split_at(1);
    rest
}

} // verus!
