//! Text form of the manifest.
//!
//! ```text
//! [package]
//! name = "<name, quoted and escaped>"
//! version = <major>.<minor>.<patch>[-<pre>][+<build>]
//! kind = "<kind alias>"
//! ```
//!
//! Inside a quoted value `\"`, `\\`, `\n`, `\r` and `\t` stand for the quote,
//! the backslash, newline, carriage return and tab; every other character
//! stands for itself.

use vstd::prelude::*;
use vstd::string::*;
use crate::{alias_of, initial_version, kind_of_alias, PackageKind, PackageProperties, PropertiesModel, Version};

verus! {

pub open spec fn manifest_file_name() -> Seq<char> {
    "artio_package.toml"@
}

/// File name of the manifest inside a package directory.
pub fn manifest_file() -> (r: String)
    ensures
        r@ == manifest_file_name(),
{
    String::from_str("artio_package.toml")
}

pub open spec fn escape_char(c: char) -> Seq<char> {
    if c == '"' {
        seq!['\\', '"']
    } else if c == '\\' {
        seq!['\\', '\\']
    } else if c == '\n' {
        seq!['\\', 'n']
    } else if c == '\r' {
        seq!['\\', 'r']
    } else if c == '\t' {
        seq!['\\', 't']
    } else {
        seq![c]
    }
}

/// The character that follows a backslash inside a quoted value stands for.
pub open spec fn unescape_char(e: char) -> Option<char> {
    if e == '"' {
        Some('"')
    } else if e == '\\' {
        Some('\\')
    } else if e == 'n' {
        Some('\n')
    } else if e == 'r' {
        Some('\r')
    } else if e == 't' {
        Some('\t')
    } else {
        None
    }
}

pub open spec fn escape(s: Seq<char>) -> Seq<char>
    decreases s.len(),
{
    if s.len() == 0 {
        Seq::empty()
    } else {
        escape(s.drop_last()) + escape_char(s.last())
    }
}

pub open spec fn quoted(s: Seq<char>) -> Seq<char> {
    seq!['"'] + escape(s) + seq!['"']
}

pub open spec fn digit_char(d: nat) -> char {
    seq!['0', '1', '2', '3', '4', '5', '6', '7', '8', '9'][d as int]
}

/// Decimal digits of `n`, without leading zeros.
pub open spec fn decimal(n: nat) -> Seq<char>
    decreases n,
{
    if n < 10 {
        seq![digit_char(n)]
    } else {
        decimal(n / 10) + seq![digit_char(n % 10)]
    }
}

/// `major.minor.patch` in decimal.
pub open spec fn triple_text(major: u64, minor: u64, patch: u64) -> Seq<char> {
    decimal(major as nat) + seq!['.'] + decimal(minor as nat) + seq!['.'] + decimal(patch as nat)
}

/// Semantic-version text: the triple, then `-pre` and `+build` when present.
pub open spec fn version_text(v: (u64, u64, u64, Seq<char>, Seq<char>)) -> Seq<char> {
    triple_text(v.0, v.1, v.2) + (if v.3.len() > 0 {
        seq!['-'] + v.3
    } else {
        Seq::empty()
    }) + (if v.4.len() > 0 {
        seq!['+'] + v.4
    } else {
        Seq::empty()
    })
}

/// The manifest text of a package.
pub open spec fn manifest_text(p: PropertiesModel) -> Seq<char> {
    "[package]\n"@ + "name = "@ + quoted(p.name) + "\nversion = "@ + version_text(p.version)
        + "\nkind = "@ + quoted(alias_of(p.kind)) + "\n"@
}

fn push_escaped(out: &mut String, s: &str)
    ensures
        final(out)@ == old(out)@ + escape(s@),
{
    let n = s.unicode_len();
    let mut i: usize = 0;
    assert(s@.subrange(0, 0) =~= Seq::<char>::empty());
    while i < n
        invariant
            i <= n,
            n == s@.len(),
            out@ == old(out)@ + escape(s@.subrange(0, i as int)),
        decreases n - i,
    {
        let c = s.get_char(i);
        let ghost before = out@;
        proof {
            reveal_strlit("\\\"");
            reveal_strlit("\\\\");
            reveal_strlit("\\n");
            reveal_strlit("\\r");
            reveal_strlit("\\t");
        }
        if c == '"' {
            out.append("\\\"");
        } else if c == '\\' {
            out.append("\\\\");
        } else if c == '\n' {
            out.append("\\n");
        } else if c == '\r' {
            out.append("\\r");
        } else if c == '\t' {
            out.append("\\t");
        } else {
            let one = s.substring_char(i, i + 1);
            assert(one@ =~= seq![c]);
            out.append(one);
        }
        proof {
            let t = s@.subrange(0, i + 1);
            assert(t.drop_last() =~= s@.subrange(0, i as int));
            assert(t.last() == c);
            assert(out@ =~= before + escape_char(c));
        }
        i = i + 1;
    }
    assert(s@.subrange(0, n as int) =~= s@);
}

fn push_quoted(out: &mut String, s: &str)
    ensures
        final(out)@ == old(out)@ + quoted(s@),
{
    proof {
        reveal_strlit("\"");
    }
    out.append("\"");
    push_escaped(out, s);
    out.append("\"");
    assert(out@ =~= old(out)@ + quoted(s@));
}

fn push_decimal(out: &mut String, n: u64)
    ensures
        final(out)@ == old(out)@ + decimal(n as nat),
    decreases n,
{
    if n >= 10 {
        push_decimal(out, n / 10);
    }
    let d = (n % 10) as usize;
    let digits = "0123456789";
    proof {
        reveal_strlit("0123456789");
    }
    let one = digits.substring_char(d, d + 1);
    assert(one@ =~= seq![digit_char(d as nat)]);
    out.append(one);
    assert(out@ =~= old(out)@ + decimal(n as nat));
}

fn push_version(out: &mut String, v: &Version)
    ensures
        final(out)@ == old(out)@ + version_text(v@),
{
    proof {
        reveal_strlit(".");
        reveal_strlit("-");
        reveal_strlit("+");
    }
    push_decimal(out, v.major);
    out.append(".");
    push_decimal(out, v.minor);
    out.append(".");
    push_decimal(out, v.patch);
    assert(out@ =~= old(out)@ + triple_text(v.major, v.minor, v.patch));
    if v.pre.unicode_len() > 0 {
        out.append("-");
        out.append(v.pre.as_str());
    }
    if v.build.unicode_len() > 0 {
        out.append("+");
        out.append(v.build.as_str());
    }
    assert(out@ =~= old(out)@ + version_text(v@));
}

/// The semantic-version text of `v`.
pub fn version_to_text(v: &Version) -> (r: String)
    ensures
        r@ == version_text(v@),
{
    let mut out = String::new();
    push_version(&mut out, v);
    assert(out@ =~= version_text(v@));
    out
}

impl PackageProperties {
    /// The manifest text of these properties.
    pub fn to_manifest(&self) -> (r: String)
        ensures
            r@ == manifest_text(self@),
    {
        let mut out = String::new();
        out.append("[package]\n");
        out.append("name = ");
        push_quoted(&mut out, self.name.as_str());
        out.append("\nversion = ");
        push_version(&mut out, &self.version);
        out.append("\nkind = ");
        let alias = self.kind.get_alias();
        push_quoted(&mut out, alias.as_str());
        out.append("\n");
        assert(out@ =~= manifest_text(self@));
        out
    }
}

/// The key a manifest error is about.
#[derive(Clone, Copy, PartialEq, Eq, Debug, Structural)]
pub enum ManifestKey {
    Name,
    Version,
    Kind,
}

/// Why a manifest text could not be read.
#[derive(Clone, Copy, PartialEq, Eq, Debug, Structural)]
pub enum ManifestFormatError {
    /// The text does not open with the `[package]` section line.
    MissingSection,
    /// The key is not on the line where it belongs.
    MissingKey(ManifestKey),
    /// The key's value is not a well-formed quoted string.
    BadString(ManifestKey),
    /// The version is not a semantic version.
    MalformedVersion,
    /// The kind is not one of the aliases.
    UnknownKind,
    /// Something follows the last key's line.
    TrailingText,
}

pub open spec fn starts_with(s: Seq<char>, p: Seq<char>) -> bool {
    p.len() <= s.len() && s.subrange(0, p.len() as int) == p
}

/// `a` put in front of the text part of a scan result.
pub open spec fn prepend(a: Seq<char>, o: Option<(Seq<char>, Seq<char>)>) -> Option<(Seq<char>, Seq<char>)> {
    match o {
        None => None,
        Some((c, r)) => Some((a + c, r)),
    }
}

/// Reads the body of a quoted value up to its closing quote (which `s` no
/// longer opens with): the text it stands for and what follows the quote.
pub open spec fn scan_string(s: Seq<char>) -> Option<(Seq<char>, Seq<char>)>
    decreases s.len(),
{
    if s.len() == 0 {
        None
    } else if s[0] == '"' {
        Some((Seq::empty(), s.drop_first()))
    } else if s[0] == '\n' {
        None
    } else if s[0] == '\\' {
        if s.len() < 2 {
            None
        } else {
            match unescape_char(s[1]) {
                None => None,
                Some(d) => prepend(seq![d], scan_string(s.skip(2))),
            }
        }
    } else {
        prepend(seq![s[0]], scan_string(s.drop_first()))
    }
}

/// Splits `s` before its first newline (or at its end).
pub open spec fn line_token(s: Seq<char>) -> (Seq<char>, Seq<char>)
    decreases s.len(),
{
    if s.len() == 0 {
        (Seq::empty(), Seq::empty())
    } else if s[0] == '\n' {
        (Seq::empty(), s)
    } else {
        let (t, r) = line_token(s.drop_first());
        (seq![s[0]] + t, r)
    }
}

/// What reading a manifest text gives.
pub open spec fn decode_manifest(s: Seq<char>) -> Result<PropertiesModel, ManifestFormatError> {
    let h = "[package]\n"@;
    let nk = "name = "@;
    if !starts_with(s, h) {
        Err(ManifestFormatError::MissingSection)
    } else if !starts_with(s.skip(h.len() as int), nk) {
        Err(ManifestFormatError::MissingKey(ManifestKey::Name))
    } else {
        let s2 = s.skip((h.len() + nk.len()) as int);
        if !starts_with(s2, seq!['"']) {
            Err(ManifestFormatError::BadString(ManifestKey::Name))
        } else {
            match scan_string(s2.drop_first()) {
                None => Err(ManifestFormatError::BadString(ManifestKey::Name)),
                Some((name, rest)) => decode_after_name(name, rest),
            }
        }
    }
}

pub open spec fn decode_after_name(name: Seq<char>, s: Seq<char>) -> Result<
    PropertiesModel,
    ManifestFormatError,
> {
    let vk = "\nversion = "@;
    if !starts_with(s, vk) {
        Err(ManifestFormatError::MissingKey(ManifestKey::Version))
    } else {
        let (tok, rest) = line_token(s.skip(vk.len() as int));
        match version_of_text(tok) {
            None => Err(ManifestFormatError::MalformedVersion),
            Some(v) => decode_after_version(name, v, rest),
        }
    }
}

pub open spec fn decode_after_version(
    name: Seq<char>,
    v: (u64, u64, u64, Seq<char>, Seq<char>),
    s: Seq<char>,
) -> Result<PropertiesModel, ManifestFormatError> {
    let kk = "\nkind = "@;
    if !starts_with(s, kk) {
        Err(ManifestFormatError::MissingKey(ManifestKey::Kind))
    } else {
        let s2 = s.skip(kk.len() as int);
        if !starts_with(s2, seq!['"']) {
            Err(ManifestFormatError::BadString(ManifestKey::Kind))
        } else {
            match scan_string(s2.drop_first()) {
                None => Err(ManifestFormatError::BadString(ManifestKey::Kind)),
                Some((k, rest)) => match kind_of_alias(k) {
                    None => Err(ManifestFormatError::UnknownKind),
                    Some(kind) => if rest.len() == 0 || rest == seq!['\n'] {
                        Ok(PropertiesModel { name, kind, version: v })
                    } else {
                        Err(ManifestFormatError::TrailingText)
                    },
                },
            }
        }
    }
}

/// The version a text stands for: a plain `major.minor.patch` text gives its
/// numbers with empty pre-release and build; any other text is read as
/// `semver::Version::parse` reads it.
pub open spec fn version_of_text(s: Seq<char>) -> Option<(u64, u64, u64, Seq<char>, Seq<char>)> {
    if exists|a: u64, b: u64, c: u64| triple_text(a, b, c) == s {
        let (a, b, c) = choose|a: u64, b: u64, c: u64| triple_text(a, b, c) == s;
        Some((a, b, c, Seq::empty(), Seq::empty()))
    } else {
        semver_parse(s)
    }
}

/// What `semver::Version::parse` gives for a text: the three numbers and the
/// pre-release and build texts, or nothing where it refuses the text.
pub uninterp spec fn semver_parse(s: Seq<char>) -> Option<(u64, u64, u64, Seq<char>, Seq<char>)>;

#[verifier::external_type_specification]
#[verifier::external_body]
pub struct ExSemverError(semver::Error);

/// Relies on `semver::Version::parse`: its result depends on the text alone,
/// and a text of three decimal numbers without leading zeros joined by dots
/// parses to those numbers with empty pre-release and build metadata.
#[verifier::external_body]
fn parse_semver(s: &str) -> (r: Result<Version, semver::Error>)
    ensures
        r is Ok ==> semver_parse(s@) == Some(r->Ok_0@),
        r is Err ==> semver_parse(s@) is None,
        forall|a: u64, b: u64, c: u64|
            #[trigger] triple_text(a, b, c) == s@ ==> (r is Ok && r->Ok_0@ == (
                a,
                b,
                c,
                Seq::<char>::empty(),
                Seq::<char>::empty(),
            )),
{
    match semver::Version::parse(s) {
        Ok(v) => Ok(
            Version {
                major: v.major,
                minor: v.minor,
                patch: v.patch,
                pre: v.pre.as_str().to_string(),
                build: v.build.as_str().to_string(),
            },
        ),
        Err(e) => Err(e),
    }
}

/// Parses a semantic-version text.
pub fn version_from_text(s: &str) -> (r: Option<Version>)
    ensures
        r is Some ==> version_of_text(s@) == Some(r->Some_0@),
        r is None ==> version_of_text(s@) is None,
{
    let r = parse_semver(s);
    proof {
        if exists|a: u64, b: u64, c: u64| triple_text(a, b, c) == s@ {
            let (a, b, c) = choose|a: u64, b: u64, c: u64| triple_text(a, b, c) == s@;
            assert(triple_text(a, b, c) == s@);
        }
    }
    match r {
        Ok(v) => Some(v),
        Err(_) => None,
    }
}

fn has_at(s: &str, n: usize, i: usize, lit: &str) -> (r: bool)
    requires
        n == s@.len(),
        i <= n,
    ensures
        r == starts_with(s@.skip(i as int), lit@),
{
    let m = lit.unicode_len();
    if m > n - i {
        return false;
    }
    let mut k: usize = 0;
    while k < m
        invariant
            k <= m,
            m == lit@.len(),
            i + m <= n,
            n == s@.len(),
            forall|t: int| 0 <= t < k ==> s@[i + t] == lit@[t],
        decreases m - k,
    {
        if s.get_char(i + k) != lit.get_char(k) {
            assert(s@.skip(i as int).subrange(0, m as int)[k as int] != lit@[k as int]);
            return false;
        }
        k = k + 1;
    }
    assert(s@.skip(i as int).subrange(0, m as int) =~= lit@);
    true
}

proof fn lemma_prepend_push(a: Seq<char>, d: char, o: Option<(Seq<char>, Seq<char>)>)
    ensures
        prepend(a, prepend(seq![d], o)) == prepend(a + seq![d], o),
{
    match o {
        None => {},
        Some((c, r)) => {
            assert(a + (seq![d] + c) =~= (a + seq![d]) + c);
        },
    }
}

/// Reads a quoted value's body starting at `i`; on success gives the text and
/// the index after the closing quote.
fn scan_quoted(s: &str, n: usize, i: usize) -> (r: Option<(String, usize)>)
    requires
        n == s@.len(),
        i <= n,
    ensures
        r is None ==> scan_string(s@.skip(i as int)) is None,
        r is Some ==> r->Some_0.1 <= n && scan_string(s@.skip(i as int)) == Some(
            (r->Some_0.0@, s@.skip(r->Some_0.1 as int)),
        ),
{
    let mut acc = String::new();
    let mut k: usize = i;
    assert(prepend(Seq::empty(), scan_string(s@.skip(i as int))) == scan_string(s@.skip(i as int))) by {
        match scan_string(s@.skip(i as int)) {
            None => {},
            Some((c, r)) => {
                assert(Seq::<char>::empty() + c =~= c);
            },
        }
    }
    while k < n
        invariant
            i <= k <= n,
            n == s@.len(),
            scan_string(s@.skip(i as int)) == prepend(acc@, scan_string(s@.skip(k as int))),
        decreases n - k,
    {
        let c = s.get_char(k);
        let ghost t = s@.skip(k as int);
        assert(t[0] == c);
        assert(t.drop_first() =~= s@.skip(k + 1));
        proof {
            reveal_strlit("\"");
            reveal_strlit("\\");
            reveal_strlit("\n");
            reveal_strlit("\r");
            reveal_strlit("\t");
        }
        if c == '"' {
            assert(acc@ + Seq::<char>::empty() =~= acc@);
            return Some((acc, k + 1));
        }
        if c == '\n' {
            return None;
        }
        if c == '\\' {
            if k + 1 >= n {
                return None;
            }
            let e = s.get_char(k + 1);
            assert(t[1] == e);
            assert(t.skip(2) =~= s@.skip(k + 2));
            let ghost before = acc@;
            if e == '"' {
                acc.append("\"");
            } else if e == '\\' {
                acc.append("\\");
            } else if e == 'n' {
                acc.append("\n");
            } else if e == 'r' {
                acc.append("\r");
            } else if e == 't' {
                acc.append("\t");
            } else {
                return None;
            }
            proof {
                let d = unescape_char(e)->Some_0;
                assert(acc@ =~= before + seq![d]);
                lemma_prepend_push(before, d, scan_string(s@.skip(k + 2)));
            }
            k = k + 2;
        } else {
            let one = s.substring_char(k, k + 1);
            assert(one@ =~= seq![c]);
            let ghost before = acc@;
            acc.append(one);
            proof {
                lemma_prepend_push(before, c, scan_string(s@.skip(k + 1)));
            }
            k = k + 1;
        }
    }
    assert(s@.skip(k as int).len() == 0);
    None
}

/// Index of the first newline at or after `i`, or `n` if there is none.
fn line_end(s: &str, n: usize, i: usize) -> (j: usize)
    requires
        n == s@.len(),
        i <= n,
    ensures
        i <= j <= n,
        line_token(s@.skip(i as int)) == (s@.subrange(i as int, j as int), s@.skip(j as int)),
{
    let mut k: usize = i;
    while k < n
        invariant
            i <= k <= n,
            n == s@.len(),
            line_token(s@.skip(i as int)) == (
                s@.subrange(i as int, k as int) + line_token(s@.skip(k as int)).0,
                line_token(s@.skip(k as int)).1,
            ),
        decreases n - k,
    {
        let c = s.get_char(k);
        let ghost t = s@.skip(k as int);
        assert(t[0] == c);
        if c == '\n' {
            assert(s@.subrange(i as int, k as int) + Seq::<char>::empty() =~= s@.subrange(i as int, k as int));
            return k;
        }
        assert(t.drop_first() =~= s@.skip(k + 1));
        assert(s@.subrange(i as int, k as int) + (seq![c] + line_token(s@.skip(k + 1)).0) =~= s@.subrange(i as int, k + 1) + line_token(s@.skip(k + 1)).0);
        k = k + 1;
    }
    assert(s@.subrange(i as int, k as int) + Seq::<char>::empty() =~= s@.subrange(i as int, k as int));
    k
}

impl PackageProperties {
    /// Reads a manifest text.
    pub fn from_manifest(text: &str) -> (r: Result<PackageProperties, ManifestFormatError>)
        ensures
            r is Ok ==> decode_manifest(text@) == Ok::<PropertiesModel, ManifestFormatError>(r->Ok_0@),
            r is Err ==> decode_manifest(text@) == Err::<PropertiesModel, ManifestFormatError>(r->Err_0),
    {
        let n = text.unicode_len();
        let h = "[package]\n";
        let nk = "name = ";
        proof {
            reveal_strlit("[package]\n");
            reveal_strlit("name = ");
            reveal_strlit("\"");
            assert("\""@ =~= seq!['"']);
        }
        assert(text@.skip(0) =~= text@);
        if !has_at(text, n, 0, h) {
            return Err(ManifestFormatError::MissingSection);
        }
        if !has_at(text, n, 10, nk) {
            return Err(ManifestFormatError::MissingKey(ManifestKey::Name));
        }
        if !has_at(text, n, 17, "\"") {
            assert(text@.skip(10).skip(7) =~= text@.skip(17));
            return Err(ManifestFormatError::BadString(ManifestKey::Name));
        }
        assert(text@.skip(17).drop_first() =~= text@.skip(18));
        assert(text@.skip(10).skip(7) =~= text@.skip(17));
        match scan_quoted(text, n, 18) {
            None => Err(ManifestFormatError::BadString(ManifestKey::Name)),
            Some((name, j)) => Self::read_after_name(text, n, name, j),
        }
    }

    fn read_after_name(text: &str, n: usize, name: String, i: usize) -> (r: Result<
        PackageProperties,
        ManifestFormatError,
    >)
        requires
            n == text@.len(),
            i <= n,
        ensures
            r is Ok ==> decode_after_name(name@, text@.skip(i as int)) == Ok::<PropertiesModel, ManifestFormatError>(r->Ok_0@),
            r is Err ==> decode_after_name(name@, text@.skip(i as int)) == Err::<PropertiesModel, ManifestFormatError>(r->Err_0),
    {
        let vk = "\nversion = ";
        proof {
            reveal_strlit("\nversion = ");
        }
        if !has_at(text, n, i, vk) {
            return Err(ManifestFormatError::MissingKey(ManifestKey::Version));
        }
        let start = i + 11;
        assert(text@.skip(i as int).skip(11) =~= text@.skip(start as int));
        let j = line_end(text, n, start);
        let tok = text.substring_char(start, j);
        match version_from_text(tok) {
            None => Err(ManifestFormatError::MalformedVersion),
            Some(v) => Self::read_after_version(text, n, name, v, j),
        }
    }

    fn read_after_version(text: &str, n: usize, name: String, v: Version, i: usize) -> (r: Result<
        PackageProperties,
        ManifestFormatError,
    >)
        requires
            n == text@.len(),
            i <= n,
        ensures
            r is Ok ==> decode_after_version(name@, v@, text@.skip(i as int)) == Ok::<PropertiesModel, ManifestFormatError>(r->Ok_0@),
            r is Err ==> decode_after_version(name@, v@, text@.skip(i as int)) == Err::<PropertiesModel, ManifestFormatError>(r->Err_0),
    {
        let kk = "\nkind = ";
        proof {
            reveal_strlit("\nkind = ");
            reveal_strlit("\"");
            assert("\""@ =~= seq!['"']);
        }
        if !has_at(text, n, i, kk) {
            return Err(ManifestFormatError::MissingKey(ManifestKey::Kind));
        }
        let start = i + 8;
        assert(text@.skip(i as int).skip(8) =~= text@.skip(start as int));
        if !has_at(text, n, start, "\"") {
            return Err(ManifestFormatError::BadString(ManifestKey::Kind));
        }
        assert(text@.skip(start as int).drop_first() =~= text@.skip(start + 1));
        match scan_quoted(text, n, start + 1) {
            None => Err(ManifestFormatError::BadString(ManifestKey::Kind)),
            Some((k, j)) => match PackageKind::from_alias(k.as_str()) {
                None => Err(ManifestFormatError::UnknownKind),
                Some(kind) => {
                    let ghost rest = text@.skip(j as int);
                    assert(rest.len() == n - j);
                    assert(j < n ==> rest[0] == text@[j as int]);
                    if j == n || (j + 1 == n && text.get_char(j) == '\n') {
                        assert(j == n ==> rest.len() == 0);
                        assert(j + 1 == n && text@[j as int] == '\n' ==> rest =~= seq!['\n']);
                        Ok(PackageProperties { name, kind, version: v })
                    } else {
                        assert(rest.len() == 0 ==> j == n);
                        assert(rest == seq!['\n'] ==> (j + 1 == n && text@[j as int] == '\n'));
                        Err(ManifestFormatError::TrailingText)
                    }
                },
            },
        }
    }
}

pub open spec fn is_digit(c: char) -> bool {
    '0' <= c && c <= '9'
}

proof fn lemma_digit_char(d: nat)
    requires
        d < 10,
    ensures
        is_digit(digit_char(d)),
        forall|e: nat| e < 10 && digit_char(e) == digit_char(d) ==> e == d,
{
    let t = seq!['0', '1', '2', '3', '4', '5', '6', '7', '8', '9'];
    assert(t[0] == '0' && t[1] == '1' && t[2] == '2' && t[3] == '3' && t[4] == '4');
    assert(t[5] == '5' && t[6] == '6' && t[7] == '7' && t[8] == '8' && t[9] == '9');
}

proof fn lemma_decimal_digits(n: nat)
    ensures
        decimal(n).len() >= 1,
        forall|i: int| 0 <= i < decimal(n).len() ==> is_digit(#[trigger] decimal(n)[i]),
    decreases n,
{
    if n < 10 {
        lemma_digit_char(n);
    } else {
        lemma_decimal_digits(n / 10);
        lemma_digit_char(n % 10);
        let t = decimal(n);
        assert forall|i: int| 0 <= i < t.len() implies is_digit(#[trigger] t[i]) by {
            if i < decimal(n / 10).len() {
                assert(t[i] == decimal(n / 10)[i]);
            }
        }
    }
}

proof fn lemma_decimal_injective(m: nat, n: nat)
    requires
        decimal(m) == decimal(n),
    ensures
        m == n,
    decreases m,
{
    lemma_decimal_digits(m / 10);
    lemma_decimal_digits(n / 10);
    if m < 10 {
        assert(decimal(m) == seq![digit_char(m)]);
    } else {
        assert(decimal(m) == decimal(m / 10) + seq![digit_char(m % 10)]);
    }
    if n < 10 {
        assert(decimal(n) == seq![digit_char(n)]);
    } else {
        assert(decimal(n) == decimal(n / 10) + seq![digit_char(n % 10)]);
    }
    if m < 10 && n < 10 {
        lemma_digit_char(m);
        lemma_digit_char(n);
        assert(decimal(m)[0] == digit_char(m));
        assert(decimal(n)[0] == digit_char(n));
    } else if m < 10 || n < 10 {
        assert(decimal(m).len() != decimal(n).len());
    } else {
        let dm = decimal(m);
        lemma_digit_char(m % 10);
        lemma_digit_char(n % 10);
        assert(dm.last() == digit_char(m % 10));
        assert(decimal(n).last() == digit_char(n % 10));
        assert(dm.drop_last() =~= decimal(m / 10));
        assert(decimal(n).drop_last() =~= decimal(n / 10));
        lemma_decimal_injective(m / 10, n / 10);
    }
}

/// Two digit runs each followed by a dot split a text the same way.
proof fn lemma_split_at_dot(x: Seq<char>, y: Seq<char>, x2: Seq<char>, y2: Seq<char>)
    requires
        forall|i: int| 0 <= i < x.len() ==> is_digit(#[trigger] x[i]),
        forall|i: int| 0 <= i < x2.len() ==> is_digit(#[trigger] x2[i]),
        x + seq!['.'] + y == x2 + seq!['.'] + y2,
    ensures
        x == x2,
        y == y2,
{
    let t = x + seq!['.'] + y;
    let t2 = x2 + seq!['.'] + y2;
    if x.len() < x2.len() {
        assert(t[x.len() as int] == '.');
        assert(t2[x.len() as int] == x2[x.len() as int]);
    } else if x2.len() < x.len() {
        assert(t2[x2.len() as int] == '.');
        assert(t[x2.len() as int] == x[x2.len() as int]);
    } else {
        assert(t.subrange(0, x.len() as int) =~= x);
        assert(t2.subrange(0, x.len() as int) =~= x2);
        assert(t.skip(x.len() + 1 as int) =~= y);
        assert(t2.skip(x.len() + 1 as int) =~= y2);
    }
}

proof fn lemma_triple_injective(a: u64, b: u64, c: u64, a2: u64, b2: u64, c2: u64)
    requires
        triple_text(a, b, c) == triple_text(a2, b2, c2),
    ensures
        a == a2 && b == b2 && c == c2,
{
    let (da, db, dc) = (decimal(a as nat), decimal(b as nat), decimal(c as nat));
    let (ea, eb, ec) = (decimal(a2 as nat), decimal(b2 as nat), decimal(c2 as nat));
    lemma_decimal_digits(a as nat);
    lemma_decimal_digits(b as nat);
    lemma_decimal_digits(a2 as nat);
    lemma_decimal_digits(b2 as nat);
    assert(triple_text(a, b, c) =~= da + seq!['.'] + (db + seq!['.'] + dc));
    assert(triple_text(a2, b2, c2) =~= ea + seq!['.'] + (eb + seq!['.'] + ec));
    lemma_split_at_dot(da, db + seq!['.'] + dc, ea, eb + seq!['.'] + ec);
    lemma_split_at_dot(db, dc, eb, ec);
    lemma_decimal_injective(a as nat, a2 as nat);
    lemma_decimal_injective(b as nat, b2 as nat);
    lemma_decimal_injective(c as nat, c2 as nat);
}

/// A plain `major.minor.patch` text stands for exactly those numbers.
pub proof fn lemma_version_of_triple(a: u64, b: u64, c: u64)
    ensures
        version_of_text(triple_text(a, b, c)) == Some(
            (a, b, c, Seq::<char>::empty(), Seq::<char>::empty()),
        ),
{
    let t = triple_text(a, b, c);
    assert(triple_text(a, b, c) == t);
    let (a2, b2, c2) = choose|a2: u64, b2: u64, c2: u64| triple_text(a2, b2, c2) == t;
    lemma_triple_injective(a, b, c, a2, b2, c2);
}

proof fn lemma_escape_front(c: char, x: Seq<char>)
    ensures
        escape(seq![c] + x) == escape_char(c) + escape(x),
    decreases x.len(),
{
    if x.len() == 0 {
        let y = seq![c] + x;
        assert(y =~= seq![c]);
        assert(y.drop_last() =~= Seq::<char>::empty());
        assert(y.last() == c);
        assert(escape(y.drop_last()) == Seq::<char>::empty());
        assert(escape(y) == escape(y.drop_last()) + escape_char(c));
        assert(escape(x) == Seq::<char>::empty());
        assert(escape_char(c) + escape(x) =~= escape_char(c));
        assert(escape(y) =~= escape_char(c));
    } else {
        let y = seq![c] + x;
        assert(y.drop_last() =~= seq![c] + x.drop_last());
        assert(y.last() == x.last());
        lemma_escape_front(c, x.drop_last());
        assert(escape(y) == escape(y.drop_last()) + escape_char(y.last()));
        assert(escape(x) == escape(x.drop_last()) + escape_char(x.last()));
        assert(escape(y) =~= escape_char(c) + escape(x));
    }
}

/// Scanning an escaped text followed by a closing quote gives the text back.
pub proof fn lemma_scan_escaped(x: Seq<char>, t: Seq<char>)
    ensures
        scan_string(escape(x) + seq!['"'] + t) == Some((x, t)),
    decreases x.len(),
{
    let s = escape(x) + seq!['"'] + t;
    if x.len() == 0 {
        assert(s =~= seq!['"'] + t);
        assert(s.drop_first() =~= t);
    } else {
        let c = x[0];
        let rest = x.drop_first();
        assert(x =~= seq![c] + rest);
        lemma_escape_front(c, rest);
        lemma_scan_escaped(rest, t);
        let tail = escape(rest) + seq!['"'] + t;
        assert(s =~= escape_char(c) + tail);
        if c == '"' || c == '\\' || c == '\n' || c == '\r' || c == '\t' {
            assert(s.skip(2) =~= tail);
        } else {
            assert(s.drop_first() =~= tail);
        }
        assert(seq![c] + rest =~= x);
    }
}

proof fn lemma_line_token(tok: Seq<char>, r: Seq<char>)
    requires
        forall|i: int| 0 <= i < tok.len() ==> #[trigger] tok[i] != '\n',
        r.len() > 0 && r[0] == '\n',
    ensures
        line_token(tok + r) == (tok, r),
    decreases tok.len(),
{
    let s = tok + r;
    if tok.len() == 0 {
        assert(s =~= r);
    } else {
        let rest = tok.drop_first();
        assert(s.drop_first() =~= rest + r);
        lemma_line_token(rest, r);
        assert(seq![tok[0]] + rest =~= tok);
    }
}

proof fn lemma_alias_round_trip(kind: PackageKind)
    ensures
        kind_of_alias(alias_of(kind)) == Some(kind),
        forall|i: int| 0 <= i < alias_of(kind).len() ==> #[trigger] alias_of(kind)[i] != '\n',
{
    reveal_strlit("static-lib");
    reveal_strlit("dynamic-lib");
    reveal_strlit("application");
    assert("static-lib"@ != "dynamic-lib"@) by {
        assert("static-lib"@.len() != "dynamic-lib"@.len());
    }
    assert("static-lib"@ != "application"@) by {
        assert("static-lib"@.len() != "application"@.len());
    }
    assert("dynamic-lib"@ != "application"@) by {
        assert("dynamic-lib"@[0] != "application"@[0]);
    }
}

/// Reading the manifest text of a freshly created package (version `0.1.0`)
/// gives the same name, kind and version back.
pub proof fn lemma_manifest_round_trip(name: Seq<char>, kind: PackageKind)
    ensures
        decode_manifest(manifest_text(PropertiesModel { name, kind, version: initial_version() }))
            == Ok::<PropertiesModel, ManifestFormatError>(
            PropertiesModel { name, kind, version: initial_version() },
        ),
{
    let p = PropertiesModel { name, kind, version: initial_version() };
    reveal_strlit("[package]\n");
    reveal_strlit("name = ");
    reveal_strlit("\nversion = ");
    reveal_strlit("\nkind = ");
    reveal_strlit("\n");
    let h = "[package]\n"@;
    let nk = "name = "@;
    let vk = "\nversion = "@;
    let kk = "\nkind = "@;
    let vt = version_text(initial_version());
    let alias = alias_of(kind);
    let k_tail = kk + quoted(alias) + "\n"@;
    let v_tail = vk + vt + k_tail;
    let text = manifest_text(p);
    assert(text =~= h + nk + quoted(name) + v_tail);
    assert(text.subrange(0, 10) =~= h);
    assert(text.skip(10).subrange(0, 7) =~= nk);
    let s2 = text.skip(17);
    assert(s2 =~= quoted(name) + v_tail);
    assert(s2.subrange(0, 1) =~= seq!['"']);
    assert(s2.drop_first() =~= escape(name) + seq!['"'] + v_tail);
    lemma_scan_escaped(name, v_tail);
    // version line
    assert(vt =~= triple_text(0, 1, 0));
    lemma_decimal_digits(0);
    lemma_decimal_digits(1);
    assert forall|i: int| 0 <= i < vt.len() implies #[trigger] vt[i] != '\n' by {
        if i < 1 {
            assert(vt[i] == decimal(0)[i]);
        } else if i == 1 || i == 3 {
        } else if i == 2 {
            assert(vt[i] == decimal(1)[0]);
        } else {
            assert(vt[i] == decimal(0)[0]);
        }
    }
    assert(v_tail.subrange(0, 11) =~= vk);
    assert(v_tail.skip(11) =~= vt + k_tail);
    lemma_line_token(vt, k_tail);
    lemma_version_of_triple(0, 1, 0);
    // kind line
    assert(k_tail.subrange(0, 8) =~= kk);
    let s5 = k_tail.skip(8);
    assert(s5 =~= quoted(alias) + seq!['\n']);
    assert(s5.subrange(0, 1) =~= seq!['"']);
    assert(s5.drop_first() =~= escape(alias) + seq!['"'] + seq!['\n']);
    lemma_scan_escaped(alias, seq!['\n']);
    lemma_alias_round_trip(kind);
}

} // verus!
