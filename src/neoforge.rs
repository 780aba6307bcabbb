use vstd::prelude::*;
use vstd::string::*;

use crate::json::{json_member_strings, member_strings};
use crate::players::texts;
use crate::text::{
    chars_of, lemma_lex_total, lemma_lex_trans, lex_le, same_text, text_le, find, find_from, parse_i32, parse_i32_chars, push_signed_decimal, replace_all,
    replace_str, signed_decimal, slice_vec, starts_with,
};

verus! {

/// Why a version string could not be read.
#[derive(Debug, Clone, Copy, PartialEq, Eq, Structural)]
pub enum VersionError {
    InvalidFormat,
    InvalidNumber,
}

impl VersionError {
    /// A sentence describing the error.
    pub fn message(&self) -> (r: String)
        ensures
            *self == VersionError::InvalidFormat ==> r@ == "Invalid version format."@,
            *self == VersionError::InvalidNumber ==> r@ == "Invalid number in version."@,
    {
        match self {
            VersionError::InvalidFormat => String::from_str("Invalid version format."),
            VersionError::InvalidNumber => String::from_str("Invalid number in version."),
        }
    }
}

/// A Neoforge build. Legacy builds (published as Forge for 1.20.1) keep the part of their
/// number after `47.1.` in `patch`.
#[derive(Debug, Clone)]
pub struct NeoforgeVersion {
    pub legacy: bool,
    pub major: i32,
    pub minor: i32,
    pub patch: String,
}

/// The pieces of a dotted version `major.minor.patch[-channel]`: the text before the first
/// dot, between the first and second, and after the second up to any third dot, the last
/// split at its first `-`.
pub open spec fn version_parts(v: Seq<char>) -> Option<
    (Seq<char>, Seq<char>, Seq<char>, Option<Seq<char>>),
> {
    match find_from(v, "."@, 0) {
        None => None,
        Some(i) => {
            let rest1 = v.subrange(i + 1, v.len() as int);
            match find_from(rest1, "."@, 0) {
                None => None,
                Some(j) => {
                    let rest2 = rest1.subrange(j + 1, rest1.len() as int);
                    let full = match find_from(rest2, "."@, 0) {
                        Some(k) => rest2.subrange(0, k),
                        None => rest2,
                    };
                    match find_from(full, "-"@, 0) {
                        Some(d) => Some(
                            (
                                v.subrange(0, i),
                                rest1.subrange(0, j),
                                full.subrange(0, d),
                                Some(full.subrange(d + 1, full.len() as int)),
                            ),
                        ),
                        None => Some((v.subrange(0, i), rest1.subrange(0, j), full, None)),
                    }
                },
            }
        },
    }
}

/// A version string in the form the Neoforge maven uses once legacy builds are rewritten:
/// `1.20.1-47.1.106` becomes `20.1.106`.
pub open spec fn normalized(v: Seq<char>) -> Seq<char> {
    if starts_with(v, "1"@) {
        replace_all(replace_all(replace_all(v, "1."@, ""@), "-"@, "."@), "47."@, ""@)
    } else {
        v
    }
}

/// What a version string reads as: legacy flag, major, minor and patch text.
pub open spec fn parsed_version(v: Seq<char>) -> Result<(bool, i32, i32, Seq<char>), VersionError> {
    match version_parts(normalized(v)) {
        None => Err(VersionError::InvalidFormat),
        Some((ma, mi, pa, _)) => match (parse_i32(ma), parse_i32(mi)) {
            (Some(a), Some(b)) => Ok((starts_with(v, "1"@), a, b, pa)),
            _ => Err(VersionError::InvalidNumber),
        },
    }
}

/// The build number a version's patch text holds, or 0 when it holds none.
pub open spec fn patch_number(legacy: bool, patch: Seq<char>) -> i32 {
    let text = if legacy {
        replace_all(patch, "47."@, ""@)
    } else {
        patch
    };
    match parse_i32(text) {
        Some(n) => n,
        None => 0,
    }
}

/// The version string of a build.
pub open spec fn version_text(legacy: bool, major: i32, minor: i32, patch: i32) -> Seq<char> {
    if legacy {
        "1."@ + signed_decimal(major as int) + "."@ + signed_decimal(minor as int) + "-47.1."@
            + signed_decimal(patch as int)
    } else {
        signed_decimal(major as int) + "."@ + signed_decimal(minor as int) + "."@
            + signed_decimal(patch as int)
    }
}

/// Where a build's installer can be downloaded.
pub open spec fn installer_url_text(legacy: bool, version: Seq<char>) -> Seq<char> {
    if legacy {
        "https://maven.neoforged.net/releases/net/neoforged/forge/"@ + version + "/forge-"@
            + version + "-installer.jar"@
    } else {
        "https://maven.neoforged.net/releases/net/neoforged/neoforge/"@ + version + "/neoforge-"@
            + version + "-installer.jar"@
    }
}

/// Splits a dotted version into major, minor, and patch with its optional channel.
pub fn split_neoforge_version(version: &str) -> (r: Result<
    (String, String, (String, Option<String>)),
    VersionError,
>)
    ensures
        match version_parts(version@) {
            None => r == Err::<(String, String, (String, Option<String>)), VersionError>(
                VersionError::InvalidFormat,
            ),
            Some((ma, mi, pa, ch)) => r matches Ok((a, b, (c, d))) && a@ == ma && b@ == mi && c@
                == pa && match (d, ch) {
                (Some(x), Some(y)) => x@ == y,
                (None, None) => true,
                _ => false,
            },
        },
{
    let v = chars_of(version);
    let dot = chars_of(".");
    let dash = chars_of("-");
    let n = v.len();
    let i = match find(&v, &dot, 0) {
        Some(i) => i,
        None => {
            return Err(VersionError::InvalidFormat);
        },
    };
    proof {
        reveal_strlit(".");
        reveal_strlit("-");
    }
    let rest1 = slice_vec(&v, i + 1, n);
    let j = match find(&rest1, &dot, 0) {
        Some(j) => j,
        None => {
            return Err(VersionError::InvalidFormat);
        },
    };
    let s2 = i + 1 + j + 1;
    let rest2 = slice_vec(&v, s2, n);
    assert(rest2@ =~= rest1@.subrange(j + 1, rest1@.len() as int));
    let e = match find(&rest2, &dot, 0) {
        Some(k) => s2 + k,
        None => n,
    };
    let full = slice_vec(&v, s2, e);
    assert(full@ =~= (match find_from(rest2@, "."@, 0) {
        Some(k) => rest2@.subrange(0, k),
        None => rest2@,
    }));
    let major = String::from_str(version.substring_char(0, i));
    let minor = String::from_str(version.substring_char(i + 1, i + 1 + j));
    assert(minor@ =~= rest1@.subrange(0, j as int));
    match find(&full, &dash, 0) {
        Some(d) => {
            let patch = String::from_str(version.substring_char(s2, s2 + d));
            let channel = String::from_str(version.substring_char(s2 + d + 1, e));
            assert(patch@ =~= full@.subrange(0, d as int));
            assert(channel@ =~= full@.subrange(d + 1, full@.len() as int));
            Ok((major, minor, (patch, Some(channel))))
        },
        None => {
            let patch = String::from_str(version.substring_char(s2, e));
            Ok((major, minor, (patch, None)))
        },
    }
}

impl NeoforgeVersion {
    pub fn new(major: i32, minor: i32, patch: String, legacy: bool) -> (r: NeoforgeVersion)
        ensures
            r.major == major,
            r.minor == minor,
            r.patch == patch,
            r.legacy == legacy,
    {
        NeoforgeVersion { major, minor, patch, legacy }
    }

    /// Reads a version string as the Neoforge maven lists it. Strings starting with `1` are
    /// legacy builds (`1.20.1-47.1.106`).
    pub fn parse(value: &str) -> (r: Result<NeoforgeVersion, VersionError>)
        ensures
            match parsed_version(value@) {
                Ok((l, a, b, p)) => r matches Ok(v) && v.legacy == l && v.major == a && v.minor
                    == b && v.patch@ == p,
                Err(e) => r == Err::<NeoforgeVersion, VersionError>(e),
            },
    {
        let is_legacy = has_leading_one(value);
        proof {
            reveal_strlit("1.");
            reveal_strlit("-");
            reveal_strlit("47.");
        }
        let normal = if is_legacy {
            let a = replace_str(value, "1.", "");
            let b = replace_str(a.as_str(), "-", ".");
            replace_str(b.as_str(), "47.", "")
        } else {
            String::from_str(value)
        };
        proof {
            reveal_strlit("1.");
            reveal_strlit("-");
            reveal_strlit("47.");
        }
        let (major_str, minor_str, (patch_str, _)) = match split_neoforge_version(normal.as_str()) {
            Ok(parts) => parts,
            Err(e) => {
                return Err(e);
            },
        };
        let major = match parse_i32_chars(&chars_of(major_str.as_str())) {
            Some(m) => m,
            None => {
                return Err(VersionError::InvalidNumber);
            },
        };
        let minor = match parse_i32_chars(&chars_of(minor_str.as_str())) {
            Some(m) => m,
            None => {
                return Err(VersionError::InvalidNumber);
            },
        };
        Ok(NeoforgeVersion::new(major, minor, patch_str, is_legacy))
    }

    /// The build number in `patch` (after `47.` for legacy builds), or 0 when there is none.
    pub fn patch(&self) -> (r: i32)
        ensures
            r == patch_number(self.legacy, self.patch@),
    {
        proof {
            reveal_strlit("47.");
        }
        let text = if self.legacy {
            replace_str(self.patch.as_str(), "47.", "")
        } else {
            self.patch.clone()
        };
        match parse_i32_chars(&chars_of(text.as_str())) {
            Some(n) => n,
            None => 0,
        }
    }

    /// The version string of this build.
    pub fn version(&self) -> (r: String)
        ensures
            r@ == version_text(self.legacy, self.major, self.minor, patch_number(self.legacy, self.patch@)),
    {
        let p = self.patch();
        let mut r = String::new();
        if self.legacy {
            r.append("1.");
        }
        push_signed_decimal(&mut r, self.major);
        r.append(".");
        push_signed_decimal(&mut r, self.minor);
        if self.legacy {
            r.append("-47.1.");
        } else {
            r.append(".");
        }
        push_signed_decimal(&mut r, p);
        assert(r@ =~= version_text(self.legacy, self.major, self.minor, p)) by {
            reveal_strlit("");
        }
        r
    }

    /// Where this build's installer can be downloaded.
    pub fn installer_url(&self) -> (r: String)
        ensures
            r@ == installer_url_text(
                self.legacy,
                version_text(self.legacy, self.major, self.minor, patch_number(self.legacy, self.patch@)),
            ),
    {
        let v = self.version();
        let mut r = if self.legacy {
            String::from_str("https://maven.neoforged.net/releases/net/neoforged/forge/")
        } else {
            String::from_str("https://maven.neoforged.net/releases/net/neoforged/neoforge/")
        };
        r.append(v.as_str());
        if self.legacy {
            r.append("/forge-");
        } else {
            r.append("/neoforge-");
        }
        r.append(v.as_str());
        r.append("-installer.jar");
        r
    }
}

/// Whether `value` starts with `1`.
fn has_leading_one(value: &str) -> (r: bool)
    ensures
        r == starts_with(value@, "1"@),
{
    let v = chars_of(value);
    crate::text::has_prefix(&v, &chars_of("1"))
}

impl PartialEq for NeoforgeVersion {
    fn eq(&self, other: &Self) -> (r: bool)
        ensures
            r == (self.major == other.major && self.legacy == other.legacy && self.minor
                == other.minor && self.patch@ == other.patch@),
    {
        self.major == other.major && self.legacy == other.legacy && self.minor == other.minor
            && self.patch == other.patch
    }
}

impl vstd::std_specs::cmp::PartialEqSpecImpl for NeoforgeVersion {
    open spec fn obeys_eq_spec() -> bool {
        true
    }

    open spec fn eq_spec(&self, other: &NeoforgeVersion) -> bool {
        self.major == other.major && self.legacy == other.legacy && self.minor == other.minor
            && self.patch@ == other.patch@
    }
}

impl std::str::FromStr for NeoforgeVersion {
    type Err = VersionError;

    fn from_str(value: &str) -> Result<NeoforgeVersion, VersionError> {
        NeoforgeVersion::parse(value)
    }
}

/// The fields of a build, as values.
pub open spec fn build_view(v: NeoforgeVersion) -> (bool, i32, i32, Seq<char>) {
    (v.legacy, v.major, v.minor, v.patch@)
}

/// The builds of `s`, as values.
pub open spec fn build_views(s: Seq<NeoforgeVersion>) -> Seq<(bool, i32, i32, Seq<char>)> {
    s.map_values(|v: NeoforgeVersion| build_view(v))
}

/// The game version a build is for: `1.<major>.<minor>`.
pub open spec fn game_version(major: i32, minor: i32) -> Seq<char> {
    "1."@ + signed_decimal(major as int) + "."@ + signed_decimal(minor as int)
}

/// The builds of `s` for game version `mc`, or all of them when `mc` is `None`.
pub open spec fn builds_matching(
    s: Seq<(bool, i32, i32, Seq<char>)>,
    mc: Option<Seq<char>>,
) -> Seq<(bool, i32, i32, Seq<char>)>
    decreases s.len(),
{
    if s.len() == 0 {
        s
    } else {
        let b = s.last();
        let keep = match mc {
            None => true,
            Some(m) => game_version(b.1, b.2) == m,
        };
        if keep {
            builds_matching(s.drop_last(), mc).push(b)
        } else {
            builds_matching(s.drop_last(), mc)
        }
    }
}

impl NeoforgeVersion {
    /// A copy of this build.
    pub fn copy(&self) -> (r: NeoforgeVersion)
        ensures
            build_view(r) == build_view(*self),
    {
        NeoforgeVersion {
            legacy: self.legacy,
            major: self.major,
            minor: self.minor,
            patch: self.patch.clone(),
        }
    }

    /// The game version this build is for: `1.<major>.<minor>`.
    pub fn game_version(&self) -> (r: String)
        ensures
            r@ == game_version(self.major, self.minor),
    {
        let mut r = String::from_str("1.");
        push_signed_decimal(&mut r, self.major);
        r.append(".");
        push_signed_decimal(&mut r, self.minor);
        r
    }
}

/// The builds for game version `minecraft_version`, or all builds when it is `None`, in their
/// order.
pub fn get_neoforge_builds(versions: &Vec<NeoforgeVersion>, minecraft_version: Option<&str>) -> (r:
    Vec<NeoforgeVersion>)
    ensures
        build_views(r@) == builds_matching(
            build_views(versions@),
            match minecraft_version {
                Some(m) => Some(m@),
                None => None,
            },
        ),
{
    let ghost mc = match minecraft_version {
        Some(m) => Some(m@),
        None => None::<Seq<char>>,
    };
    let mut r: Vec<NeoforgeVersion> = Vec::new();
    let mut i: usize = 0;
    assert(build_views(versions@).subrange(0, 0) =~= Seq::<(bool, i32, i32, Seq<char>)>::empty());
    assert(build_views(r@) =~= Seq::<(bool, i32, i32, Seq<char>)>::empty());
    while i < versions.len()
        invariant
            i <= versions@.len(),
            build_views(r@) == builds_matching(build_views(versions@).subrange(0, i as int), mc),
            mc == (match minecraft_version {
                Some(m) => Some(m@),
                None => None::<Seq<char>>,
            }),
        decreases versions@.len() - i,
    {
        let ghost before = r@;
        let ghost next = build_views(versions@).subrange(0, i + 1);
        assert(next.drop_last() =~= build_views(versions@).subrange(0, i as int));
        assert(next.last() == build_view(versions@[i as int]));
        let keep = match minecraft_version {
            None => true,
            Some(m) => same_text(versions[i].game_version().as_str(), m),
        };
        if keep {
            r.push(versions[i].copy());
            assert(build_views(r@) =~= build_views(before).push(build_view(versions@[i as int])));
        }
        i = i + 1;
    }
    assert(build_views(versions@).subrange(0, i as int) =~= build_views(versions@));
    r
}

/// The index of the build with the highest patch number; among equal ones, the last.
pub open spec fn is_latest(s: Seq<(bool, i32, i32, Seq<char>)>, i: int) -> bool {
    &&& 0 <= i < s.len()
    &&& forall|j: int| 0 <= j < i ==> patch_number(s[j].0, s[j].3) <= patch_number(s[i].0, s[i].3)
    &&& forall|j: int|
        i < j < s.len() ==> patch_number(s[j].0, s[j].3) < patch_number(s[i].0, s[i].3)
}

/// The build with the highest patch number (the last of equal ones), or `None` when there is
/// no build.
pub fn get_neoforge_latest_build(builds: &Vec<NeoforgeVersion>) -> (r: Option<NeoforgeVersion>)
    ensures
        builds@.len() == 0 ==> r is None,
        builds@.len() > 0 ==> (r matches Some(v) && exists|i: int|
            is_latest(build_views(builds@), i) && build_views(builds@)[i] == build_view(v)),
{
    if builds.len() == 0 {
        return None;
    }
    let ghost s = build_views(builds@);
    let mut best: usize = 0;
    let mut best_patch = builds[0].patch();
    let mut i: usize = 1;
    while i < builds.len()
        invariant
            1 <= i <= builds@.len(),
            best < i,
            s == build_views(builds@),
            best_patch == patch_number(s[best as int].0, s[best as int].3),
            forall|j: int|
                0 <= j < best ==> patch_number(s[j].0, s[j].3) <= best_patch,
            forall|j: int| best < j < i ==> patch_number(s[j].0, s[j].3) < best_patch,
        decreases builds@.len() - i,
    {
        let p = builds[i].patch();
        assert(s[i as int] == build_view(builds@[i as int]));
        if p >= best_patch {
            best = i;
            best_patch = p;
        }
        i = i + 1;
    }
    assert(is_latest(s, best as int));
    Some(builds[best].copy())
}

/// Whether entry `x` of a version list is read: every entry of the main list, only those
/// with a `-` in the legacy list.
pub open spec fn counts(x: Seq<char>, legacy: bool) -> bool {
    !legacy || find_from(x, "-"@, 0) is Some
}

/// The builds that the entries of a version list that are read describe, in order.
pub open spec fn parsed_list(s: Seq<Seq<char>>, legacy: bool) -> Seq<(bool, i32, i32, Seq<char>)>
    decreases s.len(),
{
    if s.len() == 0 {
        Seq::empty()
    } else if counts(s.last(), legacy) {
        parsed_list(s.drop_last(), legacy).push(parsed_version(s.last())->Ok_0)
    } else {
        parsed_list(s.drop_last(), legacy)
    }
}

/// Every entry of a version list that is read parses.
pub open spec fn all_parse(s: Seq<Seq<char>>, legacy: bool) -> bool {
    forall|i: int| 0 <= i < s.len() && counts(s[i], legacy) ==> #[trigger] parsed_version(s[i]) is Ok
}

/// Reads the entries of a version list that count, appending their builds to `out`.
fn read_list(list: &Vec<String>, legacy: bool, out: &mut Vec<NeoforgeVersion>) -> (r: Result<
    (),
    VersionError,
>)
    ensures
        r is Ok <==> all_parse(texts(list@), legacy),
        r is Ok ==> build_views(final(out)@) == build_views(old(out)@) + parsed_list(
            texts(list@),
            legacy,
        ),
{
    let dash = chars_of("-");
    let ghost s = texts(list@);
    let ghost start = build_views(out@);
    let mut i: usize = 0;
    assert(s.subrange(0, 0) =~= Seq::<Seq<char>>::empty());
    assert(start + parsed_list(Seq::<Seq<char>>::empty(), legacy) =~= start);
    while i < list.len()
        invariant
            i <= list@.len(),
            s == texts(list@),
            dash@ == "-"@,
            start == build_views(old(out)@),
            build_views(out@) == start + parsed_list(s.subrange(0, i as int), legacy),
            forall|k: int|
                0 <= k < i && counts(s[k], legacy) ==> #[trigger] parsed_version(s[k]) is Ok,
        decreases list@.len() - i,
    {
        let ghost pre = s.subrange(0, i as int);
        let ghost next = s.subrange(0, i + 1);
        assert(next.drop_last() =~= pre);
        assert(next.last() == list@[i as int]@);
        let read = !legacy || find(&chars_of(list[i].as_str()), &dash, 0).is_some();
        if read {
            match NeoforgeVersion::parse(list[i].as_str()) {
                Ok(v) => {
                    let ghost before = out@;
                    out.push(v);
                    assert(build_views(out@) =~= build_views(before).push(build_view(v)));
                    assert(build_views(out@) =~= start + parsed_list(next, legacy));
                },
                Err(e) => {
                    assert(counts(s[i as int], legacy) && parsed_version(s[i as int]) is Err);
                    return Err(e);
                },
            }
        } else {
            assert(build_views(out@) =~= start + parsed_list(next, legacy));
        }
        i = i + 1;
    }
    assert(s.subrange(0, i as int) =~= s);
    Ok(())
}

/// The builds that the two version lists of the maven describe: every entry of `main`, then
/// the entries of `legacy` that hold a `-`. Fails when one of those does not parse.
pub fn versions_from_lists(main: &Vec<String>, legacy: &Vec<String>) -> (r: Result<
    Vec<NeoforgeVersion>,
    VersionError,
>)
    ensures
        r is Ok <==> all_parse(texts(main@), false) && all_parse(texts(legacy@), true),
        r matches Ok(v) ==> build_views(v@) == parsed_list(texts(main@), false) + parsed_list(
            texts(legacy@),
            true,
        ),
{
    let mut out: Vec<NeoforgeVersion> = Vec::new();
    assert(build_views(out@) =~= Seq::<(bool, i32, i32, Seq<char>)>::empty());
    match read_list(main, false, &mut out) {
        Ok(()) => {},
        Err(e) => {
            return Err(e);
        },
    }
    assert(build_views(out@) =~= parsed_list(texts(main@), false));
    match read_list(legacy, true, &mut out) {
        Ok(()) => {},
        Err(e) => {
            return Err(e);
        },
    }
    Ok(out)
}

/// `s` without the entries that repeat the one before them, as `Vec::dedup` leaves it.
pub open spec fn dedup_adjacent(s: Seq<Seq<char>>) -> Seq<Seq<char>>
    decreases s.len(),
{
    if s.len() <= 1 {
        s
    } else if s.last() == s[s.len() - 2] {
        dedup_adjacent(s.drop_last())
    } else {
        dedup_adjacent(s.drop_last()).push(s.last())
    }
}

/// Every entry of `s` comes before or equals the ones after it.
pub open spec fn sorted(s: Seq<Seq<char>>) -> bool {
    forall|i: int, j: int| 0 <= i < j < s.len() ==> lex_le(#[trigger] s[i], #[trigger] s[j])
}

/// The game version of each build of `s`.
pub open spec fn game_versions(s: Seq<(bool, i32, i32, Seq<char>)>) -> Seq<Seq<char>> {
    s.map_values(|b: (bool, i32, i32, Seq<char>)| game_version(b.1, b.2))
}

/// Inserts `x` into the sorted `out` after the entries that come before or equal it.
fn insert_sorted(out: &mut Vec<String>, x: String)
    requires
        sorted(texts(old(out)@)),
    ensures
        sorted(texts(final(out)@)),
        texts(final(out)@).to_multiset() == texts(old(out)@).to_multiset().insert(x@),
{
    let ghost s = texts(out@);
    let mut k: usize = 0;
    while k < out.len() && text_le(out[k].as_str(), x.as_str())
        invariant
            k <= out@.len(),
            s == texts(out@),
            sorted(s),
            forall|i: int| 0 <= i < k ==> lex_le(#[trigger] s[i], x@),
        decreases out@.len() - k,
    {
        assert(s[k as int] == out@[k as int]@);
        k = k + 1;
    }
    proof {
        if k < out@.len() {
            assert(s[k as int] == out@[k as int]@);
            lemma_lex_total(s[k as int], x@);
        }
    }
    let ghost before = out@;
    out.insert(k, x);
    assert(texts(out@) =~= s.insert(k as int, x@));
    assert(sorted(texts(out@))) by {
        let t = texts(out@);
        assert forall|i: int, j: int| 0 <= i < j < t.len() implies lex_le(
            #[trigger] t[i],
            #[trigger] t[j],
        ) by {
            if j < k {
                assert(t[i] == s[i] && t[j] == s[j]);
            } else if j == k {
                assert(t[i] == s[i]);
            } else if i == k {
                assert(t[j] == s[j - 1]);
                if j - 1 > k {
                    assert(lex_le(s[k as int], s[j - 1]));
                    lemma_lex_trans(x@, s[k as int], s[j - 1]);
                }
            } else if i < k {
                assert(t[i] == s[i] && t[j] == s[j - 1]);
                if j - 1 >= k {
                    assert(lex_le(s[i], x@));
                    if j - 1 == k {
                        lemma_lex_trans(s[i], x@, s[k as int]);
                    } else {
                        assert(lex_le(s[k as int], s[j - 1]));
                        lemma_lex_trans(x@, s[k as int], s[j - 1]);
                        lemma_lex_trans(s[i], x@, s[j - 1]);
                    }
                }
            } else {
                assert(t[i] == s[i - 1] && t[j] == s[j - 1]);
            }
        }
    }
    proof {
        vstd::seq_lib::to_multiset_insert(s, k as int, x@);
    }
}

/// The game versions the builds are for, each run of repeats cut to one, in the order of
/// `str`.
pub fn get_neoforge_minecraft_versions(versions: &Vec<NeoforgeVersion>) -> (r: Vec<String>)
    ensures
        sorted(texts(r@)),
        texts(r@).to_multiset() == dedup_adjacent(game_versions(build_views(versions@))).to_multiset(),
{
    let ghost g = game_versions(build_views(versions@));
    let mut out: Vec<String> = Vec::new();
    let mut last: Option<String> = None;
    let mut i: usize = 0;
    proof {
        assert(g.subrange(0, 0) =~= Seq::<Seq<char>>::empty());
        assert(texts(out@) =~= Seq::<Seq<char>>::empty());
        assert(dedup_adjacent(g.subrange(0, 0)).to_multiset() =~= texts(out@).to_multiset()) by {
            broadcast use vstd::seq_lib::group_to_multiset_ensures;

        }
    }
    while i < versions.len()
        invariant
            i <= versions@.len(),
            g == game_versions(build_views(versions@)),
            g.len() == versions@.len(),
            sorted(texts(out@)),
            texts(out@).to_multiset() == dedup_adjacent(g.subrange(0, i as int)).to_multiset(),
            i == 0 <==> last is None,
            last matches Some(l) ==> l@ == g[i - 1],
        decreases versions@.len() - i,
    {
        let v = versions[i].game_version();
        let ghost pre = g.subrange(0, i as int);
        let ghost next = g.subrange(0, i + 1);
        assert(next.drop_last() =~= pre);
        assert(g[i as int] == game_version(versions@[i as int].major, versions@[i as int].minor));
        assert(next.last() == v@);
        let repeat = match &last {
            Some(l) => same_text(l.as_str(), v.as_str()),
            None => false,
        };
        if repeat {
            assert(next[next.len() - 2] == g[i - 1]);
            assert(dedup_adjacent(next) == dedup_adjacent(pre));
        } else {
            proof {
                if i >= 1 {
                    assert(next[next.len() - 2] == g[i - 1]);
                } else {
                    assert(pre =~= Seq::<Seq<char>>::empty());
                    assert(dedup_adjacent(next) =~= seq![v@]);
                    assert(dedup_adjacent(pre) =~= Seq::<Seq<char>>::empty());
                }
                assert(dedup_adjacent(next) == dedup_adjacent(pre).push(v@));
                vstd::seq_lib::to_multiset_build(dedup_adjacent(pre), v@);
            }
            insert_sorted(&mut out, v.clone());
        }
        last = Some(v);
        i = i + 1;
    }
    assert(g.subrange(0, i as int) =~= g);
    out
}

/// The version strings of a maven listing: the JSON document `body` holds them as the array
/// `versions`.
pub fn version_strings(body: &str) -> (r: Option<Vec<String>>)
    ensures
        match r {
            Some(v) => json_member_strings(body@, "versions"@) == Some(texts(v@)),
            None => json_member_strings(body@, "versions"@) is None,
        },
{
    member_strings(body, "versions")
}

} // verus!
