use vstd::prelude::*;
use vstd::string::*;

use crate::events::{Error, ErrorKind};
use crate::players::texts;
use crate::rcon::{rcon_address, rcon_target, RconTarget};
use crate::text::{chars_of, find, find_from, parse_i32, parse_i32_chars, same_text, slice_vec};

verus! {

#[verifier::external_type_specification]
#[verifier::external_body]
#[verifier::reject_recursive_types(K)]
#[verifier::reject_recursive_types(V)]
#[verifier::reject_recursive_types(S)]
pub struct ExIndexMap<K, V, S>(indexmap::IndexMap<K, V, S>);

/// The entries of a map of properties, in their order.
pub uninterp spec fn entries_of(m: indexmap::IndexMap<String, String>) -> Seq<
    (Seq<char>, Seq<char>),
>;

/// The position of the entry for `k` in `e`, searching from `i`.
pub open spec fn key_index(e: Seq<(Seq<char>, Seq<char>)>, k: Seq<char>, i: int) -> Option<int>
    decreases e.len() - i,
{
    if i < 0 || i >= e.len() {
        None
    } else if e[i].0 == k {
        Some(i)
    } else {
        key_index(e, k, i + 1)
    }
}

/// `e` with `v` as the value of `k`: in place when `k` has an entry, else at the end.
pub open spec fn upsert(e: Seq<(Seq<char>, Seq<char>)>, k: Seq<char>, v: Seq<char>) -> Seq<
    (Seq<char>, Seq<char>),
> {
    match key_index(e, k, 0) {
        Some(i) => e.update(i, (k, v)),
        None => e.push((k, v)),
    }
}

/// Relies on indexmap::IndexMap::new: a map with no entry.
#[verifier::external_body]
fn empty_properties() -> (r: indexmap::IndexMap<String, String>)
    ensures
        entries_of(r) == Seq::<(Seq<char>, Seq<char>)>::empty(),
{
    indexmap::IndexMap::new()
}

/// Relies on indexmap::IndexMap::insert: an existing key keeps its place and takes `value`;
/// a new key is added last.
#[verifier::external_body]
fn put_property(m: &mut indexmap::IndexMap<String, String>, key: String, value: String)
    ensures
        entries_of(*final(m)) == upsert(entries_of(*old(m)), key@, value@),
{
    m.insert(key, value);
}

/// White space as `char::is_whitespace` defines it.
pub open spec fn is_ws(c: char) -> bool {
    ||| '\u{9}' <= c <= '\u{d}'
    ||| c == ' '
    ||| c == '\u{85}'
    ||| c == '\u{a0}'
    ||| c == '\u{1680}'
    ||| '\u{2000}' <= c <= '\u{200a}'
    ||| c == '\u{2028}'
    ||| c == '\u{2029}'
    ||| c == '\u{202f}'
    ||| c == '\u{205f}'
    ||| c == '\u{3000}'
}

pub open spec fn trim_start(s: Seq<char>) -> Seq<char>
    decreases s.len(),
{
    if s.len() > 0 && is_ws(s[0]) {
        trim_start(s.drop_first())
    } else {
        s
    }
}

pub open spec fn trim_end(s: Seq<char>) -> Seq<char>
    decreases s.len(),
{
    if s.len() > 0 && is_ws(s.last()) {
        trim_end(s.drop_last())
    } else {
        s
    }
}

/// `s` without white space at either end, as `str::trim` leaves it.
pub open spec fn trim(s: Seq<char>) -> Seq<char> {
    trim_end(trim_start(s))
}

/// What a line of a properties file holds: nothing for an empty line or a `#` comment, else
/// the key before the first `=` and the value up to any second `=`, both trimmed. `None` for a
/// line without `=`.
pub open spec fn property_of(line: Seq<char>) -> Option<Option<(Seq<char>, Seq<char>)>> {
    if line.len() == 0 || line[0] == '#' {
        Some(None)
    } else {
        match find_from(line, "="@, 0) {
            None => None,
            Some(i) => {
                let rest = line.subrange(i + 1, line.len() as int);
                let value = match find_from(rest, "="@, 0) {
                    Some(j) => rest.subrange(0, j),
                    None => rest,
                };
                Some(Some((trim(line.subrange(0, i)), trim(value))))
            },
        }
    }
}

/// The entries that the lines of a properties file describe, a later line for a key
/// replacing the value of an earlier one; `None` when a line is malformed.
pub open spec fn properties(lines: Seq<Seq<char>>) -> Option<Seq<(Seq<char>, Seq<char>)>>
    decreases lines.len(),
{
    if lines.len() == 0 {
        Some(Seq::empty())
    } else {
        match properties(lines.drop_last()) {
            None => None,
            Some(e) => match property_of(lines.last()) {
                None => None,
                Some(None) => Some(e),
                Some(Some((k, v))) => Some(upsert(e, k, v)),
            },
        }
    }
}

fn is_white(c: char) -> (r: bool)
    ensures
        r == is_ws(c),
{
    ('\u{9}' <= c && c <= '\u{d}') || c == ' ' || c == '\u{85}' || c == '\u{a0}' || c
        == '\u{1680}' || ('\u{2000}' <= c && c <= '\u{200a}') || c == '\u{2028}' || c
        == '\u{2029}' || c == '\u{202f}' || c == '\u{205f}' || c == '\u{3000}'
}

/// The bounds of `v[lo..hi]` once white space is trimmed from both ends.
fn trim_bounds(v: &Vec<char>, lo: usize, hi: usize) -> (r: (usize, usize))
    requires
        lo <= hi <= v@.len(),
    ensures
        lo <= r.0 <= r.1 <= hi,
        v@.subrange(r.0 as int, r.1 as int) == trim(v@.subrange(lo as int, hi as int)),
{
    let mut a = lo;
    while a < hi && is_white(v[a])
        invariant
            lo <= a <= hi,
            hi <= v@.len(),
            trim_start(v@.subrange(lo as int, hi as int)) == trim_start(
                v@.subrange(a as int, hi as int),
            ),
        decreases hi - a,
    {
        assert(v@.subrange(a as int, hi as int).drop_first() =~= v@.subrange(a + 1, hi as int));
        a = a + 1;
    }
    assert(trim_start(v@.subrange(a as int, hi as int)) == v@.subrange(a as int, hi as int));
    let mut b = hi;
    while b > a && is_white(v[b - 1])
        invariant
            a <= b <= hi,
            hi <= v@.len(),
            trim_end(v@.subrange(a as int, hi as int)) == trim_end(v@.subrange(a as int, b as int)),
        decreases b - a,
    {
        assert(v@.subrange(a as int, b as int).drop_last() =~= v@.subrange(a as int, b - 1));
        b = b - 1;
    }
    assert(trim_end(v@.subrange(a as int, b as int)) == v@.subrange(a as int, b as int));
    (a, b)
}

/// Reads the lines of a properties file (`key=value`, `#` comments) into a map that keeps
/// the order of first appearance.
pub fn parse_properties(lines: &Vec<String>) -> (r: Result<indexmap::IndexMap<String, String>, Error>)
    ensures
        match properties(texts(lines@)) {
            Some(e) => r matches Ok(m) && entries_of(m) == e,
            None => r matches Err(e) && e.kind == ErrorKind::Internal,
        },
{
    let mut m = empty_properties();
    let eq = chars_of("=");
    proof {
        reveal_strlit("=");
    }
    let ghost s = texts(lines@);
    let mut i: usize = 0;
    assert(s.subrange(0, 0) =~= Seq::<Seq<char>>::empty());
    while i < lines.len()
        invariant
            i <= lines@.len(),
            s == texts(lines@),
            eq@ == "="@,
            eq@ == seq!['='],
            properties(s.subrange(0, i as int)) == Some(entries_of(m)),
        decreases lines@.len() - i,
    {
        let ghost next = s.subrange(0, i + 1);
        assert(next.drop_last() =~= s.subrange(0, i as int));
        assert(next.last() == lines@[i as int]@);
        let line = lines[i].as_str();
        let c = chars_of(line);
        if c.len() == 0 || c[0] == '#' {
            i = i + 1;
            continue;
        }
        let n = c.len();
        let k = match find(&c, &eq, 0) {
            Some(k) => k,
            None => {
                assert(properties(next) is None);
                proof {
                    lemma_properties_prefix_none(s, i as int + 1);
                }
                assert(s.subrange(0, s.len() as int) =~= s);
                return Err(Error::new(ErrorKind::Internal, "Failed to read value from properties file"));
            },
        };
        let rest = slice_vec(&c, k + 1, n);
        let e = match find(&rest, &eq, 0) {
            Some(j) => k + 1 + j,
            None => n,
        };
        assert(c@.subrange(k + 1, e as int) =~= (match find_from(rest@, "="@, 0) {
            Some(j) => rest@.subrange(0, j),
            None => rest@,
        }));
        let (ka, kb) = trim_bounds(&c, 0, k);
        let (va, vb) = trim_bounds(&c, k + 1, e);
        let key = String::from_str(line.substring_char(ka, kb));
        let value = String::from_str(line.substring_char(va, vb));
        put_property(&mut m, key, value);
        i = i + 1;
    }
    assert(s.subrange(0, i as int) =~= s);
    Ok(m)
}

proof fn lemma_properties_prefix_none(s: Seq<Seq<char>>, j: int)
    requires
        0 <= j <= s.len(),
        properties(s.subrange(0, j)) is None,
    ensures
        properties(s) is None,
    decreases s.len() - j,
{
    if j < s.len() {
        assert(s.subrange(0, j + 1).drop_last() =~= s.subrange(0, j));
        lemma_properties_prefix_none(s, j + 1);
    } else {
        assert(s.subrange(0, j) =~= s);
    }
}

/// The value of property `k` among the entries `e`.
pub open spec fn property_value(e: Seq<(Seq<char>, Seq<char>)>, k: Seq<char>) -> Option<Seq<char>> {
    match key_index(e, k, 0) {
        Some(i) => Some(e[i].1),
        None => None,
    }
}

/// Relies on indexmap::IndexMap::get: the value stored for `key`, if the map has it.
#[verifier::external_body]
fn property<'a>(m: &'a indexmap::IndexMap<String, String>, key: &str) -> (r: Option<&'a String>)
    ensures
        match property_value(entries_of(*m), key@) {
            Some(v) => r matches Some(s) && s@ == v,
            None => r is None,
        },
{
    m.get(key)
}

/// A flag setting: `true` or `false`.
pub open spec fn flag_setting(t: Seq<char>) -> Option<bool> {
    if t == "true"@ {
        Some(true)
    } else if t == "false"@ {
        Some(false)
    } else {
        None
    }
}

/// A port setting: a non-negative number.
pub open spec fn port_setting(t: Seq<char>) -> Option<u64> {
    match parse_i32(t) {
        Some(n) => if n >= 0 {
            Some(n as u64)
        } else {
            None
        },
        None => None,
    }
}

/// The remote-console target that the server's properties describe: `enable-rcon` set to
/// `true`, with `rcon.password` and a numeric `rcon.port`.
pub fn rcon_settings(m: &indexmap::IndexMap<String, String>) -> (r: Option<RconTarget>)
    ensures
        match (
            property_value(entries_of(*m), "enable-rcon"@),
            property_value(entries_of(*m), "rcon.password"@),
            property_value(entries_of(*m), "rcon.port"@),
        ) {
            (Some(en), Some(pw), Some(pt)) => if flag_setting(en) == Some(true) && port_setting(
                pt,
            ) is Some {
                r matches Some(t) && t.address@ == rcon_address(port_setting(pt)->0)
                    && t.password@ == pw
            } else {
                r is None
            },
            _ => r is None,
        },
{
    let enabled = match property(m, "enable-rcon") {
        Some(v) => if same_text(v.as_str(), "true") {
            Some(true)
        } else if same_text(v.as_str(), "false") {
            Some(false)
        } else {
            None
        },
        None => None,
    };
    let password = match property(m, "rcon.password") {
        Some(v) => Some(v.clone()),
        None => None,
    };
    let port = match property(m, "rcon.port") {
        Some(v) => match parse_i32_chars(&chars_of(v.as_str())) {
            Some(n) => if n >= 0 {
                Some(n as u64)
            } else {
                None
            },
            None => None,
        },
        None => None,
    };
    rcon_target(enabled, password, port)
}

} // verus!
