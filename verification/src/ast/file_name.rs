//! File names: `[namespace.][id.]Name[.major.minor].uavcan`.

use vstd::prelude::*;
use crate::text::chars_of;
use crate::text::decimal;
use crate::text::join_on;
use crate::text::parse_unsigned;
use crate::text::push_char;
use crate::text::push_chars;
use crate::text::push_decimal;
use crate::text::split_chars;
use crate::text::split_on;
use crate::text::str_equals;
use crate::text::string_of_range;
use crate::text::unsigned_value;
use crate::text::views;

verus! {

/// Uniquely defines a DSDL file
#[derive(Clone, Debug, PartialEq, Eq)]
pub struct FileName {
    pub id: Option<u64>,
    pub namespace: String,
    pub name: String,
    pub version: Option<Version>,
}

/// A DSDL file version
#[derive(Clone, Copy, Debug, PartialEq, Eq, Structural)]
pub struct Version {
    pub major: u32,
    pub minor: u32,
}

/// Errors that may occur when parsing a `FileName`.
#[derive(Clone, Copy, Debug, PartialEq, Eq, Structural)]
pub enum ParseFileNameError {
    MissingExtension,
    Format,
    VersionFormat,
}

/// The extension of DSDL files, `uavcan`.
pub open spec fn uavcan_word() -> Seq<char> {
    seq!['u', 'a', 'v', 'c', 'a', 'n']
}

/// What parsing a file name gives, by the positions of its dot-separated pieces.
pub enum FileNameOutcome {
    Fail(ParseFileNameError),
    /// A version, but no piece left for the name: parsing panics.
    Panic,
    /// The id, the namespace as the pieces before `ns_end`, the name as the piece at
    /// `name_at`, and the version.
    Parsed { id: Option<u64>, ns_end: int, name_at: int, version: Option<Version> },
}

/// The outcome once the name is the piece at `k`: the piece before it is the id when it
/// is a number.
pub open spec fn name_outcome(p: Seq<Seq<char>>, k: int, version: Option<Version>) -> FileNameOutcome {
    let id = if k >= 1 {
        unsigned_value(p[k - 1], u64::MAX as nat)
    } else {
        None
    };
    match id {
        Some(id) => FileNameOutcome::Parsed { id: Some(id as u64), ns_end: k - 1, name_at: k, version },
        None => FileNameOutcome::Parsed { id: None, ns_end: k, name_at: k, version },
    }
}

/// What parsing the file name `s` gives: its pieces are read from the right, the extension
/// first, then an optional `major.minor` version, the name, an optional id, and the namespace.
pub open spec fn file_name_outcome(s: Seq<char>) -> FileNameOutcome {
    let p = split_on(s, '.');
    let n = p.len() as int;
    if p[n - 1] != uavcan_word() {
        FileNameOutcome::Fail(ParseFileNameError::MissingExtension)
    } else if n < 2 {
        FileNameOutcome::Fail(ParseFileNameError::Format)
    } else {
        match unsigned_value(p[n - 2], u32::MAX as nat) {
            Some(minor) => if n < 3 {
                FileNameOutcome::Fail(ParseFileNameError::Format)
            } else {
                match unsigned_value(p[n - 3], u32::MAX as nat) {
                    None => FileNameOutcome::Fail(ParseFileNameError::VersionFormat),
                    Some(major) => if n < 4 {
                        FileNameOutcome::Panic
                    } else {
                        name_outcome(
                            p,
                            n - 4,
                            Some(Version { major: major as u32, minor: minor as u32 }),
                        )
                    },
                }
            },
            None => name_outcome(p, n - 2, None),
        }
    }
}

/// Whether `r` is what parsing the file name `s` gives.
pub open spec fn file_name_result(s: Seq<char>, r: Result<FileName, ParseFileNameError>) -> bool {
    match file_name_outcome(s) {
        FileNameOutcome::Fail(e) => r == Err::<FileName, ParseFileNameError>(e),
        FileNameOutcome::Parsed { id, ns_end, name_at, version } => r matches Ok(f) && f.id == id
            && f.version == version && f.name@ == split_on(s, '.')[name_at] && f.namespace@
            == join_on(split_on(s, '.').take(ns_end), '.'),
        FileNameOutcome::Panic => false,
    }
}

/// The text of a file name, as `Display` writes it: the namespace, a dot, and the name.
pub open spec fn file_name_text(f: FileName) -> Seq<char> {
    if f.namespace@.len() == 0 {
        f.name@
    } else {
        f.namespace@ + seq!['.'] + f.name@
    }
}

/// The pieces of a namespace: none for the empty namespace.
pub open spec fn namespace_parts(ns: Seq<char>) -> Seq<Seq<char>> {
    if ns.len() == 0 {
        Seq::<Seq<char>>::empty()
    } else {
        split_on(ns, '.')
    }
}

/// The views of a vector of strings.
pub open spec fn string_views(v: Seq<String>) -> Seq<Seq<char>> {
    v.map_values(|x: String| x@)
}

/// Joining one more piece adds a separator and the piece.
proof fn lemma_join_step(p: Seq<Seq<char>>, i: int, sep: char)
    requires
        1 <= i < p.len(),
    ensures
        join_on(p.take(i + 1), sep) == join_on(p.take(i), sep) + seq![sep] + p[i],
{
    assert(p.take(i + 1).drop_last() =~= p.take(i));
}

/// The pieces of `parts` before `end`, joined by dots.
fn join_dots(parts: &Vec<Vec<char>>, end: usize) -> (s: String)
    requires
        end <= parts@.len(),
    ensures
        s@ == join_on(views(parts@).take(end as int), '.'),
{
    let ghost p = views(parts@);
    let mut s = String::new();
    let mut i: usize = 0;
    assert(p.take(0) =~= Seq::<Seq<char>>::empty());
    while i < end
        invariant
            0 <= i <= end <= parts@.len(),
            p == views(parts@),
            s@ == join_on(p.take(i as int), '.'),
        decreases end - i,
    {
        let ghost before = s@;
        if i > 0 {
            push_char(&mut s, '.');
        }
        push_chars(&mut s, parts[i].as_slice());
        proof {
            if i == 0 {
                assert(p.take(1) =~= seq![p[0]]);
                assert(s@ =~= p[0]);
            } else {
                lemma_join_step(p, i as int, '.');
            }
        }
        i = i + 1;
    }
    s
}

/// The strings of pieces.
pub fn strings_of(parts: &Vec<Vec<char>>) -> (r: Vec<String>)
    ensures
        string_views(r@) == views(parts@),
{
    let mut r: Vec<String> = Vec::new();
    let mut i: usize = 0;
    while i < parts.len()
        invariant
            0 <= i <= parts@.len(),
            string_views(r@) == views(parts@).take(i as int),
        decreases parts@.len() - i,
    {
        let piece = string_of_range(parts[i].as_slice(), 0, parts[i].len());
        assert(parts@[i as int]@.subrange(0, parts@[i as int]@.len() as int) =~= parts@[i as int]@);
        let ghost old_r = r@;
        assert(string_views(old_r).len() == old_r.len());
        assert(old_r.len() == i);
        r.push(piece);
        assert forall|j: int| 0 <= j < i + 1 implies string_views(r@)[j] == views(parts@).take(
            i + 1,
        )[j] by {
            if j < i {
                assert(r@[j] == old_r[j]);
                assert(string_views(old_r)[j] == views(parts@).take(i as int)[j]);
            }
        }
        assert(string_views(r@) =~= views(parts@).take(i + 1));
        i = i + 1;
    }
    assert(views(parts@).take(parts@.len() as int) =~= views(parts@));
    r
}

/// Whether parsing the file name `s` panics: a version with no piece left for the name, as in
/// `0.1.uavcan`.
pub fn file_name_panics(s: &str) -> (r: bool)
    ensures
        r == (file_name_outcome(s@) is Panic),
{
    let v = chars_of(s);
    let parts = split_chars(v.as_slice(), '.');
    let ghost p = views(parts@);
    let n = parts.len();
    proof {
        reveal_strlit("uavcan");
        assert("uavcan"@ =~= uavcan_word());
        assert(p[n - 1] == parts@[n - 1]@);
    }
    if n != 3 || !str_equals(parts[2].as_slice(), "uavcan") {
        return false;
    }
    assert(p[1] == parts@[1]@ && p[0] == parts@[0]@);
    parse_unsigned(parts[1].as_slice(), u32::MAX as u64).is_some() && parse_unsigned(
        parts[0].as_slice(),
        u32::MAX as u64,
    ).is_some()
}

impl FileName {
    /// Parses a file name such as `uavcan.protocol.341.NodeStatus.0.1.uavcan`.
    pub fn from_str(s: &str) -> (r: Result<FileName, ParseFileNameError>)
        requires
            !(file_name_outcome(s@) is Panic),
        ensures
            file_name_result(s@, r),
    {
        let v = chars_of(s);
        let parts = split_chars(v.as_slice(), '.');
        let ghost p = views(parts@);
        let n = parts.len();
        proof {
            reveal_strlit("uavcan");
            assert("uavcan"@ =~= uavcan_word());
            assert(p[n - 1] == parts@[n - 1]@);
        }
        if !str_equals(parts[n - 1].as_slice(), "uavcan") {
            return Err(ParseFileNameError::MissingExtension);
        }
        if n < 2 {
            return Err(ParseFileNameError::Format);
        }
        assert(p[n - 2] == parts@[n - 2]@);
        let (version, k): (Option<Version>, usize) = match parse_unsigned(
            parts[n - 2].as_slice(),
            u32::MAX as u64,
        ) {
            Some(minor) => {
                if n < 3 {
                    return Err(ParseFileNameError::Format);
                }
                assert(p[n - 3] == parts@[n - 3]@);
                match parse_unsigned(parts[n - 3].as_slice(), u32::MAX as u64) {
                    None => {
                        return Err(ParseFileNameError::VersionFormat);
                    },
                    Some(major) => {
                        (Some(Version { major: major as u32, minor: minor as u32 }), n - 4)
                    },
                }
            },
            None => (None, n - 2),
        };
        assert(p[k as int] == parts@[k as int]@);
        let name = string_of_range(parts[k].as_slice(), 0, parts[k].len());
        assert(parts@[k as int]@.subrange(0, parts@[k as int]@.len() as int) =~= parts@[k as int]@);
        let id_piece: Option<u64> = if k >= 1 {
            assert(p[k - 1] == parts@[k - 1]@);
            parse_unsigned(parts[k - 1].as_slice(), u64::MAX)
        } else {
            None
        };
        let (id, m): (Option<u64>, usize) = match id_piece {
            Some(id) => (Some(id), k - 1),
            None => (None, k),
        };
        let namespace = join_dots(&parts, m);
        Ok(FileName { id, namespace, name, version })
    }

    /// The pieces of the namespace, split at its dots; none for the empty namespace.
    pub fn split_namespace(&self) -> (r: Vec<String>)
        ensures
            string_views(r@) == namespace_parts(self.namespace@),
    {
        if self.namespace.as_str().is_empty() {
            return Vec::new();
        }
        let v = chars_of(self.namespace.as_str());
        let parts = split_chars(v.as_slice(), '.');
        strings_of(&parts)
    }

    /// The pieces of the namespace, split at its dots, last piece first; none for the empty
    /// namespace.
    pub fn rsplit_namespace(&self) -> (r: Vec<String>)
        ensures
            string_views(r@) == namespace_parts(self.namespace@).reverse(),
    {
        let forward = self.split_namespace();
        let mut r: Vec<String> = Vec::new();
        let mut i: usize = forward.len();
        while i > 0
            invariant
                0 <= i <= forward@.len(),
                string_views(r@) == string_views(forward@).subrange(i as int, forward@.len() as int).reverse(),
            decreases i,
        {
            i = i - 1;
            let ghost old_r = r@;
            assert(string_views(old_r).len() == old_r.len());
            assert(string_views(forward@).len() == forward@.len());
            assert(old_r.len() == forward@.len() - i - 1);
            let ghost want = string_views(forward@).subrange(i as int, forward@.len() as int).reverse();
            let ghost had = string_views(forward@).subrange(i + 1, forward@.len() as int).reverse();
            r.push(forward[i].clone());
            assert forall|j: int| 0 <= j < r@.len() implies string_views(r@)[j] == want[j] by {
                if j < old_r.len() {
                    assert(r@[j] == old_r[j]);
                    assert(string_views(old_r)[j] == had[j]);
                }
            }
            assert(string_views(r@) =~= want);
        }
        assert(string_views(forward@).subrange(0, forward@.len() as int) =~= string_views(forward@));
        r
    }

    /// Appends the file name, as `Display` writes it, to `s`.
    pub fn write_to(&self, s: &mut String)
        ensures
            final(s)@ == old(s)@ + file_name_text(*self),
    {
        let ghost start = s@;
        let ns = chars_of(self.namespace.as_str());
        if ns.len() != 0 {
            push_chars(s, ns.as_slice());
            push_char(s, '.');
        }
        let name = chars_of(self.name.as_str());
        push_chars(s, name.as_slice());
        assert(s@ =~= start + file_name_text(*self));
    }

    /// The file name as `Display` writes it.
    pub fn to_string(&self) -> (s: String)
        ensures
            s@ == file_name_text(*self),
    {
        let mut s = String::new();
        self.write_to(&mut s);
        assert(Seq::<char>::empty() + file_name_text(*self) =~= file_name_text(*self));
        s
    }
}

/// The text of a version: major and minor number, joined by a dot.
pub open spec fn version_text(v: Version) -> Seq<char> {
    decimal(v.major as nat) + seq!['.'] + decimal(v.minor as nat)
}

impl Version {
    /// The version as `Display` writes it.
    pub fn to_string(&self) -> (s: String)
        ensures
            s@ == version_text(*self),
    {
        let mut s = String::new();
        push_decimal(&mut s, self.major as u64);
        push_char(&mut s, '.');
        push_decimal(&mut s, self.minor as u64);
        assert(s@ =~= version_text(*self));
        s
    }
}

} // verus!
