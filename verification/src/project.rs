//! Project-level data: storage kinds, file-name slugs, metadata and
//! settings.
use vstd::prelude::*;

use crate::text::ascii_to_string;

verus! {

/// On-disk encoding of a project.
#[derive(Debug, Clone, Copy, PartialEq, Eq, Structural)]
pub enum ProjectType {
    Json,
    Binary,
    Invalid,
}

impl Default for ProjectType {
    fn default() -> (r: Self)
        ensures
            r == ProjectType::Json,
    {
        ProjectType::Json
    }
}

impl ProjectType {
    /// The file extension of this encoding, without the dot.
    pub open spec fn spec_extension(self) -> Seq<char> {
        match self {
            ProjectType::Json => "json"@,
            ProjectType::Binary => "mbp"@,
            ProjectType::Invalid => ""@,
        }
    }

    pub fn extension(&self) -> (r: &'static str)
        ensures
            r@ == self.spec_extension(),
    {
        match self {
            ProjectType::Json => "json",
            ProjectType::Binary => "mbp",
            ProjectType::Invalid => "",
        }
    }

    /// The file extension of this encoding, with the dot.
    pub open spec fn spec_dotted_extension(self) -> Seq<char> {
        match self {
            ProjectType::Json => ".json"@,
            ProjectType::Binary => ".mbp"@,
            ProjectType::Invalid => "."@,
        }
    }

    pub fn dotted_extension(&self) -> (r: &'static str)
        ensures
            r@ == self.spec_dotted_extension(),
    {
        match self {
            ProjectType::Json => ".json",
            ProjectType::Binary => ".mbp",
            ProjectType::Invalid => ".",
        }
    }

    /// The encodings a project can be stored in, in loader order.
    pub fn all() -> (r: [ProjectType; 2])
        ensures
            r@ == seq![ProjectType::Json, ProjectType::Binary],
    {
        let r = [ProjectType::Json, ProjectType::Binary];
        proof {
            assert(r@ =~= seq![ProjectType::Json, ProjectType::Binary]);
        }
        r
    }
}

/// The byte `_` in ASCII.
pub const UNDERSCORE: u8 = 95;

/// What one character contributes to a slug: a space becomes an
/// underscore, an ASCII alphanumeric is kept lowercased, everything
/// else is dropped.
pub open spec fn spec_slug_byte(c: char) -> Seq<u8> {
    let u = c as u32;
    if c == ' ' {
        seq![UNDERSCORE]
    } else if 48 <= u <= 57 {
        seq![u as u8]
    } else if 65 <= u <= 90 {
        seq![(u + 32) as u8]
    } else if 97 <= u <= 122 {
        seq![u as u8]
    } else {
        Seq::empty()
    }
}

/// First slug pass: map every character.
pub open spec fn spec_slug_map(s: Seq<char>) -> Seq<u8>
    decreases s.len(),
{
    if s.len() == 0 {
        Seq::empty()
    } else {
        spec_slug_map(s.drop_last()) + spec_slug_byte(s.last())
    }
}

/// Second slug pass: an underscore directly after an underscore is
/// dropped, collapsing runs.
pub open spec fn spec_collapse(s: Seq<u8>) -> Seq<u8>
    decreases s.len(),
{
    if s.len() <= 1 {
        s
    } else {
        let rest = spec_collapse(s.drop_last());
        if s[s.len() - 2] == UNDERSCORE && s.last() == UNDERSCORE {
            rest
        } else {
            rest.push(s.last())
        }
    }
}

/// Third slug pass: one leading and one trailing underscore go.
pub open spec fn spec_trim(s: Seq<u8>) -> Seq<u8> {
    let t = if s.len() > 0 && s[0] == UNDERSCORE {
        s.skip(1)
    } else {
        s
    };
    if t.len() > 0 && t.last() == UNDERSCORE {
        t.drop_last()
    } else {
        t
    }
}

/// The slug of a name, as bytes.
pub open spec fn spec_slug_bytes(s: Seq<char>) -> Seq<u8> {
    spec_trim(spec_collapse(spec_slug_map(s)))
}

/// The slug of a name: the disk file name stem derived from it.
pub open spec fn spec_slug(s: Seq<char>) -> Seq<char> {
    spec_slug_bytes(s).map_values(|b: u8| b as char)
}

/// The characters a slug is made of.
pub open spec fn spec_slug_alphabet(b: u8) -> bool {
    b == UNDERSCORE || 48 <= b <= 57 || 97 <= b <= 122
}

/// Derive a disk file name stem from a project name: ASCII
/// alphanumerics lowercased, spaces to underscores, repeated
/// underscores collapsed, a terminal underscore trimmed at each end.
pub fn project_file_name(name: &str) -> (r: String)
    ensures
        r@ == spec_slug(name@),
{
    let len = name.unicode_len();
    let mut mapped: Vec<u8> = Vec::new();
    let mut i: usize = 0;
    while i < len
        invariant
            i <= len,
            len == name@.len(),
            mapped@ == spec_slug_map(name@.take(i as int)),
            forall|k: int| 0 <= k < mapped@.len() ==> spec_slug_alphabet(#[trigger] mapped@[k]),
        decreases len - i,
    {
        let c = name.get_char(i);
        let u = c as u32;
        proof {
            assert(name@.take(i + 1).drop_last() =~= name@.take(i as int));
            assert(name@.take(i + 1).last() == name@[i as int]);
        }
        if c == ' ' {
            mapped.push(UNDERSCORE);
        } else if 48 <= u && u <= 57 {
            mapped.push(u as u8);
        } else if 65 <= u && u <= 90 {
            mapped.push((u + 32) as u8);
        } else if 97 <= u && u <= 122 {
            mapped.push(u as u8);
        }
        proof {
            assert(mapped@ =~= spec_slug_map(name@.take(i + 1)));
        }
        i += 1;
    }
    proof {
        assert(name@.take(len as int) =~= name@);
    }
    let n = mapped.len();
    let mut collapsed: Vec<u8> = Vec::new();
    let mut j: usize = 0;
    while j < n
        invariant
            j <= n,
            n == mapped@.len(),
            collapsed@ == spec_collapse(mapped@.take(j as int)),
            forall|k: int| 0 <= k < mapped@.len() ==> spec_slug_alphabet(#[trigger] mapped@[k]),
            forall|k: int| 0 <= k < collapsed@.len() ==> spec_slug_alphabet(
                #[trigger] collapsed@[k],
            ),
        decreases n - j,
    {
        proof {
            assert(mapped@.take(j + 1).drop_last() =~= mapped@.take(j as int));
            assert(mapped@.take(j + 1).last() == mapped@[j as int]);
        }
        let b = mapped[j];
        if j >= 1 && mapped[j - 1] == UNDERSCORE && b == UNDERSCORE {
        } else {
            collapsed.push(b);
        }
        proof {
            assert(collapsed@ =~= spec_collapse(mapped@.take(j + 1)));
        }
        j += 1;
    }
    proof {
        assert(mapped@.take(n as int) =~= mapped@);
    }
    let m = collapsed.len();
    let lo: usize = if m > 0 && collapsed[0] == UNDERSCORE {
        1
    } else {
        0
    };
    let hi: usize = if m > lo && collapsed[m - 1] == UNDERSCORE {
        m - 1
    } else {
        m
    };
    let mut out: Vec<u8> = Vec::new();
    let mut k: usize = lo;
    while k < hi
        invariant
            lo <= k <= hi <= m,
            m == collapsed@.len(),
            out@ == collapsed@.subrange(lo as int, k as int),
            forall|q: int| 0 <= q < collapsed@.len() ==> spec_slug_alphabet(
                #[trigger] collapsed@[q],
            ),
        decreases hi - k,
    {
        out.push(collapsed[k]);
        proof {
            assert(out@ =~= collapsed@.subrange(lo as int, k + 1));
        }
        k += 1;
    }
    proof {
        assert(out@ =~= spec_trim(collapsed@));
        assert(forall|q: int| 0 <= q < out@.len() ==> #[trigger] out@[q] < 128);
    }
    let r = ascii_to_string(out);
    proof {
        assert(r@ =~= spec_slug(name@));
    }
    r
}

/// Mapping keeps only slug-alphabet bytes.
proof fn lemma_slug_map_alphabet(s: Seq<char>)
    ensures
        forall|i: int|
            0 <= i < spec_slug_map(s).len() ==> spec_slug_alphabet(#[trigger] spec_slug_map(s)[i]),
    decreases s.len(),
{
    if s.len() > 0 {
        lemma_slug_map_alphabet(s.drop_last());
        let pre = spec_slug_map(s.drop_last());
        let add = spec_slug_byte(s.last());
        assert(forall|i: int| 0 <= i < add.len() ==> spec_slug_alphabet(#[trigger] add[i]));
        assert forall|i: int|
            0 <= i < spec_slug_map(s).len() implies spec_slug_alphabet(
            #[trigger] spec_slug_map(s)[i],
        ) by {
            if i < pre.len() {
                assert(spec_slug_map(s)[i] == pre[i]);
            } else {
                assert(spec_slug_map(s)[i] == add[i - pre.len()]);
            }
        }
    }
}

/// Collapsing keeps the alphabet.
proof fn lemma_collapse_alphabet(s: Seq<u8>)
    requires
        forall|i: int| 0 <= i < s.len() ==> spec_slug_alphabet(#[trigger] s[i]),
    ensures
        forall|i: int|
            0 <= i < spec_collapse(s).len() ==> spec_slug_alphabet(#[trigger] spec_collapse(s)[i]),
    decreases s.len(),
{
    if s.len() > 1 {
        assert(forall|i: int|
            0 <= i < s.drop_last().len() ==> spec_slug_alphabet(#[trigger] s.drop_last()[i]));
        lemma_collapse_alphabet(s.drop_last());
        let rest = spec_collapse(s.drop_last());
        if !(s[s.len() - 2] == UNDERSCORE && s.last() == UNDERSCORE) {
            assert forall|i: int|
                0 <= i < spec_collapse(s).len() implies spec_slug_alphabet(
                #[trigger] spec_collapse(s)[i],
            ) by {
                if i < rest.len() {
                    assert(spec_collapse(s)[i] == rest[i]);
                } else {
                    assert(spec_collapse(s)[i] == s.last());
                }
            }
        }
    }
}

/// A collapse ends in an underscore exactly when its input does.
proof fn lemma_collapse_last(s: Seq<u8>)
    requires
        s.len() > 0,
    ensures
        spec_collapse(s).len() > 0,
        spec_collapse(s).last() == UNDERSCORE <==> s.last() == UNDERSCORE,
    decreases s.len(),
{
    if s.len() > 1 {
        lemma_collapse_last(s.drop_last());
    }
}

/// A collapse never holds two underscores in a row.
proof fn lemma_collapse_no_doubles(s: Seq<u8>)
    ensures
        forall|i: int|
            0 <= i && i + 1 < spec_collapse(s).len() ==> !((#[trigger] spec_collapse(s)[i])
                == UNDERSCORE && spec_collapse(s)[i + 1] == UNDERSCORE),
    decreases s.len(),
{
    if s.len() > 1 {
        lemma_collapse_no_doubles(s.drop_last());
        lemma_collapse_last(s.drop_last());
        let rest = spec_collapse(s.drop_last());
        if !(s[s.len() - 2] == UNDERSCORE && s.last() == UNDERSCORE) {
            let c = rest.push(s.last());
            assert(s.drop_last().last() == s[s.len() - 2]);
            assert forall|i: int|
                0 <= i && i + 1 < c.len() implies !((#[trigger] c[i]) == UNDERSCORE && c[i + 1]
                == UNDERSCORE) by {
                if i + 1 < rest.len() {
                    assert(c[i] == rest[i] && c[i + 1] == rest[i + 1]);
                } else {
                    assert(c[i] == rest.last() && c[i + 1] == s.last());
                }
            }
        }
    }
}

/// Shape of every slug: only lowercase ASCII alphanumerics and
/// underscores, no two underscores in a row, and no underscore at
/// either end. (A run of underscores in the name collapses to one,
/// which a terminal position then loses entirely.)
pub proof fn lemma_slug_shape(s: Seq<char>)
    ensures
        forall|i: int|
            0 <= i < spec_slug_bytes(s).len() ==> spec_slug_alphabet(
                #[trigger] spec_slug_bytes(s)[i],
            ),
        forall|i: int|
            0 <= i && i + 1 < spec_slug_bytes(s).len() ==> !((#[trigger] spec_slug_bytes(s)[i])
                == UNDERSCORE && spec_slug_bytes(s)[i + 1] == UNDERSCORE),
        spec_slug_bytes(s).len() > 0 ==> spec_slug_bytes(s)[0] != UNDERSCORE,
        spec_slug_bytes(s).len() > 0 ==> spec_slug_bytes(s).last() != UNDERSCORE,
{
    let m = spec_slug_map(s);
    lemma_slug_map_alphabet(s);
    lemma_collapse_alphabet(m);
    lemma_collapse_no_doubles(m);
    let c = spec_collapse(m);
    let t = if c.len() > 0 && c[0] == UNDERSCORE {
        c.skip(1)
    } else {
        c
    };
    let r = spec_slug_bytes(s);
    assert(r == if t.len() > 0 && t.last() == UNDERSCORE {
        t.drop_last()
    } else {
        t
    });
    let off: int = if c.len() > 0 && c[0] == UNDERSCORE {
        1
    } else {
        0
    };
    assert(forall|i: int| 0 <= i < t.len() ==> #[trigger] t[i] == c[i + off]);
    assert(forall|i: int| 0 <= i < r.len() ==> #[trigger] r[i] == c[i + off]);
    assert forall|i: int|
        0 <= i && i + 1 < r.len() implies !((#[trigger] r[i]) == UNDERSCORE && r[i + 1]
        == UNDERSCORE) by {
        assert(r[i] == c[i + off] && r[i + 1] == c[i + off + 1]);
    }
    if r.len() > 0 {
        if off == 1 {
            assert(r[0] == c[1]);
            assert(!(c[0] == UNDERSCORE && c[1] == UNDERSCORE));
        }
        if t.len() > 0 && t.last() == UNDERSCORE {
            assert(r.last() == c[r.len() - 1 + off] && t.last() == c[t.len() - 1 + off]);
            assert(!(c[r.len() - 1 + off] == UNDERSCORE && c[r.len() + off] == UNDERSCORE));
        }
    }
}

/// Anything with a project file name derived from it.
pub trait ToFileName {
    type Out;

    fn to_project_file_name(&self) -> Self::Out;
}

impl ToFileName for str {
    type Out = String;

    fn to_project_file_name(&self) -> (r: String)
        ensures
            r@ == spec_slug(self@),
    {
        project_file_name(self)
    }
}

impl ToFileName for String {
    type Out = String;

    fn to_project_file_name(&self) -> (r: String)
        ensures
            r@ == spec_slug(self@),
    {
        project_file_name(self.as_str())
    }
}

/// A wall-clock instant, in milliseconds since the Unix epoch.
#[derive(Debug, Clone, Copy, PartialEq, Eq, Structural)]
pub struct Timestamp {
    pub millis: i64,
}

/// Relies on `chrono::Local::now` and `DateTime::timestamp_millis`
/// for the current wall-clock instant; nothing is assumed of its
/// value.
#[verifier::external_body]
pub fn now_timestamp() -> Timestamp {
    Timestamp { millis: chrono::Local::now().timestamp_millis() }
}

/// What a project file records about itself. `file_name` and
/// `project_type` are transient: zeroed on save and repopulated on
/// load from the file's own name.
#[derive(Debug, Clone, PartialEq)]
pub struct ProjectMetadata {
    pub name: String,
    pub last_saved: Timestamp,
    pub created_at: Timestamp,
    pub file_name: String,
    pub project_type: ProjectType,
}

/// Per-project behaviour switches. `autosave` is a period in
/// milliseconds; `None` turns autosaving off.
#[derive(Debug, Clone, Copy, PartialEq, Eq)]
pub struct ProjectSettings {
    pub save_on_quit: bool,
    pub autosave: Option<u64>,
}

} // verus!
