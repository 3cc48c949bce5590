//! Which storage codec reads or writes a project file. The codecs
//! themselves (textual JSON and binary BSON) encode and decode at
//! the I/O edge; the core only decides which one a file or a kind
//! belongs to.
use vstd::prelude::*;

use crate::project::ProjectType;
use crate::text::str_eq;

verus! {

/// Does `s` end in `.<ext>`, with the dot not the first character
/// and no later dot? That is the extension a file name carries.
pub open spec fn spec_has_extension(s: Seq<char>, ext: Seq<char>) -> bool {
    exists|k: int|
        1 <= k < s.len() && #[trigger] s[k] == '.' && (forall|j: int|
            k < j < s.len() ==> s[j] != '.') && s.skip(k + 1) == ext
}

/// Picks loaders for files and kinds.
pub struct ProjectLoaderManager;

/// Reads and writes the relaxed textual encoding.
pub struct Json5Loader;

impl Json5Loader {
    pub fn kind(&self) -> (r: ProjectType)
        ensures
            r == ProjectType::Json,
    {
        ProjectType::Json
    }
}

/// Reads and writes the strict textual encoding.
pub struct JsonLoader;

impl JsonLoader {
    pub fn kind(&self) -> (r: ProjectType)
        ensures
            r == ProjectType::Json,
    {
        ProjectType::Json
    }
}

/// Reads and writes the binary encoding.
pub struct BsonLoader;

impl BsonLoader {
    pub fn kind(&self) -> (r: ProjectType)
        ensures
            r == ProjectType::Binary,
    {
        ProjectType::Binary
    }
}

impl ProjectLoaderManager {
    /// The storage kinds tried, in loader order: textual first.
    pub fn loaders() -> (r: Vec<ProjectType>)
        ensures
            r@ == seq![ProjectType::Json, ProjectType::Binary],
    {
        let mut r: Vec<ProjectType> = Vec::new();
        r.push(ProjectType::Json);
        r.push(ProjectType::Binary);
        proof {
            assert(r@ =~= seq![ProjectType::Json, ProjectType::Binary]);
        }
        r
    }

    /// The loader that reads `file_name`, by the extension after its
    /// last dot; none for an unknown or missing extension.
    pub fn for_file(file_name: &str) -> (r: Option<ProjectType>)
        ensures
            r == Some(ProjectType::Json) <==> spec_has_extension(file_name@, "json"@),
            r == Some(ProjectType::Binary) <==> spec_has_extension(file_name@, "mbp"@),
            r is None <==> !spec_has_extension(file_name@, "json"@) && !spec_has_extension(
                file_name@,
                "mbp"@,
            ),
    {
        let len = file_name.unicode_len();
        let mut dot: usize = 0;
        let mut i: usize = 1;
        while i < len
            invariant
                1 <= i <= len || (len < 1 && i == 1),
                len == file_name@.len(),
                dot < i,
                dot >= 1 ==> file_name@[dot as int] == '.',
                forall|j: int| dot < j < i && j >= 1 ==> file_name@[j] != '.',
                dot == 0 ==> forall|j: int| 1 <= j < i ==> file_name@[j] != '.',
            decreases len - i,
        {
            if file_name.get_char(i) == '.' {
                dot = i;
            }
            i += 1;
        }
        if dot == 0 {
            proof {
                assert forall|k: int|
                    1 <= k < file_name@.len() implies !(#[trigger] file_name@[k] == '.' && (
                forall|j: int| k < j < file_name@.len() ==> file_name@[j] != '.')
                    && file_name@.skip(k + 1) == "json"@) by {
                    assert(file_name@[k] != '.');
                }
                assert forall|k: int|
                    1 <= k < file_name@.len() implies !(#[trigger] file_name@[k] == '.' && (
                forall|j: int| k < j < file_name@.len() ==> file_name@[j] != '.')
                    && file_name@.skip(k + 1) == "mbp"@) by {
                    assert(file_name@[k] != '.');
                }
            }
            return None;
        }
        let ext = file_name.substring_char(dot + 1, len);
        proof {
            assert(ext@ =~= file_name@.skip(dot as int + 1));
            reveal_strlit("json");
            reveal_strlit("mbp");
            assert("json"@.len() == 4);
            assert("mbp"@.len() == 3);
        }
        if str_eq(ext, "json") {
            proof {
                assert(spec_has_extension(file_name@, "json"@));
                lemma_extension_unique(file_name@, dot as int);
            }
            Some(ProjectType::Json)
        } else if str_eq(ext, "mbp") {
            proof {
                assert(spec_has_extension(file_name@, "mbp"@));
                lemma_extension_unique(file_name@, dot as int);
            }
            Some(ProjectType::Binary)
        } else {
            proof {
                lemma_extension_unique(file_name@, dot as int);
            }
            None
        }
    }

    /// The loader that stores `kind`; none stores the invalid kind.
    pub fn for_kind(kind: &ProjectType) -> (r: Option<ProjectType>)
        ensures
            r == match *kind {
                ProjectType::Json => Some(ProjectType::Json),
                ProjectType::Binary => Some(ProjectType::Binary),
                ProjectType::Invalid => None::<ProjectType>,
            },
    {
        match kind {
            ProjectType::Json => Some(ProjectType::Json),
            ProjectType::Binary => Some(ProjectType::Binary),
            ProjectType::Invalid => None,
        }
    }
}

/// Only the last dot of a name can carry its extension: any position
/// that satisfies the extension shape is that dot.
proof fn lemma_extension_unique(s: Seq<char>, dot: int)
    requires
        1 <= dot < s.len(),
        s[dot] == '.',
        forall|j: int| dot < j < s.len() ==> s[j] != '.',
    ensures
        forall|k: int|
            (1 <= k < s.len() && #[trigger] s[k] == '.' && (forall|j: int|
                k < j < s.len() ==> s[j] != '.')) ==> k == dot,
{
}

} // verus!
