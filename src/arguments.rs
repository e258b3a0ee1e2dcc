use vstd::prelude::*;

use crate::image_file::{extension_of, ImageFile};
use crate::images::{is_permutation, lex_le, Images};

verus! {

/// Why the command line was not accepted. Each carries the argument or the
/// message that it is about.
#[derive(Debug)]
pub enum ArgumentError {
    InvalidNumber(String),
    FileDoesNotExist(String),
    InvalidFileType(String),
    ReadError(String),
}

/// What the file system says about a path.
#[derive(Clone, Copy, Debug, PartialEq, Eq, Structural)]
pub enum PathKind {
    Missing,
    Directory,
    File,
    Other,
}

/// The image directory and the class names that the program works on.
pub struct Arguments {
    pub image_dir: Images,
    pub names: Vec<String>,
}

/// The extension that a names file must have.
pub open spec fn is_names_extension(path: Seq<char>) -> bool {
    extension_of(path) == Some("names"@)
}

/// The image directory and the names file of a command line: its second
/// and third arguments (the first is the program). A shorter command line
/// gives `InvalidNumber`, carrying the number of arguments it has.
pub fn argument_paths(args: &Vec<String>) -> (r: Result<(String, String), ArgumentError>)
    ensures
        args@.len() >= 3 ==> (r matches Ok((d, n)) && d@ == args@[1]@ && n@ == args@[2]@),
        args@.len() < 3 ==> r matches Err(ArgumentError::InvalidNumber(_)),
{
    if args.len() >= 3 {
        Ok((args[1].clone(), args[2].clone()))
    } else {
        Err(ArgumentError::InvalidNumber(args.len().to_string()))
    }
}

/// Checks the two paths of the command line against what the file system
/// says of them, in this order: each must exist, the first must be a
/// directory, the second a file with the extension `names`.
pub fn check_paths(dir: &String, names: &String, dir_kind: PathKind, names_kind: PathKind) -> (r:
    Result<(), ArgumentError>)
    ensures
        dir_kind == PathKind::Missing ==> (r matches Err(ArgumentError::FileDoesNotExist(p)) && p@
            == dir@),
        dir_kind != PathKind::Missing && names_kind == PathKind::Missing ==> (r matches Err(
            ArgumentError::FileDoesNotExist(p),
        ) && p@ == names@),
        dir_kind != PathKind::Missing && names_kind != PathKind::Missing && dir_kind
            != PathKind::Directory ==> (r matches Err(ArgumentError::InvalidFileType(p)) && p@
            == dir@),
        dir_kind == PathKind::Directory && names_kind != PathKind::Missing && names_kind
            != PathKind::File ==> (r matches Err(ArgumentError::InvalidFileType(p)) && p@
            == names@),
        dir_kind == PathKind::Directory && names_kind == PathKind::File ==> (if is_names_extension(
            names@,
        ) {
            r is Ok
        } else {
            r matches Err(ArgumentError::InvalidFileType(p)) && p@ == names@
        }),
{
    if dir_kind == PathKind::Missing {
        Err(ArgumentError::FileDoesNotExist(dir.clone()))
    } else if names_kind == PathKind::Missing {
        Err(ArgumentError::FileDoesNotExist(names.clone()))
    } else if dir_kind != PathKind::Directory {
        Err(ArgumentError::InvalidFileType(dir.clone()))
    } else if names_kind != PathKind::File {
        Err(ArgumentError::InvalidFileType(names.clone()))
    } else if has_names_extension(names) {
        Ok(())
    } else {
        Err(ArgumentError::InvalidFileType(names.clone()))
    }
}

/// Whether `path` has the extension `names`.
pub fn has_names_extension(path: &String) -> (r: bool)
    ensures
        r == is_names_extension(path@),
{
    proof {
        reveal_strlit("names");
    }
    match crate::image_file::path_extension(path.as_str()) {
        Some(ext) => {
            let expected = "names".to_owned();
            ext == expected
        },
        None => false,
    }
}

/// The paths among directory entries that are taken for images: those that
/// are files with a supported extension, in the order given.
pub open spec fn accepted_paths(entries: Seq<(String, bool)>) -> Seq<Seq<char>>
    decreases entries.len(),
{
    if entries.len() == 0 {
        Seq::empty()
    } else {
        let rest = accepted_paths(entries.drop_last());
        let (path, is_file) = entries.last();
        if is_file && crate::image_file::has_supported_extension(path@) {
            rest.push(path@)
        } else {
            rest
        }
    }
}

impl Arguments {
    /// The arguments for a directory whose entries are `entries`, each a path
    /// and whether it is a file: the entries taken for images, sorted by path,
    /// and the class names.
    pub fn new(entries: Vec<(String, bool)>, names: Vec<String>) -> (r: Arguments)
        ensures
            r.names@ == names@,
            r.image_dir@.len() == accepted_paths(entries@).len(),
            forall|i: int, j: int|
                0 <= i < j < r.image_dir@.len() ==> lex_le(
                    #[trigger] r.image_dir@[i].img@,
                    #[trigger] r.image_dir@[j].img@,
                ),
            exists|p: Seq<int>|
                is_permutation(p, accepted_paths(entries@).len()) && forall|i: int|
                    0 <= i < r.image_dir@.len() ==> #[trigger] r.image_dir@[i].img@
                        == accepted_paths(entries@)[p[i]],
    {
        let n = entries.len();
        let mut files: Vec<ImageFile> = Vec::new();
        let mut i: usize = 0;
        while i < n
            invariant
                n == entries@.len(),
                i <= n,
                files@.len() == accepted_paths(entries@.take(i as int)).len(),
                forall|j: int|
                    0 <= j < files@.len() ==> #[trigger] files@[j]@ == accepted_paths(
                        entries@.take(i as int),
                    )[j],
            decreases n - i,
        {
            let (path, is_file) = (entries[i].0.clone(), entries[i].1);
            proof {
                assert(entries@.take(i + 1).drop_last() =~= entries@.take(i as int));
            }
            match ImageFile::new(path, is_file) {
                Ok(f) => {
                    files.push(f);
                },
                Err(_) => {},
            }
            i = i + 1;
        }
        proof {
            assert(entries@.take(n as int) =~= entries@);
        }
        let image_dir = Images::from_files(files);
        Arguments { image_dir, names }
    }
}

} // verus!
