use vstd::prelude::*;

use crate::arguments::PathKind;
use crate::image_file::{extension_of, path_extension};

verus! {

/// The setting that names the image directory.
#[derive(Debug, Default)]
pub struct ImagesDirectorySetting {
    pub images_dir: String,
}

/// The setting that names the file of class names.
#[derive(Debug, Default)]
pub struct NamesFileSetting {
    pub names_file: String,
}

/// What the settings page shows of an image directory of the given kind.
pub open spec fn directory_validity(kind: PathKind) -> Seq<char> {
    if kind == PathKind::Missing {
        "directory does not exist"@
    } else if kind != PathKind::Directory {
        "file is not a directory"@
    } else {
        "\u{2705}"@
    }
}

/// What the settings page shows of a names file at `path` of the given kind.
pub open spec fn names_file_validity(path: Seq<char>, kind: PathKind) -> Seq<char> {
    if kind == PathKind::Missing {
        "path does not exist"@
    } else if let Some(ext) = extension_of(path) {
        if ext != "names"@ {
            "path does not end with .names"@
        } else {
            "\u{2705}"@
        }
    } else if kind == PathKind::Directory {
        "path is a directory"@
    } else {
        "path does not have an extension"@
    }
}

impl ImagesDirectorySetting {
    /// Whether the setting names a directory, given what the file system
    /// says of its path.
    pub fn is_valid(&self, kind: PathKind) -> (r: bool)
        ensures
            r == (kind == PathKind::Directory),
    {
        kind == PathKind::Directory
    }

    /// A line for the settings page on whether the setting is usable, given
    /// what the file system says of its path.
    pub fn display_validity(&self, kind: PathKind) -> (r: String)
        ensures
            r@ == directory_validity(kind),
    {
        proof {
            reveal_strlit("directory does not exist");
            reveal_strlit("file is not a directory");
            reveal_strlit("\u{2705}");
        }
        if kind == PathKind::Missing {
            "directory does not exist".to_owned()
        } else if kind != PathKind::Directory {
            "file is not a directory".to_owned()
        } else {
            "\u{2705}".to_owned()
        }
    }
}

impl NamesFileSetting {
    /// A line for the settings page on whether the setting is usable, given
    /// what the file system says of its path.
    pub fn display_validity(&self, kind: PathKind) -> (r: String)
        ensures
            r@ == names_file_validity(self.names_file@, kind),
    {
        proof {
            reveal_strlit("path does not exist");
            reveal_strlit("path does not end with .names");
            reveal_strlit("names");
            reveal_strlit("\u{2705}");
            reveal_strlit("path is a directory");
            reveal_strlit("path does not have an extension");
        }
        if kind == PathKind::Missing {
            "path does not exist".to_owned()
        } else {
            match path_extension(self.names_file.as_str()) {
                Some(ext) => {
                    let expected = "names".to_owned();
                    if ext != expected {
                        "path does not end with .names".to_owned()
                    } else {
                        "\u{2705}".to_owned()
                    }
                },
                None => {
                    if kind == PathKind::Directory {
                        "path is a directory".to_owned()
                    } else {
                        "path does not have an extension".to_owned()
                    }
                },
            }
        }
    }
}

} // verus!
