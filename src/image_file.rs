use vstd::prelude::*;

verus! {

/// An image on disk, named by its path.
#[derive(Debug)]
pub struct ImageFile(String);

/// Why a path was not taken as an image.
#[derive(Clone, Copy, Debug, PartialEq, Eq, Structural)]
pub enum Error {
    NotAFile,
    NotAnImage,
}

impl View for ImageFile {
    type V = Seq<char>;

    closed spec fn view(&self) -> Seq<char> {
        self.0@
    }
}

/// The extension of a path, as std's `Path::extension` finds it.
pub uninterp spec fn extension_of(path: Seq<char>) -> Option<Seq<char>>;

/// Relies on std's Path::extension: the extension of the path's last
/// component, if it has one. The extension of a path that is valid UTF-8 is
/// valid UTF-8 too, so the conversion back to a string never fails.
#[verifier::external_body]
pub(crate) fn path_extension(path: &str) -> (r: Option<String>)
    ensures
        r is Some <==> extension_of(path@) is Some,
        r matches Some(e) ==> extension_of(path@) == Some(e@),
{
    std::path::Path::new(path).extension().and_then(|e| e.to_str()).map(|e| e.to_string())
}

/// The extensions under which a file is taken for an image.
pub open spec fn is_supported_extension(ext: Seq<char>) -> bool {
    ext == "jpg"@ || ext == "JPG"@ || ext == "JPEG"@
}

/// Whether a path names a file of a supported image type.
pub open spec fn has_supported_extension(path: Seq<char>) -> bool {
    extension_of(path) matches Some(e) && is_supported_extension(e)
}

/// Whether `ext` is one of the supported image extensions.
pub fn is_supported_image_type(ext: &String) -> (r: bool)
    ensures
        r == is_supported_extension(ext@),
{
    proof {
        reveal_strlit("jpg");
        reveal_strlit("JPG");
        reveal_strlit("JPEG");
    }
    let jpg = "jpg".to_owned();
    let jpg_upper = "JPG".to_owned();
    let jpeg_upper = "JPEG".to_owned();
    *ext == jpg || *ext == jpg_upper || *ext == jpeg_upper
}

impl ImageFile {
    /// Takes `path` for an image when it names a file (`is_file`, which the
    /// caller finds out from the file system) with a supported extension.
    pub fn new(path: String, is_file: bool) -> (r: Result<ImageFile, Error>)
        ensures
            !is_file ==> r == Err::<ImageFile, Error>(Error::NotAFile),
            is_file && has_supported_extension(path@) ==> (r matches Ok(f) && f@ == path@),
            is_file && !has_supported_extension(path@) ==> r == Err::<ImageFile, Error>(
                Error::NotAnImage,
            ),
    {
        let supported = match path_extension(path.as_str()) {
            Some(ext) => is_supported_image_type(&ext),
            None => false,
        };
        if !is_file {
            Err(Error::NotAFile)
        } else if supported {
            Ok(ImageFile(path))
        } else {
            Err(Error::NotAnImage)
        }
    }

    /// An image file for a path that was taken for an image before.
    pub(crate) fn from_listed(path: String) -> (r: ImageFile)
        ensures
            r@ == path@,
    {
        ImageFile(path)
    }

    /// The file's path.
    pub fn as_path(&self) -> (r: String)
        ensures
            r@ == self@,
    {
        self.0.clone()
    }
}

} // verus!
