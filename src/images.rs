use vstd::prelude::*;

use crate::image_file::ImageFile;

verus! {

/// Lexicographic order on character sequences, code point by code point.
pub open spec fn lex_le(a: Seq<char>, b: Seq<char>) -> bool
    decreases a.len(),
{
    if a.len() == 0 {
        true
    } else if b.len() == 0 {
        false
    } else if a[0] != b[0] {
        (a[0] as u32) < (b[0] as u32)
    } else {
        lex_le(a.drop_first(), b.drop_first())
    }
}

/// Whether `p` lists each of `0..n` exactly once.
pub open spec fn is_permutation(p: Seq<int>, n: nat) -> bool {
    &&& p.len() == n
    &&& forall|i: int| 0 <= i < n ==> 0 <= #[trigger] p[i] < n
    &&& forall|i: int, j: int| 0 <= i < j < n ==> #[trigger] p[i] != #[trigger] p[j]
}

/// Relies on std's slice::sort on strings: the same strings, reordered, in
/// the order of `String`'s `Ord`, which compares the UTF-8 bytes and so
/// orders by code point.
#[verifier::external_body]
fn sort_strings(v: &mut Vec<String>)
    ensures
        exists|p: Seq<int>|
            is_permutation(p, old(v)@.len()) && final(v)@.len() == old(v)@.len() && forall|i: int|
                0 <= i < old(v)@.len() ==> #[trigger] final(v)@[i] == old(v)@[p[i]],
        forall|i: int, j: int|
            0 <= i < j < final(v)@.len() ==> lex_le(#[trigger] final(v)@[i]@, #[trigger] final(v)@[j]@),
{
    v.sort();
}

/// An image of the list, and whether it has been marked.
pub struct Image {
    pub img: ImageFile,
    pub marked: bool,
}

/// The image files of a directory, sorted by path.
pub struct Images(Vec<Image>);

impl View for Images {
    type V = Seq<Image>;

    closed spec fn view(&self) -> Seq<Image> {
        self.0@
    }
}

impl Images {
    /// The given files, sorted by path, none of them marked.
    pub fn from_files(files: Vec<ImageFile>) -> (r: Images)
        ensures
            r@.len() == files@.len(),
            forall|i: int| 0 <= i < r@.len() ==> !(#[trigger] r@[i]).marked,
            forall|i: int, j: int|
                0 <= i < j < r@.len() ==> lex_le(#[trigger] r@[i].img@, #[trigger] r@[j].img@),
            exists|p: Seq<int>|
                is_permutation(p, files@.len()) && forall|i: int|
                    0 <= i < files@.len() ==> #[trigger] r@[i].img@ == files@[p[i]]@,
    {
        let n = files.len();
        let mut paths: Vec<String> = Vec::new();
        let mut i: usize = 0;
        while i < n
            invariant
                n == files@.len(),
                i <= n,
                paths@.len() == i,
                forall|j: int| 0 <= j < i ==> #[trigger] paths@[j]@ == files@[j]@,
            decreases n - i,
        {
            paths.push(files[i].as_path());
            i = i + 1;
        }
        let ghost unsorted = paths@;
        sort_strings(&mut paths);
        let ghost p = choose|p: Seq<int>|
            is_permutation(p, unsorted.len()) && paths@.len() == unsorted.len() && forall|i: int|
                0 <= i < unsorted.len() ==> #[trigger] paths@[i] == unsorted[p[i]];
        let mut images: Vec<Image> = Vec::new();
        let mut k: usize = 0;
        while k < n
            invariant
                n == files@.len(),
                n == paths@.len(),
                is_permutation(p, n as nat),
                forall|i: int| 0 <= i < n ==> #[trigger] paths@[i]@ == files@[p[i]]@,
                k <= n,
                images@.len() == k,
                forall|j: int|
                    0 <= j < k ==> (#[trigger] images@[j]).img@ == paths@[j]@ && !images@[j].marked,
            decreases n - k,
        {
            images.push(Image { img: ImageFile::from_listed(paths[k].clone()), marked: false });
            k = k + 1;
        }
        Images(images)
    }

    /// The number of images.
    pub fn len(&self) -> (r: usize)
        ensures
            r == self@.len(),
    {
        self.0.len()
    }

    /// The file of the image at `index`, if there is one.
    pub fn get(&self, index: usize) -> (r: Option<&ImageFile>)
        ensures
            index < self@.len() ==> r == Some(&self@[index as int].img),
            index >= self@.len() ==> r is None,
    {
        if index < self.0.len() {
            Some(&self.0[index].img)
        } else {
            None
        }
    }

    /// The images, in order.
    pub fn as_slice(&self) -> (r: &[Image])
        ensures
            r@ == self@,
    {
        self.0.as_slice()
    }

    /// The image files, in order: the list that the image cache resolves
    /// indices against.
    pub fn files(&self) -> (r: Vec<ImageFile>)
        ensures
            r@.len() == self@.len(),
            forall|i: int| 0 <= i < r@.len() ==> #[trigger] r@[i]@ == self@[i].img@,
    {
        let mut files: Vec<ImageFile> = Vec::new();
        let mut i: usize = 0;
        while i < self.0.len()
            invariant
                i <= self@.len(),
                files@.len() == i,
                forall|j: int| 0 <= j < i ==> #[trigger] files@[j]@ == self@[j].img@,
            decreases self@.len() - i,
        {
            files.push(ImageFile::from_listed(self.0[i].img.as_path()));
            i = i + 1;
        }
        files
    }

    /// The image at `index`.
    pub fn index(&self, index: usize) -> (r: &Image)
        requires
            index < self@.len(),
        ensures
            *r == self@[index as int],
    {
        &self.0[index]
    }
}

} // verus!
