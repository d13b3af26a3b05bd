//! File paths.
use vstd::prelude::*;
use vstd::utf8::{decode_utf8, encode_utf8, valid_utf8};

verus! {

/// A file path: any sequence of bytes, most often UTF-8 text.
#[derive(Debug)]
pub struct FilePath {
    bytes: Vec<u8>,
}

impl View for FilePath {
    type V = Seq<u8>;

    closed spec fn view(&self) -> Seq<u8> {
        self.bytes@
    }
}

/// A path, if there is one, by its view.
pub open spec fn path_view(path: Option<FilePath>) -> Option<Seq<u8>> {
    match path {
        Some(path) => Some(path@),
        None => None,
    }
}

/// The views of several paths.
pub open spec fn paths(v: Seq<FilePath>) -> Seq<Seq<u8>> {
    v.map_values(|p: FilePath| p@)
}

/// Bytes read as UTF-8, with a replacement character wherever they are none.
pub uninterp spec fn utf8_lossy(bytes: Seq<u8>) -> Seq<char>;

/// Bytes as text: UTF-8 is decoded, anything else made readable.
pub open spec fn lossy_text(bytes: Seq<u8>) -> Seq<char> {
    if valid_utf8(bytes) {
        decode_utf8(bytes)
    } else {
        utf8_lossy(bytes)
    }
}

/// `String::from_utf8_lossy`: bytes that are UTF-8 are decoded as such; what becomes of others
/// has a name only.
#[verifier::external_body]
fn string_from_utf8_lossy(bytes: &Vec<u8>) -> (r: String)
    ensures
        r@ == utf8_lossy(bytes@),
        valid_utf8(bytes@) ==> r@ == decode_utf8(bytes@),
{
    String::from_utf8_lossy(bytes).into_owned()
}

impl FilePath {
    /// The path that is written as `text`.
    pub fn new(text: &str) -> (r: FilePath)
        ensures
            r@ == encode_utf8(text@),
    {
        FilePath { bytes: text.as_bytes_vec() }
    }

    /// The path made of `bytes`.
    pub fn from_bytes(bytes: Vec<u8>) -> (r: FilePath)
        ensures
            r@ == bytes@,
    {
        FilePath { bytes }
    }

    /// The bytes of the path.
    pub fn as_bytes(&self) -> (r: &Vec<u8>)
        ensures
            r@ == self@,
    {
        &self.bytes
    }

    /// The path as text, for people to read.
    pub fn to_string_lossy(&self) -> (r: String)
        ensures
            r@ == lossy_text(self@),
    {
        string_from_utf8_lossy(&self.bytes)
    }
}

impl Clone for FilePath {
    fn clone(&self) -> (r: Self)
        ensures
            r@ == self@,
    {
        let bytes = self.bytes.clone();
        assert(bytes@ =~= self.bytes@);
        FilePath { bytes }
    }
}

/// Copies a path, if there is one.
pub fn clone_path(path: &Option<FilePath>) -> (r: Option<FilePath>)
    ensures
        path_view(r) == path_view(*path),
{
    match path {
        Some(path) => Some(path.clone()),
        None => None,
    }
}

/// Copies several paths.
pub fn clone_paths(v: &Vec<FilePath>) -> (r: Vec<FilePath>)
    ensures
        paths(r@) == paths(v@),
{
    let mut r: Vec<FilePath> = Vec::new();
    let mut i: usize = 0;
    while i < v.len()
        invariant
            i <= v@.len(),
            r@.len() == i,
            forall|j: int| 0 <= j < i ==> (#[trigger] r@[j])@ == v@[j]@,
        decreases v@.len() - i,
    {
        r.push(v[i].clone());
        i = i + 1;
    }
    assert(paths(r@) =~= paths(v@));
    r
}

/// A copy of a path is the same path.
pub proof fn law_path_is_copied(path: FilePath, copy: FilePath)
    requires
        call_ensures(FilePath::clone, (&path,), copy),
    ensures
        copy@ == path@,
{
}

} // verus!
