//! The listing of the gallery: each picture with the name it is shown under.

use vstd::prelude::*;
use crate::paths::{file_name, file_name_of};

verus! {

/// One picture of the gallery.
#[derive(Clone, Debug)]
pub struct ImageInfo {
    /// The path of the picture, relative to the root.
    pub path: String,
    /// The name that the picture is shown under.
    pub name: String,
}

/// The pictures of the gallery, and how many they are.
#[derive(Clone, Debug)]
pub struct ImageListResponse {
    pub count: usize,
    pub images: Vec<ImageInfo>,
}

/// The name that a picture is shown under: the final name of its path, or
/// nothing where the path has no name.
pub open spec fn display_name(path: Seq<char>) -> Seq<char> {
    match file_name_of(path) {
        Some(name) => name,
        None => Seq::empty(),
    }
}

/// Whether `info` is the entry of the picture at `path`.
pub open spec fn describes(info: ImageInfo, path: Seq<char>) -> bool {
    info.path@ == path && info.name@ == display_name(path)
}

/// The entry of the picture at `path`.
pub fn image_info(path: &str) -> (info: ImageInfo)
    ensures
        describes(info, path@),
{
    let name = match file_name(path) {
        Some(name) => name,
        None => String::new(),
    };
    ImageInfo { path: path.to_owned(), name }
}

/// The listing of the pictures at `paths`, in their order.
pub fn list_images(paths: &Vec<String>) -> (response: ImageListResponse)
    ensures
        response.count == paths.len(),
        response.images.len() == paths.len(),
        forall|i: int|
            0 <= i < paths.len() ==> describes(#[trigger] response.images@[i], paths@[i]@),
{
    let mut images: Vec<ImageInfo> = Vec::new();
    let mut i: usize = 0;
    while i < paths.len()
        invariant
            i <= paths.len(),
            images.len() == i,
            forall|k: int| 0 <= k < i ==> describes(#[trigger] images@[k], paths@[k]@),
        decreases paths.len() - i,
    {
        images.push(image_info(paths[i].as_str()));
        i = i + 1;
    }
    ImageListResponse { count: images.len(), images }
}

} // verus!
