//! Slash-separated paths.
//!
//! A path is a string of segments separated by `/`. Empty segments and `.`
//! segments name nothing, so `a/b/`, `a//b` and `a/b/.` all end in the name
//! `b`; a path that ends in `..` has no name.

use vstd::prelude::*;
use crate::text::{chars_of, last_index_of, lemma_last_index_of, lowercase, rfind, spells};

verus! {

/// The container format of an image file, told by its extension.
#[derive(Clone, Copy, PartialEq, Eq, Debug, Structural)]
pub enum ImageKind {
    Jpeg,
    Png,
    Gif,
    WebP,
    Bmp,
    Ico,
}

/// The text behind the last `/` of `path`: all of it where it holds no `/`.
pub open spec fn last_segment(path: Seq<char>) -> Seq<char> {
    path.subrange(last_index_of(path, '/') + 1, path.len() as int)
}

/// Where the name of `path` starts and ends, if it has one: the last segment
/// that is neither empty nor `.`, unless that segment is `..`.
pub open spec fn name_bounds(path: Seq<char>) -> Option<(int, int)>
    decreases path.len(),
{
    let cut = last_index_of(path, '/');
    let name = last_segment(path);
    if path.len() == 0 {
        None
    } else if name.len() == 0 || name == seq!['.'] {
        if 0 <= cut < path.len() {
            name_bounds(path.take(cut))
        } else {
            None
        }
    } else if name == seq!['.', '.'] {
        None
    } else {
        Some((cut + 1, path.len() as int))
    }
}

/// The final name of `path`: `cat.png` for `a/cat.png` and for `a/cat.png/`.
pub open spec fn file_name_of(path: Seq<char>) -> Option<Seq<char>> {
    match name_bounds(path) {
        Some((start, end)) => Some(path.subrange(start, end)),
        None => None,
    }
}

/// The extension of a file name: what follows its last `.`, unless the name
/// holds no `.` or only the one it starts with.
pub open spec fn extension_of_name(name: Seq<char>) -> Option<Seq<char>> {
    let dot = last_index_of(name, '.');
    if dot <= 0 {
        None
    } else {
        Some(name.subrange(dot + 1, name.len() as int))
    }
}

/// The extension of the final name of `path`, without the dot.
pub open spec fn extension_of(path: Seq<char>) -> Option<Seq<char>> {
    match file_name_of(path) {
        Some(name) => extension_of_name(name),
        None => None,
    }
}

/// The image format that an extension stands for, whatever the case of its
/// ASCII letters.
pub open spec fn kind_of_extension(extension: Seq<char>) -> Option<ImageKind> {
    let e = lowercase(extension);
    if e == "jpg"@ || e == "jpeg"@ {
        Some(ImageKind::Jpeg)
    } else if e == "png"@ {
        Some(ImageKind::Png)
    } else if e == "gif"@ {
        Some(ImageKind::Gif)
    } else if e == "webp"@ {
        Some(ImageKind::WebP)
    } else if e == "bmp"@ {
        Some(ImageKind::Bmp)
    } else if e == "ico"@ {
        Some(ImageKind::Ico)
    } else {
        None
    }
}

/// The image format that the extension of `path` stands for.
pub open spec fn image_kind_of(path: Seq<char>) -> Option<ImageKind> {
    match extension_of(path) {
        Some(extension) => kind_of_extension(extension),
        None => None,
    }
}

/// Whether `path` names an image file: its extension is one of `jpg`, `jpeg`,
/// `png`, `gif`, `webp`, `bmp`, `ico`, in any case.
pub open spec fn is_image_path(path: Seq<char>) -> bool {
    image_kind_of(path) is Some
}

/// `relative` under `base`: a `/` comes between the two unless `base` is empty
/// or ends in one. A `relative` that starts with `/` stands for itself.
pub open spec fn joined(base: Seq<char>, relative: Seq<char>) -> Seq<char> {
    if relative.len() > 0 && relative[0] == '/' {
        relative
    } else if base.len() == 0 || base.last() == '/' {
        base + relative
    } else {
        base + "/"@ + relative
    }
}

/// `s` without the `/` characters at its end; a string of nothing but `/`
/// keeps one.
pub open spec fn without_trailing_slashes(s: Seq<char>) -> Seq<char>
    decreases s.len(),
{
    if s.len() >= 2 && s.last() == '/' {
        without_trailing_slashes(s.drop_last())
    } else {
        s
    }
}

/// The directory that holds the final name of `path`: what stands before the
/// name, without the separators at its end. A path without a name has none.
pub open spec fn parent_of(path: Seq<char>) -> Option<Seq<char>> {
    match name_bounds(path) {
        Some((start, end)) => Some(without_trailing_slashes(path.take(start))),
        None => None,
    }
}

/// Finds the name of the path held in `chars`.
pub(crate) fn find_name(chars: &Vec<char>) -> (r: Option<(usize, usize)>)
    ensures
        match r {
            Some((start, end)) => start < end <= chars.len() && name_bounds(chars@) == Some(
                (start as int, end as int),
            ),
            None => name_bounds(chars@) is None,
        },
{
    let mut end: usize = chars.len();
    assert(chars@.take(end as int) =~= chars@);
    while end > 0
        invariant
            end <= chars.len(),
            name_bounds(chars@) == name_bounds(chars@.take(end as int)),
        decreases end,
    {
        let ghost path = chars@.take(end as int);
        proof {
            lemma_last_index_of(path, '/');
        }
        let cut = rfind(chars, 0, end, '/');
        let start: usize = match cut {
            Some(i) => i + 1,
            None => 0,
        };
        let ghost name = last_segment(path);
        let length: usize = end - start;
        if length == 0 || (length == 1 && chars[start] == '.') {
            assert(name.len() == 0 || name =~= seq!['.']);
            match cut {
                Some(i) => {
                    assert(path.take(i as int) =~= chars@.take(i as int));
                    end = i;
                },
                None => {
                    return None;
                },
            }
        } else if length == 2 && chars[start] == '.' && chars[start + 1] == '.' {
            assert(name =~= seq!['.', '.']);
            return None;
        } else {
            assert(name != seq!['.'] && name != seq!['.', '.']) by {
                assert(seq!['.'].len() == 1 && seq!['.'][0] == '.');
                assert(seq!['.', '.'].len() == 2 && seq!['.', '.'][0] == '.' && seq!['.', '.'][1]
                    == '.');
            }
            return Some((start, end));
        }
    }
    None
}

/// The final name of `path`, if it has one.
pub fn file_name(path: &str) -> (r: Option<String>)
    ensures
        match r {
            Some(name) => file_name_of(path@) == Some(name@),
            None => file_name_of(path@) is None,
        },
{
    let chars = chars_of(path);
    match find_name(&chars) {
        Some((start, end)) => Some(path.substring_char(start, end).to_owned()),
        None => None,
    }
}

/// Finds the extension of the name `chars[start..end]`: where it starts.
fn find_extension(chars: &Vec<char>, start: usize, end: usize) -> (r: Option<usize>)
    requires
        start <= end <= chars.len(),
    ensures
        match r {
            Some(from) => start < from <= end && extension_of_name(
                chars@.subrange(start as int, end as int),
            ) == Some(chars@.subrange(from as int, end as int)),
            None => extension_of_name(chars@.subrange(start as int, end as int)) is None,
        },
{
    let ghost name = chars@.subrange(start as int, end as int);
    match rfind(chars, start, end, '.') {
        Some(dot) => {
            if dot == start {
                None
            } else {
                assert(name.subrange(dot - start + 1, name.len() as int) =~= chars@.subrange(
                    dot + 1,
                    end as int,
                ));
                Some(dot + 1)
            }
        },
        None => None,
    }
}

/// The extension of the final name of `path`, without the dot.
pub fn extension(path: &str) -> (r: Option<String>)
    ensures
        match r {
            Some(e) => extension_of(path@) == Some(e@),
            None => extension_of(path@) is None,
        },
{
    let chars = chars_of(path);
    match find_name(&chars) {
        Some((start, end)) => match find_extension(&chars, start, end) {
            Some(from) => Some(path.substring_char(from, end).to_owned()),
            None => None,
        },
        None => None,
    }
}

/// The image format that the extension of `path` stands for, if it is one of
/// those that this library serves.
pub fn image_kind(path: &str) -> (r: Option<ImageKind>)
    ensures
        r == image_kind_of(path@),
{
    let chars = chars_of(path);
    match find_name(&chars) {
        Some((start, end)) => match find_extension(&chars, start, end) {
            Some(from) => {
                if spells(&chars, from, end, "jpg") || spells(&chars, from, end, "jpeg") {
                    Some(ImageKind::Jpeg)
                } else if spells(&chars, from, end, "png") {
                    Some(ImageKind::Png)
                } else if spells(&chars, from, end, "gif") {
                    Some(ImageKind::Gif)
                } else if spells(&chars, from, end, "webp") {
                    Some(ImageKind::WebP)
                } else if spells(&chars, from, end, "bmp") {
                    Some(ImageKind::Bmp)
                } else if spells(&chars, from, end, "ico") {
                    Some(ImageKind::Ico)
                } else {
                    None
                }
            },
            None => None,
        },
        None => None,
    }
}

/// Whether `path` names an image file, by its extension alone: the file is
/// not looked at.
pub fn is_image_file(path: &str) -> (r: bool)
    ensures
        r == is_image_path(path@),
{
    image_kind(path).is_some()
}

/// Puts `relative` under `base`.
pub fn join(base: &str, relative: &str) -> (r: String)
    ensures
        r@ == joined(base@, relative@),
{
    let tail = chars_of(relative);
    if tail.len() > 0 && tail[0] == '/' {
        return relative.to_owned();
    }
    let head = chars_of(base);
    let mut out = base.to_owned();
    if head.len() > 0 && head[head.len() - 1] != '/' {
        out.append("/");
    }
    out.append(relative);
    out
}

/// The place of the thumbnail of `relative_path` in the cache: the same
/// relative path under `thumb_dir`.
pub fn get_thumbnail_path(thumb_dir: &str, relative_path: &str) -> (r: String)
    ensures
        r@ == joined(thumb_dir@, relative_path@),
{
    join(thumb_dir, relative_path)
}

/// The directory that holds the final name of `path`.
pub fn parent_dir(path: &str) -> (r: Option<String>)
    ensures
        match r {
            Some(dir) => parent_of(path@) == Some(dir@),
            None => parent_of(path@) is None,
        },
{
    let chars = chars_of(path);
    match find_name(&chars) {
        Some((start, _end)) => {
            let mut keep: usize = start;
            while keep >= 2 && chars[keep - 1] == '/'
                invariant
                    keep <= start <= chars.len(),
                    without_trailing_slashes(chars@.take(start as int))
                        == without_trailing_slashes(chars@.take(keep as int)),
                decreases keep,
            {
                assert(chars@.take(keep as int).drop_last() =~= chars@.take(keep - 1));
                keep = keep - 1;
            }
            Some(path.substring_char(0, keep).to_owned())
        },
        None => None,
    }
}

} // verus!
