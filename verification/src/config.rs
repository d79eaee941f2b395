//! Where the pictures are and where their thumbnails are kept.

use vstd::prelude::*;

verus! {

/// The name of the directory that holds the thumbnails. It lies directly
/// under the picture directory, and no directory of this name is ever
/// searched for pictures.
pub open spec fn cache_dir_name() -> Seq<char> {
    ".thumbnails"@
}

/// The name of the cache directory, spelled out.
pub proof fn lemma_cache_dir_name()
    ensures
        cache_dir_name() == seq!['.', 't', 'h', 'u', 'm', 'b', 'n', 'a', 'i', 'l', 's'],
        cache_dir_name().len() == 11,
        forall|k: int| 0 <= k < 11 ==> cache_dir_name()[k] != '/',
{
    reveal_strlit(".thumbnails");
}

/// The name of the directory that holds the thumbnails.
pub fn cache_dir() -> (name: &'static str)
    ensures
        name@ == cache_dir_name(),
{
    ".thumbnails"
}

/// The cache directory of the picture directory `pic_dir`.
pub open spec fn cache_dir_of(pic_dir: Seq<char>) -> Seq<char> {
    pic_dir + "/"@ + cache_dir_name()
}

/// The two directories that the gallery works on.
#[derive(Clone, Debug)]
pub struct AppConfig {
    /// The root of the pictures.
    pub pic_dir: String,
    /// The root of their thumbnails.
    pub thumb_dir: String,
}

impl AppConfig {
    /// The configuration for the pictures under `pic_dir`: their thumbnails go
    /// to the cache directory directly under it.
    pub fn new(pic_dir: String) -> (config: Self)
        ensures
            config.pic_dir@ == pic_dir@,
            config.thumb_dir@ == cache_dir_of(pic_dir@),
    {
        let mut thumb_dir = pic_dir.clone();
        thumb_dir.append("/");
        thumb_dir.append(cache_dir());
        AppConfig { pic_dir, thumb_dir }
    }
}

} // verus!
