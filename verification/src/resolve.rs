//! Resolving a picture to its thumbnail.
//!
//! A request goes through up to five steps, and between two steps the caller
//! does one thing on disk and reports how it went:
//!
//! 1. `begin` joins the paths and turns away what is no image file;
//! 2. the caller looks at the source and at the cached thumbnail, and
//!    `Request::probed` decides: not found, ready, or to be generated;
//! 3. the caller reads the source, and `Generation::loaded` decodes and
//!    scales it;
//! 4. the caller creates the directory of the thumbnail, and
//!    `Scaled::directories_created` encodes the thumbnail;
//! 5. the caller writes the bytes, and `Encoded::written` hands out the path.
//!
//! A step can only be taken with what the step before handed out, so nothing
//! is generated for a source that was not found.

use vstd::prelude::*;
use crate::codec::{
    can_resize, decode_image, decoded_size, dimensions, encode_image, encoded_bytes, error_text,
    image_size, resampled, resize_fits, resize_image, says, tightly_held, Filter,
};
use crate::paths::{
    get_thumbnail_path, image_kind, image_kind_of, is_image_path, join, joined, parent_dir,
    parent_of, ImageKind,
};
use crate::scale::{
    lemma_scaled_side, longer_side, scaled_dimensions, thumbnail_dimensions,
};

verus! {

/// What the caller found on disk: whether the source exists, when it was
/// last modified, and when the cached thumbnail was. A time is `None` where
/// the file is missing or its time cannot be had; times are counted in
/// nanoseconds from one fixed instant.
#[derive(Clone, Copy, Debug)]
pub struct Probe {
    pub source_exists: bool,
    pub source_modified: Option<i128>,
    pub thumbnail_modified: Option<i128>,
}

/// The step at which generating a thumbnail failed.
#[derive(Clone, Copy, PartialEq, Eq, Debug, Structural)]
pub enum Stage {
    /// The source could not be read.
    Read,
    /// The source is no picture of the format that its extension names.
    Decode,
    /// The thumbnail would be larger than an allocation can be.
    Resize,
    /// The directory of the thumbnail could not be created.
    CreateDir,
    /// The thumbnail could not be encoded.
    Encode,
    /// The thumbnail could not be written.
    Write,
}

/// A thumbnail could not be generated.
#[derive(Clone, Debug)]
pub struct GenerationFailed {
    /// The path of the source.
    pub source: String,
    /// The step that failed.
    pub stage: Stage,
    /// What the failing step said of it.
    pub cause: String,
}

/// Why a request was not resolved.
#[derive(Clone, Debug)]
pub enum ResolveError {
    /// The source does not exist, or its path names no image file.
    NotFound,
    /// The thumbnail had to be generated and could not be.
    GenerationFailed(GenerationFailed),
}

/// Whether `error` reports that generating the thumbnail of `source` failed
/// at `stage` for the reason `cause`.
pub open spec fn failed_with(
    error: ResolveError,
    source: Seq<char>,
    stage: Stage,
    cause: Seq<char>,
) -> bool {
    error matches ResolveError::GenerationFailed(failure) && failure.source@ == source
        && failure.stage == stage && failure.cause@ == cause
}

/// Whether `error` reports that generating the thumbnail of `source` failed
/// at `stage`, with what `cause` says of itself as the reason.
pub open spec fn failed_saying(
    error: ResolveError,
    source: Seq<char>,
    stage: Stage,
    cause: image::ImageError,
) -> bool {
    error matches ResolveError::GenerationFailed(failure) && failure.source@ == source
        && failure.stage == stage && says(cause, failure.cause@)
}

/// What is said of a thumbnail that is too large to allocate.
pub open spec fn too_large_cause() -> Seq<char> {
    "the thumbnail is too large to allocate"@
}

/// What is said of a thumbnail whose path names no image format.
pub open spec fn no_format_cause() -> Seq<char> {
    "the path of the thumbnail names no image format"@
}

/// What is to be done about a request, going by what was found on disk.
pub enum Verdict {
    NotFound,
    Ready,
    Generate,
}

/// Whether the cached thumbnail is valid: it exists, and it was modified no
/// earlier than the source.
pub open spec fn is_fresh(probe: Probe) -> bool {
    match (probe.source_modified, probe.thumbnail_modified) {
        (Some(source), Some(thumbnail)) => thumbnail >= source,
        _ => false,
    }
}

/// A missing source is not found; a valid thumbnail is ready; any other is
/// to be generated.
pub open spec fn verdict(probe: Probe) -> Verdict {
    if !probe.source_exists {
        Verdict::NotFound
    } else if is_fresh(probe) {
        Verdict::Ready
    } else {
        Verdict::Generate
    }
}

/// A source that does not exist is not found, whatever else was found on
/// disk: nothing is generated for it.
pub proof fn lemma_missing_source_not_found(probe: Probe)
    requires
        !probe.source_exists,
    ensures
        verdict(probe) is NotFound,
{
}

/// Resolving twice generates once. If the first probe led to a thumbnail
/// that was written at `written`, no earlier than the source was modified,
/// and the source is unchanged, then the second probe finds the thumbnail
/// ready: nothing is written again.
pub proof fn lemma_generated_thumbnail_is_ready(first: Probe, written: i128)
    requires
        first.source_exists,
        first.source_modified matches Some(source) && written >= source,
    ensures
        verdict(
            Probe {
                source_exists: true,
                source_modified: first.source_modified,
                thumbnail_modified: Some(written),
            },
        ) is Ready,
{
}

/// A thumbnail that is older than its source is generated anew.
pub proof fn lemma_stale_thumbnail_regenerated(probe: Probe)
    requires
        probe.source_exists,
        probe.source_modified matches Some(source) && probe.thumbnail_modified matches Some(
            thumbnail,
        ) && source > thumbnail,
    ensures
        verdict(probe) is Generate,
{
}

/// What a request holds.
pub struct RequestView {
    pub source: Seq<char>,
    pub thumbnail: Seq<char>,
    pub kind: ImageKind,
    pub max_dimension: u32,
}

/// A request for the thumbnail of an image file.
pub struct Request {
    source: String,
    thumbnail: String,
    kind: ImageKind,
    max_dimension: u32,
}

impl View for Request {
    type V = RequestView;

    closed spec fn view(&self) -> RequestView {
        RequestView {
            source: self.source@,
            thumbnail: self.thumbnail@,
            kind: self.kind,
            max_dimension: self.max_dimension,
        }
    }
}

/// A thumbnail that is to be generated: the source is to be read.
pub struct Generation {
    request: Request,
}

impl View for Generation {
    type V = RequestView;

    closed spec fn view(&self) -> RequestView {
        self.request@
    }
}

/// What the probe of a request led to.
pub enum Decision {
    /// The cached thumbnail at this path is valid.
    Ready(String),
    /// The thumbnail is to be generated.
    Generate(Generation),
}

/// What a scaled picture holds.
pub struct ScaledView {
    pub source: Seq<char>,
    pub thumbnail: Seq<char>,
    pub picture: image::DynamicImage,
}

/// A thumbnail that is scaled and not yet encoded: the directory that is to
/// hold it is to be created.
pub struct Scaled {
    source: String,
    thumbnail: String,
    picture: image::DynamicImage,
}

impl Scaled {
    #[verifier::type_invariant]
    spec fn encodable(self) -> bool {
        tightly_held(self.picture)
    }
}

impl View for Scaled {
    type V = ScaledView;

    closed spec fn view(&self) -> ScaledView {
        ScaledView { source: self.source@, thumbnail: self.thumbnail@, picture: self.picture }
    }
}

/// What an encoded thumbnail holds.
pub struct EncodedView {
    pub source: Seq<char>,
    pub thumbnail: Seq<char>,
    pub bytes: Seq<u8>,
}

/// A thumbnail that is encoded: its bytes are to be written.
pub struct Encoded {
    source: String,
    thumbnail: String,
    bytes: Vec<u8>,
}

impl View for Encoded {
    type V = EncodedView;

    closed spec fn view(&self) -> EncodedView {
        EncodedView { source: self.source@, thumbnail: self.thumbnail@, bytes: self.bytes@ }
    }
}

/// Reports that generating the thumbnail of `source` failed.
fn failure(source: String, stage: Stage, cause: String) -> (error: ResolveError)
    ensures
        failed_with(error, source@, stage, cause@),
{
    ResolveError::GenerationFailed(GenerationFailed { source, stage, cause })
}

/// Starts a request for the thumbnail of `relative_path`, a picture under
/// `root_dir`, in the cache under `cache_dir`, with `max_dimension` as the
/// longer side. A path that names no image file is not found. The paths are
/// joined as they are: that `relative_path` stays under `root_dir` is for the
/// caller to see to.
pub fn begin(root_dir: &str, cache_dir: &str, relative_path: &str, max_dimension: u32) -> (r:
    Result<Request, ResolveError>)
    ensures
        match r {
            Ok(request) => {
                &&& image_kind_of(joined(root_dir@, relative_path@)) == Some(request@.kind)
                &&& request@.source == joined(root_dir@, relative_path@)
                &&& request@.thumbnail == joined(cache_dir@, relative_path@)
                &&& request@.max_dimension == max_dimension
            },
            Err(error) => error is NotFound && !is_image_path(
                joined(root_dir@, relative_path@),
            ),
        },
{
    let source = join(root_dir, relative_path);
    match image_kind(source.as_str()) {
        Some(kind) => {
            let thumbnail = get_thumbnail_path(cache_dir, relative_path);
            Ok(Request { source, thumbnail, kind, max_dimension })
        },
        None => Err(ResolveError::NotFound),
    }
}

impl Request {
    /// The path of the source, which the caller is to look at.
    pub fn source(&self) -> (path: &str)
        ensures
            path@ == self@.source,
    {
        self.source.as_str()
    }

    /// The path of the thumbnail, which the caller is to look at.
    pub fn thumbnail(&self) -> (path: &str)
        ensures
            path@ == self@.thumbnail,
    {
        self.thumbnail.as_str()
    }

    /// Decides by what the caller found on disk. A source that does not exist
    /// is not found; a thumbnail that is valid is ready at its path; in every
    /// other case the thumbnail is to be generated.
    pub fn probed(self, probe: Probe) -> (r: Result<Decision, ResolveError>)
        ensures
            match r {
                Err(error) => error is NotFound && verdict(probe) is NotFound,
                Ok(Decision::Ready(path)) => verdict(probe) is Ready && path@ == self@.thumbnail,
                Ok(Decision::Generate(generation)) => verdict(probe) is Generate && generation@
                    == self@,
            },
    {
        if !probe.source_exists {
            return Err(ResolveError::NotFound);
        }
        let fresh = match (probe.source_modified, probe.thumbnail_modified) {
            (Some(source), Some(thumbnail)) => thumbnail >= source,
            _ => false,
        };
        if fresh {
            Ok(Decision::Ready(self.thumbnail))
        } else {
            Ok(Decision::Generate(Generation { request: self }))
        }
    }
}

/// The filter that thumbnails are resampled with.
pub open spec fn thumbnail_filter() -> Filter {
    Filter::Lanczos3
}

/// What becomes of a decoded picture: it is resampled, with the Lanczos
/// filter, to the size that `scaled_dimensions` gives for it; or it fails at
/// `Stage::Resize`, where the resizing does not fit.
pub open spec fn scaled_or_too_large(
    request: RequestView,
    picture: image::DynamicImage,
    r: Result<Scaled, ResolveError>,
) -> bool {
    let (width, height) = image_size(picture);
    let (nwidth, nheight) = scaled_dimensions(width, height, request.max_dimension);
    if resize_fits(width, nwidth as u32, nheight as u32) {
        &&& r matches Ok(scaled)
        &&& scaled@.source == request.source
        &&& scaled@.thumbnail == request.thumbnail
        &&& image_size(scaled@.picture) == (nwidth as u32, nheight as u32)
        &&& resampled(picture, nwidth as u32, nheight as u32, thumbnail_filter(), scaled@.picture)
    } else {
        r matches Err(error) && failed_with(
            error,
            request.source,
            Stage::Resize,
            too_large_cause(),
        )
    }
}

/// The thumbnail of a picture with pixels has `max_dimension` as its longer
/// side, exactly, and no side of it is longer.
pub proof fn lemma_thumbnail_reaches_edge(
    request: RequestView,
    picture: image::DynamicImage,
    r: Result<Scaled, ResolveError>,
)
    requires
        scaled_or_too_large(request, picture, r),
        r is Ok,
    ensures
        image_size(r->Ok_0@.picture).0 <= request.max_dimension,
        image_size(r->Ok_0@.picture).1 <= request.max_dimension,
        longer_side(image_size(picture).0, image_size(picture).1) > 0 ==> longer_side(
            image_size(r->Ok_0@.picture).0,
            image_size(r->Ok_0@.picture).1,
        ) == request.max_dimension,
{
    let (width, height) = image_size(picture);
    lemma_scaled_side(width, longer_side(width, height), request.max_dimension);
    lemma_scaled_side(height, longer_side(width, height), request.max_dimension);
}

/// A picture with pixels gets a thumbnail whose longer side is
/// `max_dimension`, exactly, whenever it is small enough for a machine of
/// any word size: sixteen bytes a pixel, over the width of the picture and
/// the height of the thumbnail, stay within two gibibytes.
pub proof fn lemma_thumbnail_of_picture(
    request: RequestView,
    picture: image::DynamicImage,
    r: Result<Scaled, ResolveError>,
)
    requires
        scaled_or_too_large(request, picture, r),
        16 * image_size(picture).0 * request.max_dimension <= 0x7fff_ffff,
        16 * request.max_dimension * request.max_dimension <= 0x7fff_ffff,
    ensures
        r is Ok,
        longer_side(image_size(picture).0, image_size(picture).1) > 0 ==> longer_side(
            image_size(r->Ok_0@.picture).0,
            image_size(r->Ok_0@.picture).1,
        ) == request.max_dimension,
{
    let (width, height) = image_size(picture);
    let longer = longer_side(width, height);
    let max = request.max_dimension as int;
    lemma_scaled_side(width, longer, request.max_dimension);
    lemma_scaled_side(height, longer, request.max_dimension);
    let (nwidth, nheight) = scaled_dimensions(width, height, request.max_dimension);
    assert(16 * width * nheight <= 16 * width * max) by (nonlinear_arith)
        requires
            0 <= nheight <= max,
            0 <= width,
    ;
    assert(16 * nwidth * nheight <= 16 * max * max) by (nonlinear_arith)
        requires
            0 <= nheight <= max,
            0 <= nwidth <= max,
    ;
    assert(isize::MAX >= 0x7fff_ffff);
    assert(resize_fits(width, nwidth as u32, nheight as u32));
    lemma_thumbnail_reaches_edge(request, picture, r);
}

/// What becomes of a scaled picture once its directory is there: it is
/// encoded in the format that the extension of the thumbnail names, and the
/// bytes are what the encoder gives for it; or it fails at `Stage::Encode`,
/// where the extension names no format or the encoder refuses the picture.
pub open spec fn encoded_or_refused(scaled: ScaledView, r: Result<Encoded, ResolveError>) -> bool {
    match image_kind_of(scaled.thumbnail) {
        None => r matches Err(error) && failed_with(
            error,
            scaled.source,
            Stage::Encode,
            no_format_cause(),
        ),
        Some(kind) => match encoded_bytes(scaled.picture, kind) {
            Some(bytes) => {
                &&& r matches Ok(encoded)
                &&& encoded@.source == scaled.source
                &&& encoded@.thumbnail == scaled.thumbnail
                &&& encoded@.bytes == bytes
            },
            None => r matches Err(error) && exists|refusal: image::ImageError| #[trigger]
                failed_saying(error, scaled.source, Stage::Encode, refusal),
        },
    }
}

impl Generation {
    /// The path of the source, which the caller is to read.
    pub fn source(&self) -> (path: &str)
        ensures
            path@ == self@.source,
    {
        self.request.source.as_str()
    }

    /// Takes the outcome of reading the source: its bytes, or what the caller
    /// says of the failure. The bytes are decoded in the format that the
    /// extension of the source names, and the picture is scaled as `decoded`
    /// says.
    pub fn loaded(self, contents: Result<Vec<u8>, String>) -> (r: Result<Scaled, ResolveError>)
        ensures
            match contents {
                Err(cause) => r matches Err(error) && failed_with(
                    error,
                    self@.source,
                    Stage::Read,
                    cause@,
                ),
                Ok(bytes) => match decoded_size(bytes@, self@.kind) {
                    None => r matches Err(error) && exists|refusal: image::ImageError| #[trigger]
                        failed_saying(error, self@.source, Stage::Decode, refusal),
                    Some(size) => exists|picture: image::DynamicImage|
                        image_size(picture) == size && #[trigger] scaled_or_too_large(
                            self@,
                            picture,
                            r,
                        ),
                },
            },
    {
        match contents {
            Err(cause) => Err(failure(self.request.source, Stage::Read, cause)),
            Ok(bytes) => {
                let decoded = decode_image(bytes.as_slice(), self.request.kind);
                self.decoded(decoded)
            },
        }
    }

    /// Takes the outcome of decoding the source. A picture is resampled, with
    /// the Lanczos filter, to the size that `scaled_dimensions` gives for it,
    /// unless that would take more memory than can be allocated.
    pub fn decoded(self, decoded: Result<image::DynamicImage, image::ImageError>) -> (r: Result<
        Scaled,
        ResolveError,
    >)
        ensures
            match decoded {
                Err(refusal) => r matches Err(error) && failed_saying(
                    error,
                    self@.source,
                    Stage::Decode,
                    refusal,
                ),
                Ok(picture) => scaled_or_too_large(self@, picture, r),
            },
    {
        let request = self.request;
        match decoded {
            Err(error) => Err(failure(request.source, Stage::Decode, error_text(&error))),
            Ok(picture) => {
                let (width, height) = dimensions(&picture);
                let (nwidth, nheight) = thumbnail_dimensions(width, height, request.max_dimension);
                if can_resize(width, nwidth, nheight) {
                    let resized = resize_image(&picture, nwidth, nheight, Filter::Lanczos3);
                    Ok(
                        Scaled {
                            source: request.source,
                            thumbnail: request.thumbnail,
                            picture: resized,
                        },
                    )
                } else {
                    Err(
                        failure(
                            request.source,
                            Stage::Resize,
                            "the thumbnail is too large to allocate".to_owned(),
                        ),
                    )
                }
            },
        }
    }
}

impl Scaled {
    /// The path of the thumbnail.
    pub fn thumbnail(&self) -> (path: &str)
        ensures
            path@ == self@.thumbnail,
    {
        self.thumbnail.as_str()
    }

    /// The directory that is to hold the thumbnail, which the caller is to
    /// create with all that leads to it; `None` where the path of the
    /// thumbnail names no file.
    pub fn directory(&self) -> (dir: Option<String>)
        ensures
            match dir {
                Some(d) => parent_of(self@.thumbnail) == Some(d@),
                None => parent_of(self@.thumbnail) is None,
            },
    {
        parent_dir(self.thumbnail.as_str())
    }

    /// Takes the outcome of creating the directory of the thumbnail: `Ok`
    /// also where it was there already or where there was none to create.
    /// The thumbnail is then encoded in the format that the extension of its
    /// path names.
    pub fn directories_created(self, outcome: Result<(), String>) -> (r: Result<
        Encoded,
        ResolveError,
    >)
        ensures
            match outcome {
                Err(cause) => r matches Err(error) && failed_with(
                    error,
                    self@.source,
                    Stage::CreateDir,
                    cause@,
                ),
                Ok(_) => encoded_or_refused(self@, r),
            },
    {
        match outcome {
            Err(cause) => Err(failure(self.source, Stage::CreateDir, cause)),
            Ok(_) => match image_kind(self.thumbnail.as_str()) {
                None => Err(
                    failure(
                        self.source,
                        Stage::Encode,
                        "the path of the thumbnail names no image format".to_owned(),
                    ),
                ),
                Some(kind) => {
                    proof {
                        use_type_invariant(&self);
                    }
                    let encoded = encode_image(&self.picture, kind);
                    self.encoded(encoded)
                },
            },
        }
    }

    /// Takes the outcome of encoding the thumbnail: the bytes are to be
    /// written to the path of the thumbnail.
    pub fn encoded(self, encoded: Result<Vec<u8>, image::ImageError>) -> (r: Result<
        Encoded,
        ResolveError,
    >)
        ensures
            match encoded {
                Err(refusal) => r matches Err(error) && failed_saying(
                    error,
                    self@.source,
                    Stage::Encode,
                    refusal,
                ),
                Ok(bytes) => {
                    &&& r matches Ok(e)
                    &&& e@.source == self@.source
                    &&& e@.thumbnail == self@.thumbnail
                    &&& e@.bytes == bytes@
                },
            },
    {
        match encoded {
            Err(error) => Err(failure(self.source, Stage::Encode, error_text(&error))),
            Ok(bytes) => Ok(Encoded { source: self.source, thumbnail: self.thumbnail, bytes }),
        }
    }
}

impl Encoded {
    /// The path that the bytes are to be written to.
    pub fn thumbnail(&self) -> (path: &str)
        ensures
            path@ == self@.thumbnail,
    {
        self.thumbnail.as_str()
    }

    /// The bytes of the thumbnail.
    pub fn bytes(&self) -> (bytes: &Vec<u8>)
        ensures
            bytes@ == self@.bytes,
    {
        &self.bytes
    }

    /// Takes the outcome of writing the thumbnail, and hands out its path.
    pub fn written(self, outcome: Result<(), String>) -> (r: Result<String, ResolveError>)
        ensures
            match outcome {
                Err(cause) => r matches Err(error) && failed_with(
                    error,
                    self@.source,
                    Stage::Write,
                    cause@,
                ),
                Ok(_) => r matches Ok(path) && path@ == self@.thumbnail,
            },
    {
        match outcome {
            Err(cause) => Err(failure(self.source, Stage::Write, cause)),
            Ok(_) => Ok(self.thumbnail),
        }
    }
}

} // verus!
