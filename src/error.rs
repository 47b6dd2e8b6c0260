use vstd::prelude::*;

verus! {

/// The markup field whose query came back empty.
#[derive(Clone, Copy, Debug, PartialEq, Eq, Structural)]
pub enum Field {
    Title,
    TagName,
    TagValues,
    Rating,
    FavCount,
    ImagePages,
    ResultRows,
    ResultTitle,
    ResultUrl,
    ImageSource,
    HostedUrl,
}

/// What went wrong, by the stage that failed.
#[derive(Clone, Debug, PartialEq, Eq)]
pub enum ExError {
    /// Login or cookie bootstrap failed.
    Auth(String),
    /// A request failed or answered with a non-success status.
    Http(String),
    /// Expected markup was absent.
    Extraction(Field),
    /// A gallery kept offering a next page past the page bound.
    PaginationOverflow,
    /// An image page could not be resolved within the attempt bound.
    ResolutionFailed(String),
    /// The hosting service refused an upload.
    Upload(String),
}

} // verus!
