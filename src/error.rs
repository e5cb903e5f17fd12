use vstd::prelude::*;

verus! {

/// What can go wrong in a download, and in the requests that control one.
#[derive(Clone, Debug)]
pub enum DownloadError {
    /// The size or range support of the remote file could not be learned.
    ProbeFailed(String),
    /// The server does not answer range requests.
    UnsupportedServer,
    /// The remote file is empty, so there is nothing to split.
    EmptyFile,
    /// The network failed while a chunk was fetched.
    Transport(String),
    /// A local file operation failed.
    Io(String),
    /// A chunk's body held more bytes than its range.
    BodyOverrun { index: u64 },
    /// A chunk's body ended before its range was filled.
    ShortBody { index: u64 },
    /// No chunk has this index.
    NoSuchChunk { index: u64 },
    /// The finished file's digest is not the expected one.
    HashMismatch { expected: String, actual: String },
    /// A chunk task saw a pause or cancel request and stopped.
    Cancelled,
    /// The user cancelled the download.
    CancelledByUser,
    /// The session has no destination path to move the finished file to.
    MissingDestination,
    /// No download has this id.
    NotFound,
    /// No progress record is stored for this id.
    NoResumeData,
}

/// The text that `DownloadError::message` gives for each error.
pub open spec fn message_of(e: DownloadError) -> Seq<char> {
    match e {
        DownloadError::ProbeFailed(m) => "Probe failed: "@ + m@,
        DownloadError::UnsupportedServer => "Server does not support range requests"@,
        DownloadError::EmptyFile => "Server reported an empty file"@,
        DownloadError::Transport(m) => "Request error: "@ + m@,
        DownloadError::Io(m) => "File error: "@ + m@,
        DownloadError::BodyOverrun { .. } => "Chunk body longer than its range"@,
        DownloadError::ShortBody { .. } => "Chunk body shorter than its range"@,
        DownloadError::NoSuchChunk { .. } => "Unknown chunk"@,
        DownloadError::HashMismatch { expected, actual } => "SHA256 mismatch: expected "@
            + expected@ + ", got "@ + actual@,
        DownloadError::Cancelled => "Cancelled"@,
        DownloadError::CancelledByUser => "Cancelled by user"@,
        DownloadError::MissingDestination => "No destination path for the finished file"@,
        DownloadError::NotFound => "Download not found"@,
        DownloadError::NoResumeData => "No progress file found"@,
    }
}

fn joined(a: &str, b: &str) -> (r: String)
    ensures
        r@ == a@ + b@,
{
    let mut s = String::from_str(a);
    s.append(b);
    s
}

impl DownloadError {
    /// A human-readable description, the `last_error` text of a failed session.
    pub fn message(&self) -> (r: String)
        ensures
            r@ == message_of(*self),
    {
        match self {
            DownloadError::ProbeFailed(m) => joined("Probe failed: ", m.as_str()),
            DownloadError::UnsupportedServer => String::from_str(
                "Server does not support range requests",
            ),
            DownloadError::EmptyFile => String::from_str("Server reported an empty file"),
            DownloadError::Transport(m) => joined("Request error: ", m.as_str()),
            DownloadError::Io(m) => joined("File error: ", m.as_str()),
            DownloadError::BodyOverrun { .. } => String::from_str(
                "Chunk body longer than its range",
            ),
            DownloadError::ShortBody { .. } => String::from_str(
                "Chunk body shorter than its range",
            ),
            DownloadError::NoSuchChunk { .. } => String::from_str("Unknown chunk"),
            DownloadError::HashMismatch { expected, actual } => {
                let mut s = joined("SHA256 mismatch: expected ", expected.as_str());
                s.append(", got ");
                s.append(actual.as_str());
                s
            },
            DownloadError::Cancelled => String::from_str("Cancelled"),
            DownloadError::CancelledByUser => String::from_str("Cancelled by user"),
            DownloadError::MissingDestination => String::from_str(
                "No destination path for the finished file",
            ),
            DownloadError::NotFound => String::from_str("Download not found"),
            DownloadError::NoResumeData => String::from_str("No progress file found"),
        }
    }
}

} // verus!
