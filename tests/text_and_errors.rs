use chunked_download::error::DownloadError;
use chunked_download::integrity::{check_digest, digests_match, ContentHasher};
use chunked_download::text::{chrono_now, push_decimal, range_header};

#[test]
fn range_header_names_both_ends() {
    assert_eq!(range_header(0, 67108863), "bytes=0-67108863");
    assert_eq!(range_header(201326592, 209715199), "bytes=201326592-209715199");
    assert_eq!(range_header(0, 0), "bytes=0-0");
}

#[test]
fn decimal_of_extremes() {
    let mut s = String::from("n=");
    push_decimal(&mut s, 0);
    assert_eq!(s, "n=0");
    let mut t = String::new();
    push_decimal(&mut t, u64::MAX);
    assert_eq!(t, "18446744073709551615");
}

#[test]
fn timestamp_is_decimal_seconds() {
    let now = chrono_now();
    assert!(!now.is_empty());
    assert!(now.chars().all(|c| c.is_ascii_digit()));
    assert!(now.parse::<u64>().unwrap() > 1_600_000_000);
}

#[test]
fn digests_compare_ignoring_case() {
    assert!(digests_match("ABCDEF0123", "abcdef0123"));
    assert!(digests_match("abcdef0123", "ABCDEF0123"));
    assert!(!digests_match("abcdef0123", "abcdef0124"));
    assert!(check_digest("AbC", "abc").is_ok());
}

#[test]
fn digest_mismatch_names_both() {
    match check_digest("aa", "bb") {
        Err(DownloadError::HashMismatch { expected, actual }) => {
            assert_eq!(expected, "aa");
            assert_eq!(actual, "bb");
        }
        other => panic!("unexpected {:?}", other),
    }
}

#[test]
fn every_error_has_its_message() {
    let cases: Vec<(DownloadError, &str)> = vec![
        (DownloadError::ProbeFailed("timeout".to_string()), "Probe failed: timeout"),
        (DownloadError::UnsupportedServer, "Server does not support range requests"),
        (DownloadError::EmptyFile, "Server reported an empty file"),
        (DownloadError::Transport("reset".to_string()), "Request error: reset"),
        (DownloadError::Io("disk full".to_string()), "File error: disk full"),
        (DownloadError::BodyOverrun { index: 1 }, "Chunk body longer than its range"),
        (DownloadError::ShortBody { index: 1 }, "Chunk body shorter than its range"),
        (DownloadError::NoSuchChunk { index: 9 }, "Unknown chunk"),
        (
            DownloadError::HashMismatch { expected: "aa".to_string(), actual: "bb".to_string() },
            "SHA256 mismatch: expected aa, got bb",
        ),
        (DownloadError::Cancelled, "Cancelled"),
        (DownloadError::CancelledByUser, "Cancelled by user"),
        (DownloadError::MissingDestination, "No destination path for the finished file"),
        (DownloadError::NotFound, "Download not found"),
        (DownloadError::NoResumeData, "No progress file found"),
    ];
    for (e, m) in cases {
        assert_eq!(e.message(), m);
    }
}

#[test]
fn content_hasher_gives_sha256_hex() {
    let empty = ContentHasher::new();
    assert_eq!(empty.finish(), "e3b0c44298fc1c149afbf4c8996fb92427ae41e4649b934ca495991b7852b855");
    let mut h = ContentHasher::new();
    h.update(b"ab");
    h.update(b"");
    h.update(b"c");
    assert_eq!(h.finish(), "ba7816bf8f01cfea414140de5dae2223b00361a396177a9cb410ff61f20015ad");
}

#[test]
fn content_hasher_feeds_in_pieces() {
    let data: Vec<u8> = (0..200_000u32).map(|i| (i % 251) as u8).collect();
    let mut whole = ContentHasher::new();
    whole.update(&data);
    let mut pieces = ContentHasher::new();
    for piece in data.chunks(65536) {
        pieces.update(piece);
    }
    let a = whole.finish();
    assert_eq!(a, pieces.finish());
    assert_eq!(a.len(), 64);
    assert!(a.chars().all(|c| c.is_ascii_digit() || ('a'..='f').contains(&c)));
}
