use fs_undo::digest::{digest_bytes, hash_dir, ContentDigest};
use fs_undo::error::{Error, ValidationError};
use fs_undo::object::Type as ObjType;

// The published SHA-256 value of "abc".
const ABC_SHA256: [u8; 32] = [
    0xba, 0x78, 0x16, 0xbf, 0x8f, 0x01, 0xcf, 0xea, 0x41, 0x41, 0x40, 0xde, 0x5d, 0xae, 0x22,
    0x23, 0xb0, 0x03, 0x61, 0xa3, 0x96, 0x17, 0x7a, 0x9c, 0xb4, 0x10, 0xff, 0x61, 0xf2, 0x00,
    0x15, 0xad,
];

#[test]
fn digest_matches_published_vector() {
    assert_eq!(digest_bytes(b"abc"), ContentDigest(ABC_SHA256));
}

#[test]
fn digest_is_deterministic_and_discriminating() {
    assert_eq!(digest_bytes(b"hello"), digest_bytes(b"hello"));
    assert_ne!(digest_bytes(b"hello"), digest_bytes(b"world"));
    assert!(digest_bytes(b"hello").matches(&digest_bytes(b"hello")));
    assert!(!digest_bytes(b"hello").matches(&digest_bytes(b"world")));
}

#[test]
fn directory_digest_hashes_the_concatenated_walk() {
    let parts: Vec<Vec<u8>> = vec![b"ab".to_vec(), b"c".to_vec()];
    assert_eq!(hash_dir(&parts), digest_bytes(b"abc"));
    let empty: Vec<Vec<u8>> = Vec::new();
    assert_eq!(hash_dir(&empty), digest_bytes(b""));
}

#[test]
fn messages_render() {
    assert_eq!(
        ValidationError::NotExists.message(),
        "object no longer exists"
    );
    assert_eq!(
        ValidationError::WrongType {
            expected: ObjType::File,
            got: ObjType::Dir,
        }
        .message(),
        "expected the object to be file, got directory"
    );
    assert_eq!(
        Error::DriftError.message(),
        "the object changed since the command ran"
    );
    assert_eq!(
        Error::NameTaken(fs_undo::path::AbsPath {
            segs: vec!["dir".to_string(), "a.txt".to_string()],
        })
        .message(),
        "a file object at /dir/a.txt already exists"
    );
    assert_eq!(
        Error::ForbiddenNameChars.message(),
        "file names can't include '/' or '\\0'"
    );
}
