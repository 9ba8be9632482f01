use flate2::write::ZlibEncoder;
use flate2::Compression;
use key_purge::archive::{
    decode, decompressed_file_name, text_file_name, text_file_name_for, text_of_inflated,
};
use key_purge::error::PurgeError;
use std::io::Write;
use std::path::Path;

fn compress(plain: &[u8]) -> Vec<u8> {
    let mut encoder = ZlibEncoder::new(Vec::new(), Compression::default());
    encoder.write_all(plain).unwrap();
    encoder.finish().unwrap()
}

#[test]
fn decode_gives_back_what_was_compressed() {
    let texts = [
        "",
        "a",
        "user:1\nuser:2\nuser:3\n",
        "no newline at the end",
        "cl\u{e9}\nkey with spaces\n\n\u{1f511}\n",
    ];
    for text in texts {
        let archive = compress(text.as_bytes());
        assert_ne!(archive.as_slice(), text.as_bytes());
        assert_eq!(decode(&archive), Ok(text.to_string()));
    }
}

#[test]
fn decode_gives_back_a_long_key_list() {
    let mut text = String::new();
    for i in 0..5000 {
        text.push_str(&format!("session:{i}\n"));
    }
    let archive = compress(text.as_bytes());
    assert!(archive.len() < text.len());
    assert_eq!(decode(&archive), Ok(text));
}

#[test]
fn decode_refuses_what_is_no_zlib_stream() {
    assert_eq!(decode(b"user:1\nuser:2\n"), Err(PurgeError::Decode));
    assert_eq!(decode(&[]), Err(PurgeError::Decode));
}

#[test]
fn decode_refuses_a_truncated_stream() {
    let archive = compress("user:1\nuser:2\nuser:3\n".as_bytes());
    let cut = &archive[..archive.len() / 2];
    assert_eq!(decode(cut), Err(PurgeError::Decode));
}

#[test]
fn decode_refuses_bytes_that_are_no_text() {
    let archive = compress(&[b'a', 0xff, 0xfe, b'\n']);
    assert_eq!(decode(&archive), Err(PurgeError::Decode));
}

#[test]
fn text_of_inflated_reads_utf8() {
    assert_eq!(text_of_inflated(Some(b"k1\nk2".to_vec())), Ok("k1\nk2".to_string()));
    assert_eq!(text_of_inflated(Some(vec![0xc3, 0xa9])), Ok("\u{e9}".to_string()));
    assert_eq!(text_of_inflated(Some(Vec::new())), Ok(String::new()));
}

#[test]
fn text_of_inflated_fails_on_missing_or_invalid_bytes() {
    assert_eq!(text_of_inflated(None), Err(PurgeError::Decode));
    assert_eq!(text_of_inflated(Some(vec![0xc3])), Err(PurgeError::Decode));
    assert_eq!(text_of_inflated(Some(vec![0x80, b'a'])), Err(PurgeError::Decode));
}

#[test]
fn text_file_name_appends_the_extension() {
    assert_eq!(text_file_name("keys"), "keys.txt");
    assert_eq!(text_file_name(""), ".txt");
    assert_eq!(text_file_name("dump.2024"), "dump.2024.txt");
}

#[test]
fn decompressed_file_name_replaces_the_extension() {
    assert_eq!(decompressed_file_name("keys.zlib"), Some("keys.txt".to_string()));
    assert_eq!(decompressed_file_name("keys"), Some("keys.txt".to_string()));
    assert_eq!(decompressed_file_name("dump.keys.z"), Some("dump.keys.txt".to_string()));
    assert_eq!(decompressed_file_name(".hidden"), Some(".hidden.txt".to_string()));
}

#[test]
fn decompressed_file_name_stays_beside_the_archive() {
    assert_eq!(decompressed_file_name("dumps/keys.zz"), Some("dumps/keys.txt".to_string()));
    assert_eq!(decompressed_file_name("/var/tmp/a.b.z"), Some("/var/tmp/a.b.txt".to_string()));
    assert_eq!(decompressed_file_name("./keys.zz"), Some("./keys.txt".to_string()));
    assert_eq!(decompressed_file_name("../old/keys"), Some("../old/keys.txt".to_string()));
    assert_eq!(decompressed_file_name("/keys.zz"), Some("/keys.txt".to_string()));
    assert_eq!(decompressed_file_name("a/b/c/d.e"), Some("a/b/c/d.txt".to_string()));
}

#[test]
fn decompressed_file_name_is_what_the_path_rules_give() {
    for file in ["keys.zz", "dumps/keys.zz", "/var/tmp/a.b.z", "dumps/keys.zz/", "a//b.c", "x/.y"] {
        let stem = Path::new(file).file_stem().unwrap().to_str().unwrap();
        let expected = Path::new(file).with_file_name(format!("{stem}.txt"));
        assert_eq!(decompressed_file_name(file), Some(expected.to_str().unwrap().to_string()));
    }
}

#[test]
fn decompressed_file_name_needs_a_stem() {
    assert_eq!(decompressed_file_name(""), None);
    assert_eq!(decompressed_file_name(".."), None);
    assert_eq!(decompressed_file_name("/"), None);
    assert_eq!(decompressed_file_name("dumps/.."), None);
}

#[test]
fn text_file_name_for_follows_the_directory_and_the_stem() {
    assert_eq!(
        text_file_name_for("dumps/", Some("keys".to_string())),
        Some("dumps/keys.txt".to_string())
    );
    assert_eq!(text_file_name_for("", Some("keys".to_string())), Some("keys.txt".to_string()));
    assert_eq!(text_file_name_for("/", Some(String::new())), Some("/.txt".to_string()));
    assert_eq!(text_file_name_for("dumps/", None), None);
}

#[test]
fn archive_of_the_empty_text_gives_an_empty_file_beside_it() {
    let archive = [0x78, 0x9c, 0x03, 0x00, 0x00, 0x00, 0x00, 0x01];
    assert_eq!(decode(&archive), Ok(String::new()));
    assert_eq!(decompressed_file_name("dumps/keys.zz"), Some("dumps/keys.txt".to_string()));
}
