//! From the compressed archive to the text of the key list.

use crate::error::PurgeError;
use flate2::read::ZlibDecoder;
use std::io::Read;
use std::path::Path;
use vstd::prelude::*;
use vstd::utf8::*;

verus! {

/// What inflating `compressed` as one zlib stream yields: the plain bytes,
/// or `None` where the stream is corrupt or ends early.
pub uninterp spec fn zlib_inflated(compressed: Seq<u8>) -> Option<Seq<u8>>;

/// The stem of the last component of `path`, as the path rules of the
/// platform that this library is built for find it: the name of the file
/// without its extension, or `None` where the path names no file.
pub uninterp spec fn path_stem(path: Seq<char>) -> Option<Seq<char>>;

/// The directory part of `path` under the same rules: what stands in front
/// of its last component, up to and including the separator, and nothing
/// for a path of one component.
pub uninterp spec fn path_directory(path: Seq<char>) -> Seq<char>;

/// The bytes behind an optional buffer.
pub open spec fn buffer_view(buffer: Option<Vec<u8>>) -> Option<Seq<u8>> {
    match buffer {
        Some(bytes) => Some(bytes@),
        None => None,
    }
}

/// The text that inflated bytes stand for: their UTF-8 decoding. Missing
/// bytes and bytes that are no UTF-8 are a decode error.
pub open spec fn decoded_text(inflated: Option<Seq<u8>>) -> Result<Seq<char>, PurgeError> {
    match inflated {
        Some(bytes) => if valid_utf8(bytes) {
            Ok(decode_utf8(bytes))
        } else {
            Err(PurgeError::Decode)
        },
        None => Err(PurgeError::Decode),
    }
}

/// The characters of a decoded text, or the error in its place.
pub open spec fn text_view(text: Result<String, PurgeError>) -> Result<Seq<char>, PurgeError> {
    match text {
        Ok(s) => Ok(s@),
        Err(e) => Err(e),
    }
}

/// Runs `flate2::read::ZlibDecoder` over the whole of `compressed` and reads
/// it to its end. Trusted: the outcome is the one that `zlib_inflated` names
/// for these bytes, which claims only that inflating is a function of the
/// input.
#[verifier::external_body]
fn inflate(compressed: &[u8]) -> (plain: Option<Vec<u8>>)
    ensures
        buffer_view(plain) == zlib_inflated(compressed@),
{
    let mut decoder = ZlibDecoder::new(compressed);
    let mut plain = Vec::new();
    match decoder.read_to_end(&mut plain) {
        Ok(_) => Some(plain),
        Err(_) => None,
    }
}

/// Calls `std::str::from_utf8`. Trusted: it accepts exactly the byte
/// sequences that are valid UTF-8, and the string it gives holds the
/// characters those bytes encode.
#[verifier::external_body]
pub(crate) fn utf8_text(bytes: &[u8]) -> (text: Option<String>)
    ensures
        text is Some <==> valid_utf8(bytes@),
        text is Some ==> text.unwrap()@ == decode_utf8(bytes@),
{
    match std::str::from_utf8(bytes) {
        Ok(s) => Some(s.to_string()),
        Err(_) => None,
    }
}

/// Calls `std::path::Path::file_stem` on `file`. Trusted: the outcome is the
/// one that `path_stem` names for this path, which claims only that the stem
/// is a function of the path.
#[verifier::external_body]
fn file_stem(file: &str) -> (stem: Option<String>)
    ensures
        name_view(stem) == path_stem(file@),
{
    match Path::new(file).file_stem() {
        Some(stem) => Some(stem.to_string_lossy().into_owned()),
        None => None,
    }
}

/// Calls `std::path::Path::with_file_name` on `file` with an empty name,
/// which leaves the path without its last component. Trusted: the outcome is
/// the one that `path_directory` names for this path, which claims only that
/// the directory part is a function of the path.
#[verifier::external_body]
fn directory_part(file: &str) -> (directory: String)
    ensures
        directory@ == path_directory(file@),
{
    Path::new(file).with_file_name("").to_string_lossy().into_owned()
}

/// Turns the outcome of inflating into text.
pub fn text_of_inflated(inflated: Option<Vec<u8>>) -> (text: Result<String, PurgeError>)
    ensures
        text_view(text) == decoded_text(buffer_view(inflated)),
{
    match inflated {
        Some(bytes) => match utf8_text(bytes.as_slice()) {
            Some(s) => Ok(s),
            None => Err(PurgeError::Decode),
        },
        None => Err(PurgeError::Decode),
    }
}

/// Inflates the archive and reads the result as text, all of it or nothing.
pub fn decode(compressed: &[u8]) -> (text: Result<String, PurgeError>)
    ensures
        text_view(text) == decoded_text(zlib_inflated(compressed@)),
{
    text_of_inflated(inflate(compressed))
}

/// The name of the file that holds the text of an archive with stem `stem`.
pub fn text_file_name(stem: &str) -> (name: String)
    ensures
        name@ == stem@ + ".txt"@,
{
    let mut name = stem.to_owned();
    name.append(".txt");
    name
}

/// The characters of an optional file name.
pub open spec fn name_view(name: Option<String>) -> Option<Seq<char>> {
    match name {
        Some(name) => Some(name@),
        None => None,
    }
}

/// The text file that belongs to an archive, given the directory part and
/// the stem of the archive's path: in that directory, that stem with `.txt`
/// behind it. An archive whose path has no stem has no text file.
pub open spec fn named_after(directory: Seq<char>, stem: Option<Seq<char>>) -> Option<Seq<char>> {
    match stem {
        Some(stem) => Some(directory + (stem + ".txt"@)),
        None => None,
    }
}

/// The path of the text file for an archive with this directory part and
/// this stem, where it has a stem.
pub fn text_file_name_for(directory: &str, stem: Option<String>) -> (name: Option<String>)
    ensures
        name_view(name) == named_after(directory@, name_view(stem)),
{
    match stem {
        Some(stem) => {
            let mut name = directory.to_owned();
            name.append(text_file_name(stem.as_str()).as_str());
            Some(name)
        },
        None => None,
    }
}

/// The path that the text of archive `file` is written to: beside the
/// archive, under the archive's stem with `.txt` behind it. It is `None`
/// where `file` has no stem.
pub fn decompressed_file_name(file: &str) -> (name: Option<String>)
    ensures
        name_view(name) == named_after(path_directory(file@), path_stem(file@)),
{
    let stem = file_stem(file);
    let directory = directory_part(file);
    text_file_name_for(directory.as_str(), stem)
}

} // verus!
