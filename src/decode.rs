//! Turning the transfer-encoded bytes of a report attachment into report text.
use vstd::prelude::*;
use crate::text::push_char;
use crate::types::ReportFileType;
use std::io::Read;

verus! {

#[verifier::external_type_specification]
#[verifier::external_body]
pub struct ExBase64Error(base64::DecodeError);

#[verifier::external_type_specification]
#[verifier::external_body]
pub struct ExZipError(zip::result::ZipError);

#[verifier::external_type_specification]
#[verifier::external_body]
pub struct ExIoError(std::io::Error);

/// The bytes that standard base64 text decodes to, if it is valid.
pub uninterp spec fn base64_decoded(text: Seq<u8>) -> Option<Seq<u8>>;

/// The text that a gzip stream decompresses to, if it is valid and UTF-8.
pub uninterp spec fn gunzipped(data: Seq<u8>) -> Option<Seq<char>>;

/// The number of entries of a zip archive, if it opens.
pub uninterp spec fn zip_entry_count(data: Seq<u8>) -> Option<nat>;

/// The decompressed bytes of the first entry of a zip archive, if it reads.
pub uninterp spec fn zip_first_entry(data: Seq<u8>) -> Option<Seq<u8>>;

/// Relies on `base64::decode` (standard alphabet, padded).
#[verifier::external_body]
fn base64_decode(text: &Vec<u8>) -> (r: Result<Vec<u8>, base64::DecodeError>)
    ensures
        match r {
            Ok(v) => base64_decoded(text@) == Some(v@),
            Err(_) => base64_decoded(text@) is None,
        },
{
    base64::decode(text)
}

/// Relies on `flate2::read::GzDecoder` read through `Read::read_to_string`.
#[verifier::external_body]
fn gunzip(data: &Vec<u8>) -> (r: Result<String, std::io::Error>)
    ensures
        match r {
            Ok(s) => gunzipped(data@) == Some(s@),
            Err(_) => gunzipped(data@) is None,
        },
{
    let mut d = flate2::read::GzDecoder::new(std::io::Cursor::new(data.as_slice()));
    let mut s = String::new();
    d.read_to_string(&mut s).map(|_| s)
}

/// Relies on `zip::ZipArchive::new` and `ZipArchive::len`.
#[verifier::external_body]
fn zip_len(data: &Vec<u8>) -> (r: Result<usize, zip::result::ZipError>)
    ensures
        match r {
            Ok(n) => zip_entry_count(data@) == Some(n as nat),
            Err(_) => zip_entry_count(data@) is None,
        },
{
    zip::ZipArchive::new(std::io::Cursor::new(data.as_slice())).map(|a| a.len())
}

/// Relies on `zip::ZipArchive::by_index_decrypt(0, b"")`, read to its end. Unlike
/// `by_index`, it reports an entry that needs a password as an error instead of
/// panicking; the empty password is discarded for an entry that is not encrypted.
#[verifier::external_body]
fn zip_read_first(data: &Vec<u8>) -> (r: Result<Vec<u8>, zip::result::ZipError>)
    ensures
        match r {
            Ok(v) => zip_first_entry(data@) == Some(v@),
            Err(_) => zip_first_entry(data@) is None,
        },
{
    let mut archive = zip::ZipArchive::new(std::io::Cursor::new(data.as_slice()))?;
    let mut entry = match archive.by_index_decrypt(0, b"")? {
        Ok(e) => e,
        Err(_) => return Err(zip::result::ZipError::UnsupportedArchive(zip::result::ZipError::PASSWORD_REQUIRED)),
    };
    let mut v = Vec::new();
    entry.read_to_end(&mut v)?;
    Ok(v)
}

/// Why an attachment could not be turned into report text.
#[derive(Clone, Copy, Debug, PartialEq, Eq, Structural)]
pub enum ReportDecodeError {
    /// The attachment is not valid base64.
    InvalidBase64,
    /// The zip archive holds no entry or more than one.
    AmbiguousArchive,
    /// The zip archive cannot be opened or its entry cannot be read.
    InvalidArchive,
    /// The gzip stream is corrupt or its text is not UTF-8.
    InvalidGzip,
}

pub open spec fn is_line_break(b: u8) -> bool {
    b == 13u8 || b == 10u8
}

/// The bytes of `s` without carriage returns and line feeds.
pub open spec fn without_line_breaks(s: Seq<u8>) -> Seq<u8>
    decreases s.len(),
{
    if s.len() == 0 {
        Seq::empty()
    } else if is_line_break(s.last()) {
        without_line_breaks(s.drop_last())
    } else {
        without_line_breaks(s.drop_last()).push(s.last())
    }
}

/// Each byte read as the character of the same code point.
pub open spec fn latin1(b: Seq<u8>) -> Seq<char> {
    b.map_values(|x: u8| x as char)
}

/// The report text of a decoded attachment of the given kind.
pub open spec fn report_text(kind: ReportFileType, data: Seq<u8>) -> Result<Seq<char>, ReportDecodeError> {
    match kind {
        ReportFileType::Gzip => match gunzipped(data) {
            Some(t) => Ok(t),
            None => Err(ReportDecodeError::InvalidGzip),
        },
        ReportFileType::Zip => match zip_entry_count(data) {
            None => Err(ReportDecodeError::InvalidArchive),
            Some(n) => if n != 1 {
                Err(ReportDecodeError::AmbiguousArchive)
            } else {
                match zip_first_entry(data) {
                    Some(b) => Ok(latin1(b)),
                    None => Err(ReportDecodeError::InvalidArchive),
                }
            },
        },
    }
}

/// The report text of a transfer-encoded attachment.
pub open spec fn decoded_text(kind: ReportFileType, raw: Seq<u8>) -> Result<Seq<char>, ReportDecodeError> {
    match base64_decoded(without_line_breaks(raw)) {
        None => Err(ReportDecodeError::InvalidBase64),
        Some(data) => report_text(kind, data),
    }
}

/// Drops every carriage return and line feed, keeping the other bytes in order.
pub fn strip_line_breaks(raw: &Vec<u8>) -> (r: Vec<u8>)
    ensures
        r@ == without_line_breaks(raw@),
{
    let mut out: Vec<u8> = Vec::new();
    let mut i: usize = 0;
    while i < raw.len()
        invariant
            i <= raw@.len(),
            out@ == without_line_breaks(raw@.take(i as int)),
        decreases raw@.len() - i,
    {
        let b = raw[i];
        proof {
            assert(raw@.take(i + 1).drop_last() =~= raw@.take(i as int));
        }
        if b != 13u8 && b != 10u8 {
            out.push(b);
        }
        i += 1;
    }
    assert(raw@.take(raw@.len() as int) =~= raw@);
    out
}

/// Reads each byte as the character of the same code point, without UTF-8 validation.
pub fn latin1_text(bytes: &Vec<u8>) -> (r: String)
    ensures
        r@ == latin1(bytes@),
{
    let mut s = String::new();
    let mut i: usize = 0;
    while i < bytes.len()
        invariant
            i <= bytes@.len(),
            s@ =~= latin1(bytes@.take(i as int)),
        decreases bytes@.len() - i,
    {
        push_char(&mut s, bytes[i] as char);
        i += 1;
    }
    assert(bytes@.take(bytes@.len() as int) =~= bytes@);
    s
}

/// Decompresses a base64-decoded attachment into report text: a gzip stream
/// whole, or the single entry of a zip archive.
pub fn read_report(report_type: ReportFileType, data: Vec<u8>) -> (r: Result<String, ReportDecodeError>)
    ensures
        match r {
            Ok(s) => report_text(report_type, data@) == Ok::<Seq<char>, ReportDecodeError>(s@),
            Err(e) => report_text(report_type, data@) == Err::<Seq<char>, ReportDecodeError>(e),
        },
{
    match report_type {
        ReportFileType::Gzip => match gunzip(&data) {
            Ok(s) => Ok(s),
            Err(_) => Err(ReportDecodeError::InvalidGzip),
        },
        ReportFileType::Zip => match zip_len(&data) {
            Err(_) => Err(ReportDecodeError::InvalidArchive),
            Ok(n) => {
                if n != 1 {
                    Err(ReportDecodeError::AmbiguousArchive)
                } else {
                    match zip_read_first(&data) {
                        Ok(bytes) => Ok(latin1_text(&bytes)),
                        Err(_) => Err(ReportDecodeError::InvalidArchive),
                    }
                }
            },
        },
    }
}

/// Turns the raw text of an attachment part into report text: line breaks
/// are dropped, the rest is decoded as base64 and decompressed.
pub fn decode(kind: ReportFileType, raw: &Vec<u8>) -> (r: Result<String, ReportDecodeError>)
    ensures
        match r {
            Ok(s) => decoded_text(kind, raw@) == Ok::<Seq<char>, ReportDecodeError>(s@),
            Err(e) => decoded_text(kind, raw@) == Err::<Seq<char>, ReportDecodeError>(e),
        },
{
    let text = strip_line_breaks(raw);
    match base64_decode(&text) {
        Err(_) => Err(ReportDecodeError::InvalidBase64),
        Ok(data) => read_report(kind, data),
    }
}

proof fn lemma_strip_twice(s: Seq<u8>)
    ensures
        without_line_breaks(without_line_breaks(s)) == without_line_breaks(s),
    decreases s.len(),
{
    if s.len() > 0 {
        lemma_strip_twice(s.drop_last());
        let w = without_line_breaks(s.drop_last());
        if !is_line_break(s.last()) {
            assert(w.push(s.last()).drop_last() =~= w);
        }
    }
}

/// Line breaks in the raw part make no difference: decoding the raw text and
/// decoding it with every carriage return and line feed removed give the same
/// result, because removing them a second time changes nothing.
pub proof fn lemma_decode_ignores_line_breaks(kind: ReportFileType, raw: Seq<u8>)
    ensures
        without_line_breaks(without_line_breaks(raw)) == without_line_breaks(raw),
        decoded_text(kind, without_line_breaks(raw)) == decoded_text(kind, raw),
{
    lemma_strip_twice(raw);
}

} // verus!
