//! Profile pictures: what may be stored, and under which name.
//!
//! A club uploads the bytes of a picture and says in the request's
//! `Content-Type` what they are. The bytes are believed only as far as they
//! show it themselves: their kind is told from their content by the `infer`
//! crate and compared, as a media type of the `mime` crate, with what the
//! request says. A picture that is accepted is kept under the SHA-256 of its
//! content, so that the same picture is kept once.

use mime::Mime;
use sha2::{Digest, Sha256};
use std::str::FromStr;
use vstd::prelude::*;
use vstd::string::*;

verus! {

/// Why an upload was not accepted.
#[derive(Clone, Copy, Debug, PartialEq, Eq, Structural)]
pub enum PictureError {
    /// The content is of no kind that is known.
    Unrecognized,
    /// The content is not of the kind that the request says.
    Mismatch,
    /// The content is of a known kind that is no image.
    NotAnImage,
    /// The kind told from the content has no readable media type.
    Fault,
}

impl PictureError {
    /// The HTTP status that the refusal is answered with.
    pub fn status(&self) -> (code: u16)
        ensures
            code == if *self == PictureError::Fault {
                500u16
            } else {
                400u16
            },
    {
        match self {
            PictureError::Fault => 500,
            _ => 400,
        }
    }

    /// The message that the refusal is answered with.
    pub open spec fn message_of(self) -> Seq<char> {
        match self {
            PictureError::Unrecognized => "file type not recognized"@,
            PictureError::Mismatch => "file type does not match Content-Type header"@,
            PictureError::NotAnImage => "file not an image"@,
            PictureError::Fault => "Internal Server Error"@,
        }
    }

    /// The message that the refusal is answered with. A fault inside the
    /// server is not described.
    pub fn message(&self) -> (text: &'static str)
        ensures
            text@ == self.message_of(),
    {
        match self {
            PictureError::Unrecognized => "file type not recognized",
            PictureError::Mismatch => "file type does not match Content-Type header",
            PictureError::NotAnImage => "file not an image",
            PictureError::Fault => "Internal Server Error",
        }
    }
}

/// The kind of a file, as told from its content.
#[derive(Clone, Debug)]
pub struct FileKind {
    /// The media type of the kind.
    pub mime_type: String,
    /// The extension that files of the kind go by.
    pub extension: String,
}

/// The mathematical content of `FileKind`.
pub struct FileKindView {
    /// The text of the media type.
    pub mime_type: Seq<char>,
    /// The text of the extension.
    pub extension: Seq<char>,
}

impl View for FileKind {
    type V = FileKindView;

    open spec fn view(&self) -> FileKindView {
        FileKindView { mime_type: self.mime_type@, extension: self.extension@ }
    }
}

/// The kind that `infer::get` tells from `bytes`, if it tells one.
pub uninterp spec fn sniffed_kind(bytes: Seq<u8>) -> Option<FileKindView>;

/// The top-level type of the media type that `text` parses to, or `None`
/// where `text` is no media type.
pub uninterp spec fn media_top_type(text: Seq<char>) -> Option<Seq<char>>;

/// Whether the media types that `left` and `right` parse to are equal, or
/// `None` where one of the two is no media type.
pub uninterp spec fn media_types_agree(left: Seq<char>, right: Seq<char>) -> Option<bool>;

/// The SHA-256 digest of `bytes`.
pub uninterp spec fn sha256_of(bytes: Seq<u8>) -> Seq<u8>;

/// The character that writes the hexadecimal digit `d`, in lower case.
pub open spec fn hex_char(d: int) -> char {
    if d == 0 {
        '0'
    } else if d == 1 {
        '1'
    } else if d == 2 {
        '2'
    } else if d == 3 {
        '3'
    } else if d == 4 {
        '4'
    } else if d == 5 {
        '5'
    } else if d == 6 {
        '6'
    } else if d == 7 {
        '7'
    } else if d == 8 {
        '8'
    } else if d == 9 {
        '9'
    } else if d == 10 {
        'a'
    } else if d == 11 {
        'b'
    } else if d == 12 {
        'c'
    } else if d == 13 {
        'd'
    } else if d == 14 {
        'e'
    } else {
        'f'
    }
}

/// `bytes` written in hexadecimal: two digits for each byte, the high one
/// first.
pub open spec fn hex_of(bytes: Seq<u8>) -> Seq<char>
    decreases bytes.len(),
{
    if bytes.len() == 0 {
        Seq::empty()
    } else {
        hex_of(bytes.drop_last()).push(hex_char(bytes.last() as int / 16)).push(
            hex_char(bytes.last() as int % 16),
        )
    }
}

/// The name that a picture with the given digest and extension is kept
/// under.
pub open spec fn name_text(digest: Seq<u8>, extension: Seq<char>) -> Seq<char> {
    hex_of(digest) + "."@ + extension
}

/// What the media type of a file's kind means for the upload: `top` is its
/// top-level type, if it has a readable media type at all, and `agree` says
/// whether it equals what the request says.
pub open spec fn kind_verdict(top: Option<Seq<char>>, agree: Option<bool>) -> Result<
    (),
    PictureError,
> {
    match top {
        None => Err(PictureError::Fault),
        Some(t) => if agree != Some(true) {
            Err(PictureError::Mismatch)
        } else if t != "image"@ {
            Err(PictureError::NotAnImage)
        } else {
            Ok(())
        },
    }
}

/// The text of a top-level type, if there is one.
pub open spec fn top_text(top: Option<String>) -> Option<Seq<char>> {
    match top {
        Some(t) => Some(t@),
        None => None,
    }
}

/// What an upload of `bytes` under the given `Content-Type` comes to: the
/// name to keep the picture under, or the refusal.
pub open spec fn picture_outcome(bytes: Seq<u8>, content_type: Seq<char>) -> Result<
    Seq<char>,
    PictureError,
> {
    match sniffed_kind(bytes) {
        None => Err(PictureError::Unrecognized),
        Some(kind) => match kind_verdict(
            media_top_type(kind.mime_type),
            media_types_agree(content_type, kind.mime_type),
        ) {
            Err(e) => Err(e),
            Ok(_) => Ok(name_text(sha256_of(bytes), kind.extension)),
        },
    }
}

/// Tells the kind of a file from its content with `infer::get`, and copies
/// the kind's media type and extension out. The call is a function of the
/// bytes, so its result is `sniffed_kind` of them.
#[verifier::external_body]
fn sniff(bytes: &[u8]) -> (r: Option<FileKind>)
    ensures
        r is Some <==> sniffed_kind(bytes@) is Some,
        r matches Some(kind) ==> sniffed_kind(bytes@) == Some(kind@),
{
    infer::get(bytes).map(
        |kind|
            FileKind {
                mime_type: kind.mime_type().to_string(),
                extension: kind.extension().to_string(),
            },
    )
}

/// Parses `text` with the `FromStr` of `mime::Mime` and copies the
/// top-level type out, as `Mime::type_` gives it: in lower case.
#[verifier::external_body]
fn top_type(text: &str) -> (r: Option<String>)
    ensures
        r is Some <==> media_top_type(text@) is Some,
        r matches Some(top) ==> media_top_type(text@) == Some(top@),
{
    Mime::from_str(text).ok().map(|parsed| parsed.type_().as_str().to_string())
}

/// Parses both texts with the `FromStr` of `mime::Mime` and compares the
/// two with the `==` of `Mime`.
#[verifier::external_body]
fn types_agree(left: &str, right: &str) -> (r: Option<bool>)
    ensures
        r == media_types_agree(left@, right@),
{
    match (Mime::from_str(left), Mime::from_str(right)) {
        (Ok(l), Ok(r)) => Some(l == r),
        _ => None,
    }
}

/// Hashes with `Sha256::digest`. The digest has 32 bytes.
#[verifier::external_body]
fn sha256(bytes: &[u8]) -> (digest: Vec<u8>)
    ensures
        digest@ == sha256_of(bytes@),
        digest@.len() == 32,
{
    Sha256::digest(bytes).to_vec()
}

fn hex_digit(d: u8) -> (s: &'static str)
    requires
        d < 16,
    ensures
        s@ == seq![hex_char(d as int)],
{
    proof {
        reveal_strlit("0");
        reveal_strlit("1");
        reveal_strlit("2");
        reveal_strlit("3");
        reveal_strlit("4");
        reveal_strlit("5");
        reveal_strlit("6");
        reveal_strlit("7");
        reveal_strlit("8");
        reveal_strlit("9");
        reveal_strlit("a");
        reveal_strlit("b");
        reveal_strlit("c");
        reveal_strlit("d");
        reveal_strlit("e");
        reveal_strlit("f");
    }
    let s = if d == 0 {
        "0"
    } else if d == 1 {
        "1"
    } else if d == 2 {
        "2"
    } else if d == 3 {
        "3"
    } else if d == 4 {
        "4"
    } else if d == 5 {
        "5"
    } else if d == 6 {
        "6"
    } else if d == 7 {
        "7"
    } else if d == 8 {
        "8"
    } else if d == 9 {
        "9"
    } else if d == 10 {
        "a"
    } else if d == 11 {
        "b"
    } else if d == 12 {
        "c"
    } else if d == 13 {
        "d"
    } else if d == 14 {
        "e"
    } else {
        "f"
    };
    assert(s@ =~= seq![hex_char(d as int)]);
    s
}

/// Hexadecimal takes two digits for each byte.
pub proof fn lemma_hex_len(bytes: Seq<u8>)
    ensures
        hex_of(bytes).len() == 2 * bytes.len(),
    decreases bytes.len(),
{
    if bytes.len() > 0 {
        lemma_hex_len(bytes.drop_last());
    }
}

/// Writes `bytes` in hexadecimal, in lower case: two digits for each byte.
pub fn hex(bytes: &[u8]) -> (s: String)
    ensures
        s@ == hex_of(bytes@),
        s@.len() == 2 * bytes@.len(),
{
    proof {
        lemma_hex_len(bytes@);
    }
    let mut s = String::new();
    let mut i: usize = 0;
    assert(bytes@.take(0) =~= Seq::<u8>::empty());
    while i < bytes.len()
        invariant
            i <= bytes@.len(),
            s@ == hex_of(bytes@.take(i as int)),
        decreases bytes@.len() - i,
    {
        let byte = bytes[i];
        proof {
            let upto = bytes@.take(i + 1);
            assert(upto.last() == byte);
            assert(upto.drop_last() =~= bytes@.take(i as int));
        }
        let ghost before = s@;
        s.append(hex_digit(byte / 16));
        s.append(hex_digit(byte % 16));
        assert(s@ =~= before.push(hex_char(byte as int / 16)).push(hex_char(byte as int % 16)));
        i += 1;
    }
    assert(bytes@.take(bytes@.len() as int) =~= bytes@);
    s
}

/// Makes the name that a picture is kept under: its digest in hexadecimal,
/// a dot, and the extension of its kind.
pub fn picture_name(digest: &[u8], extension: &str) -> (name: String)
    ensures
        name@ == name_text(digest@, extension@),
{
    hex(digest).concat(".").concat(extension)
}

/// Says what the media type of a file's kind means for the upload.
///
/// A kind without a readable media type is a `Fault`. One that is not what
/// the request says, or where the request's own type cannot be read, is a
/// `Mismatch`. One that agrees and is no image is `NotAnImage`.
pub fn judge_kind(top: Option<String>, agree: Option<bool>) -> (r: Result<(), PictureError>)
    ensures
        r == kind_verdict(top_text(top), agree),
{
    match top {
        None => Err(PictureError::Fault),
        Some(t) => {
            let agreed = match agree {
                Some(b) => b,
                None => false,
            };
            let image = "image".to_owned();
            if !agreed {
                Err(PictureError::Mismatch)
            } else if t == image {
                Ok(())
            } else {
                Err(PictureError::NotAnImage)
            }
        },
    }
}

/// Decides on an upload: `bytes` is the content, and `content_type` what
/// the request says it is.
///
/// The upload is refused as `Unrecognized` where the content is of no known
/// kind, as `Mismatch` where its kind is not what the request says, and as
/// `NotAnImage` where the kind is no image. Otherwise the result is the name
/// to keep the picture under: the SHA-256 of the content in hexadecimal,
/// which is 32 bytes in 64 digits, a dot, and the extension of the kind.
pub fn accept_picture(bytes: &[u8], content_type: &str) -> (r: Result<String, PictureError>)
    ensures
        match picture_outcome(bytes@, content_type@) {
            Ok(name) => r matches Ok(n) && n@ == name,
            Err(e) => r matches Err(f) && f == e,
        },
        r matches Ok(n) ==> {
            &&& sha256_of(bytes@).len() == 32
            &&& hex_of(sha256_of(bytes@)).len() == 64
            &&& n@.subrange(0, 64) == hex_of(sha256_of(bytes@))
        },
{
    match sniff(bytes) {
        None => Err(PictureError::Unrecognized),
        Some(kind) => {
            let top = top_type(kind.mime_type.as_str());
            let agree = types_agree(content_type, kind.mime_type.as_str());
            match judge_kind(top, agree) {
                Err(e) => Err(e),
                Ok(_) => {
                    let digest = sha256(bytes);
                    proof {
                        lemma_hex_len(digest@);
                    }
                    let name = picture_name(digest.as_slice(), kind.extension.as_str());
                    assert(name@.subrange(0, 64) =~= hex_of(digest@));
                    Ok(name)
                },
            }
        },
    }
}

} // verus!
