//! Admission of uploads: the field and name policy, the stored name, and the size limit.

use vstd::prelude::*;

use convert_case::{Case, Casing};

use vstd::utf8::encode_utf8;

use crate::digest::{content_id, ContentHasher};
use crate::text::{ascii_only, find_last, has_prefix, keep_ascii, last_index_of, last_segment, segment_after_last};

verus! {

/// The largest upload accepted, in bytes: 30 MiB.
pub const MAX_FILE_SIZE_BYTES: u64 = 1024 * 1024 * 30;

/// The longest stored name accepted, in UTF-8 bytes.
pub const MAX_FILE_NAME_LENGTH: usize = 255;

/// Why an upload was refused.
#[derive(Clone, Copy, PartialEq, Eq, Structural, Debug)]
pub enum UploadError {
    /// The multipart form could not be read.
    InvalidForm,
    /// The server failed to store the file.
    Io,
    /// Wrong field, no file name, or an extension that is not an image's.
    NotAnImage,
    /// The stored name would be too long.
    FilenameTooLong,
    /// The body is larger than the limit.
    FileTooLarge,
}

impl UploadError {
    /// The HTTP status that reports this error.
    pub fn status_code(&self) -> (code: u16)
        ensures
            code == match *self {
                UploadError::InvalidForm => 400u16,
                UploadError::Io => 500u16,
                UploadError::NotAnImage => 415u16,
                UploadError::FilenameTooLong => 400u16,
                UploadError::FileTooLarge => 413u16,
            },
    {
        match self {
            UploadError::InvalidForm => 400,
            UploadError::Io => 500,
            UploadError::NotAnImage => 415,
            UploadError::FilenameTooLong => 400,
            UploadError::FileTooLarge => 413,
        }
    }

    /// The message shown to the uploader.
    pub fn message(&self) -> (m: String)
        ensures
            m@ == match *self {
                UploadError::InvalidForm => "Invalid form data"@,
                UploadError::Io => "Server error"@,
                UploadError::NotAnImage => "File is not an image"@,
                UploadError::FilenameTooLong => "Filename too long"@,
                UploadError::FileTooLarge => "File too large (max is 30MB)"@,
            },
    {
        match self {
            UploadError::InvalidForm => "Invalid form data".to_owned(),
            UploadError::Io => "Server error".to_owned(),
            UploadError::NotAnImage => "File is not an image".to_owned(),
            UploadError::FilenameTooLong => "Filename too long".to_owned(),
            UploadError::FileTooLarge => "File too large (max is 30MB)".to_owned(),
        }
    }
}

/// The lower-case form of a text, by Unicode case mapping.
pub uninterp spec fn lower_of(s: Seq<char>) -> Seq<char>;

/// The snake_case form of a text, as the convert_case crate writes it.
pub uninterp spec fn snake_of(s: Seq<char>) -> Seq<char>;

/// The stem of a path: its final component without the extension, if it has a final
/// component.
pub uninterp spec fn path_stem(s: Seq<char>) -> Option<Seq<char>>;

/// Relies on str::to_lowercase: the result depends on the characters alone.
#[verifier::external_body]
fn lowercase(s: &str) -> (r: String)
    ensures
        r@ == lower_of(s@),
{
    s.to_lowercase()
}

/// Relies on convert_case's `to_case(Case::Snake)`: the result depends on the
/// characters alone.
#[verifier::external_body]
fn snake_case(s: &str) -> (r: String)
    ensures
        r@ == snake_of(s@),
{
    s.to_case(Case::Snake)
}

/// Relies on std::path::Path::file_stem, on a path given as text: the result depends
/// on the characters alone.
#[verifier::external_body]
fn file_stem(s: &str) -> (r: Option<String>)
    ensures
        match r {
            Some(t) => path_stem(s@) == Some(t@),
            None => path_stem(s@) is None,
        },
{
    match std::path::Path::new(s).file_stem() {
        Some(stem) => stem.to_str().map(String::from),
        None => None,
    }
}

/// Whether `s` is a UUID in hyphenated lower-case form.
pub open spec fn is_uuid_text(s: Seq<char>) -> bool {
    &&& s.len() == 36
    &&& forall|i: int|
        0 <= i < 36 ==> if i == 8 || i == 13 || i == 18 || i == 23 {
            s[i] == '-'
        } else {
            ('0' <= #[trigger] s[i] <= '9') || ('a' <= s[i] <= 'f')
        }
}

/// Relies on uuid::Uuid::new_v4 and its `Display`: a random version-4 UUID, written
/// hyphenated in lower case.
#[verifier::external_body]
fn random_uuid() -> (r: String)
    ensures
        is_uuid_text(r@),
{
    uuid::Uuid::new_v4().to_string()
}

/// Whether a lower-cased extension is one of an image's.
pub open spec fn allowed_extension(ext: Seq<char>) -> bool {
    ext == "jpg"@ || ext == "jpeg"@ || ext == "png"@ || ext == "webp"@
}

/// Whether a declared file name ends in an image extension, in any case.
pub open spec fn has_image_extension(filename: Seq<char>) -> bool {
    last_index_of(filename, '.') >= 0 && allowed_extension(lower_of(last_segment(filename, '.')))
}

/// Whether `a` and `b` hold the same characters.
fn same_text(a: &str, b: &str) -> (r: bool)
    ensures
        r == (a@ == b@),
{
    if a.unicode_len() != b.unicode_len() {
        return false;
    }
    assert(a@ =~= a@.subrange(0, b@.len() as int));
    has_prefix(a, b)
}

/// Whether an extension, already lower-cased, is one of an image's.
pub fn is_allowed_extension(ext: &str) -> (r: bool)
    ensures
        r == allowed_extension(ext@),
{
    same_text(ext, "jpg") || same_text(ext, "jpeg") || same_text(ext, "png") || same_text(
        ext,
        "webp",
    )
}

/// Whether a declared file name has an extension, and that extension, case aside, is
/// jpg, jpeg, png or webp.
pub fn is_valid_image_extension(filename: &str) -> (r: bool)
    ensures
        r == has_image_extension(filename@),
{
    if find_last(filename, '.').is_none() {
        return false;
    }
    let ext = lowercase(segment_after_last(filename, '.'));
    is_allowed_extension(ext.as_str())
}

/// Whether a multipart field may carry an upload: it is named `wallpaper` and declares
/// a non-empty file name with an image extension.
pub open spec fn acceptable_field(field_name: Option<&str>, file_name: Option<&str>) -> bool {
    &&& field_name matches Some(n) && n@ == "wallpaper"@
    &&& file_name matches Some(f) && f@.len() > 0 && has_image_extension(f@)
}

/// Checks a multipart field before anything is written: `NotAnImage` unless it is
/// acceptable.
pub fn check_upload_field(field_name: Option<&str>, file_name: Option<&str>) -> (r: Result<
    (),
    UploadError,
>)
    ensures
        r is Ok <==> acceptable_field(field_name, file_name),
        r is Err ==> r == Err::<(), UploadError>(UploadError::NotAnImage),
{
    let named = match field_name {
        Some(n) => same_text(n, "wallpaper"),
        None => false,
    };
    if !named {
        return Err(UploadError::NotAnImage);
    }
    match file_name {
        Some(f) => {
            if f.unicode_len() == 0 || !is_valid_image_extension(f) {
                Err(UploadError::NotAnImage)
            } else {
                Ok(())
            }
        },
        None => Err(UploadError::NotAnImage),
    }
}

/// A declared file name made fit for storage: snake_case, then ASCII characters only.
pub open spec fn sanitized(text: Seq<char>) -> Seq<char> {
    ascii_only(snake_of(text))
}

/// Makes a declared file name fit for storage: snake_case, then ASCII characters only.
pub fn sanitize(text: &str) -> (r: String)
    ensures
        r@ == sanitized(text@),
{
    let snake = snake_case(text);
    keep_ascii(snake.as_str())
}

/// The stored name built from a stem, a unique tag and an extension: `<stem>-<tag>.<ext>`.
pub open spec fn composed_name(stem: Seq<char>, tag: Seq<char>, ext: Seq<char>) -> Seq<char> {
    stem + seq!['-'] + tag + seq!['.'] + ext
}

/// Builds `<stem>-<tag>.<ext>`; `FilenameTooLong` when it exceeds the longest name
/// accepted, counted in UTF-8 bytes.
pub fn compose_filename(stem: &str, tag: &str, ext: &str) -> (r: Result<String, UploadError>)
    ensures
        match r {
            Ok(name) => name@ == composed_name(stem@, tag@, ext@) && encode_utf8(name@).len()
                <= MAX_FILE_NAME_LENGTH,
            Err(e) => e == UploadError::FilenameTooLong && encode_utf8(
                composed_name(stem@, tag@, ext@),
            ).len() > MAX_FILE_NAME_LENGTH,
        },
{
    let mut name = stem.to_owned();
    name.append("-");
    name.append(tag);
    name.append(".");
    name.append(ext);
    proof {
        reveal_strlit("-");
        reveal_strlit(".");
        assert(name@ =~= composed_name(stem@, tag@, ext@));
    }
    let bytes = name.as_str().as_bytes();
    if bytes.len() > MAX_FILE_NAME_LENGTH {
        Err(UploadError::FilenameTooLong)
    } else {
        Ok(name)
    }
}

/// Generates the stored name for a declared file name: the sanitised name's stem, a
/// random UUID and the sanitised name's extension in lower case. `NotAnImage` when the
/// sanitised name has no stem; `FilenameTooLong` when the result is too long.
pub fn generate_filename(filename: &str) -> (r: Result<String, UploadError>)
    ensures
        ({
            let clean = sanitized(filename@);
            let ext = lower_of(last_segment(clean, '.'));
            match path_stem(clean) {
                None => r == Err::<String, UploadError>(UploadError::NotAnImage),
                Some(stem) => match r {
                    Ok(name) => exists|tag: Seq<char>|
                        is_uuid_text(tag) && name@ == composed_name(stem, tag, ext) && encode_utf8(
                            name@,
                        ).len() <= MAX_FILE_NAME_LENGTH,
                    Err(e) => e == UploadError::FilenameTooLong && exists|tag: Seq<char>|
                        is_uuid_text(tag) && encode_utf8(composed_name(stem, tag, ext)).len()
                            > MAX_FILE_NAME_LENGTH,
                },
            }
        }),
{
    let clean = sanitize(filename);
    let ext = lowercase(segment_after_last(clean.as_str(), '.'));
    let stem = match file_stem(clean.as_str()) {
        Some(stem) => stem,
        None => return Err(UploadError::NotAnImage),
    };
    let tag = random_uuid();
    compose_filename(stem.as_str(), tag.as_str(), ext.as_str())
}

/// The running state of one upload body: how much has arrived and its content identity
/// so far. The body is refused once it grows past the limit.
pub struct UploadStream {
    received: u64,
    hasher: ContentHasher,
}

impl UploadStream {
    /// The bytes accepted so far.
    pub closed spec fn content(&self) -> Seq<u8> {
        self.hasher.fed()
    }

    /// The count of accepted bytes matches the content, which is within the limit.
    pub closed spec fn wf(&self) -> bool {
        self.received == self.hasher.fed().len() && self.received <= MAX_FILE_SIZE_BYTES
    }

    pub fn new() -> (s: UploadStream)
        ensures
            s.wf(),
            s.content() == Seq::<u8>::empty(),
    {
        UploadStream { received: 0, hasher: ContentHasher::new() }
    }

    /// The number of bytes accepted so far.
    pub fn received(&self) -> (n: u64)
        requires
            self.wf(),
        ensures
            n == self.content().len(),
    {
        self.received
    }

    /// Takes the next chunk of the body. `FileTooLarge`, with nothing taken, when the
    /// body would grow past the limit; the caller then discards what it stored.
    pub fn accept_chunk(&mut self, chunk: &[u8]) -> (r: Result<(), UploadError>)
        requires
            old(self).wf(),
        ensures
            final(self).wf(),
            old(self).content().len() + chunk@.len() > MAX_FILE_SIZE_BYTES ==> r == Err::<
                (),
                UploadError,
            >(UploadError::FileTooLarge) && final(self).content() == old(self).content(),
            old(self).content().len() + chunk@.len() <= MAX_FILE_SIZE_BYTES ==> r is Ok
                && final(self).content() == old(self).content() + chunk@,
    {
        let len = chunk.len();
        if len as u64 > MAX_FILE_SIZE_BYTES - self.received {
            return Err(UploadError::FileTooLarge);
        }
        self.received = self.received + len as u64;
        self.hasher.update(chunk);
        Ok(())
    }

    /// The content identity of the whole body.
    pub fn finish(self) -> (id: String)
        ensures
            id@ == content_id(self.content()),
    {
        self.hasher.finish()
    }
}

} // verus!
