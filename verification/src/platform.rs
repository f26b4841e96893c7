//! What the library has from elsewhere: random identifiers, the clock, Base64, media types and
//! the path rules of the platform. Verus believes the contracts in this file without proof.
//! Where a name stands for the result of a path operation, it stands for what the rules of the
//! platform that the library is compiled for make of the arguments.
use base64::engine::general_purpose::STANDARD;
use base64::Engine;
use vstd::prelude::*;

verus! {

/// Whether a character is a hexadecimal digit in lower case.
pub open spec fn is_lower_hex(c: char) -> bool {
    '0' <= c <= '9' || 'a' <= c <= 'f'
}

/// Whether a text is a random (version 4) UUID in its hyphenated form, in lower case.
pub open spec fn is_random_uuid(text: Seq<char>) -> bool {
    &&& text.len() == 36
    &&& forall|i: int|
        0 <= i < 36 ==> if i == 8 || i == 13 || i == 18 || i == 23 {
            #[trigger] text[i] == '-'
        } else {
            is_lower_hex(text[i])
        }
    &&& text[14] == '4'
    &&& (text[19] == '8' || text[19] == '9' || text[19] == 'a' || text[19] == 'b')
}

/// `uuid::Uuid::new_v4`, written out by its `Display`: 32 lower-case hexadecimal digits in
/// groups of 8, 4, 4, 4 and 12, with the version and variant digits of a random UUID. Which of
/// those texts comes back is left to chance.
#[verifier::external_body]
pub(crate) fn fresh_uuid() -> (r: String)
    ensures
        is_random_uuid(r@),
{
    uuid::Uuid::new_v4().to_string()
}

/// `chrono::Utc::now`, as `timestamp_millis` counts it: milliseconds since the start of 1970,
/// never negative. A clock that is set to before 1970 makes `Utc::now` panic. Nothing else is
/// claimed of a clock.
#[verifier::external_body]
pub(crate) fn now_millis() -> (r: i64)
    ensures
        r >= 0,
{
    chrono::Utc::now().timestamp_millis()
}

/// What the standard Base64 engine makes of a text: the decoded bytes, or the description of
/// the error.
pub uninterp spec fn base64_decoded(text: Seq<char>) -> Result<Seq<u8>, Seq<char>>;

/// The bytes or the text that a result stands for.
pub open spec fn bytes_or_text(r: Result<Vec<u8>, String>) -> Result<Seq<u8>, Seq<char>> {
    match r {
        Ok(bytes) => Ok(bytes@),
        Err(text) => Err(text@),
    }
}

/// `base64`'s `STANDARD.decode`, with its error as the text that its `Display` gives. Both
/// depend on the text alone; the alphabet and the padding rules are the engine's.
#[verifier::external_body]
pub(crate) fn decode_base64(text: &str) -> (r: Result<Vec<u8>, String>)
    ensures
        bytes_or_text(r) == base64_decoded(text@),
{
    match STANDARD.decode(text) {
        Ok(bytes) => Ok(bytes),
        Err(error) => Err(error.to_string()),
    }
}

/// The media type that goes with a path's extension.
pub uninterp spec fn guessed_mime(path: Seq<char>) -> Seq<char>;

/// `mime_guess::from_path` with `first_or_octet_stream` and `essence_str`: the first media type
/// listed for the path's extension. Only the path is looked at, and a path without an extension
/// gets the type for arbitrary bytes.
#[verifier::external_body]
pub(crate) fn guess_mime(path: &str) -> (r: String)
    ensures
        r@ == guessed_mime(path@),
        !path@.contains('.') ==> r@ == "application/octet-stream"@,
{
    mime_guess::from_path(path).first_or_octet_stream().essence_str().to_string()
}

/// A name appended to a path.
pub uninterp spec fn joined_path(base: Seq<char>, name: Seq<char>) -> Seq<char>;

/// Whether a path starts with all the components of another.
pub uninterp spec fn has_path_prefix(path: Seq<char>, base: Seq<char>) -> bool;

/// The path without its last component.
pub uninterp spec fn parent_of(path: Seq<char>) -> Option<Seq<char>>;

/// The last component of a path.
pub uninterp spec fn file_name_of(path: Seq<char>) -> Option<Seq<char>>;

/// What is left of a path after a prefix.
pub uninterp spec fn stripped_path(path: Seq<char>, base: Seq<char>) -> Option<Seq<char>>;

/// Whether a name is relative by the rules of every platform: it does not start at a root, and
/// holds no backslash and no drive colon.
pub open spec fn is_relative_name(name: Seq<char>) -> bool {
    &&& name.len() == 0 || name[0] != '/'
    &&& !name.contains('\\')
    &&& !name.contains(':')
}

/// Whether a character separates the components of a path.
pub uninterp spec fn separates_path(c: char) -> bool;

/// `std::path::is_separator`, which goes by the platform.
#[verifier::external_body]
pub(crate) fn path_separator(c: char) -> (r: bool)
    ensures
        r == separates_path(c),
{
    std::path::is_separator(c)
}

/// Whether a path starts with two separators of some platform. On Windows such a path may name a
/// share or a device, and appending to it may change what its start means.
pub open spec fn has_double_root(path: Seq<char>) -> bool {
    &&& path.len() >= 2
    &&& (path[0] == '/' || path[0] == '\\')
    &&& (path[1] == '/' || path[1] == '\\')
}

/// `std::path::Path::join`: an absolute name takes the place of the base, and a relative one
/// extends it, so that the result starts with the base. Nothing is claimed of where the result
/// starts for a base with two separators at its start. A name that starts with a slash is absolute
/// where backslashes do not separate; elsewhere it may keep the drive of the base.
#[verifier::external_body]
pub(crate) fn path_join(base: &str, name: &str) -> (r: String)
    ensures
        r@ == joined_path(base@, name@),
        name@.len() > 0 && name@[0] == '/' && !separates_path('\\') ==> r@ == name@,
        is_relative_name(name@) && !has_double_root(base@) ==> has_path_prefix(r@, base@),
{
    std::path::Path::new(base).join(name).to_string_lossy().into_owned()
}

/// `std::path::Path::starts_with`, which compares whole components.
#[verifier::external_body]
pub(crate) fn path_starts_with(path: &str, base: &str) -> (r: bool)
    ensures
        r == has_path_prefix(path@, base@),
{
    std::path::Path::new(path).starts_with(base)
}

/// `std::path::Path::parent`: nothing for a root and for the empty path.
#[verifier::external_body]
pub(crate) fn path_parent(path: &str) -> (r: Option<String>)
    ensures
        crate::text::optional_text(r) == parent_of(path@),
{
    match std::path::Path::new(path).parent() {
        Some(parent) => Some(parent.to_string_lossy().into_owned()),
        None => None,
    }
}

/// `std::path::Path::file_name`: nothing where the path has no last component of its own.
#[verifier::external_body]
pub(crate) fn path_file_name(path: &str) -> (r: Option<String>)
    ensures
        crate::text::optional_text(r) == file_name_of(path@),
{
    match std::path::Path::new(path).file_name() {
        Some(name) => Some(name.to_string_lossy().into_owned()),
        None => None,
    }
}

/// `std::path::Path::strip_prefix`: nothing where the base is no prefix of the path.
#[verifier::external_body]
pub(crate) fn path_strip_prefix(path: &str, base: &str) -> (r: Option<String>)
    ensures
        crate::text::optional_text(r) == stripped_path(path@, base@),
{
    match std::path::Path::new(path).strip_prefix(base) {
        Ok(rest) => Some(rest.to_string_lossy().into_owned()),
        Err(_) => None,
    }
}

} // verus!
