//! The name under which a finished file is persisted.

use vstd::prelude::*;

verus! {

/// What `sanitize_filename` makes of a file name.
pub uninterp spec fn sanitized_name(name: Seq<char>) -> Seq<char>;

/// The first file extension that `mime_guess` knows for a content type.
pub uninterp spec fn mime_extension(content_type: Seq<char>) -> Option<Seq<char>>;

/// Relies on `sanitize_filename::sanitize_with_options`, with the options that
/// `sanitize` uses on Unix (reserved Windows names kept, names cut to 255
/// bytes, nothing put in place of a removed character): the result depends on
/// the name alone.
#[verifier::external_body]
fn sanitize(name: &str) -> (r: String)
    ensures
        r@ == sanitized_name(name@),
{
    let options = sanitize_filename::Options { windows: false, truncate: true, replacement: "" };
    sanitize_filename::sanitize_with_options(name, options)
}

/// Relies on `mime_guess::get_mime_extensions_str`: the extensions known for a
/// content type, of which the first is taken; `None` for an unknown type.
#[verifier::external_body]
fn first_extension(content_type: &str) -> (r: Option<String>)
    ensures
        r matches Some(e) ==> mime_extension(content_type@) == Some(e@),
        r is None ==> mime_extension(content_type@) is None,
{
    mime_guess::get_mime_extensions_str(content_type).and_then(|x| x.first()).map(|e| e.to_string())
}

/// A lower-case hexadecimal digit.
pub open spec fn is_lower_hex(c: char) -> bool {
    ('0' <= c && c <= '9') || ('a' <= c && c <= 'f')
}

/// The simple form of a UUID: 32 lower-case hexadecimal digits.
pub open spec fn is_simple_uuid(s: Seq<char>) -> bool {
    s.len() == 32 && forall|i: int| 0 <= i < s.len() ==> is_lower_hex(#[trigger] s[i])
}

/// Relies on `uuid::Uuid::new_v4` and its simple form: a random identifier
/// written as 32 lower-case hexadecimal digits. It panics only where the
/// system offers no random bytes.
#[verifier::external_body]
fn fresh_id() -> (r: String)
    ensures
        is_simple_uuid(r@),
{
    uuid::Uuid::new_v4().to_simple().to_string()
}

/// The suffix that an extension adds to a generated name.
pub open spec fn extension_suffix(extension: Option<Seq<char>>) -> Seq<char> {
    match extension {
        Some(e) => seq!['.'] + e,
        None => Seq::empty(),
    }
}

/// The name made of the identifier `id` and the extension, if any.
pub fn generated_file_name(id: &str, extension: Option<&str>) -> (r: String)
    ensures
        r@ == id@ + extension_suffix(match extension {
            Some(e) => Some(e@),
            None => None,
        }),
{
    let mut name = id.to_owned();
    match extension {
        Some(e) => {
            name.append(".");
            name.append(e);
            proof {
                reveal_strlit(".");
                assert(name@ =~= id@ + (seq!['.'] + e@));
            }
        },
        None => {
            assert(name@ =~= id@ + Seq::<char>::empty());
        },
    }
    name
}

/// A name made for a file that came without one: a fresh identifier followed
/// by the extension known for `content_type`.
pub open spec fn is_generated_name(name: Seq<char>, content_type: Seq<char>) -> bool {
    &&& name.len() >= 32
    &&& is_simple_uuid(name.subrange(0, 32))
    &&& name.subrange(32, name.len() as int) == extension_suffix(mime_extension(content_type))
}

/// The name under which a file is persisted: the declared file name,
/// sanitized, or a generated name where none was declared.
pub fn file_name_for(declared_file_name: Option<&str>, content_type: &str) -> (r: String)
    ensures
        declared_file_name matches Some(n) ==> r@ == sanitized_name(n@),
        declared_file_name is None ==> is_generated_name(r@, content_type@),
{
    match declared_file_name {
        Some(n) => sanitize(n),
        None => {
            let id = fresh_id();
            let ext = first_extension(content_type);
            let name = match &ext {
                Some(e) => generated_file_name(id.as_str(), Some(e.as_str())),
                None => generated_file_name(id.as_str(), None),
            };
            assert(name@.subrange(0, 32) =~= id@);
            assert(name@.subrange(32, name@.len() as int) =~= extension_suffix(
                mime_extension(content_type@),
            ));
            name
        },
    }
}

} // verus!
