//! Which registry a package is looked up in, and under which address.

use crate::text::{chars_of, find_char, first_index};
use vstd::hash_map::StringHashMap;
use vstd::prelude::*;
use vstd::string::StringSliceAdditionalSpecFns;

verus! {

/// The registry that serves every package whose scope names no other.
pub const DEFAULT_REGISTRY: &'static str = "https://registry.npmjs.org";

/// The bytes that stand for themselves in an encoded name: the ASCII letters
/// and digits, `-`, `.`, `_` and `~`.
pub open spec fn is_unreserved(byte: u8) -> bool {
    ||| 0x30 <= byte <= 0x39
    ||| 0x41 <= byte <= 0x5a
    ||| 0x61 <= byte <= 0x7a
    ||| byte == 0x2d
    ||| byte == 0x2e
    ||| byte == 0x5f
    ||| byte == 0x7e
}

/// The digit of base sixteen for a value below sixteen, in upper case.
pub open spec fn hex_digit(value: int) -> char {
    if value < 10 {
        (0x30 + value) as char
    } else {
        (0x37 + value) as char
    }
}

/// One byte, percent-encoded: itself where it is unreserved, else `%` and
/// its two digits of base sixteen.
pub open spec fn encoded_byte(byte: u8) -> Seq<char> {
    if is_unreserved(byte) {
        seq![byte as char]
    } else {
        seq!['%', hex_digit(byte as int / 16), hex_digit(byte as int % 16)]
    }
}

/// A run of bytes, percent-encoded byte by byte.
pub open spec fn percent_encoded(bytes: Seq<u8>) -> Seq<char>
    decreases bytes.len(),
{
    if bytes.len() == 0 {
        Seq::empty()
    } else {
        percent_encoded(bytes.drop_last()) + encoded_byte(bytes.last())
    }
}

/// Calls `urlencoding::encode`. Trusted: the result is the UTF-8 encoding of
/// `text` with every byte percent-encoded but the unreserved ones, as the
/// crate documents.
#[verifier::external_body]
pub(crate) fn url_encode(text: &str) -> (r: String)
    ensures
        r@ == percent_encoded(text.spec_bytes()),
{
    urlencoding::encode(text).into_owned()
}

/// The scope of a package name: what stands before the first `/` of a name
/// that begins with `@` and holds a `/`.
pub open spec fn scope_of(name: Seq<char>) -> Option<Seq<char>> {
    if name.len() > 0 && name[0] == '@' {
        match first_index(name, '/') {
            Some(i) => Some(name.subrange(0, i)),
            None => None,
        }
    } else {
        None
    }
}

/// The registry for a package: the one that the table gives for the name's
/// scope, and the default one where the name has no scope or the table does
/// not know it.
pub open spec fn registry_for(
    scopes: Map<Seq<char>, String>,
    default_registry: Seq<char>,
    name: Seq<char>,
) -> Seq<char> {
    match scope_of(name) {
        Some(scope) => if scopes.contains_key(scope) {
            scopes[scope]@
        } else {
            default_registry
        },
        None => default_registry,
    }
}

/// The address under which a registry serves a package: the registry, `/`,
/// and the percent-encoded name.
pub open spec fn package_url(registry: Seq<char>, name_bytes: Seq<u8>) -> Seq<char> {
    registry + seq!['/'] + percent_encoded(name_bytes)
}

/// The scope of a package name, if it has one.
pub fn package_scope(name: &str) -> (r: Option<String>)
    ensures
        match r {
            Some(scope) => scope_of(name@) == Some(scope@),
            None => scope_of(name@) is None,
        },
{
    let chars = chars_of(name);
    if chars.len() == 0 || chars[0] != '@' {
        return None;
    }
    match find_char(&chars, '/') {
        Some(i) => {
            proof {
                crate::text::lemma_first_index(name@, '/');
            }
            Some(name.substring_char(0, i).to_owned())
        },
        None => None,
    }
}

/// The registry in which a package is looked up.
pub fn select_registry<'a>(
    scopes: &'a StringHashMap<String>,
    default_registry: &'a str,
    name: &str,
) -> (r: &'a str)
    ensures
        r@ == registry_for(scopes@, default_registry@, name@),
{
    match package_scope(name) {
        Some(scope) => match scopes.get(scope.as_str()) {
            Some(registry) => registry.as_str(),
            None => default_registry,
        },
        None => default_registry,
    }
}

/// The address under which `registry` serves the package `name`.
pub fn request_url(registry: &str, name: &str) -> (r: String)
    ensures
        r@ == package_url(registry@, name.spec_bytes()),
{
    let encoded = url_encode(name);
    proof {
        reveal_strlit("/");
        assert("/"@ =~= seq!['/']);
    }
    registry.to_owned().concat("/").concat(encoded.as_str())
}

} // verus!
