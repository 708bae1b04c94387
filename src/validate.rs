use vstd::prelude::*;
use crate::digest::{is_digest_form, is_lower_hex, sha256_prefix};
use crate::error::RegistryError;

verus! {

/// A lowercase letter or a decimal digit.
pub open spec fn is_name_alnum(c: char) -> bool {
    ('a' <= c && c <= 'z') || ('0' <= c && c <= '9')
}

/// A separator inside a path component.
pub open spec fn is_name_separator(c: char) -> bool {
    c == '.' || c == '_' || c == '-'
}

/// The repository name grammar: path components separated by `/`, each a run
/// of lowercase letters and digits, with single `.`, `_` or `-` between runs.
/// Put otherwise: the name starts with a letter or digit, and every other
/// character is a letter or digit, or a separator or `/` that is directly
/// followed by a letter or digit.
pub open spec fn is_repository_name_form(s: Seq<char>) -> bool {
    &&& s.len() > 0
    &&& is_name_alnum(s[0])
    &&& forall|i: int|
        0 <= i < s.len() ==> #[trigger] is_name_alnum(s[i]) || ((is_name_separator(s[i])
            || s[i] == '/') && i + 1 < s.len() && is_name_alnum(s[i + 1]))
}

/// A valid repository name: the grammar, and 1 to 255 characters.
pub open spec fn is_valid_repository_name(s: Seq<char>) -> bool {
    is_repository_name_form(s) && s.len() <= 255
}

/// A character allowed in a tag.
pub open spec fn is_tag_char(c: char) -> bool {
    ('a' <= c && c <= 'z') || ('A' <= c && c <= 'Z') || ('0' <= c && c <= '9') || c == '.'
        || c == '_' || c == '-'
}

/// One or more tag characters.
pub open spec fn is_tag_form(s: Seq<char>) -> bool {
    s.len() > 0 && forall|i: int| 0 <= i < s.len() ==> #[trigger] is_tag_char(s[i])
}

/// A valid tag name: the tag characters, 1 to 128 of them.
pub open spec fn is_valid_tag_name(s: Seq<char>) -> bool {
    is_tag_form(s) && s.len() <= 128
}

/// Starts with `sha256:`.
pub open spec fn has_digest_prefix(s: Seq<char>) -> bool {
    s.len() >= 7 && s.subrange(0, 7) == sha256_prefix()
}

/// Relies on regex::Regex::is_match with the pattern
/// `^[a-z0-9]+(?:[._-][a-z0-9]+)*(?:/[a-z0-9]+(?:[._-][a-z0-9]+)*)*$`,
/// whose language is the repository name grammar.
#[verifier::external_body]
fn repository_pattern_matches(name: &str) -> (r: bool)
    ensures
        r == is_repository_name_form(name@),
{
    match regex::Regex::new(r"^[a-z0-9]+(?:[._-][a-z0-9]+)*(?:/[a-z0-9]+(?:[._-][a-z0-9]+)*)*$") {
        Ok(re) => re.is_match(name),
        Err(_) => false,
    }
}

/// Relies on regex::Regex::is_match with the pattern `^[a-zA-Z0-9._-]+$`.
#[verifier::external_body]
fn tag_pattern_matches(tag: &str) -> (r: bool)
    ensures
        r == is_tag_form(tag@),
{
    match regex::Regex::new(r"^[a-zA-Z0-9._-]+$") {
        Ok(re) => re.is_match(tag),
        Err(_) => false,
    }
}

/// Checks a repository name; `NameInvalid` when it breaks a rule.
pub fn validate_repository_name(name: &str) -> (r: Result<(), RegistryError>)
    ensures
        r is Ok <==> is_valid_repository_name(name@),
        r is Err ==> r == Err::<(), RegistryError>(RegistryError::NameInvalid),
{
    let n = name.unicode_len();
    if n == 0 || n > 255 {
        return Err(RegistryError::NameInvalid);
    }
    if !repository_pattern_matches(name) {
        return Err(RegistryError::NameInvalid);
    }
    Ok(())
}

/// Checks a tag name; `TagInvalid` when it breaks a rule.
pub fn validate_tag_name(tag: &str) -> (r: Result<(), RegistryError>)
    ensures
        r is Ok <==> is_valid_tag_name(tag@),
        r is Err ==> r == Err::<(), RegistryError>(RegistryError::TagInvalid),
{
    let n = tag.unicode_len();
    if n == 0 || n > 128 {
        return Err(RegistryError::TagInvalid);
    }
    if !tag_pattern_matches(tag) {
        return Err(RegistryError::TagInvalid);
    }
    Ok(())
}

/// Whether `s` starts with `sha256:`.
pub fn starts_with_digest_prefix(s: &str) -> (r: bool)
    ensures
        r == has_digest_prefix(s@),
{
    let n = s.unicode_len();
    if n < 7 {
        return false;
    }
    let prefix = "sha256:";
    proof {
        reveal_strlit("sha256:");
        assert(prefix@ =~= sha256_prefix());
    }
    let mut i: usize = 0;
    while i < 7
        invariant
            n == s@.len(),
            n >= 7,
            0 <= i <= 7,
            prefix@ == sha256_prefix(),
            forall|j: int| 0 <= j < i ==> s@[j] == sha256_prefix()[j],
        decreases 7 - i,
    {
        if s.get_char(i) != prefix.get_char(i) {
            return false;
        }
        i = i + 1;
    }
    assert(s@.subrange(0, 7) =~= sha256_prefix());
    true
}

/// Checks a digest string: `sha256:` and 64 lowercase hexadecimal digits.
pub fn validate_digest(digest: &str) -> (r: Result<(), RegistryError>)
    ensures
        r is Ok <==> is_digest_form(digest@),
        r is Err ==> r == Err::<(), RegistryError>(RegistryError::DigestInvalid),
{
    if !starts_with_digest_prefix(digest) {
        return Err(RegistryError::DigestInvalid);
    }
    let n = digest.unicode_len();
    if n != 71 {
        return Err(RegistryError::DigestInvalid);
    }
    let mut i: usize = 7;
    while i < 71
        invariant
            n == digest@.len(),
            n == 71,
            7 <= i <= 71,
            forall|j: int| 7 <= j < i ==> #[trigger] is_lower_hex(digest@[j]),
        decreases 71 - i,
    {
        let c = digest.get_char(i);
        if !(('0' <= c && c <= '9') || ('a' <= c && c <= 'f')) {
            assert(!is_lower_hex(digest@[i as int]));
            return Err(RegistryError::DigestInvalid);
        }
        i = i + 1;
    }
    Ok(())
}

/// Whether a reference has the shape of a digest: `sha256:` and 71
/// characters in all.
pub fn is_digest(reference: &str) -> (r: bool)
    ensures
        r == (has_digest_prefix(reference@) && reference@.len() == 71),
{
    starts_with_digest_prefix(reference) && reference.unicode_len() == 71
}

/// Whether a manifest reference names a digest rather than a tag.
pub fn is_digest_reference(reference: &str) -> (r: bool)
    ensures
        r == has_digest_prefix(reference@),
{
    starts_with_digest_prefix(reference)
}

/// A well-formed digest is never a valid tag, so a reference is read one
/// way only.
pub proof fn lemma_digest_is_not_tag(s: Seq<char>)
    requires
        has_digest_prefix(s),
    ensures
        !is_tag_form(s),
{
    assert(s[6] == s.subrange(0, 7)[6]);
    assert(!is_tag_char(s[6]));
}

} // verus!
