use vstd::prelude::*;
use crate::text::{push_chars, same_chars, to_chars, trim, trimmed};

verus! {

/// What `str::to_lowercase` gives for a string.
pub uninterp spec fn lower_of(s: Seq<char>) -> Seq<char>;

/// What `urlencoding::encode` gives for a string.
pub uninterp spec fn url_encoded(s: Seq<char>) -> Seq<char>;

/// Relies on `str::to_lowercase`: the result depends on the characters alone,
/// and an empty string stays empty.
#[verifier::external_body]
fn lowercase(s: &str) -> (r: String)
    ensures
        r@ == lower_of(s@),
        s@.len() == 0 ==> r@.len() == 0,
{
    s.to_lowercase()
}

/// Relies on `urlencoding::encode`: percent-encodes every byte of the UTF-8 form but
/// ASCII alphanumerics and `-`, `_`, `.`, `~`, which it keeps; the result depends on
/// the characters alone.
#[verifier::external_body]
fn percent_encode(s: &str) -> (r: String)
    ensures
        r@ == url_encoded(s@),
        all_unreserved(s@) ==> r@ == s@,
{
    urlencoding::encode(s).into_owned()
}

/// A character that percent-encoding keeps as it is.
pub open spec fn is_unreserved(c: char) -> bool {
    let n = c as u32;
    (48 <= n && n <= 57) || (65 <= n && n <= 90) || (97 <= n && n <= 122) || c == '-' || c == '.'
        || c == '_' || c == '~'
}

/// Every character of `s` is kept by percent-encoding; so is the empty string.
pub open spec fn all_unreserved(s: Seq<char>) -> bool {
    forall|k: int| 0 <= k < s.len() ==> is_unreserved(#[trigger] s[k])
}

/// The fixed image of a known user, by lower-case name.
pub open spec fn override_of(lowered: Seq<char>) -> Option<Seq<char>> {
    if lowered == "alice"@ {
        Some("https://example.com/alice.png"@)
    } else if lowered == "bob"@ {
        Some("https://example.com/bob.jpg"@)
    } else {
        None
    }
}

/// The generated image for an encoded name.
pub open spec fn fallback_url(encoded: Seq<char>) -> Seq<char> {
    "https://avatars.dicebear.com/api/identicon/"@ + encoded + ".svg"@
}

/// The image for a name whose lower-case form is `lowered` and whose
/// percent-encoded form is `encoded`.
pub open spec fn avatar_of(lowered: Seq<char>, encoded: Seq<char>) -> Seq<char> {
    match override_of(lowered) {
        Some(u) => u,
        None => fallback_url(encoded),
    }
}

/// The image shown for a user name.
pub open spec fn avatar_url(name: Seq<char>) -> Seq<char> {
    avatar_of(lower_of(trimmed(name)), url_encoded(trimmed(name)))
}

/// The image for a name, given its lower-case and its percent-encoded forms.
pub fn avatar_from_parts(lowered: &str, encoded: &str) -> (r: String)
    ensures
        r@ == avatar_of(lowered@, encoded@),
{
    let l = to_chars(lowered);
    if same_chars(&l, &to_chars("alice")) {
        return "https://example.com/alice.png".to_owned();
    }
    if same_chars(&l, &to_chars("bob")) {
        return "https://example.com/bob.jpg".to_owned();
    }
    let mut out = "https://avatars.dicebear.com/api/identicon/".to_owned();
    push_chars(&mut out, &to_chars(encoded));
    push_chars(&mut out, &to_chars(".svg"));
    out
}

/// The image shown for a user name: a fixed one for known users, matched on the
/// trimmed name without regard to case, else one generated from the trimmed name.
pub fn avatar_for(name: &str) -> (r: String)
    ensures
        r@ == avatar_url(name@),
{
    let t = trim(name);
    let lowered = lowercase(t.as_str());
    let encoded = percent_encode(t.as_str());
    avatar_from_parts(lowered.as_str(), encoded.as_str())
}

/// The same name, or names that differ only in case or surrounding white space
/// and have a fixed image, get the same image.
pub proof fn lemma_avatar_deterministic(a: Seq<char>, b: Seq<char>)
    ensures
        trimmed(a) == trimmed(b) ==> avatar_url(a) == avatar_url(b),
        lower_of(trimmed(a)) == lower_of(trimmed(b)) && override_of(lower_of(trimmed(a))) is Some
            ==> avatar_url(a) == avatar_url(b),
{
}

} // verus!
