//! Utility functions.

use vstd::prelude::*;

verus! {

/// A string in lower case, as `str::to_lowercase` gives it.
pub uninterp spec fn lowercase(s: Seq<char>) -> Seq<char>;

/// `str::to_lowercase` of the standard library: the result is named, not
/// spelled out.
#[verifier::external_body]
fn to_lowercase(s: &str) -> (lower: String)
    ensures
        lower@ == lowercase(s@),
{
    s.to_lowercase()
}

/// What a character becomes in a slug: a lower-case ASCII letter or a
/// digit stays, a space or a dash becomes a dash, anything else goes.
pub open spec fn slug_char(c: char) -> Option<char> {
    if ('a' <= c && c <= 'z') || ('0' <= c && c <= '9') {
        Some(c)
    } else if c == ' ' || c == '-' {
        Some('-')
    } else {
        None
    }
}

/// The slug of a string that is in lower case already: what each of its
/// characters becomes, in order.
pub open spec fn slug_of(s: Seq<char>) -> Seq<char>
    decreases s.len(),
{
    if s.len() == 0 {
        Seq::empty()
    } else {
        match slug_char(s.last()) {
            Some(c) => slug_of(s.drop_last()).push(c),
            None => slug_of(s.drop_last()),
        }
    }
}

/// The slug of a string that is in lower case already.
pub fn slug_of_lowercase(lower: &str) -> (slug: String)
    ensures
        slug@ == slug_of(lower@),
{
    let chars = crate::text::chars_of(lower);
    let mut slug = String::new();
    let mut i: usize = 0;
    assert(chars@.take(0) =~= Seq::empty());
    while i < chars.len()
        invariant
            i <= chars.len(),
            chars@ == lower@,
            slug@ == slug_of(chars@.take(i as int)),
        decreases chars.len() - i,
    {
        let c = chars[i];
        proof {
            assert(chars@.take(i + 1).drop_last() =~= chars@.take(i as int));
            assert(chars@.take(i + 1).last() == c);
        }
        if ('a' <= c && c <= 'z') || ('0' <= c && c <= '9') {
            slug.push(c);
        } else if c == ' ' || c == '-' {
            slug.push('-');
        }
        i += 1;
    }
    assert(chars@.take(i as int) =~= chars@);
    slug
}

/// Slugify a string.
///
/// This converts a string to a slug by lowercasing it, replacing spaces
/// and dashes with a dash each, and removing any characters that are not
/// ASCII letters, digits or a dash.
pub fn slugify(s: &str) -> (slug: String)
    ensures
        slug@ == slug_of(lowercase(s@)),
{
    let lower = to_lowercase(s);
    slug_of_lowercase(lower.as_str())
}

} // verus!
