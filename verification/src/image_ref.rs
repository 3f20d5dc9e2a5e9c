//! Image references: `repository[:tag]`, with the tag defaulting to
//! `"latest"` when absent. The reference is split on its first `:`.

use vstd::prelude::*;
use crate::text::{spec_index_of, find_char, lemma_index_of_props};

verus! {

/// The view of the default tag, `"latest"`.
pub open spec fn latest_tag() -> Seq<char> {
    seq!['l', 'a', 't', 'e', 's', 't']
}

/// What [`parse_image`] returns: the repository is everything before the
/// first `:`, the tag everything after it; a reference without `:` has the
/// whole string as repository and `"latest"` as tag.
pub open spec fn spec_parse_image(s: Seq<char>) -> (Seq<char>, Seq<char>) {
    let i = spec_index_of(s, ':', 0);
    if i < s.len() {
        (s.subrange(0, i), s.subrange(i + 1, s.len() as int))
    } else {
        (s, latest_tag())
    }
}

/// A parsed image reference.
pub struct ImageReference {
    pub repository: String,
    pub tag: String,
}

/// Split an image reference into `(repository, tag)` on the first `:`;
/// without a `:`, the tag defaults to `"latest"`.
pub fn parse_image(image: &str) -> (r: (String, String))
    ensures
        r.0@ == spec_parse_image(image@).0,
        r.1@ == spec_parse_image(image@).1,
{
    let n = image.unicode_len();
    let i = find_char(image, ':');
    proof {
        lemma_index_of_props(image@, ':', 0);
    }
    if i < n {
        let repo = image.substring_char(0, i).to_owned();
        let tag = image.substring_char(i + 1, n).to_owned();
        (repo, tag)
    } else {
        let tag = String::from_str("latest");
        proof {
            reveal_strlit("latest");
            assert(tag@ =~= latest_tag());
        }
        (image.to_owned(), tag)
    }
}

impl ImageReference {
    /// The `(repository, tag)` pair this reference holds.
    pub open spec fn view(&self) -> (Seq<char>, Seq<char>) {
        (self.repository@, self.tag@)
    }

    /// Parse an image reference string, as [`parse_image`] does.
    pub fn parse(image: &str) -> (r: ImageReference)
        ensures
            r@ == spec_parse_image(image@),
    {
        let (repository, tag) = parse_image(image);
        ImageReference { repository, tag }
    }
}

} // verus!
