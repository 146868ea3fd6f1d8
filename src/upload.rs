//! Which uploaded files are accepted as product images.

use vstd::prelude::*;
use vstd::string::{StrSliceExecFns, StringExecFns};
use crate::account::{lower_of, lowercase};
use crate::status::str_equal;

verus! {

/// The text after the last '.' of `s`; `None` if `s` has no '.'.
pub open spec fn after_last_dot(s: Seq<char>) -> Option<Seq<char>>
    decreases s.len(),
{
    if s.len() == 0 {
        None
    } else if s.last() == '.' {
        Some(Seq::empty())
    } else {
        match after_last_dot(s.drop_last()) {
            Some(t) => Some(t.push(s.last())),
            None => None,
        }
    }
}

/// The image extensions accepted, in lowercase.
pub open spec fn is_image_extension(e: Seq<char>) -> bool {
    e == "jpg"@ || e == "jpeg"@ || e == "png"@ || e == "gif"@ || e == "webp"@
}

/// The extension kept for an upload named `name`: the text after its last
/// '.', when that text, lowercased, is an image extension.
pub open spec fn kept_extension(name: Seq<char>) -> Option<Seq<char>> {
    match after_last_dot(name) {
        Some(e) => if is_image_extension(lower_of(e)) {
            Some(e)
        } else {
            None
        },
        None => None,
    }
}

proof fn lemma_after_last_dot(s: Seq<char>, i: int)
    requires
        0 <= i <= s.len(),
        forall|k: int| i <= k < s.len() ==> s[k] != '.',
    ensures
        i > 0 && s[i - 1] == '.' ==> after_last_dot(s) == Some(s.subrange(i, s.len() as int)),
        i == 0 ==> after_last_dot(s) is None,
    decreases s.len(),
{
    if s.len() > i {
        let d = s.drop_last();
        lemma_after_last_dot(d, i);
        if i > 0 && s[i - 1] == '.' {
            assert(d.subrange(i, d.len() as int).push(s.last()) == s.subrange(i, s.len() as int));
        }
    } else if i > 0 && s[i - 1] == '.' {
        assert(s.subrange(i, s.len() as int) == Seq::<char>::empty());
    }
}

/// Whether an already lowercased extension is an accepted image type.
pub fn image_extension_accepted(lowered: &str) -> (r: bool)
    ensures
        r == is_image_extension(lowered@),
{
    str_equal(lowered, "jpg") || str_equal(lowered, "jpeg") || str_equal(lowered, "png")
        || str_equal(lowered, "gif") || str_equal(lowered, "webp")
}

/// The extension to keep for an uploaded file, or `None` if the file is
/// not taken as an image.
pub fn accepted_image_extension(name: &str) -> (r: Option<String>)
    ensures
        match kept_extension(name@) {
            Some(e) => r is Some && r->Some_0@ == e,
            None => r is None,
        },
{
    let n = name.unicode_len();
    let mut i: usize = n;
    while i > 0 && name.get_char(i - 1) != '.'
        invariant
            n == name@.len(),
            i <= n,
            forall|k: int| i <= k < n ==> name@[k] != '.',
        decreases i,
    {
        i = i - 1;
    }
    proof {
        lemma_after_last_dot(name@, i as int);
    }
    if i == 0 {
        return None;
    }
    let ext = name.substring_char(i, n);
    let lowered = lowercase(ext);
    if image_extension_accepted(lowered.as_str()) {
        Some(String::from_str(ext))
    } else {
        None
    }
}

} // verus!
