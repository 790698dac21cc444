//! The compute of the avatar routes: building the stored file name for an
//! upload, picking the extension out of a client-supplied file name, and
//! mapping an extension to the content type served back. The byte copying
//! and storage updates around these stay with the caller.
use vstd::prelude::*;

use vstd::string::{StrSliceExecFns, StringExecFns};

use crate::decimal::{append_dec, dec_digits, int_digits};

verus! {

/// The stored file name for an avatar upload: `user_<id>_<timestamp>.<ext>`.
pub fn avatar_filename(id: i32, timestamp: u64, ext: &str) -> (r: String)
    ensures
        r@ == "user_"@ + int_digits(id as int) + "_"@ + dec_digits(timestamp as nat) + "."@ + ext@,
{
    let mut s = "user_".to_owned();
    if id < 0 {
        s.append("-");
        let mag = (-(id as i64)) as u64;
        append_dec(&mut s, mag);
        proof {
            reveal_strlit("-");
            assert("-"@ =~= seq!['-']);
            assert(int_digits(id as int) =~= seq!['-'] + dec_digits(mag as nat));
        }
    } else {
        append_dec(&mut s, id as u64);
    }
    s.append("_");
    append_dec(&mut s, timestamp);
    s.append(".");
    s.append(ext);
    proof {
        assert(s@ =~= "user_"@ + int_digits(id as int) + "_"@ + dec_digits(timestamp as nat) + "."@
            + ext@);
    }
    s
}

/// The index of the last `'.'` in `s`, or `-1` when there is none.
pub open spec fn last_dot(s: Seq<char>) -> int
    decreases s.len(),
{
    if s.len() == 0 {
        -1
    } else if s.last() == '.' {
        s.len() - 1
    } else {
        last_dot(s.drop_last())
    }
}

/// The extension of a file name: what follows the last dot, or `None` when
/// the name has no dot or its only role is to lead a hidden name.
pub open spec fn extension_of(name: Seq<char>) -> Option<Seq<char>> {
    let i = last_dot(name);
    if i <= 0 {
        None
    } else {
        Some(name.skip(i + 1))
    }
}

proof fn lemma_last_dot_at(s: Seq<char>, i: int)
    requires
        0 <= i < s.len(),
        s[i] == '.',
        forall|k: int| i < k < s.len() ==> #[trigger] s[k] != '.',
    ensures
        last_dot(s) == i,
    decreases s.len(),
{
    if i < s.len() - 1 {
        assert(s.drop_last() =~= s.take(s.len() - 1));
        lemma_last_dot_at(s.drop_last(), i);
    }
}

proof fn lemma_no_dot(s: Seq<char>)
    requires
        forall|k: int| 0 <= k < s.len() ==> #[trigger] s[k] != '.',
    ensures
        last_dot(s) == -1,
    decreases s.len(),
{
    if s.len() > 0 {
        lemma_no_dot(s.drop_last());
    }
}

/// Pick the extension out of a client-supplied file name.
pub fn file_extension(name: &str) -> (r: Option<String>)
    ensures
        match r {
            Some(e) => extension_of(name@) == Some(e@),
            None => extension_of(name@) is None,
        },
{
    let n = name.unicode_len();
    let mut j: usize = n;
    while j > 0 && name.get_char(j - 1) != '.'
        invariant
            j <= n,
            n == name@.len(),
            forall|k: int| j <= k < n ==> #[trigger] name@[k] != '.',
        decreases j,
    {
        j -= 1;
    }
    if j == 0 {
        proof {
            lemma_no_dot(name@);
        }
        return None;
    }
    proof {
        lemma_last_dot_at(name@, j - 1);
    }
    if j == 1 {
        return None;
    }
    Some(name.substring_char(j, n).to_owned())
}

/// Case-insensitive match of `s` against a keyword given in its lowercase
/// and uppercase spellings.
pub open spec fn matches_ci(s: Seq<char>, lower: Seq<char>, upper: Seq<char>) -> bool {
    s.len() == lower.len() && (forall|i: int|
        0 <= i < s.len() ==> (#[trigger] s[i] == lower[i] || s[i] == upper[i]))
}

/// The content type served for an avatar with the given file extension.
pub open spec fn content_type_of(ext: Seq<char>) -> Seq<char> {
    if matches_ci(ext, "png"@, "PNG"@) {
        "image/png"@
    } else if matches_ci(ext, "jpg"@, "JPG"@) || matches_ci(ext, "jpeg"@, "JPEG"@) {
        "image/jpeg"@
    } else if matches_ci(ext, "gif"@, "GIF"@) {
        "image/gif"@
    } else if matches_ci(ext, "webp"@, "WEBP"@) {
        "image/webp"@
    } else {
        "application/octet-stream"@
    }
}

fn str_matches_ci(s: &str, lower: &str, upper: &str) -> (b: bool)
    requires
        lower@.len() == upper@.len(),
    ensures
        b == matches_ci(s@, lower@, upper@),
{
    let n = s.unicode_len();
    if n != lower.unicode_len() {
        return false;
    }
    let mut i: usize = 0;
    while i < n
        invariant
            i <= n,
            n == s@.len(),
            n == lower@.len(),
            n == upper@.len(),
            forall|k: int| 0 <= k < i ==> (#[trigger] s@[k] == lower@[k] || s@[k] == upper@[k]),
        decreases n - i,
    {
        let c = s.get_char(i);
        if c != lower.get_char(i) && c != upper.get_char(i) {
            return false;
        }
        i += 1;
    }
    true
}

/// The content type for an avatar file extension, matched without regard
/// to ASCII case.
pub fn content_type_for(ext: &str) -> (r: &'static str)
    ensures
        r@ == content_type_of(ext@),
{
    proof {
        reveal_strlit("png");
        reveal_strlit("PNG");
        reveal_strlit("jpg");
        reveal_strlit("JPG");
        reveal_strlit("jpeg");
        reveal_strlit("JPEG");
        reveal_strlit("gif");
        reveal_strlit("GIF");
        reveal_strlit("webp");
        reveal_strlit("WEBP");
    }
    if str_matches_ci(ext, "png", "PNG") {
        "image/png"
    } else if str_matches_ci(ext, "jpg", "JPG") || str_matches_ci(ext, "jpeg", "JPEG") {
        "image/jpeg"
    } else if str_matches_ci(ext, "gif", "GIF") {
        "image/gif"
    } else if str_matches_ci(ext, "webp", "WEBP") {
        "image/webp"
    } else {
        "application/octet-stream"
    }
}

} // verus!
