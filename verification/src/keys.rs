//! Object-store key derivation: pulling a key out of a stored URL, building
//! upload keys, and rendering public URLs.

use vstd::prelude::*;
use vstd::string::*;

use crate::numfmt::{dec_digits_signed, i64_to_string};
use crate::text::{
    contains_seq, find_char, find_sub, first_occurs_at, occurs_at, rfind_char, starts_with_sub,
};

verus! {

/// Number of occurrences of `c` among the first `n` characters of `s`.
pub open spec fn count_char_upto(s: Seq<char>, c: char, n: int) -> nat
    decreases n,
{
    if n <= 0 {
        0
    } else {
        count_char_upto(s, c, n - 1) + (if 0 <= n - 1 < s.len() && s[n - 1] == c {
            1nat
        } else {
            0nat
        })
    }
}

proof fn lemma_count_char_monotone(s: Seq<char>, c: char, n: int, m: int)
    requires
        n <= m,
    ensures
        count_char_upto(s, c, n) <= count_char_upto(s, c, m),
    decreases m - n,
{
    if n < m {
        lemma_count_char_monotone(s, c, n, m - 1);
    }
}

/// Index of the third `/` in `s`, if there is one: the unique position that
/// holds a `/` with exactly two `/` before it.
fn third_slash_index(s: &str) -> (r: Option<usize>)
    ensures
        match r {
            Some(i) => i < s@.len() && s@[i as int] == '/' && count_char_upto(s@, '/', i as int)
                == 2,
            None => count_char_upto(s@, '/', s@.len() as int) <= 2,
        },
{
    let len = s.unicode_len();
    let mut i: usize = 0;
    let mut seen: u64 = 0;
    while i < len
        invariant
            len == s@.len(),
            i <= len,
            seen == count_char_upto(s@, '/', i as int),
            seen <= 2,
        decreases len - i,
    {
        if s.get_char(i) == '/' {
            if seen == 2 {
                return Some(i);
            }
            seen = seen + 1;
        }
        i = i + 1;
    }
    None
}

/// Extracts the object key from a stored URL.
///
/// The key is everything after the first `.com/`; failing that, everything
/// from the first `/captures/` path segment on; failing that, a string that is
/// not itself a URL (no `http` prefix) is taken to already be the key.
pub fn extract_key_from_url(url: &str) -> (r: Option<String>)
    ensures
        contains_seq(url@, ".com/"@) ==> (r matches Some(k) && (exists|i: int|
            #[trigger] first_occurs_at(url@, ".com/"@, i) && k@ == url@.subrange(
                i + 5,
                url@.len() as int,
            ))),
        !contains_seq(url@, ".com/"@) && contains_seq(url@, "/captures/"@) ==> (r matches Some(k)
            && (exists|i: int| #[trigger] first_occurs_at(url@, "/captures/"@, i) && k@
            == url@.subrange(i + 1, url@.len() as int))),
        !contains_seq(url@, ".com/"@) && !contains_seq(url@, "/captures/"@) && !occurs_at(
            url@,
            "http"@,
            0,
        ) ==> (r matches Some(k) && k@ == url@),
        !contains_seq(url@, ".com/"@) && !contains_seq(url@, "/captures/"@) && occurs_at(
            url@,
            "http"@,
            0,
        ) ==> r is None,
{
    proof {
        reveal_strlit(".com/");
        reveal_strlit("/captures/");
    }
    let len = url.unicode_len();
    if let Some(i) = find_sub(url, ".com/") {
        let key = url.substring_char(i + 5, len);
        Some(key.to_owned())
    } else if let Some(i) = find_sub(url, "/captures/") {
        let key = url.substring_char(i + 1, len);
        Some(key.to_owned())
    } else if !starts_with_sub(url, "http") {
        Some(url.to_owned())
    } else {
        None
    }
}

/// Extracts the object key that a worker uses from a capture's image URL: the
/// part after the third `/` (host-style URLs put the key there).  `None` when
/// the URL has fewer than four `/`-separated parts.
pub fn extract_object_key(url: &str) -> (r: Option<String>)
    ensures
        count_char_upto(url@, '/', url@.len() as int) >= 3 ==> (r matches Some(k) && (exists|
            i: int,
        |
            0 <= i < url@.len() && url@[i] == '/' && #[trigger] count_char_upto(url@, '/', i) == 2
                && k@ == url@.subrange(i + 1, url@.len() as int))),
        count_char_upto(url@, '/', url@.len() as int) < 3 ==> r is None,
{
    let len = url.unicode_len();
    match third_slash_index(url) {
        Some(i) => {
            proof {
                assert(count_char_upto(url@, '/', i + 1) == 3);
                lemma_count_char_monotone(url@, '/', i + 1, url@.len() as int);
            }
            let key = url.substring_char(i + 1, len);
            Some(key.to_owned())
        },
        None => None,
    }
}

/// The file extension of `filename`: what follows the last `.`, provided that
/// dot is not the leading character and no `/` follows it.  Mirrors how a
/// path's extension is read from a plain file name.
pub open spec fn extension_of(f: Seq<char>) -> Option<Seq<char>> {
    match last_index_of(f, '.') {
        None => None,
        Some(i) => if i > 0 && (forall|k: int| i < k < f.len() ==> f[k] != '/') {
            Some(f.subrange(i + 1, f.len() as int))
        } else {
            None
        },
    }
}

/// Index of the last occurrence of `c` in `s`.
pub open spec fn last_index_of(s: Seq<char>, c: char) -> Option<int>
    decreases s.len(),
{
    if s.len() == 0 {
        None
    } else if s[s.len() - 1] == c {
        Some(s.len() - 1)
    } else {
        last_index_of(s.drop_last(), c)
    }
}

proof fn lemma_last_index_of_some(s: Seq<char>, c: char, i: int)
    requires
        0 <= i < s.len(),
        s[i] == c,
        forall|k: int| i < k < s.len() ==> s[k] != c,
    ensures
        last_index_of(s, c) == Some(i),
    decreases s.len(),
{
    if i == s.len() - 1 {
    } else {
        assert(s.drop_last() =~= s.subrange(0, s.len() - 1));
        lemma_last_index_of_some(s.drop_last(), c, i);
    }
}

proof fn lemma_last_index_of_none(s: Seq<char>, c: char)
    requires
        forall|k: int| 0 <= k < s.len() ==> s[k] != c,
    ensures
        last_index_of(s, c) is None,
    decreases s.len(),
{
    if s.len() > 0 {
        lemma_last_index_of_none(s.drop_last(), c);
    }
}

/// Reads the extension from a file name, per `extension_of`.
pub fn file_extension(filename: &str) -> (r: Option<String>)
    ensures
        match r {
            Some(e) => extension_of(filename@) == Some(e@),
            None => extension_of(filename@) is None,
        },
{
    let len = filename.unicode_len();
    match rfind_char(filename, '.') {
        Some(i) => {
            proof {
                lemma_last_index_of_some(filename@, '.', i as int);
            }
            if i == 0 {
                return None;
            }
            let ext = filename.substring_char(i + 1, len);
            match find_char(ext, '/') {
                Some(j) => {
                    assert(filename@[i + 1 + j] == ext@[j as int]);
                    None
                },
                None => {
                    assert forall|k: int| i < k < filename@.len() implies filename@[k]
                        != '/' by {
                        assert(filename@[k] == ext@[k - i - 1]);
                    }
                    Some(ext.to_owned())
                },
            }
        },
        None => {
            proof {
                lemma_last_index_of_none(filename@, '.');
            }
            None
        },
    }
}

/// Builds the upload key for a fresh capture image:
/// `captures/<timestamp>/<token>.<extension>`, with `jpg` standing in when the
/// file name has no usable extension.
pub fn make_object_key(timestamp: i64, token: &str, filename: &str) -> (r: String)
    ensures
        r@ == "captures/"@ + dec_digits_signed(timestamp as int) + "/"@ + token@ + "."@ + (
        match extension_of(filename@) {
            Some(e) => e,
            None => "jpg"@,
        }),
{
    proof {
        reveal_strlit("captures/");
        reveal_strlit("/");
        reveal_strlit(".");
        reveal_strlit("jpg");
    }
    let mut key = String::from_str("captures/");
    key.append(i64_to_string(timestamp).as_str());
    key.append("/");
    key.append(token);
    key.append(".");
    match file_extension(filename) {
        Some(e) => key.append(e.as_str()),
        None => key.append("jpg"),
    }
    key
}

/// Public URL of an object: `https://<bucket>.s3.amazonaws.com/<key>`.
pub fn public_url_for(bucket: &str, object_key: &str) -> (r: String)
    ensures
        r@ == "https://"@ + bucket@ + ".s3.amazonaws.com/"@ + object_key@,
{
    let mut url = String::from_str("https://");
    url.append(bucket);
    url.append(".s3.amazonaws.com/");
    url.append(object_key);
    url
}

/// Storage key of a capture's thumbnail: `thumbnails/<capture id>.jpg`.
pub fn thumbnail_key_for(capture_id_text: &str) -> (r: String)
    ensures
        r@ == "thumbnails/"@ + capture_id_text@ + ".jpg"@,
{
    let mut key = String::from_str("thumbnails/");
    key.append(capture_id_text);
    key.append(".jpg");
    key
}

} // verus!
