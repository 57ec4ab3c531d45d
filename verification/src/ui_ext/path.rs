//! Asset paths of the extension registry: a requested path is decoded once
//! and must be a clean relative path; its extension chooses the media type.

use vstd::prelude::*;
use vstd::string::StringExecFns;
use vstd::utf8::*;

use crate::text::{
    chars_eq_str, chars_of, contains_char, has_control, any_control, lower_chars, lower_seq,
    string_from_chars, string_from_utf8, sub_chars,
};
use crate::web::{
    char_views, decode_bytes, decode_from, last_index_of, rfind, split_char, split_from,
    DecodeError,
};

verus! {

broadcast use vstd::utf8::encode_utf8_decode_utf8, vstd::utf8::encode_utf8_valid_utf8;

/// Largest asset the registry serves.
pub const MAX_ASSET_BYTES: usize = 16777216;

/// One percent decoding of an asset path (`+` is not special), then UTF-8.
pub open spec fn spec_decode_once(s: Seq<char>) -> Result<Seq<char>, Seq<char>> {
    match decode_from(encode_utf8(s), 0, false, false) {
        Err(DecodeError::Truncated) => Err("truncated percent escape in asset path"@),
        Err(_) => Err("invalid percent escape in asset path"@),
        Ok(b) => if valid_utf8(b) {
            Ok(decode_utf8(b))
        } else {
            Err("asset path is not UTF-8"@)
        },
    }
}

pub fn percent_decode_once(value: &str) -> (r: Result<String, String>)
    ensures
        match spec_decode_once(value@) {
            Ok(s) => r matches Ok(t) && t@ == s,
            Err(m) => r matches Err(e) && e@ == m,
        },
{
    let bytes = value.as_bytes();
    proof {
        assert(bytes@ == encode_utf8(value@));
    }
    match decode_bytes(bytes, false, false) {
        Err(DecodeError::Truncated) => Err(String::from_str("truncated percent escape in asset path")),
        Err(_) => Err(String::from_str("invalid percent escape in asset path")),
        Ok(out) => match string_from_utf8(out) {
            Some(s) => Ok(s),
            None => Err(String::from_str("asset path is not UTF-8")),
        },
    }
}

pub open spec fn has_empty_segment(d: Seq<char>) -> bool {
    exists|i: int| 0 <= i < split_from(d, '/', 0).len() && #[trigger] split_from(d, '/', 0)[i].len()
        == 0
}

/// A clean relative path: not empty, none of NUL, `\`, `%`, `?`, `#`, no
/// leading or trailing `/`, and no empty segment.
pub open spec fn clean_relative(d: Seq<char>) -> bool {
    &&& d.len() > 0
    &&& !contains_char(d, '\0')
    &&& !contains_char(d, '\\')
    &&& !contains_char(d, '%')
    &&& !contains_char(d, '?')
    &&& !contains_char(d, '#')
    &&& d[0] != '/'
    &&& d.last() != '/'
    &&& !has_empty_segment(d)
}

/// A segment that is not a plain name: `..` anywhere, or `.` first.
pub open spec fn non_normal(segs: Seq<Seq<char>>) -> bool {
    exists|i: int|
        0 <= i < segs.len() && (#[trigger] segs[i] == ".."@ || (i == 0 && segs[i] == "."@))
}

pub open spec fn spec_relative_path(requested: Seq<char>) -> Result<Seq<char>, Seq<char>> {
    match spec_decode_once(requested) {
        Err(m) => Err(m),
        Ok(d) => if !clean_relative(d) {
            Err("extension asset must be a clean relative path"@)
        } else if non_normal(split_from(d, '/', 0)) {
            Err("extension asset contains a non-normal path component"@)
        } else if has_control(d) {
            Err("extension asset contains a control character"@)
        } else {
            Ok(d)
        },
    }
}

fn any_empty(segs: &Vec<Vec<char>>) -> (r: bool)
    ensures
        r == exists|i: int| 0 <= i < segs@.len() && #[trigger] char_views(segs@)[i].len() == 0,
{
    let mut i: usize = 0;
    while i < segs.len()
        invariant
            i <= segs@.len(),
            forall|j: int| 0 <= j < i ==> #[trigger] char_views(segs@)[j].len() != 0,
        decreases segs@.len() - i,
    {
        assert(char_views(segs@)[i as int] == segs@[i as int]@);
        if segs[i].len() == 0 {
            return true;
        }
        i += 1;
    }
    false
}

fn any_non_normal(segs: &Vec<Vec<char>>) -> (r: bool)
    ensures
        r == non_normal(char_views(segs@)),
{
    let ghost views = char_views(segs@);
    let mut i: usize = 0;
    while i < segs.len()
        invariant
            i <= segs@.len(),
            views == char_views(segs@),
            forall|j: int|
                0 <= j < i ==> !(#[trigger] views[j] == ".."@ || (j == 0 && views[j] == "."@)),
        decreases segs@.len() - i,
    {
        assert(views[i as int] == segs@[i as int]@);
        if chars_eq_str(segs[i].as_slice(), "..") || (i == 0 && chars_eq_str(
            segs[i].as_slice(),
            ".",
        )) {
            return true;
        }
        i += 1;
    }
    false
}

fn has_char(v: &[char], c: char) -> (r: bool)
    ensures
        r == contains_char(v@, c),
{
    let mut i: usize = 0;
    while i < v.len()
        invariant
            i <= v@.len(),
            forall|j: int| 0 <= j < i ==> v@[j] != c,
        decreases v@.len() - i,
    {
        if v[i] == c {
            return true;
        }
        i += 1;
    }
    false
}

/// Checks a requested asset path and gives it back decoded.
pub fn validate_relative_path(requested: &str) -> (r: Result<String, String>)
    ensures
        match spec_relative_path(requested@) {
            Ok(d) => r matches Ok(t) && t@ == d,
            Err(m) => r matches Err(e) && e@ == m,
        },
{
    let decoded = match percent_decode_once(requested) {
        Ok(d) => d,
        Err(e) => {
            return Err(e);
        },
    };
    let d = chars_of(decoded.as_str());
    let segs = split_char(d.as_slice(), '/');
    let clean = d.len() > 0 && !has_char(d.as_slice(), '\0') && !has_char(d.as_slice(), '\\')
        && !has_char(d.as_slice(), '%') && !has_char(d.as_slice(), '?') && !has_char(
        d.as_slice(),
        '#',
    ) && d[0] != '/' && d[d.len() - 1] != '/' && !any_empty(&segs);
    if !clean {
        return Err(String::from_str("extension asset must be a clean relative path"));
    }
    if any_non_normal(&segs) {
        return Err(String::from_str("extension asset contains a non-normal path component"));
    }
    if any_control(decoded.as_str()) {
        return Err(String::from_str("extension asset contains a control character"));
    }
    Ok(decoded)
}

/// `Path::file_name` of a relative path given by its `/`-separated segments,
/// from the last of the first `i` segments backwards: empty and `.` segments
/// after the first are skipped; the name is that of the last plain segment.
pub open spec fn file_name_from(segs: Seq<Seq<char>>, i: int) -> Option<Seq<char>>
    decreases i,
{
    if i <= 0 || i > segs.len() {
        None
    } else {
        let seg = segs[i - 1];
        if i - 1 == 0 {
            if seg == ""@ || seg == "."@ || seg == ".."@ {
                None
            } else {
                Some(seg)
            }
        } else if seg == ""@ || seg == "."@ {
            file_name_from(segs, i - 1)
        } else if seg == ".."@ {
            None
        } else {
            Some(seg)
        }
    }
}

pub open spec fn spec_file_name(path: Seq<char>) -> Option<Seq<char>> {
    let segs = split_from(path, '/', 0);
    file_name_from(segs, segs.len() as int)
}

/// `Path::extension` of a file name: after its last `.`, unless the name has
/// no `.` or only a leading one.
pub open spec fn spec_extension(f: Seq<char>) -> Option<Seq<char>> {
    let k = last_index_of(f, '.');
    if k <= 0 {
        None
    } else {
        Some(f.skip(k + 1))
    }
}

pub open spec fn media_type(ext: Seq<char>) -> Option<Seq<char>> {
    if ext == "html"@ {
        Some("text/html; charset=utf-8"@)
    } else if ext == "js"@ || ext == "mjs"@ {
        Some("text/javascript; charset=utf-8"@)
    } else if ext == "css"@ {
        Some("text/css; charset=utf-8"@)
    } else if ext == "json"@ {
        Some("application/json; charset=utf-8"@)
    } else if ext == "svg"@ {
        Some("image/svg+xml"@)
    } else if ext == "png"@ {
        Some("image/png"@)
    } else if ext == "jpg"@ || ext == "jpeg"@ {
        Some("image/jpeg"@)
    } else if ext == "gif"@ {
        Some("image/gif"@)
    } else if ext == "webp"@ {
        Some("image/webp"@)
    } else if ext == "woff"@ {
        Some("font/woff"@)
    } else if ext == "woff2"@ {
        Some("font/woff2"@)
    } else {
        None
    }
}

pub open spec fn spec_content_type(path: Seq<char>) -> Option<Seq<char>> {
    match spec_file_name(path) {
        None => None,
        Some(f) => match spec_extension(f) {
            None => None,
            Some(e) => media_type(lower_seq(e)),
        },
    }
}

fn file_name(segs: &Vec<Vec<char>>) -> (r: Option<Vec<char>>)
    ensures
        match file_name_from(char_views(segs@), segs@.len() as int) {
            Some(f) => r matches Some(v) && v@ == f,
            None => r is None,
        },
{
    let ghost views = char_views(segs@);
    let mut i = segs.len();
    while i > 0
        invariant
            i <= segs@.len(),
            views == char_views(segs@),
            file_name_from(views, segs@.len() as int) == file_name_from(views, i as int),
        decreases i,
    {
        let seg = &segs[i - 1];
        assert(views[i - 1] == seg@);
        let empty_or_dot = seg.len() == 0 || chars_eq_str(seg.as_slice(), ".");
        assert(seg.len() == 0 ==> seg@ =~= ""@) by {
            reveal_strlit("");
        }
        assert(seg@ == ""@ ==> seg.len() == 0) by {
            reveal_strlit("");
        }
        if i - 1 == 0 {
            if empty_or_dot || chars_eq_str(seg.as_slice(), "..") {
                return None;
            }
            return Some(sub_chars(seg.as_slice(), 0, seg.len()));
        }
        if !empty_or_dot {
            if chars_eq_str(seg.as_slice(), "..") {
                return None;
            }
            return Some(sub_chars(seg.as_slice(), 0, seg.len()));
        }
        i -= 1;
    }
    None
}

fn media_type_of(ext: &[char]) -> (r: Option<&'static str>)
    ensures
        match media_type(ext@) {
            Some(t) => r matches Some(s) && s@ == t,
            None => r is None,
        },
{
    if chars_eq_str(ext, "html") {
        Some("text/html; charset=utf-8")
    } else if chars_eq_str(ext, "js") || chars_eq_str(ext, "mjs") {
        Some("text/javascript; charset=utf-8")
    } else if chars_eq_str(ext, "css") {
        Some("text/css; charset=utf-8")
    } else if chars_eq_str(ext, "json") {
        Some("application/json; charset=utf-8")
    } else if chars_eq_str(ext, "svg") {
        Some("image/svg+xml")
    } else if chars_eq_str(ext, "png") {
        Some("image/png")
    } else if chars_eq_str(ext, "jpg") || chars_eq_str(ext, "jpeg") {
        Some("image/jpeg")
    } else if chars_eq_str(ext, "gif") {
        Some("image/gif")
    } else if chars_eq_str(ext, "webp") {
        Some("image/webp")
    } else if chars_eq_str(ext, "woff") {
        Some("font/woff")
    } else if chars_eq_str(ext, "woff2") {
        Some("font/woff2")
    } else {
        None
    }
}

/// The media type an asset is served with, by its extension in any letter
/// case; `None` for an unsupported type.
pub fn asset_content_type(path: &str) -> (r: Option<&'static str>)
    ensures
        match spec_content_type(path@) {
            Some(t) => r matches Some(s) && s@ == t,
            None => r is None,
        },
{
    let p = chars_of(path);
    let segs = split_char(p.as_slice(), '/');
    let f = match file_name(&segs) {
        Some(f) => f,
        None => {
            return None;
        },
    };
    proof {
        crate::web::lemma_last_index_of(f@, '.');
    }
    let k = match rfind(f.as_slice(), '.') {
        Some(k) => k,
        None => {
            return None;
        },
    };
    if k == 0 {
        return None;
    }
    let ext = sub_chars(f.as_slice(), k + 1, f.len());
    assert(ext@ =~= f@.skip(k + 1));
    let lowered = lower_chars(ext.as_slice());
    media_type_of(lowered.as_slice())
}

} // verus!
