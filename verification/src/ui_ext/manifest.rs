//! The manifest of a trusted UI extension: exactly `name`, `title`, `entry`
//! and an optional `description`, each bounded.

use vstd::prelude::*;
use vstd::string::StringExecFns;

use crate::host::byte_len;
use crate::json::{check_keys_within, keys_within, spec_as_str, spec_get, Json};
use crate::text::{
    any_control, blank, chars_of, decimal_chars, decimal_string, has_control, is_blank, join2,
    join3, to_owned,
};
use crate::ui_ext::path::{spec_relative_path, validate_relative_path};

verus! {

/// A parsed extension manifest.
#[derive(Debug, Clone, PartialEq, Eq)]
pub struct ExtensionManifest {
    pub name: String,
    pub title: String,
    pub entry: String,
    pub description: Option<String>,
}

pub struct ManifestFields {
    pub name: Seq<char>,
    pub title: Seq<char>,
    pub entry: Seq<char>,
    pub description: Option<Seq<char>>,
}

impl View for ExtensionManifest {
    type V = ManifestFields;

    open spec fn view(&self) -> ManifestFields {
        ManifestFields {
            name: self.name@,
            title: self.title@,
            entry: self.entry@,
            description: match self.description {
                Some(d) => Some(d@),
                None => None,
            },
        }
    }
}

pub open spec fn name_rest_char(c: char) -> bool {
    ('a' <= c <= 'z') || ('0' <= c <= '9') || c == '-'
}

/// `^[a-z][a-z0-9-]{0,31}$`.
pub open spec fn spec_valid_name(s: Seq<char>) -> bool {
    &&& 1 <= s.len() <= 32
    &&& 'a' <= s[0] <= 'z'
    &&& forall|i: int| 1 <= i < s.len() ==> name_rest_char(#[trigger] s[i])
}

/// Whether an extension name matches `^[a-z][a-z0-9-]{0,31}$`.
pub fn valid_name(value: &str) -> (r: bool)
    ensures
        r == spec_valid_name(value@),
{
    let c = chars_of(value);
    if c.len() == 0 || c.len() > 32 || !('a' <= c[0] && c[0] <= 'z') {
        return false;
    }
    let mut i: usize = 1;
    while i < c.len()
        invariant
            1 <= i <= c@.len(),
            c@ == value@,
            forall|j: int| 1 <= j < i ==> name_rest_char(#[trigger] c@[j]),
        decreases c@.len() - i,
    {
        let ch = c[i];
        if !(('a' <= ch && ch <= 'z') || ('0' <= ch && ch <= '9') || ch == '-') {
            assert(!name_rest_char(c@[i as int]));
            return false;
        }
        i += 1;
    }
    true
}

/// A text field within `max` UTF-8 bytes and without control characters.
pub open spec fn spec_validate_text(value: Seq<char>, max: usize, field: Seq<char>) -> Result<
    (),
    Seq<char>,
> {
    if byte_len(value) > max {
        Err(field + " exceeds "@ + decimal_chars(max as nat) + " UTF-8 bytes"@)
    } else if has_control(value) {
        Err(field + " contains a control character"@)
    } else {
        Ok(())
    }
}

pub fn validate_text(value: &str, max_bytes: usize, field: &str) -> (r: Result<(), String>)
    ensures
        match spec_validate_text(value@, max_bytes, field@) {
            Ok(_) => r is Ok,
            Err(m) => r matches Err(e) && e@ == m,
        },
{
    if value.len() > max_bytes {
        let mut m = join3(field, " exceeds ", decimal_string(max_bytes as u64).as_str());
        m.append(" UTF-8 bytes");
        return Err(m);
    }
    if any_control(value) {
        return Err(join2(field, " contains a control character"));
    }
    Ok(())
}

pub open spec fn spec_required(v: Json, field: Seq<char>) -> Result<Seq<char>, Seq<char>> {
    match spec_as_str(spec_get(v, field)) {
        None => Err(field + " must be a string"@),
        Some(s) => if blank(s) {
            Err(field + " must not be blank"@)
        } else {
            Ok(s)
        },
    }
}

fn required_string(v: &Json, field: &str) -> (r: Result<String, String>)
    ensures
        match spec_required(*v, field@) {
            Ok(s) => r matches Ok(t) && t@ == s,
            Err(m) => r matches Err(e) && e@ == m,
        },
{
    let s = match v.get(field) {
        Some(x) => x.as_str(),
        None => None,
    };
    match s {
        None => Err(join2(field, " must be a string")),
        Some(s) => {
            if is_blank(s) {
                Err(join2(field, " must not be blank"))
            } else {
                Ok(to_owned(s))
            }
        },
    }
}

pub open spec fn manifest_keys() -> Seq<Seq<char>> {
    seq!["name"@, "title"@, "entry"@, "description"@]
}

/// An extension manifest read from its JSON value.
pub open spec fn spec_manifest(v: Json) -> Result<ManifestFields, Seq<char>> {
    if !(v is Object) {
        Err("extension manifest must be a JSON object"@)
    } else if !keys_within(v, manifest_keys()) {
        Err("extension manifest contains an unknown field"@)
    } else {
        match spec_required(v, "name"@) {
            Err(m) => Err(m),
            Ok(name) => if !spec_valid_name(name) {
                Err("extension manifest name does not match ^[a-z][a-z0-9-]{0,31}$"@)
            } else {
                match spec_required(v, "title"@) {
                    Err(m) => Err(m),
                    Ok(title) => match spec_validate_text(title, 4096, "title"@) {
                        Err(m) => Err(m),
                        Ok(_) => match spec_required(v, "entry"@) {
                            Err(m) => Err(m),
                            Ok(entry) => match spec_relative_path(entry) {
                                Err(m) => Err(m),
                                Ok(_) => if byte_len(entry) > 4096 {
                                    Err("entry exceeds 4096 UTF-8 bytes"@)
                                } else {
                                    match spec_get(v, "description"@) {
                                        None => Ok(
                                            ManifestFields { name, title, entry, description: None },
                                        ),
                                        Some(d) => match spec_as_str(Some(d)) {
                                            None => Err("description must be a string"@),
                                            Some(ds) => match spec_validate_text(
                                                ds,
                                                4096,
                                                "description"@,
                                            ) {
                                                Err(m) => Err(m),
                                                Ok(_) => Ok(
                                                    ManifestFields {
                                                        name,
                                                        title,
                                                        entry,
                                                        description: Some(ds),
                                                    },
                                                ),
                                            },
                                        },
                                    }
                                },
                            },
                        },
                    },
                }
            },
        }
    }
}

/// Reads an extension manifest from its JSON value.
pub fn parse_manifest(v: &Json) -> (r: Result<ExtensionManifest, String>)
    ensures
        match spec_manifest(*v) {
            Ok(m) => r matches Ok(x) && x@ == m,
            Err(m) => r matches Err(e) && e@ == m,
        },
{
    if !v.is_object() {
        return Err(String::from_str("extension manifest must be a JSON object"));
    }
    let keys: [&str; 4] = ["name", "title", "entry", "description"];
    let ks = keys.as_slice();
    assert(ks@.map_values(|s: &str| s@) =~= manifest_keys());
    if !check_keys_within(v, ks) {
        return Err(String::from_str("extension manifest contains an unknown field"));
    }
    let name = match required_string(v, "name") {
        Ok(s) => s,
        Err(e) => {
            return Err(e);
        },
    };
    if !valid_name(name.as_str()) {
        return Err(
            String::from_str("extension manifest name does not match ^[a-z][a-z0-9-]{0,31}$"),
        );
    }
    let title = match required_string(v, "title") {
        Ok(s) => s,
        Err(e) => {
            return Err(e);
        },
    };
    match validate_text(title.as_str(), 4096, "title") {
        Ok(()) => {},
        Err(e) => {
            return Err(e);
        },
    }
    let entry = match required_string(v, "entry") {
        Ok(s) => s,
        Err(e) => {
            return Err(e);
        },
    };
    match validate_relative_path(entry.as_str()) {
        Ok(_) => {},
        Err(e) => {
            return Err(e);
        },
    }
    if entry.as_str().len() > 4096 {
        return Err(String::from_str("entry exceeds 4096 UTF-8 bytes"));
    }
    let description = match v.get("description") {
        None => None,
        Some(d) => match d.as_str() {
            None => {
                return Err(String::from_str("description must be a string"));
            },
            Some(ds) => {
                match validate_text(ds, 4096, "description") {
                    Ok(()) => {},
                    Err(e) => {
                        return Err(e);
                    },
                }
                Some(to_owned(ds))
            },
        },
    };
    Ok(ExtensionManifest { name, title, entry, description })
}

} // verus!
