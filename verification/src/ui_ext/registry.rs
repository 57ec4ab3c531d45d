//! The registry of trusted extensions: one per directory of the trusted root,
//! each named as its directory, at most [`MAX_EXTENSIONS`] of them.

use vstd::prelude::*;
use vstd::string::StringExecFns;

use crate::text::{
    ascending, chars_of, debug_quoted, debug_str, join2, join3, lemma_insert_ascending,
    lemma_text_lt_irreflexive, lemma_text_lt_total, str_eq, text_less, text_lt,
};
use crate::ui_ext::manifest::{ExtensionManifest, ManifestFields};
use crate::ui_ext::path::{asset_content_type, spec_content_type};

verus! {

/// Most extensions a trusted root may hold.
pub const MAX_EXTENSIONS: usize = 32;

/// Largest `plugin.json` accepted, in bytes.
pub const MAX_MANIFEST_BYTES: u64 = 16384;

/// A registered extension: its manifest and its canonical directory.
#[derive(Debug, Clone, PartialEq, Eq)]
pub struct RegisteredExtension {
    pub manifest: ExtensionManifest,
    pub root: String,
}

pub struct RegisteredView {
    pub manifest: ManifestFields,
    pub root: Seq<char>,
}

pub open spec fn registered_view(e: RegisteredExtension) -> RegisteredView {
    RegisteredView { manifest: e.manifest@, root: e.root@ }
}

pub open spec fn capacity_message() -> Seq<char> {
    "trusted extension root exceeds the 32 extension limit"@
}

pub open spec fn mismatch_message(name: Seq<char>, directory: Seq<char>) -> Seq<char> {
    "extension manifest name "@ + debug_quoted(name) + " does not match directory "@
        + debug_quoted(directory)
}

pub open spec fn name_taken(existing: Seq<RegisteredView>, name: Seq<char>) -> bool {
    exists|i: int| 0 <= i < existing.len() && #[trigger] existing[i].manifest.name == name
}

/// What registering the manifest found in `directory` does: nothing when it
/// is accepted, else the load's error message.
pub open spec fn spec_register(
    existing: Seq<RegisteredView>,
    directory: Seq<char>,
    manifest: ManifestFields,
) -> Option<Seq<char>> {
    if existing.len() >= MAX_EXTENSIONS {
        Some(capacity_message())
    } else if manifest.name != directory {
        Some(mismatch_message(manifest.name, directory))
    } else if name_taken(existing, manifest.name) {
        Some("duplicate extension name: "@ + manifest.name)
    } else {
        None
    }
}

pub open spec fn ext_names(e: Seq<RegisteredExtension>) -> Seq<Seq<char>> {
    e.map_values(|x: RegisteredExtension| x.manifest.name@)
}

pub open spec fn view_names(v: Seq<RegisteredView>) -> Seq<Seq<char>> {
    v.map_values(|x: RegisteredView| x.manifest.name)
}

/// The extensions of a trusted root, kept in the order of their names; no
/// two share a name.
pub struct ExtensionRegistry {
    extensions: Vec<RegisteredExtension>,
}

impl ExtensionRegistry {
    pub closed spec fn views(&self) -> Seq<RegisteredView> {
        self.extensions@.map_values(|e: RegisteredExtension| registered_view(e))
    }

    pub closed spec fn wf(&self) -> bool {
        &&& self.extensions@.len() <= MAX_EXTENSIONS
        &&& ascending(ext_names(self.extensions@))
    }

    /// A registry never holds more than [`MAX_EXTENSIONS`] extensions, and
    /// lists them by name, strictly increasing, so no two share a name.
    pub proof fn lemma_bounded_and_unique(&self)
        requires
            self.wf(),
        ensures
            self.views().len() <= MAX_EXTENSIONS,
            ascending(view_names(self.views())),
            forall|i: int, j: int|
                0 <= i < j < self.views().len() ==> #[trigger] self.views()[i].manifest.name
                    != #[trigger] self.views()[j].manifest.name,
    {
        self.lemma_names();
        assert forall|i: int, j: int| 0 <= i < j < self.views().len() implies #[trigger] self.views()[i].manifest.name
            != #[trigger] self.views()[j].manifest.name by {
            assert(view_names(self.views())[i] == self.views()[i].manifest.name);
            assert(view_names(self.views())[j] == self.views()[j].manifest.name);
            lemma_text_lt_irreflexive(self.views()[i].manifest.name);
        }
    }

    proof fn lemma_names(&self)
        ensures
            view_names(self.views()) == ext_names(self.extensions@),
    {
        assert(view_names(self.views()) =~= ext_names(self.extensions@));
    }

    pub fn new() -> (r: Self)
        ensures
            r.wf(),
            r.views().len() == 0,
    {
        let r = ExtensionRegistry { extensions: Vec::new() };
        assert(r.views() =~= Seq::<RegisteredView>::empty());
        r
    }

    /// Refuses one more extension directory once the registry is full.
    pub fn check_capacity(&self) -> (r: Result<(), String>)
        requires
            self.wf(),
        ensures
            self.views().len() >= MAX_EXTENSIONS ==> (r matches Err(e) && e@ == capacity_message()),
            self.views().len() < MAX_EXTENSIONS ==> r is Ok,
    {
        if self.extensions.len() >= MAX_EXTENSIONS {
            Err(String::from_str("trusted extension root exceeds the 32 extension limit"))
        } else {
            Ok(())
        }
    }

    fn position(&self, name: &str) -> (r: Option<usize>)
        ensures
            match r {
                Some(i) => i < self.views().len() && self.views()[i as int].manifest.name == name@,
                None => !name_taken(self.views(), name@),
            },
    {
        let mut i: usize = 0;
        while i < self.extensions.len()
            invariant
                i <= self.extensions@.len(),
                forall|j: int| 0 <= j < i ==> self.extensions@[j].manifest.name@ != name@,
            decreases self.extensions@.len() - i,
        {
            if str_eq(self.extensions[i].manifest.name.as_str(), name) {
                assert(self.views()[i as int].manifest.name == name@);
                return Some(i);
            }
            i += 1;
        }
        assert forall|j: int| 0 <= j < self.views().len() implies #[trigger] self.views()[j].manifest.name
            != name@ by {
            assert(self.views()[j].manifest.name == self.extensions@[j].manifest.name@);
        }
        None
    }

    /// Registers the manifest read from the extension directory
    /// `directory_name`, whose canonical path is `root`, at the place its
    /// name takes among the names already registered.
    pub fn register(&mut self, directory_name: &str, root: String, manifest: ExtensionManifest) -> (r:
        Result<(), String>)
        requires
            old(self).wf(),
        ensures
            final(self).wf(),
            match spec_register(old(self).views(), directory_name@, manifest@) {
                None => r is Ok && exists|k: int|
                    0 <= k <= old(self).views().len() && final(self).views() == old(
                        self,
                    ).views().insert(k, RegisteredView { manifest: manifest@, root: root@ }),
                Some(m) => r matches Err(e) && e@ == m && final(self).views() == old(
                    self,
                ).views(),
            },
    {
        if self.extensions.len() >= MAX_EXTENSIONS {
            return Err(String::from_str("trusted extension root exceeds the 32 extension limit"));
        }
        if !str_eq(manifest.name.as_str(), directory_name) {
            let mut m = join2("extension manifest name ", debug_str(manifest.name.as_str()).as_str());
            m.append(" does not match directory ");
            m.append(debug_str(directory_name).as_str());
            return Err(m);
        }
        if self.position(manifest.name.as_str()).is_some() {
            return Err(join2("duplicate extension name: ", manifest.name.as_str()));
        }
        let ghost old_views = self.views();
        let ghost old_ext = self.extensions@;
        let ghost x = manifest.name@;
        proof {
            self.lemma_names();
        }
        let key = chars_of(manifest.name.as_str());
        let mut k: usize = 0;
        let mut placed = false;
        while !placed && k < self.extensions.len()
            invariant
                k <= old_ext.len(),
                self.extensions@ == old_ext,
                key@ == x,
                !name_taken(old_views, x),
                old_views == old_ext.map_values(|e: RegisteredExtension| registered_view(e)),
                forall|i: int| 0 <= i < k ==> text_lt(#[trigger] ext_names(old_ext)[i], x),
                placed ==> k < old_ext.len() && text_lt(x, ext_names(old_ext)[k as int]),
            decreases old_ext.len() - k, if placed { 0int } else { 1int },
        {
            let other = chars_of(self.extensions[k].manifest.name.as_str());
            proof {
                assert(ext_names(old_ext)[k as int] == other@);
                assert(old_views[k as int].manifest.name == other@);
            }
            if text_less(key.as_slice(), other.as_slice()) {
                placed = true;
            } else {
                proof {
                    lemma_text_lt_total(x, other@);
                }
                k += 1;
            }
        }
        let e = RegisteredExtension { manifest, root };
        self.extensions.insert(k, e);
        proof {
            assert(ext_names(self.extensions@) =~= ext_names(old_ext).insert(k as int, x));
            lemma_insert_ascending(ext_names(old_ext), k as int, x);
            assert(self.views() =~= old_views.insert(k as int, registered_view(e)));
        }
        Ok(())
    }

    /// The extension named `name`.
    pub fn get(&self, name: &str) -> (r: Option<&RegisteredExtension>)
        ensures
            match r {
                Some(e) => registered_view(*e).manifest.name == name@ && name_taken(
                    self.views(),
                    name@,
                ) && exists|i: int|
                    0 <= i < self.views().len() && self.views()[i] == registered_view(*e),
                None => !name_taken(self.views(), name@),
            },
    {
        match self.position(name) {
            Some(i) => {
                let e = &self.extensions[i];
                proof {
                    assert(self.views()[i as int] == registered_view(*e));
                }
                Some(e)
            },
            None => None,
        }
    }

    /// All extensions, by name in increasing order.
    pub fn all(&self) -> (r: &Vec<RegisteredExtension>)
        requires
            self.wf(),
        ensures
            r@.map_values(|e: RegisteredExtension| registered_view(e)) == self.views(),
            ascending(view_names(self.views())),
    {
        proof {
            self.lemma_bounded_and_unique();
        }
        &self.extensions
    }
}

/// A manifest file larger than [`MAX_MANIFEST_BYTES`] is refused.
pub fn check_manifest_size(directory_name: &str, len: u64) -> (r: Result<(), String>)
    ensures
        len > MAX_MANIFEST_BYTES ==> (r matches Err(e) && e@ == "extension "@ + directory_name@
            + " plugin.json exceeds 16 KiB"@),
        len <= MAX_MANIFEST_BYTES ==> r is Ok,
{
    if len > MAX_MANIFEST_BYTES {
        Err(join3("extension ", directory_name, " plugin.json exceeds 16 KiB"))
    } else {
        Ok(())
    }
}

/// An extension's entry must have a media type the asset server knows.
pub fn check_entry_type(entry: &str) -> (r: Result<(), String>)
    ensures
        spec_content_type(entry@) is None ==> (r matches Err(e) && e@
            == "extension entry has unsupported media type: "@ + entry@),
        spec_content_type(entry@) is Some ==> r is Ok,
{
    match asset_content_type(entry) {
        Some(_) => Ok(()),
        None => Err(join2("extension entry has unsupported media type: ", entry)),
    }
}

} // verus!
