//! Plugin definition files: what each `*.json` file of a plugins directory
//! declares, and the catalog that the files of one directory build, kept in
//! the order of their paths.

use vstd::prelude::*;
use vstd::string::StringExecFns;
use vstd::utf8::*;

use crate::host::{HostError, PluginDefinition};
use crate::json::{
    field_string_list, missing_field, not_an_object, spec_field_str_list, spec_get, wrong_type,
    Json,
};
use crate::text::{
    blank, chars_of, debug_quoted, debug_str, is_blank, join2, join3, lemma_insert_non_descending,
    non_descending, str_eq, string_from_utf8, text_less, text_lt,
};

verus! {

/// The fields of a plugin definition file; other fields are ignored.
#[derive(Debug, Clone, PartialEq, Eq)]
pub struct DefinitionFile {
    pub id: Option<String>,
    pub source_name: Option<String>,
    pub argv: Vec<String>,
    /// Environment entries, in the order of the file's `env` object.
    pub env: Vec<(String, String)>,
    pub working_dir: Option<String>,
}

pub struct DefinitionFileView {
    pub id: Option<Seq<char>>,
    pub source_name: Option<Seq<char>>,
    pub argv: Seq<Seq<char>>,
    pub env: Seq<(Seq<char>, Seq<char>)>,
    pub working_dir: Option<Seq<char>>,
}

pub open spec fn opt_view(o: Option<String>) -> Option<Seq<char>> {
    match o {
        Some(s) => Some(s@),
        None => None,
    }
}

pub open spec fn pair_views(v: Seq<(String, String)>) -> Seq<(Seq<char>, Seq<char>)> {
    v.map_values(|p: (String, String)| (p.0@, p.1@))
}

pub open spec fn string_views(v: Seq<String>) -> Seq<Seq<char>> {
    v.map_values(|s: String| s@)
}

impl View for DefinitionFile {
    type V = DefinitionFileView;

    open spec fn view(&self) -> DefinitionFileView {
        DefinitionFileView {
            id: opt_view(self.id),
            source_name: opt_view(self.source_name),
            argv: string_views(self.argv@),
            env: pair_views(self.env@),
            working_dir: opt_view(self.working_dir),
        }
    }
}

/// An optional string field: absent and `null` both read as `None`.
pub open spec fn spec_opt_str(v: Json, key: Seq<char>) -> Result<Option<Seq<char>>, Seq<char>> {
    match spec_get(v, key) {
        None => Ok(None),
        Some(Json::Null) => Ok(None),
        Some(Json::String(s)) => Ok(Some(s@)),
        Some(_) => Err(wrong_type(key)),
    }
}

/// `argv` is required.
pub open spec fn spec_argv(v: Json) -> Result<Seq<Seq<char>>, Seq<char>> {
    match spec_get(v, "argv"@) {
        None => Err(missing_field("argv"@)),
        Some(_) => spec_field_str_list(v, "argv"@),
    }
}

pub open spec fn string_pairs(m: Seq<(String, Json)>) -> Seq<(Seq<char>, Seq<char>)> {
    Seq::new(m.len(), |i: int| (m[i].0@, m[i].1->String_0@))
}

/// `env` defaults to empty; when present it is an object of strings.
pub open spec fn spec_env(v: Json) -> Result<Seq<(Seq<char>, Seq<char>)>, Seq<char>> {
    match spec_get(v, "env"@) {
        None => Ok(Seq::empty()),
        Some(Json::Object(m)) => if forall|i: int| 0 <= i < m@.len() ==> #[trigger] m@[i].1 is String {
            Ok(string_pairs(m@))
        } else {
            Err(wrong_type("env"@))
        },
        Some(_) => Err(wrong_type("env"@)),
    }
}

pub open spec fn spec_definition_file(v: Json) -> Result<DefinitionFileView, Seq<char>> {
    if !(v is Object) {
        Err(not_an_object())
    } else {
        match spec_opt_str(v, "id"@) {
            Err(m) => Err(m),
            Ok(id) => match spec_opt_str(v, "source_name"@) {
                Err(m) => Err(m),
                Ok(source_name) => match spec_argv(v) {
                    Err(m) => Err(m),
                    Ok(argv) => match spec_env(v) {
                        Err(m) => Err(m),
                        Ok(env) => match spec_opt_str(v, "working_dir"@) {
                            Err(m) => Err(m),
                            Ok(working_dir) => Ok(
                                DefinitionFileView { id, source_name, argv, env, working_dir },
                            ),
                        },
                    },
                },
            },
        }
    }
}

fn opt_string_field(v: &Json, key: &str) -> (r: Result<Option<String>, String>)
    ensures
        match spec_opt_str(*v, key@) {
            Ok(o) => r matches Ok(x) && opt_view(x) == o,
            Err(m) => r matches Err(e) && e@ == m,
        },
{
    match v.get(key) {
        None => Ok(None),
        Some(Json::Null) => Ok(None),
        Some(Json::String(s)) => Ok(Some(s.clone())),
        Some(_) => Err(join3("invalid type for field `", key, "`")),
    }
}

fn env_field(v: &Json) -> (r: Result<Vec<(String, String)>, String>)
    ensures
        match spec_env(*v) {
            Ok(e) => r matches Ok(x) && pair_views(x@) == e,
            Err(m) => r matches Err(e) && e@ == m,
        },
{
    match v.get("env") {
        None => {
            let out: Vec<(String, String)> = Vec::new();
            assert(pair_views(out@) =~= Seq::<(Seq<char>, Seq<char>)>::empty());
            Ok(out)
        },
        Some(Json::Object(m)) => {
            let mut out: Vec<(String, String)> = Vec::new();
            let mut i: usize = 0;
            while i < m.len()
                invariant
                    i <= m@.len(),
                    spec_get(*v, "env"@) == Some(Json::Object(*m)),
                    forall|j: int| 0 <= j < i ==> #[trigger] m@[j].1 is String,
                    pair_views(out@) == string_pairs(m@.take(i as int)),
                decreases m@.len() - i,
            {
                match &m[i].1 {
                    Json::String(s) => {
                        let k = m[i].0.clone();
                        let val = s.clone();
                        let ghost prev = out@;
                        out.push((k, val));
                        proof {
                            assert(pair_views(out@) =~= pair_views(prev).push((m@[i as int].0@, s@)));
                            assert(string_pairs(m@.take(i + 1)) =~= string_pairs(m@.take(i as int)).push(
                                (m@[i as int].0@, s@),
                            ));
                        }
                        i += 1;
                    },
                    _ => {
                        assert(!(m@[i as int].1 is String));
                        return Err(join3("invalid type for field `", "env", "`"));
                    },
                }
            }
            assert(m@.take(m@.len() as int) =~= m@);
            Ok(out)
        },
        Some(_) => Err(join3("invalid type for field `", "env", "`")),
    }
}

/// Reads a plugin definition file from its JSON value.
pub fn definition_file_from_json(v: &Json) -> (r: Result<DefinitionFile, String>)
    ensures
        match spec_definition_file(*v) {
            Ok(f) => r matches Ok(x) && x@ == f,
            Err(m) => r matches Err(e) && e@ == m,
        },
{
    if !v.is_object() {
        return Err(String::from_str("invalid type: expected an object"));
    }
    let id = match opt_string_field(v, "id") {
        Ok(x) => x,
        Err(e) => return Err(e),
    };
    let source_name = match opt_string_field(v, "source_name") {
        Ok(x) => x,
        Err(e) => return Err(e),
    };
    if v.get("argv").is_none() {
        return Err(join3("missing field `", "argv", "`"));
    }
    let argv = match field_string_list(v, "argv") {
        Ok(x) => x,
        Err(e) => return Err(e),
    };
    let env = match env_field(v) {
        Ok(x) => x,
        Err(e) => return Err(e),
    };
    let working_dir = match opt_string_field(v, "working_dir") {
        Ok(x) => x,
        Err(e) => return Err(e),
    };
    let f = DefinitionFile { id, source_name, argv, env, working_dir };
    proof {
        assert(f@.argv =~= spec_argv(*v)->Ok_0);
    }
    Ok(f)
}

/// The index of the last `.` of a file name, or -1.
pub open spec fn last_dot(name: Seq<u8>) -> int
    decreases name.len(),
{
    if name.len() == 0 {
        -1
    } else if name.last() == 46u8 {
        name.len() - 1
    } else {
        last_dot(name.drop_last())
    }
}

/// The extension of a file name: what follows its last `.`, unless that dot
/// is the name's first byte.
pub open spec fn extension_of(name: Seq<u8>) -> Option<Seq<u8>> {
    let k = last_dot(name);
    if k <= 0 {
        None
    } else {
        Some(name.skip(k + 1))
    }
}

/// The stem of a file name: what precedes its extension's dot.
pub open spec fn stem_of(name: Seq<u8>) -> Seq<u8> {
    let k = last_dot(name);
    if k <= 0 {
        name
    } else {
        name.take(k)
    }
}

pub open spec fn json_ext() -> Seq<u8> {
    seq![106u8, 115u8, 111u8, 110u8]
}

fn find_last_dot(name: &[u8]) -> (r: usize)
    ensures
        last_dot(name@) < 0 ==> r == 0,
        last_dot(name@) >= 0 ==> r == last_dot(name@) + 1,
        r <= name@.len(),
{
    let mut i: usize = name.len();
    assert(name@.take(i as int) =~= name@);
    while i > 0
        invariant
            i <= name@.len(),
            last_dot(name@) == last_dot(name@.take(i as int)),
        decreases i,
    {
        if name[i - 1] == 46u8 {
            return i;
        }
        assert(name@.take(i as int).drop_last() =~= name@.take(i - 1));
        i -= 1;
    }
    i
}

/// Whether a directory entry is a plugin definition: its extension is `json`.
pub fn is_definition_file(file_name: &[u8]) -> (r: bool)
    ensures
        r == (extension_of(file_name@) == Some(json_ext())),
{
    let d = find_last_dot(file_name);
    if d <= 1 {
        return false;
    }
    let n = file_name.len();
    if n - d != 4 {
        assert(file_name@.skip(d as int).len() != json_ext().len());
        return false;
    }
    let ok = file_name[d] == 106u8 && file_name[d + 1] == 115u8 && file_name[d + 2] == 111u8
        && file_name[d + 3] == 110u8;
    if ok {
        assert(file_name@.skip(d as int) =~= json_ext());
    } else {
        assert(file_name@.skip(d as int) != json_ext());
    }
    ok
}

/// The stem of a file name, where it is UTF-8.
pub fn file_stem(file_name: &[u8]) -> (r: Option<String>)
    ensures
        r is Some <==> valid_utf8(stem_of(file_name@)),
        r matches Some(s) ==> s@ == decode_utf8(stem_of(file_name@)),
{
    let d = find_last_dot(file_name);
    let end = if d <= 1 {
        file_name.len()
    } else {
        d - 1
    };
    let mut bytes: Vec<u8> = Vec::new();
    let mut i: usize = 0;
    while i < end
        invariant
            end <= file_name@.len(),
            i <= end,
            bytes@ == file_name@.take(i as int),
        decreases end - i,
    {
        bytes.push(file_name[i]);
        assert(bytes@ =~= file_name@.take(i + 1));
        i += 1;
    }
    assert(bytes@ =~= stem_of(file_name@));
    string_from_utf8(bytes)
}

/// `Path::join` of a directory and a path, as text: an absolute path
/// replaces the directory; otherwise the path follows the directory, with a
/// `/` between them unless the directory is empty or already ends in one.
pub open spec fn path_joined(parent: Seq<char>, relative: Seq<char>) -> Seq<char> {
    if relative.len() > 0 && relative[0] == '/' {
        relative
    } else if parent.len() == 0 || parent.last() == '/' {
        parent + relative
    } else {
        parent + seq!['/'] + relative
    }
}

/// `std::path::Path::join` of two UTF-8 paths, given back as text: the
/// joined path is [`path_joined`] of the two.
#[verifier::external_body]
fn join_path(parent: &str, relative: &str) -> (r: String)
    ensures
        r@ == path_joined(parent@, relative@),
{
    std::path::Path::new(parent).join(relative).to_string_lossy().into_owned()
}

/// A plugin definition as plain values.
pub struct DefinitionView {
    pub id: Seq<char>,
    pub argv: Seq<Seq<char>>,
    pub env: Seq<(Seq<char>, Seq<char>)>,
    pub working_dir: Option<Seq<char>>,
    pub manifest_path: Seq<char>,
}

pub open spec fn definition_view(p: PluginDefinition) -> DefinitionView {
    DefinitionView {
        id: p.id@,
        argv: string_views(p.argv@),
        env: pair_views(p.env@),
        working_dir: opt_view(p.working_dir),
        manifest_path: p.manifest_path@,
    }
}

/// The id a file declares: `id`, else `source_name`, else its stem.
pub open spec fn declared_id(f: DefinitionFileView, file_name: Seq<u8>) -> Option<Seq<char>> {
    match f.id {
        Some(i) => Some(i),
        None => match f.source_name {
            Some(s) => Some(s),
            None => if valid_utf8(stem_of(file_name)) {
                Some(decode_utf8(stem_of(file_name)))
            } else {
                None
            },
        },
    }
}

/// A relative working directory is taken relative to the file's directory.
pub open spec fn resolved_dir(parent: Seq<char>, dir: Seq<char>) -> Seq<char> {
    if dir.len() > 0 && dir[0] == '/' {
        dir
    } else {
        path_joined(parent, dir)
    }
}

pub open spec fn id_taken(existing: Seq<DefinitionView>, id: Seq<char>) -> bool {
    exists|i: int| 0 <= i < existing.len() && #[trigger] existing[i].id == id
}

/// The definition a file adds under `id`.
pub open spec fn admitted(
    id: Seq<char>,
    path: Seq<char>,
    parent: Seq<char>,
    f: DefinitionFileView,
) -> DefinitionView {
    DefinitionView {
        id: id,
        argv: f.argv,
        env: f.env,
        working_dir: match f.working_dir {
            Some(d) => Some(resolved_dir(parent, d)),
            None => None,
        },
        manifest_path: path,
    }
}

/// The message for a second definition of `id`.
pub open spec fn duplicate_message(existing: Seq<DefinitionView>, id: Seq<char>, path: Seq<char>) -> Seq<
    char,
> {
    let i = choose|i: int| 0 <= i < existing.len() && #[trigger] existing[i].id == id;
    "duplicate plugin id "@ + debug_quoted(id) + ": "@ + existing[i].manifest_path + " and "@ + path
}

/// What one more definition file does to the catalog: the definition it adds,
/// or the message of the discovery error it raises.
pub open spec fn spec_admit(
    existing: Seq<DefinitionView>,
    path: Seq<char>,
    file_name: Seq<u8>,
    parent: Seq<char>,
    f: DefinitionFileView,
) -> Result<DefinitionView, Seq<char>> {
    if f.argv.len() == 0 {
        Err(path + " has empty argv"@)
    } else {
        match declared_id(f, file_name) {
            None => Err(path + " has no id"@),
            Some(id) => if blank(id) {
                Err(path + " has empty id"@)
            } else if id_taken(existing, id) {
                Err(duplicate_message(existing, id, path))
            } else {
                Ok(admitted(id, path, parent, f))
            },
        }
    }
}

/// What adding the file named `file_name` does: a file whose extension is
/// not `json` is passed over (`None`); any other is admitted or refused.
pub open spec fn spec_add(
    existing: Seq<DefinitionView>,
    path: Seq<char>,
    file_name: Seq<u8>,
    parent: Seq<char>,
    f: DefinitionFileView,
) -> Option<Result<DefinitionView, Seq<char>>> {
    if extension_of(file_name) != Some(json_ext()) {
        None
    } else {
        Some(spec_admit(existing, path, file_name, parent, f))
    }
}

pub open spec fn manifest_paths(v: Seq<DefinitionView>) -> Seq<Seq<char>> {
    v.map_values(|d: DefinitionView| d.manifest_path)
}

pub open spec fn plugin_paths(v: Seq<PluginDefinition>) -> Seq<Seq<char>> {
    v.map_values(|p: PluginDefinition| p.manifest_path@)
}

/// The definitions read from one plugins directory, in the order of their
/// manifest paths; no two share an id.
pub struct PluginCatalog {
    plugins: Vec<PluginDefinition>,
}

impl PluginCatalog {
    pub closed spec fn views(&self) -> Seq<DefinitionView> {
        self.plugins@.map_values(|p: PluginDefinition| definition_view(p))
    }

    pub closed spec fn wf(&self) -> bool {
        &&& forall|i: int, j: int|
            0 <= i < j < self.plugins@.len() ==> #[trigger] self.plugins@[i].id@
                != #[trigger] self.plugins@[j].id@
        &&& non_descending(plugin_paths(self.plugins@))
        &&& forall|i: int|
            0 <= i < self.plugins@.len() ==> !blank(#[trigger] self.plugins@[i].id@)
                && self.plugins@[i].argv@.len() > 0
    }

    proof fn lemma_paths(&self)
        ensures
            manifest_paths(self.views()) == plugin_paths(self.plugins@),
    {
        assert(manifest_paths(self.views()) =~= plugin_paths(self.plugins@));
    }

    /// No two definitions of a catalog share an id, every id is non-blank and
    /// every argv non-empty, and they come in the order of their manifest
    /// paths.
    pub proof fn lemma_ids_distinct(&self)
        requires
            self.wf(),
        ensures
            forall|i: int, j: int|
                0 <= i < j < self.views().len() ==> #[trigger] self.views()[i].id
                    != #[trigger] self.views()[j].id,
            forall|i: int|
                0 <= i < self.views().len() ==> !blank(#[trigger] self.views()[i].id)
                    && self.views()[i].argv.len() > 0,
            non_descending(manifest_paths(self.views())),
    {
        self.lemma_paths();
        assert forall|i: int| 0 <= i < self.views().len() implies !blank(#[trigger] self.views()[i].id)
            && self.views()[i].argv.len() > 0 by {
            assert(self.views()[i] == definition_view(self.plugins@[i]));
        }
        assert forall|i: int, j: int| 0 <= i < j < self.views().len() implies #[trigger] self.views()[i].id
            != #[trigger] self.views()[j].id by {
            assert(self.views()[i].id == self.plugins@[i].id@);
            assert(self.views()[j].id == self.plugins@[j].id@);
        }
    }

    pub fn new() -> (c: Self)
        ensures
            c.wf(),
            c.views().len() == 0,
    {
        let c = PluginCatalog { plugins: Vec::new() };
        assert(c.views() =~= Seq::<DefinitionView>::empty());
        c
    }

    fn position(&self, id: &str) -> (r: Option<usize>)
        ensures
            match r {
                Some(i) => i < self.views().len() && self.views()[i as int].id == id@,
                None => !id_taken(self.views(), id@),
            },
    {
        let mut i: usize = 0;
        while i < self.plugins.len()
            invariant
                i <= self.plugins@.len(),
                forall|j: int| 0 <= j < i ==> self.plugins@[j].id@ != id@,
            decreases self.plugins@.len() - i,
        {
            if str_eq(self.plugins[i].id.as_str(), id) {
                assert(self.views()[i as int].id == self.plugins@[i as int].id@);
                return Some(i);
            }
            i += 1;
        }
        assert forall|j: int| 0 <= j < self.views().len() implies #[trigger] self.views()[j].id != id@ by {
            assert(self.views()[j].id == self.plugins@[j].id@);
        }
        None
    }

    /// Adds the definition file at `manifest_path` (named `file_name`, in the
    /// directory `parent`) at the place its path takes, or fails as the whole
    /// discovery does. A file whose extension is not `json` is passed over.
    pub fn add(&mut self, manifest_path: &str, file_name: &[u8], parent: &str, file: DefinitionFile) -> (r: Result<(), HostError>)
        requires
            old(self).wf(),
        ensures
            final(self).wf(),
            match spec_add(old(self).views(), manifest_path@, file_name@, parent@, file@) {
                None => r is Ok && final(self).views() == old(self).views(),
                Some(Ok(d)) => r is Ok && exists|k: int|
                    0 <= k <= old(self).views().len() && final(self).views() == old(
                        self,
                    ).views().insert(k, d),
                Some(Err(m)) => r matches Err(HostError::Discovery(e)) && e@ == m
                    && final(self).views() == old(self).views(),
            },
    {
        if !is_definition_file(file_name) {
            return Ok(());
        }
        let ghost fv = file@;
        if file.argv.len() == 0 {
            return Err(HostError::Discovery(join2(manifest_path, " has empty argv")));
        }
        let DefinitionFile { id, source_name, argv, env, working_dir } = file;
        let id = match id {
            Some(i) => Some(i),
            None => match source_name {
                Some(s) => Some(s),
                None => file_stem(file_name),
            },
        };
        let id = match id {
            Some(i) => i,
            None => {
                return Err(HostError::Discovery(join2(manifest_path, " has no id")));
            },
        };
        assert(declared_id(fv, file_name@) == Some(id@));
        if is_blank(id.as_str()) {
            return Err(HostError::Discovery(join2(manifest_path, " has empty id")));
        }
        match self.position(id.as_str()) {
            Some(i) => {
                let ghost views = self.views();
                proof {
                    let k = choose|k: int| 0 <= k < views.len() && #[trigger] views[k].id == id@;
                    if k != i {
                        if k < i {
                            assert(self.plugins@[k].id@ != self.plugins@[i as int].id@);
                        } else {
                            assert(self.plugins@[i as int].id@ != self.plugins@[k].id@);
                        }
                        assert(views[k].id == self.plugins@[k].id@);
                        assert(views[i as int].id == self.plugins@[i as int].id@);
                    }
                }
                let mut m = join3("duplicate plugin id ", debug_str(id.as_str()).as_str(), ": ");
                m.append(self.plugins[i].manifest_path.as_str());
                m.append(" and ");
                m.append(manifest_path);
                return Err(HostError::Discovery(m));
            },
            None => {},
        }
        let working_dir = match working_dir {
            Some(d) => {
                let c = chars_of(d.as_str());
                if c.len() > 0 && c[0] == '/' {
                    Some(d)
                } else {
                    Some(join_path(parent, d.as_str()))
                }
            },
            None => None,
        };
        let ghost old_views = self.views();
        let ghost old_plugins = self.plugins@;
        let ghost x = manifest_path@;
        let key = chars_of(manifest_path);
        let mut k: usize = 0;
        let mut placed = false;
        while !placed && k < self.plugins.len()
            invariant
                k <= old_plugins.len(),
                self.plugins@ == old_plugins,
                key@ == x,
                forall|i: int| 0 <= i < k ==> !text_lt(x, #[trigger] plugin_paths(old_plugins)[i]),
                placed ==> k < old_plugins.len() && text_lt(x, plugin_paths(old_plugins)[k as int]),
            decreases old_plugins.len() - k, if placed { 0int } else { 1int },
        {
            let other = chars_of(self.plugins[k].manifest_path.as_str());
            proof {
                assert(plugin_paths(old_plugins)[k as int] == other@);
            }
            if text_less(key.as_slice(), other.as_slice()) {
                placed = true;
            } else {
                k += 1;
            }
        }
        let def = PluginDefinition {
            id,
            argv,
            env,
            working_dir,
            manifest_path: String::from_str(manifest_path),
        };
        self.plugins.insert(k, def);
        proof {
            assert(self.plugins@ == old_plugins.insert(k as int, def));
            assert(plugin_paths(self.plugins@) =~= plugin_paths(old_plugins).insert(k as int, x));
            lemma_insert_non_descending(plugin_paths(old_plugins), k as int, x);
            assert(self.views() =~= old_views.insert(k as int, definition_view(def)));
            assert forall|i: int, j: int|
                0 <= i < j < self.plugins@.len() implies #[trigger] self.plugins@[i].id@
                != #[trigger] self.plugins@[j].id@ by {
                if i == k {
                    assert(old_views[j - 1].id == old_plugins[j - 1].id@);
                } else if j == k {
                    assert(old_views[i].id == old_plugins[i].id@);
                } else {
                    let a = if i < k { i } else { i - 1 };
                    let b = if j < k { j } else { j - 1 };
                    assert(self.plugins@[i] == old_plugins[a]);
                    assert(self.plugins@[j] == old_plugins[b]);
                }
            }
        }
        Ok(())
    }

    /// The definitions, in the order of their manifest paths.
    pub fn into_definitions(self) -> (v: Vec<PluginDefinition>)
        requires
            self.wf(),
        ensures
            v@.map_values(|p: PluginDefinition| definition_view(p)) == self.views(),
            non_descending(plugin_paths(v@)),
    {
        self.plugins
    }
}

} // verus!
