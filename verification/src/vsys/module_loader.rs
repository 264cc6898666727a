//! Finding modules: which names are built in, which format a file has, and
//! where a specifier is looked for, in which order.

use vstd::prelude::*;
use crate::text::{concat3, starts_with, str_eq, strip_prefix, with_extension, path_with_extension};
use crate::vsys::error::{VsysError, VsysResult};
use crate::vsys::fs::{flag_through, read_through, FsVTable, HostFs, HostQuestion};
use crate::vsys::json::{below, get_below, json_get, json_of, json_text, member, parse_json, JsonView};
use crate::vsys::path::{
    ancestor_chain, ancestors, extension, join, parent, path_extension, path_joined, path_parent,
};

verus! {

/// The format of a module.
#[derive(Debug, Clone, Copy, PartialEq, Eq)]
pub enum ModuleFormat {
    /// ECMAScript module (import/export)
    ESM,
    /// CommonJS module (require/module.exports)
    CJS,
    /// JSON file
    Json,
    /// Binary/bytecode
    Binary,
}

/// Where a specifier was found.
#[derive(Debug, Clone)]
pub struct ResolvedModule {
    /// Resolved absolute path or URL
    pub path: String,
    pub format: ModuleFormat,
    /// Whether this is a built-in/native module
    pub is_builtin: bool,
    /// Whether this is a CommonJS module that needs wrapping for ESM
    pub needs_cjs_wrapper: bool,
}

/// The source of a loaded module.
#[derive(Debug, Clone)]
pub struct ModuleSource {
    /// Module source code or binary
    pub source: Vec<u8>,
    pub format: ModuleFormat,
    /// The path or URL that the source was read from
    pub path: String,
}

/// The names of the built-in modules.
pub open spec fn builtin_names() -> Seq<&'static str> {
    seq![
        "assert",
        "async_hooks",
        "buffer",
        "child_process",
        "cluster",
        "console",
        "constants",
        "crypto",
        "dgram",
        "dns",
        "domain",
        "events",
        "fs",
        "fs/promises",
        "http",
        "http2",
        "https",
        "inspector",
        "module",
        "net",
        "os",
        "path",
        "perf_hooks",
        "process",
        "punycode",
        "querystring",
        "readline",
        "repl",
        "stream",
        "stream/web",
        "string_decoder",
        "sys",
        "timers",
        "timers/promises",
        "tls",
        "trace_events",
        "tty",
        "url",
        "util",
        "v8",
        "vm",
        "wasi",
        "worker_threads",
        "zlib",
    ]
}

/// The names of the built-in modules.
pub fn builtin_modules() -> (r: Vec<&'static str>)
    ensures
        r@ == builtin_names(),
{
    let names = vec![
        "assert",
        "async_hooks",
        "buffer",
        "child_process",
        "cluster",
        "console",
        "constants",
        "crypto",
        "dgram",
        "dns",
        "domain",
        "events",
        "fs",
        "fs/promises",
        "http",
        "http2",
        "https",
        "inspector",
        "module",
        "net",
        "os",
        "path",
        "perf_hooks",
        "process",
        "punycode",
        "querystring",
        "readline",
        "repl",
        "stream",
        "stream/web",
        "string_decoder",
        "sys",
        "timers",
        "timers/promises",
        "tls",
        "trace_events",
        "tty",
        "url",
        "util",
        "v8",
        "vm",
        "wasi",
        "worker_threads",
        "zlib",
    ];
    assert(names@ =~= builtin_names());
    names
}

/// The specifier without a leading `node:`.
pub open spec fn bare_name(specifier: Seq<char>) -> Seq<char> {
    if "node:"@.is_prefix_of(specifier) {
        specifier.skip("node:"@.len() as int)
    } else {
        specifier
    }
}

/// Whether `names` holds a name with the characters `name`.
pub open spec fn names_hold(names: Seq<&'static str>, name: Seq<char>) -> bool {
    exists|i: int| 0 <= i < names.len() && (#[trigger] names[i])@ == name
}

/// Whether the specifier, with or without a leading `node:`, names a
/// built-in module.
pub open spec fn is_builtin(specifier: Seq<char>) -> bool {
    names_hold(builtin_names(), bare_name(specifier))
}

/// The specifier without a leading `node:`.
fn strip_node(specifier: &str) -> (r: &str)
    ensures
        r@ == bare_name(specifier@),
{
    match strip_prefix(specifier, "node:") {
        Some(rest) => rest,
        None => specifier,
    }
}

/// Whether the specifier names a built-in module; a leading `node:` does
/// not count.
pub fn default_is_builtin(specifier: &str) -> (r: bool)
    ensures
        r == is_builtin(specifier@),
{
    let name = strip_node(specifier);
    let names = builtin_modules();
    let mut i: usize = 0;
    while i < names.len()
        invariant
            0 <= i <= names.len(),
            names@ == builtin_names(),
            name@ == bare_name(specifier@),
            forall|j: int| 0 <= j < i ==> (#[trigger] builtin_names()[j])@ != name@,
        decreases names.len() - i,
    {
        if str_eq(names[i], name) {
            assert(builtin_names()[i as int]@ == name@);
            return true;
        }
        i = i + 1;
    }
    false
}

/// The names of the built-in modules, as owned texts.
pub fn default_list_builtins() -> (r: Vec<String>)
    ensures
        r.len() == builtin_names().len(),
        forall|i: int| 0 <= i < r.len() ==> (#[trigger] r@[i])@ == builtin_names()[i]@,
{
    let names = builtin_modules();
    let mut out: Vec<String> = Vec::new();
    let mut i: usize = 0;
    while i < names.len()
        invariant
            0 <= i <= names.len(),
            names@ == builtin_names(),
            out.len() == i,
            forall|j: int| 0 <= j < i ==> (#[trigger] out@[j])@ == builtin_names()[j]@,
        decreases names.len() - i,
    {
        out.push(String::from_str(names[i]));
        i = i + 1;
    }
    out
}

/// The format that goes with a file extension.
pub open spec fn format_of(ext: Seq<char>) -> ModuleFormat {
    if ext == "mjs"@ || ext == "mts"@ {
        ModuleFormat::ESM
    } else if ext == "cjs"@ || ext == "cts"@ {
        ModuleFormat::CJS
    } else if ext == "json"@ {
        ModuleFormat::Json
    } else if ext == "js"@ || ext == "ts"@ || ext == "tsx"@ || ext == "jsx"@ {
        ModuleFormat::ESM
    } else {
        ModuleFormat::Binary
    }
}

/// The format of the file at `path`, by its extension.
pub open spec fn detected(path: Seq<char>) -> ModuleFormat {
    match path_extension(path) {
        Some(ext) => format_of(ext),
        None => format_of(""@),
    }
}

/// The format of the file at `path`, told by its extension: `mjs` and `mts`
/// are ECMAScript modules, `cjs` and `cts` CommonJS, `json` JSON; `js`, `ts`,
/// `tsx` and `jsx` count as ECMAScript modules; anything else is binary.
pub fn detect_format(path: &str) -> (r: ModuleFormat)
    ensures
        r == detected(path@),
{
    let ext = match extension(path) {
        Some(ext) => ext,
        None => String::from_str(""),
    };
    let e = ext.as_str();
    if str_eq(e, "mjs") || str_eq(e, "mts") {
        ModuleFormat::ESM
    } else if str_eq(e, "cjs") || str_eq(e, "cts") {
        ModuleFormat::CJS
    } else if str_eq(e, "json") {
        ModuleFormat::Json
    } else if str_eq(e, "js") || str_eq(e, "ts") || str_eq(e, "tsx") || str_eq(e, "jsx") {
        ModuleFormat::ESM
    } else {
        ModuleFormat::Binary
    }
}

/// Whether `module` is the built-in module that `specifier` names.
pub open spec fn is_builtin_module(module: ResolvedModule, specifier: Seq<char>) -> bool {
    &&& module.path@ == bare_name(specifier)
    &&& module.format == ModuleFormat::ESM
    &&& module.is_builtin
    &&& !module.needs_cjs_wrapper
}

/// The built-in module that `specifier` names.
fn builtin_module(specifier: &str) -> (r: ResolvedModule)
    ensures
        is_builtin_module(r, specifier@),
{
    ResolvedModule {
        path: String::from_str(strip_node(specifier)),
        format: ModuleFormat::ESM,
        is_builtin: true,
        needs_cjs_wrapper: false,
    }
}

/// Resolves where only built-in modules are allowed: a built-in name
/// resolves to its module, anything else is refused.
pub fn builtins_only_resolve(specifier: &str, _referrer: &str, _is_esm: bool) -> (r: VsysResult<
    ResolvedModule,
>)
    ensures
        match r {
            Ok(module) => is_builtin(specifier@) && is_builtin_module(module, specifier@),
            Err(e) => !is_builtin(specifier@) && (e matches VsysError::ModuleResolution {
                specifier: s,
                message: m,
            } && s@ == specifier@ && m@ == "Only built-in modules are allowed"@),
        },
{
    if default_is_builtin(specifier) {
        return Ok(builtin_module(specifier));
    }
    Err(
        VsysError::ModuleResolution {
            specifier: String::from_str(specifier),
            message: String::from_str("Only built-in modules are allowed"),
        },
    )
}

/// Loads where only built-in modules are allowed: nothing is read, the
/// runtime provides those modules itself.
pub fn builtins_only_load(path: &str) -> (r: VsysResult<ModuleSource>)
    ensures
        r matches Err(VsysError::ModuleLoad { path: p, message: m }) && p@ == path@ && m@
            == "Only built-in modules are allowed"@,
{
    Err(
        VsysError::ModuleLoad {
            path: String::from_str(path),
            message: String::from_str("Only built-in modules are allowed"),
        },
    )
}

/// How a specifier is to be looked up.
#[derive(Debug, Clone)]
pub enum Lookup {
    /// It names a built-in module: this one.
    Builtin(ResolvedModule),
    /// It is relative or absolute: `path` is the specifier below the
    /// directory of the module that imports it.
    File { specifier: String, path: String },
    /// It names a package: to be looked for in the `node_modules` above the
    /// importing module.
    Package { specifier: String },
}

/// The specifier without a leading `file://`.
pub open spec fn plain_specifier(specifier: Seq<char>) -> Seq<char> {
    if "file://"@.is_prefix_of(specifier) {
        specifier.skip("file://"@.len() as int)
    } else {
        specifier
    }
}

/// Whether the specifier is a path: it starts with `./`, `../` or `/`.
pub open spec fn is_relative(specifier: Seq<char>) -> bool {
    "./"@.is_prefix_of(specifier) || "../"@.is_prefix_of(specifier) || "/"@.is_prefix_of(
        specifier,
    )
}

/// The directory of the importing module: its parent, or `.` where it has
/// none.
pub open spec fn base_dir(referrer: Seq<char>) -> Seq<char> {
    match path_parent(referrer) {
        Some(dir) => dir,
        None => "."@,
    }
}

/// Whether `r` is the way in which `specifier`, imported from `referrer`,
/// is to be looked up.
pub open spec fn is_lookup(r: Lookup, specifier: Seq<char>, referrer: Seq<char>) -> bool {
    if "node:"@.is_prefix_of(specifier) || is_builtin(specifier) {
        r matches Lookup::Builtin(module) && is_builtin_module(module, specifier)
    } else if is_relative(plain_specifier(specifier)) {
        r matches Lookup::File { specifier: s, path } && s@ == plain_specifier(specifier) && path@
            == path_joined(base_dir(referrer), plain_specifier(specifier))
    } else {
        r matches Lookup::Package { specifier: s } && s@ == plain_specifier(specifier)
    }
}

/// Decides how `specifier`, imported from the module at `referrer`, is to
/// be looked up. A specifier with a leading `node:` and the name of a
/// built-in module resolve at once. Otherwise a leading `file://` is
/// dropped; what then starts with `./`, `../` or `/` is a file below the
/// directory of the importing module, and anything else a package.
pub fn lookup(specifier: &str, referrer: &str) -> (r: Lookup)
    ensures
        is_lookup(r, specifier@, referrer@),
{
    if starts_with(specifier, "node:") || default_is_builtin(specifier) {
        return Lookup::Builtin(builtin_module(specifier));
    }
    let plain = match strip_prefix(specifier, "file://") {
        Some(rest) => rest,
        None => specifier,
    };
    if starts_with(plain, "./") || starts_with(plain, "../") || starts_with(plain, "/") {
        let base = match parent(referrer) {
            Some(dir) => dir,
            None => String::from_str("."),
        };
        Lookup::File { specifier: String::from_str(plain), path: join(base.as_str(), plain) }
    } else {
        Lookup::Package { specifier: String::from_str(plain) }
    }
}

/// The extensions that are tried on a path, in order.
pub open spec fn all_extensions() -> Seq<&'static str> {
    seq!["js", "mjs", "cjs", "ts", "mts", "cts", "tsx", "jsx", "json"]
}

/// The index files that are tried in a directory, in order.
pub open spec fn index_names() -> Seq<&'static str> {
    seq![
        "index.js",
        "index.mjs",
        "index.cjs",
        "index.ts",
        "index.mts",
        "index.cts",
        "index.tsx",
        "index.jsx",
        "index.json",
    ]
}

/// The places at which a file is looked for under `path`, in order: the
/// path itself, then the path with each extension in turn.
pub open spec fn file_places(path: Seq<char>) -> Seq<Seq<char>> {
    seq![path] + Seq::new(
        all_extensions().len(),
        |i: int| path_with_extension(path, all_extensions()[i]@),
    )
}

/// The places at which the index file of the directory `path` is looked
/// for, in order. The first `count` of them are the JavaScript ones.
pub open spec fn index_places(path: Seq<char>, count: nat) -> Seq<Seq<char>> {
    Seq::new(count, |i: int| path_joined(path, index_names()[i]@))
}

/// None of the extensions holds a path separator.
proof fn lemma_extensions_plain()
    ensures
        forall|i: int|
            0 <= i < all_extensions().len() ==> crate::text::plain_extension(
                (#[trigger] all_extensions()[i])@,
            ),
{
    reveal_strlit("js");
    reveal_strlit("mjs");
    reveal_strlit("cjs");
    reveal_strlit("ts");
    reveal_strlit("mts");
    reveal_strlit("cts");
    reveal_strlit("tsx");
    reveal_strlit("jsx");
    reveal_strlit("json");
    assert(crate::text::plain_extension("js"@));
    assert(crate::text::plain_extension("mjs"@));
    assert(crate::text::plain_extension("cjs"@));
    assert(crate::text::plain_extension("ts"@));
    assert(crate::text::plain_extension("mts"@));
    assert(crate::text::plain_extension("cts"@));
    assert(crate::text::plain_extension("tsx"@));
    assert(crate::text::plain_extension("jsx"@));
    assert(crate::text::plain_extension("json"@));
}

/// The places at which a file is looked for under `path`, in order; the
/// first that is a file is the module.
pub fn file_candidates(path: &str) -> (r: Vec<String>)
    ensures
        r.deep_view() == file_places(path@),
{
    let extensions = vec!["js", "mjs", "cjs", "ts", "mts", "cts", "tsx", "jsx", "json"];
    assert(extensions@ =~= all_extensions());
    proof {
        lemma_extensions_plain();
    }
    let mut out: Vec<String> = Vec::new();
    out.push(String::from_str(path));
    let mut i: usize = 0;
    while i < extensions.len()
        invariant
            0 <= i <= extensions.len(),
            extensions@ == all_extensions(),
            forall|k: int|
                0 <= k < all_extensions().len() ==> crate::text::plain_extension(
                    (#[trigger] all_extensions()[k])@,
                ),
            out.len() == i + 1,
            out@[0]@ == path@,
            forall|j: int|
                0 <= j < i ==> (#[trigger] out@[j + 1])@ == path_with_extension(
                    path@,
                    all_extensions()[j]@,
                ),
        decreases extensions.len() - i,
    {
        out.push(with_extension(path, extensions[i]));
        i = i + 1;
    }
    assert(out.deep_view() =~= file_places(path@)) by {
        assert forall|k: int| 0 <= k < out.len() implies out.deep_view()[k] == file_places(
            path@,
        )[k] by {
            if k > 0 {
                assert(out@[(k - 1) + 1]@ == path_with_extension(
                    path@,
                    all_extensions()[k - 1]@,
                ));
            }
        }
    }
    out
}

/// The index files of the directory `path`, in the order in which they are
/// tried once the directory is known to exist. With `javascript_only` only
/// `index.js`, `index.mjs` and `index.cjs` are tried.
pub fn index_candidates(path: &str, javascript_only: bool) -> (r: Vec<String>)
    ensures
        r.deep_view() == index_places(
            path@,
            if javascript_only {
                3
            } else {
                9
            },
        ),
{
    let names = vec![
        "index.js",
        "index.mjs",
        "index.cjs",
        "index.ts",
        "index.mts",
        "index.cts",
        "index.tsx",
        "index.jsx",
        "index.json",
    ];
    assert(names@ =~= index_names());
    let count: usize = if javascript_only {
        3
    } else {
        9
    };
    let mut out: Vec<String> = Vec::new();
    let mut i: usize = 0;
    while i < count
        invariant
            0 <= i <= count <= names.len(),
            names@ == index_names(),
            out.len() == i,
            forall|j: int|
                0 <= j < i ==> (#[trigger] out@[j])@ == path_joined(path@, index_names()[j]@),
        decreases count - i,
    {
        out.push(join(path, names[i]));
        i = i + 1;
    }
    assert(out.deep_view() =~= index_places(path@, count as nat));
    out
}

/// The error for a specifier that was found nowhere: a module where it was
/// a path, a package where it was a name.
pub fn not_found(specifier: &str, relative: bool) -> (r: VsysError)
    ensures
        r matches VsysError::ModuleResolution { specifier: s, message: m } && s@ == specifier@
            && m@ == (if relative {
            "Cannot find module '"@
        } else {
            "Cannot find package '"@
        }) + specifier@ + "'"@,
{
    let message = if relative {
        concat3("Cannot find module '", specifier, "'")
    } else {
        concat3("Cannot find package '", specifier, "'")
    };
    VsysError::ModuleResolution { specifier: String::from_str(specifier), message }
}

/// A field of a package manifest, as far as it matters here.
#[derive(Debug, Clone, PartialEq, Eq)]
pub enum JsonField {
    /// The manifest has no such field.
    Absent,
    /// The field holds this text.
    Text(String),
    /// The field holds something else.
    Other,
}

/// The model of [`JsonField`]: texts as sequences of characters.
pub enum JsonFieldView {
    Absent,
    Text(Seq<char>),
    Other,
}

impl View for JsonField {
    type V = JsonFieldView;

    open spec fn view(&self) -> JsonFieldView {
        match self {
            JsonField::Absent => JsonFieldView::Absent,
            JsonField::Text(t) => JsonFieldView::Text(t@),
            JsonField::Other => JsonFieldView::Other,
        }
    }
}

/// What a package manifest says of its entry points.
#[derive(Debug, Clone, PartialEq, Eq)]
pub struct PackageJson {
    /// The field `type`.
    pub module_type: JsonField,
    /// The field `import` of the field `.` of the field `exports`.
    pub exports_import: JsonField,
    /// The field `require` of the field `.` of the field `exports`.
    pub exports_require: JsonField,
    /// The field `module`.
    pub module: JsonField,
    /// The field `main`.
    pub main: JsonField,
}

/// The model of [`PackageJson`]: texts as sequences of characters.
pub struct PackageJsonView {
    pub module_type: JsonFieldView,
    pub exports_import: JsonFieldView,
    pub exports_require: JsonFieldView,
    pub module: JsonFieldView,
    pub main: JsonFieldView,
}

impl View for PackageJson {
    type V = PackageJsonView;

    open spec fn view(&self) -> PackageJsonView {
        PackageJsonView {
            module_type: self.module_type@,
            exports_import: self.exports_import@,
            exports_require: self.exports_require@,
            module: self.module@,
            main: self.main@,
        }
    }
}

/// The first of the fields that the manifest has.
pub open spec fn first_present(a: JsonFieldView, b: JsonFieldView, c: JsonFieldView)
    -> JsonFieldView {
    if !(a is Absent) {
        a
    } else if !(b is Absent) {
        b
    } else {
        c
    }
}

impl PackageJsonView {
    /// Whether the package holds CommonJS modules: it does unless its type
    /// is the text `module`.
    pub open spec fn commonjs(self) -> bool {
        match self.module_type {
            JsonFieldView::Text(t) => t != "module"@,
            _ => true,
        }
    }

    /// The entry point for an import of that kind: the text of the first
    /// field that the manifest has among those that count; none where that
    /// field holds no text.
    pub open spec fn entry(self, is_esm: bool) -> Option<Seq<char>> {
        let field = if is_esm {
            first_present(self.exports_import, self.module, self.main)
        } else {
            first_present(self.exports_require, self.main, JsonFieldView::Absent)
        };
        match field {
            JsonFieldView::Text(t) => Some(t),
            _ => None,
        }
    }
}

impl JsonField {
    fn is_absent(&self) -> (r: bool)
        ensures
            r == (self@ is Absent),
    {
        match self {
            JsonField::Absent => true,
            _ => false,
        }
    }
}

impl PackageJson {
    /// Whether the package holds CommonJS modules: it does unless its type
    /// is `module`.
    pub fn is_commonjs(&self) -> (r: bool)
        ensures
            r == self@.commonjs(),
    {
        match &self.module_type {
            JsonField::Text(t) => !str_eq(t.as_str(), "module"),
            _ => true,
        }
    }

    /// The entry point of the package: for an ECMAScript import the import
    /// condition of its exports, else its `module`, else its `main` field;
    /// for a CommonJS require the require condition of its exports, else its
    /// `main` field. The first of these that the manifest has decides.
    pub fn entry_point(&self, is_esm: bool) -> (r: Option<String>)
        ensures
            r.deep_view() == self@.entry(is_esm),
    {
        let absent = JsonField::Absent;
        let field = if is_esm {
            if !self.exports_import.is_absent() {
                &self.exports_import
            } else if !self.module.is_absent() {
                &self.module
            } else {
                &self.main
            }
        } else {
            if !self.exports_require.is_absent() {
                &self.exports_require
            } else if !self.main.is_absent() {
                &self.main
            } else {
                &absent
            }
        };
        match field {
            JsonField::Text(t) => Some(t.clone()),
            _ => None,
        }
    }
}

/// The field that a manifest has where `found` is what was found for it:
/// none where nothing was found, its text where a string was found.
pub open spec fn field_of(found: Option<JsonView>) -> JsonFieldView {
    match found {
        None => JsonFieldView::Absent,
        Some(JsonView::Text(text)) => JsonFieldView::Text(text),
        Some(_) => JsonFieldView::Other,
    }
}

/// What a manifest with this JSON says of its entry points: its fields
/// `type`, `module` and `main`, and the fields `import` and `require` of the
/// field `.` of its field `exports`.
pub open spec fn manifest_of(json: JsonView) -> PackageJsonView {
    let dot = below(member(json, "exports"@), "."@);
    PackageJsonView {
        module_type: field_of(member(json, "type"@)),
        exports_import: field_of(below(dot, "import"@)),
        exports_require: field_of(below(dot, "require"@)),
        module: field_of(member(json, "module"@)),
        main: field_of(member(json, "main"@)),
    }
}

/// What the bytes of a package manifest say of its entry points, where
/// they are JSON at all.
pub open spec fn parsed_manifest(content: Seq<u8>) -> Option<PackageJsonView> {
    match json_of(content) {
        Some(json) => Some(manifest_of(json)),
        None => None,
    }
}

/// The field that a manifest has where `found` is what was found for it.
fn field(found: Option<&serde_json::Value>) -> (r: JsonField)
    ensures
        r@ == field_of(crate::vsys::json::found_view(found)),
{
    match found {
        None => JsonField::Absent,
        Some(value) => match json_text(value) {
            Some(text) => JsonField::Text(text),
            None => JsonField::Other,
        },
    }
}

/// Parses a package manifest: reads the bytes as JSON and takes out of it
/// what it says of its entry points. Bytes that are no JSON give the text of
/// the error.
pub fn parse_manifest(content: &[u8]) -> (r: Result<PackageJson, String>)
    ensures
        r is Ok == parsed_manifest(content@) is Some,
        r matches Ok(json) ==> parsed_manifest(content@) == Some(json@),
{
    let json = match parse_json(content) {
        Ok(json) => json,
        Err(e) => {
            return Err(e);
        },
    };
    let dot = get_below(json_get(&json, "exports"), ".");
    Ok(
        PackageJson {
            module_type: field(json_get(&json, "type")),
            exports_import: field(get_below(dot, "import")),
            exports_require: field(get_below(dot, "require")),
            module: field(json_get(&json, "module")),
            main: field(json_get(&json, "main")),
        },
    )
}

/// The directories in which the package `specifier` is looked for from the
/// module at `referrer`: `node_modules/<specifier>` in the directory of the
/// module and in every directory above it, the nearest first.
pub open spec fn package_places(referrer: Seq<char>, specifier: Seq<char>) -> Seq<Seq<char>> {
    let dirs = ancestor_chain(referrer, referrer.len());
    Seq::new(
        dirs.len(),
        |i: int| path_joined(path_joined(dirs[i], "node_modules"@), specifier),
    )
}

/// The directories in which the package `specifier` is looked for from the
/// module at `referrer`, the nearest first.
pub fn package_candidates(referrer: &str, specifier: &str) -> (r: Vec<String>)
    ensures
        r.deep_view() == package_places(referrer@, specifier@),
{
    let dirs = ancestors(referrer);
    let mut out: Vec<String> = Vec::new();
    let mut i: usize = 0;
    while i < dirs.len()
        invariant
            0 <= i <= dirs.len(),
            dirs.deep_view() == ancestor_chain(referrer@, referrer@.len()),
            out.len() == i,
            forall|j: int|
                0 <= j < i ==> (#[trigger] out@[j])@ == path_joined(
                    path_joined(dirs@[j]@, "node_modules"@),
                    specifier@,
                ),
        decreases dirs.len() - i,
    {
        let node_modules = join(dirs[i].as_str(), "node_modules");
        out.push(join(node_modules.as_str(), specifier));
        i = i + 1;
    }
    assert(out.deep_view() =~= package_places(referrer@, specifier@)) by {
        let chain = ancestor_chain(referrer@, referrer@.len());
        assert forall|k: int| 0 <= k < out.len() implies out.deep_view()[k] == package_places(
            referrer@,
            specifier@,
        )[k] by {
            assert(chain[k] == dirs@[k]@);
        }
    }
    out
}

/// The places at which the manifest of a package is looked for from
/// `start_dir` upwards: `package.json` in the directory itself, then in
/// every directory above it.
pub open spec fn manifest_places(start_dir: Seq<char>) -> Seq<Seq<char>> {
    let dirs = seq![start_dir] + ancestor_chain(start_dir, start_dir.len());
    Seq::new(dirs.len(), |i: int| path_joined(dirs[i], "package.json"@))
}

/// The places at which the nearest `package.json` is looked for from
/// `start_dir` upwards, the nearest first; the first that exists is it.
pub fn manifest_candidates(start_dir: &str) -> (r: Vec<String>)
    ensures
        r.deep_view() == manifest_places(start_dir@),
{
    let above = ancestors(start_dir);
    let mut out: Vec<String> = Vec::new();
    out.push(join(start_dir, "package.json"));
    let mut i: usize = 0;
    while i < above.len()
        invariant
            0 <= i <= above.len(),
            above.deep_view() == ancestor_chain(start_dir@, start_dir@.len()),
            out.len() == i + 1,
            out@[0]@ == path_joined(start_dir@, "package.json"@),
            forall|j: int|
                0 <= j < i ==> (#[trigger] out@[j + 1])@ == path_joined(
                    above@[j]@,
                    "package.json"@,
                ),
        decreases above.len() - i,
    {
        out.push(join(above[i].as_str(), "package.json"));
        i = i + 1;
    }
    assert(out.deep_view() =~= manifest_places(start_dir@)) by {
        let chain = ancestor_chain(start_dir@, start_dir@.len());
        let dirs = seq![start_dir@] + chain;
        assert forall|k: int| 0 <= k < out.len() implies out.deep_view()[k] == manifest_places(
            start_dir@,
        )[k] by {
            if k > 0 {
                assert(out@[(k - 1) + 1]@ == path_joined(above@[k - 1]@, "package.json"@));
                assert(chain[k - 1] == above@[k - 1]@);
                assert(dirs[k] == chain[k - 1]);
            }
        }
    }
    out
}

/// The source of the module at `path`, once it was read. A built-in module
/// is never read: the runtime provides it.
pub fn loaded(path: &str, source: Vec<u8>) -> (r: VsysResult<ModuleSource>)
    ensures
        match r {
            Ok(module) => !is_builtin(path@) && module.source == source && module.format
                == detected(path@) && module.path@ == path@,
            Err(e) => is_builtin(path@) && (e matches VsysError::ModuleLoad { path: p, message: m }
                && p@ == path@ && m@ == "Built-in modules should be loaded by the runtime"@),
        },
{
    if default_is_builtin(path) {
        return Err(
            VsysError::ModuleLoad {
                path: String::from_str(path),
                message: String::from_str("Built-in modules should be loaded by the runtime"),
            },
        );
    }
    Ok(ModuleSource { source, format: detect_format(path), path: String::from_str(path) })
}

/// Whether `r` is what the table said, asked on the host, of whether
/// `path` is a file.
pub open spec fn said_file<H: HostFs>(host: &H, fs: FsVTable, path: Seq<char>, r: bool) -> bool {
    flag_through(fs.is_file, host, HostQuestion::IsFile(path), r)
}

/// Whether `r` is what the table said, asked on the host, of whether
/// `path` is a directory.
pub open spec fn said_dir<H: HostFs>(host: &H, fs: FsVTable, path: Seq<char>, r: bool) -> bool {
    flag_through(fs.is_dir, host, HostQuestion::IsDir(path), r)
}

/// Whether `r` is what the table said, asked on the host, of whether
/// `path` exists.
pub open spec fn said_exists<H: HostFs>(host: &H, fs: FsVTable, path: Seq<char>, r: bool) -> bool {
    flag_through(fs.exists, host, HostQuestion::Exists(path), r)
}

/// Whether the table, asked on the host, says that `path` is a file: "no"
/// where the table refuses the question, else what the host says.
pub fn is_file<H: HostFs>(host: &H, fs: &FsVTable, path: &str) -> (r: bool)
    ensures
        fs.is_file is Deny ==> !r,
        said_file(host, *fs, path@, r),
{
    fs.call_is_file(host, path)
}

/// Whether the table, asked on the host, says that `path` is a directory:
/// "no" where the table refuses the question, else what the host says.
pub fn is_dir<H: HostFs>(host: &H, fs: &FsVTable, path: &str) -> (r: bool)
    ensures
        fs.is_dir is Deny ==> !r,
        said_dir(host, *fs, path@, r),
{
    fs.call_is_dir(host, path)
}

/// Whether the table, asked on the host, says that `path` exists: "no"
/// where the table refuses the question, else what the host says.
pub fn path_exists<H: HostFs>(host: &H, fs: &FsVTable, path: &str) -> (r: bool)
    ensures
        fs.exists is Deny ==> !r,
        said_exists(host, *fs, path@, r),
{
    fs.call_exists(host, path)
}

/// Whether a module exists at `path`: what the table, asked on the host,
/// says of the path.
pub fn default_exists<H: HostFs>(host: &H, fs: &FsVTable, path: &str) -> (r: bool)
    ensures
        fs.exists is Deny ==> !r,
        said_exists(host, *fs, path@, r),
{
    path_exists(host, fs, path)
}

/// A file that was found: its path, its format, and whether it is
/// CommonJS.
pub type Found = (String, ModuleFormat, bool);

/// The model of a [`Found`]: the path as a sequence of characters.
pub type FoundView = (Seq<char>, ModuleFormat, bool);

/// The model of what was found, if anything.
pub open spec fn found_view(r: Option<Found>) -> Option<FoundView> {
    match r {
        Some(found) => Some((found.0@, found.1, found.2)),
        None => None,
    }
}

/// What is found where `place` is a file: the place, the format that its
/// extension tells, and whether that format is CommonJS.
pub open spec fn hit_at(place: Seq<char>) -> FoundView {
    (place, detected(place), detected(place) == ModuleFormat::CJS)
}

/// Whether what was found for `path` is one of the places where it is
/// looked for, with the format that its extension tells.
pub open spec fn is_file_hit(path: Seq<char>, r: Option<Found>) -> bool {
    r matches Some(found) ==> (file_places(path).contains(found.0@) || index_places(
        path,
        9,
    ).contains(found.0@)) && found.1 == detected(found.0@) && found.2 == (found.1
        == ModuleFormat::CJS)
}

/// Whether `r` is what going through `places` gave: the first place of
/// which the table said that it is a file, after it had said of every place
/// before it that it is none; nothing where it said so of every place.
pub open spec fn is_first_file<H: HostFs>(
    host: &H,
    fs: FsVTable,
    places: Seq<Seq<char>>,
    r: Option<FoundView>,
) -> bool {
    match r {
        Some(found) => exists|k: int|
            0 <= k < places.len() && found == hit_at(#[trigger] places[k]) && said_file(
                host,
                fs,
                places[k],
                true,
            ) && all_said_no(host, fs, places, k),
        None => all_said_no(host, fs, places, places.len() as int),
    }
}

/// Whether the table said of each of the first `n` places that it is no
/// file.
pub open spec fn all_said_no<H: HostFs>(host: &H, fs: FsVTable, places: Seq<Seq<char>>, n: int)
    -> bool {
    forall|j: int| 0 <= j < n ==> said_file(host, fs, #[trigger] places[j], false)
}

/// What was found at `place`.
fn hit(place: &String) -> (r: Found)
    ensures
        r.0@ == place@,
        r.1 == detected(place@),
        r.2 == (r.1 == ModuleFormat::CJS),
        found_view(Some(r)) == Some(hit_at(place@)),
{
    let format = detect_format(place.as_str());
    let is_cjs = match format {
        ModuleFormat::CJS => true,
        _ => false,
    };
    (place.clone(), format, is_cjs)
}

/// The first of `places` that is a file: the places are asked about in
/// order, and the first of which the table says that it is a file is the
/// module.
fn first_file<H: HostFs>(host: &H, fs: &FsVTable, places: &Vec<String>) -> (r: Option<Found>)
    ensures
        fs.is_file is Deny ==> r is None,
        r matches Some(found) ==> places.deep_view().contains(found.0@) && found.1 == detected(
            found.0@,
        ) && found.2 == (found.1 == ModuleFormat::CJS),
        is_first_file(host, *fs, places.deep_view(), found_view(r)),
{
    let ghost all = places.deep_view();
    let mut i: usize = 0;
    while i < places.len()
        invariant
            0 <= i <= places.len(),
            all == places.deep_view(),
            all_said_no(host, *fs, all, i as int),
        decreases places.len() - i,
    {
        assert(all[i as int] == places@[i as int]@);
        if is_file(host, fs, places[i].as_str()) {
            let found = hit(&places[i]);
            assert(is_first_file(host, *fs, all, found_view(Some(found)))) by {
                assert(found_view(Some(found))->Some_0 == hit_at(all[i as int]));
            }
            return Some(found);
        }
        i = i + 1;
    }
    None
}

/// Whether `r` is what looking for the file that `path` names gave: the
/// first of the places of [`file_candidates`] that the table said is a file;
/// or, where it said so of none of them and said that `path` is a directory,
/// the first of its index files that it said is a file; else nothing.
pub open spec fn is_resolved_file<H: HostFs>(
    host: &H,
    fs: FsVTable,
    path: Seq<char>,
    r: Option<FoundView>,
) -> bool {
    ||| (r is Some && is_first_file(host, fs, file_places(path), r))
    ||| (is_first_file(host, fs, file_places(path), None) && said_dir(host, fs, path, true)
        && is_first_file(host, fs, index_places(path, 9), r))
    ||| (is_first_file(host, fs, file_places(path), None) && said_dir(host, fs, path, false) && r
        is None)
}

/// Looks for the module file that `path` names: the path itself, then the
/// path with each extension, then, where the path is a directory, its index
/// file with each extension. The first place that is a file is it.
pub fn try_resolve_file<H: HostFs>(host: &H, fs: &FsVTable, path: &str, _is_esm: bool) -> (r:
    Option<Found>)
    ensures
        is_file_hit(path@, r),
        fs.is_file is Deny ==> r is None,
        is_resolved_file(host, *fs, path@, found_view(r)),
{
    match first_file(host, fs, &file_candidates(path)) {
        Some(found) => {
            return Some(found);
        },
        None => {},
    }
    if is_dir(host, fs, path) {
        return first_file(host, fs, &index_candidates(path, false));
    }
    None
}

/// What was found, counted as CommonJS or not as the package says.
pub open spec fn with_kind(found: Option<FoundView>, commonjs: bool) -> Option<FoundView> {
    match found {
        Some(f) => Some((f.0, f.1, commonjs)),
        None => None,
    }
}

/// Whether `r` is what a package with the manifest `json` at `directory`
/// gave: the file that its entry point names, where looking for it found one;
/// else the first of its JavaScript index files that the table said is a
/// file; counted as CommonJS or not as the manifest says.
pub open spec fn is_package_entry<H: HostFs>(
    host: &H,
    fs: FsVTable,
    directory: Seq<char>,
    json: PackageJsonView,
    is_esm: bool,
    r: Option<FoundView>,
) -> bool {
    ||| (json.entry(is_esm) is Some && r is Some && exists|via: Option<FoundView>|
        via is Some && #[trigger] is_resolved_file(
            host,
            fs,
            path_joined(directory, json.entry(is_esm)->Some_0),
            via,
        ) && r == with_kind(via, json.commonjs()))
    ||| ((json.entry(is_esm) is Some ==> is_resolved_file(
        host,
        fs,
        path_joined(directory, json.entry(is_esm)->Some_0),
        None,
    )) && exists|via: Option<FoundView>| #[trigger]
        is_first_file(host, fs, index_places(directory, 3), via) && r == with_kind(
            via,
            json.commonjs(),
        ))
}

/// Whether `read` is what reading the manifest gave, and `r` what followed
/// from it: nothing where it could not be read or is no JSON, else what the
/// package gave.
pub open spec fn is_manifest_outcome<H: HostFs>(
    host: &H,
    fs: FsVTable,
    directory: Seq<char>,
    is_esm: bool,
    read: VsysResult<Vec<u8>>,
    r: Option<FoundView>,
) -> bool {
    read_through(fs.read, host, path_joined(directory, "package.json"@), read) && match read {
        Err(_) => r is None,
        Ok(content) => match parsed_manifest(content@) {
            None => r is None,
            Some(json) => is_package_entry(host, fs, directory, json, is_esm, r),
        },
    }
}

/// Whether `r` is what looking into the package at `directory` gave:
/// nothing where the table said that its `package.json` is no file; else what
/// followed from reading it.
pub open spec fn is_resolved_package<H: HostFs>(
    host: &H,
    fs: FsVTable,
    directory: Seq<char>,
    is_esm: bool,
    r: Option<FoundView>,
) -> bool {
    ||| (said_file(host, fs, path_joined(directory, "package.json"@), false) && r is None)
    ||| (said_file(host, fs, path_joined(directory, "package.json"@), true) && exists|
        read: VsysResult<Vec<u8>>,
    | #[trigger] is_manifest_outcome(host, fs, directory, is_esm, read, r))
}

/// Looks for what the package at `directory` provides: the entry point
/// that its manifest names, else its JavaScript index file. Whether the
/// module counts as CommonJS is the package's to say.
fn try_package<H: HostFs>(host: &H, fs: &FsVTable, directory: &str, is_esm: bool) -> (r: Option<
    Found,
>)
    ensures
        fs.is_file is Deny ==> r is None,
        r matches Some(found) ==> found.1 == detected(found.0@),
        is_resolved_package(host, *fs, directory@, is_esm, found_view(r)),
{
    let manifest = join(directory, "package.json");
    if !is_file(host, fs, manifest.as_str()) {
        return None;
    }
    let read = fs.call_read(host, manifest.as_str());
    let ghost asked = read;
    let content = match read {
        Ok(content) => content,
        Err(_) => {
            assert(is_manifest_outcome(host, *fs, directory@, is_esm, asked, None));
            return None;
        },
    };
    let json = match parse_manifest(content.as_slice()) {
        Ok(json) => json,
        Err(_) => {
            assert(is_manifest_outcome(host, *fs, directory@, is_esm, asked, None));
            return None;
        },
    };
    let is_cjs = json.is_commonjs();
    let entry = json.entry_point(is_esm);
    match &entry {
        Some(main) => {
            let main_path = join(directory, main.as_str());
            match try_resolve_file(host, fs, main_path.as_str(), is_esm) {
                Some(found) => {
                    let ghost via = found_view(Some(found));
                    let out = (found.0, found.1, is_cjs);
                    proof {
                        assert(is_resolved_file(
                            host,
                            *fs,
                            path_joined(directory@, json@.entry(is_esm)->Some_0),
                            via,
                        ));
                        assert(found_view(Some(out)) == with_kind(via, json@.commonjs()));
                        assert(is_package_entry(
                            host,
                            *fs,
                            directory@,
                            json@,
                            is_esm,
                            found_view(Some(out)),
                        ));
                        assert(is_manifest_outcome(
                            host,
                            *fs,
                            directory@,
                            is_esm,
                            asked,
                            found_view(Some(out)),
                        ));
                    }
                    return Some(out);
                },
                None => {},
            }
        },
        None => {},
    }
    let index = first_file(host, fs, &index_candidates(directory, true));
    let ghost via = found_view(index);
    let out = match index {
        Some(found) => Some((found.0, found.1, is_cjs)),
        None => None,
    };
    proof {
        assert(is_first_file(host, *fs, index_places(directory@, 3), via));
        assert(found_view(out) == with_kind(via, json@.commonjs()));
        assert(is_package_entry(host, *fs, directory@, json@, is_esm, found_view(out)));
        assert(is_manifest_outcome(host, *fs, directory@, is_esm, asked, found_view(out)));
    }
    out
}

/// Whether `r` is what one place gave where a package is looked for: what
/// the package there gave; or, where that was nothing, what the place gave as
/// a file.
pub open spec fn is_place_result<H: HostFs>(
    host: &H,
    fs: FsVTable,
    place: Seq<char>,
    is_esm: bool,
    r: Option<FoundView>,
) -> bool {
    ||| (r is Some && is_resolved_package(host, fs, place, is_esm, r))
    ||| (is_resolved_package(host, fs, place, is_esm, None) && is_resolved_file(
        host,
        fs,
        place,
        r,
    ))
}

/// Whether each of the first `n` places gave nothing.
pub open spec fn all_gave_nothing<H: HostFs>(
    host: &H,
    fs: FsVTable,
    places: Seq<Seq<char>>,
    is_esm: bool,
    n: int,
) -> bool {
    forall|j: int| 0 <= j < n ==> is_place_result(host, fs, #[trigger] places[j], is_esm, None)
}

/// Whether `r` is what going through `places` gave: what the first place
/// gave that gave something, after every place before it had given nothing;
/// nothing where no place gave anything.
pub open spec fn is_resolved_in<H: HostFs>(
    host: &H,
    fs: FsVTable,
    places: Seq<Seq<char>>,
    is_esm: bool,
    r: Option<FoundView>,
) -> bool {
    match r {
        Some(found) => exists|k: int|
            0 <= k < places.len() && is_place_result(host, fs, #[trigger] places[k], is_esm, r)
                && all_gave_nothing(host, fs, places, is_esm, k),
        None => all_gave_nothing(host, fs, places, is_esm, places.len() as int),
    }
}

/// Looks for the package `specifier` from the module at `referrer`: in the
/// `node_modules` of its directory and of every directory above, the
/// nearest first. In each the package's manifest decides; where that gives
/// nothing, the place is tried as a file.
pub fn try_resolve_node_modules<H: HostFs>(
    host: &H,
    fs: &FsVTable,
    specifier: &str,
    referrer: &str,
    is_esm: bool,
) -> (r: Option<Found>)
    ensures
        fs.is_file is Deny ==> r is None,
        r matches Some(found) ==> found.1 == detected(found.0@),
        is_resolved_in(
            host,
            *fs,
            package_places(referrer@, specifier@),
            is_esm,
            found_view(r),
        ),
{
    let places = package_candidates(referrer, specifier);
    let ghost all = places.deep_view();
    let mut i: usize = 0;
    while i < places.len()
        invariant
            0 <= i <= places.len(),
            all == places.deep_view(),
            all == package_places(referrer@, specifier@),
            all_gave_nothing(host, *fs, all, is_esm, i as int),
        decreases places.len() - i,
    {
        assert(all[i as int] == places@[i as int]@);
        match try_package(host, fs, places[i].as_str(), is_esm) {
            Some(found) => {
                assert(is_place_result(host, *fs, all[i as int], is_esm, found_view(Some(found))));
                return Some(found);
            },
            None => {},
        }
        match try_resolve_file(host, fs, places[i].as_str(), is_esm) {
            Some(found) => {
                assert(is_place_result(host, *fs, all[i as int], is_esm, found_view(Some(found))));
                return Some(found);
            },
            None => {},
        }
        assert(is_place_result(host, *fs, all[i as int], is_esm, None));
        i = i + 1;
    }
    None
}

/// The module that was found in a file.
fn found_module(found: Found, is_esm: bool) -> (r: ResolvedModule)
    ensures
        r.path@ == found.0@,
        r.format == found.1,
        !r.is_builtin,
        r.needs_cjs_wrapper == (found.2 && is_esm),
{
    ResolvedModule {
        path: found.0,
        format: found.1,
        is_builtin: false,
        needs_cjs_wrapper: found.2 && is_esm,
    }
}

/// Whether `r` is what follows for the specifier `plain` from what looking
/// for it found: the module in the file that was found, which needs a wrapper
/// where it counts as CommonJS and is imported as an ECMAScript module; or,
/// where nothing was found, the error that names the specifier, as a module
/// where it is a path and as a package where it is a name.
pub open spec fn is_module_of(
    found: Option<FoundView>,
    plain: Seq<char>,
    is_esm: bool,
    r: VsysResult<ResolvedModule>,
) -> bool {
    match found {
        Some(file) => r matches Ok(module) && module.path@ == file.0 && module.format == file.1
            && !module.is_builtin && module.needs_cjs_wrapper == (file.2 && is_esm),
        None => r matches Err(VsysError::ModuleResolution { specifier: s, message: m }) && s@
            == plain && m@ == (if is_relative(plain) {
            "Cannot find module '"@
        } else {
            "Cannot find package '"@
        }) + plain + "'"@,
    }
}

/// Whether `found` is what looking for the specifier `plain` gave: for a
/// path what looking for the file below the directory of the importing module
/// gave, for a name what looking through the `node_modules` above it gave.
pub open spec fn is_looked_up<H: HostFs>(
    host: &H,
    fs: FsVTable,
    plain: Seq<char>,
    referrer: Seq<char>,
    is_esm: bool,
    found: Option<FoundView>,
) -> bool {
    if is_relative(plain) {
        is_resolved_file(host, fs, path_joined(base_dir(referrer), plain), found)
    } else {
        is_resolved_in(host, fs, package_places(referrer, plain), is_esm, found)
    }
}

/// Whether `r` is what resolving `specifier` from `referrer` gave: the
/// built-in module where the specifier names one or starts with `node:`;
/// else what follows from what looking for it found.
pub open spec fn is_resolution<H: HostFs>(
    host: &H,
    fs: FsVTable,
    specifier: Seq<char>,
    referrer: Seq<char>,
    is_esm: bool,
    r: VsysResult<ResolvedModule>,
) -> bool {
    if "node:"@.is_prefix_of(specifier) || is_builtin(specifier) {
        r matches Ok(module) && is_builtin_module(module, specifier)
    } else {
        exists|found: Option<FoundView>| #[trigger]
            is_looked_up(host, fs, plain_specifier(specifier), referrer, is_esm, found)
                && is_module_of(found, plain_specifier(specifier), is_esm, r)
    }
}

/// Resolves `specifier`, imported from the module at `referrer`. A
/// specifier with a leading `node:` and the name of a built-in module
/// resolve to that module without a look at the filesystem. A path is looked
/// for below the directory of the importing module, a package in the
/// `node_modules` above it; what is found nowhere is an error that names it.
pub fn default_resolve<H: HostFs>(
    host: &H,
    fs: &FsVTable,
    specifier: &str,
    referrer: &str,
    is_esm: bool,
) -> (r: VsysResult<ResolvedModule>)
    ensures
        is_resolution(host, *fs, specifier@, referrer@, is_esm, r),
        fs.is_file is Deny && !("node:"@.is_prefix_of(specifier@) || is_builtin(specifier@))
            ==> r is Err,
{
    match lookup(specifier, referrer) {
        Lookup::Builtin(module) => Ok(module),
        Lookup::File { specifier: plain, path } => {
            let found = try_resolve_file(host, fs, path.as_str(), is_esm);
            let ghost view = found_view(found);
            let out = match found {
                Some(file) => Ok(found_module(file, is_esm)),
                None => Err(not_found(plain.as_str(), true)),
            };
            proof {
                assert(is_looked_up(host, *fs, plain@, referrer@, is_esm, view));
                assert(is_module_of(view, plain@, is_esm, out));
            }
            out
        },
        Lookup::Package { specifier: plain } => {
            let found = try_resolve_node_modules(host, fs, plain.as_str(), referrer, is_esm);
            let ghost view = found_view(found);
            let out = match found {
                Some(file) => Ok(found_module(file, is_esm)),
                None => Err(not_found(plain.as_str(), false)),
            };
            proof {
                assert(is_looked_up(host, *fs, plain@, referrer@, is_esm, view));
                assert(is_module_of(view, plain@, is_esm, out));
            }
            out
        },
    }
}

/// Whether `r` is what follows for the module at `path` from what reading
/// it gave: the error of the read, or the bytes as the module's source, with
/// the format that the path's extension tells.
pub open spec fn is_read_module(
    path: Seq<char>,
    read: VsysResult<Vec<u8>>,
    r: VsysResult<ModuleSource>,
) -> bool {
    match read {
        Err(e) => r == Err::<ModuleSource, VsysError>(e),
        Ok(source) => r matches Ok(module) && module.source == source && module.format
            == detected(path) && module.path@ == path,
    }
}

/// Whether `r` is what loading the module at `path` through the table
/// gave: for the name of a built-in module the error that says that the
/// runtime provides it, else what follows from what reading the path gave.
pub open spec fn is_loaded<H: HostFs>(
    host: &H,
    fs: FsVTable,
    path: Seq<char>,
    r: VsysResult<ModuleSource>,
) -> bool {
    if is_builtin(path) {
        r matches Err(VsysError::ModuleLoad { path: p, message: m }) && p@ == path && m@
            == "Built-in modules should be loaded by the runtime"@
    } else {
        exists|read: VsysResult<Vec<u8>>|
            read_through(fs.read, host, path, read) && #[trigger] is_read_module(path, read, r)
    }
}

/// Loads the module at `path` through the table. A built-in module is
/// never read: the runtime provides it.
pub fn default_load<H: HostFs>(host: &H, fs: &FsVTable, path: &str) -> (r: VsysResult<
    ModuleSource,
>)
    ensures
        is_builtin(path@) ==> (r matches Err(VsysError::ModuleLoad { path: p, message: m }) && p@
            == path@ && m@ == "Built-in modules should be loaded by the runtime"@),
        !is_builtin(path@) ==> crate::vsys::fs::refused(fs.read, r),
        r matches Ok(module) ==> module.format == detected(path@) && module.path@ == path@,
        is_loaded(host, *fs, path@, r),
{
    if default_is_builtin(path) {
        return Err(
            VsysError::ModuleLoad {
                path: String::from_str(path),
                message: String::from_str("Built-in modules should be loaded by the runtime"),
            },
        );
    }
    let read = fs.call_read(host, path);
    let ghost asked = read;
    let out = match read {
        Err(e) => Err(e),
        Ok(source) => loaded(path, source),
    };
    assert(is_read_module(path@, asked, out));
    out
}

/// Whether the table said of each of the first `n` places that it does
/// not exist.
pub open spec fn none_exists<H: HostFs>(host: &H, fs: FsVTable, places: Seq<Seq<char>>, n: int)
    -> bool {
    forall|j: int| 0 <= j < n ==> said_exists(host, fs, #[trigger] places[j], false)
}

/// Whether `r` is the first of `places` of which the table said that it
/// exists, after it had said of every place before it that it does not;
/// nothing where it said so of every place.
pub open spec fn is_first_existing<H: HostFs>(
    host: &H,
    fs: FsVTable,
    places: Seq<Seq<char>>,
    r: Option<Seq<char>>,
) -> bool {
    match r {
        Some(place) => exists|k: int|
            0 <= k < places.len() && #[trigger] places[k] == place && said_exists(
                host,
                fs,
                places[k],
                true,
            ) && none_exists(host, fs, places, k),
        None => none_exists(host, fs, places, places.len() as int),
    }
}

/// The nearest `package.json` from `start_dir` upwards: the first of the
/// places of [`manifest_candidates`] that exists.
pub fn default_find_package_json<H: HostFs>(host: &H, fs: &FsVTable, start_dir: &str) -> (r:
    Option<String>)
    ensures
        fs.exists is Deny ==> r is None,
        r matches Some(place) ==> manifest_places(start_dir@).contains(place@),
        is_first_existing(host, *fs, manifest_places(start_dir@), r.deep_view()),
{
    let places = manifest_candidates(start_dir);
    let ghost all = places.deep_view();
    let mut i: usize = 0;
    while i < places.len()
        invariant
            0 <= i <= places.len(),
            all == places.deep_view(),
            all == manifest_places(start_dir@),
            none_exists(host, *fs, all, i as int),
        decreases places.len() - i,
    {
        assert(all[i as int] == places@[i as int]@);
        if path_exists(host, fs, places[i].as_str()) {
            let found = places[i].clone();
            assert(is_first_existing(host, *fs, all, Some(found@)));
            return Some(found);
        }
        i = i + 1;
    }
    None
}

/// Reads the package manifest at `path` through the table and parses it.
pub fn default_read_package_json<H: HostFs>(host: &H, fs: &FsVTable, path: &str) -> (r:
    VsysResult<PackageJson>)
    ensures
        crate::vsys::fs::refused(fs.read, r),
        r matches Err(VsysError::ModuleLoad { path: p, message: _ }) ==> p@ == path@,
{
    let content = match fs.call_read(host, path) {
        Ok(content) => content,
        Err(e) => {
            return match e {
                VsysError::ModuleLoad { path: _, message } => Err(
                    VsysError::ModuleLoad { path: String::from_str(path), message },
                ),
                other => Err(other),
            };
        },
    };
    match parse_manifest(content.as_slice()) {
        Ok(json) => Ok(json),
        Err(e) => Err(
            VsysError::ModuleLoad {
                path: String::from_str(path),
                message: crate::text::concat("Failed to parse package.json: ", e.as_str()),
            },
        ),
    }
}

/// How modules are found and loaded.
#[derive(Debug, Clone, Copy, PartialEq, Eq)]
pub enum ModuleLoaderVTable {
    /// Built-in modules, files and packages, through the filesystem table.
    Host,
    /// Built-in modules only; the filesystem is never asked.
    BuiltinsOnly,
}

impl Default for ModuleLoaderVTable {
    fn default() -> (r: Self)
        ensures
            r == ModuleLoaderVTable::Host,
    {
        ModuleLoaderVTable::Host
    }
}

impl ModuleLoaderVTable {
    /// The loader that only allows built-in modules.
    pub fn builtins_only() -> (r: Self)
        ensures
            r == ModuleLoaderVTable::BuiltinsOnly,
    {
        ModuleLoaderVTable::BuiltinsOnly
    }

    /// Resolves a specifier to a module.
    pub fn resolve<H: HostFs>(
        &self,
        host: &H,
        fs: &FsVTable,
        specifier: &str,
        referrer: &str,
        is_esm: bool,
    ) -> (r: VsysResult<ResolvedModule>)
        ensures
            *self == ModuleLoaderVTable::Host ==> is_resolution(
                host,
                *fs,
                specifier@,
                referrer@,
                is_esm,
                r,
            ),
            *self == ModuleLoaderVTable::BuiltinsOnly ==> (match r {
                Ok(module) => is_builtin(specifier@) && is_builtin_module(module, specifier@),
                Err(e) => !is_builtin(specifier@) && (e matches VsysError::ModuleResolution {
                    specifier: s,
                    message: m,
                } && s@ == specifier@ && m@ == "Only built-in modules are allowed"@),
            }),
    {
        match self {
            ModuleLoaderVTable::Host => default_resolve(host, fs, specifier, referrer, is_esm),
            ModuleLoaderVTable::BuiltinsOnly => builtins_only_resolve(specifier, referrer, is_esm),
        }
    }

    /// Loads the source of a module: through the table, as
    /// [`default_load`] does; where only built-in modules are allowed, nothing
    /// is read and the error says so.
    pub fn load<H: HostFs>(&self, host: &H, fs: &FsVTable, path: &str) -> (r: VsysResult<
        ModuleSource,
    >)
        ensures
            *self == ModuleLoaderVTable::BuiltinsOnly ==> r is Err,
            r matches Ok(module) ==> module.format == detected(path@) && module.path@ == path@,
            match *self {
                ModuleLoaderVTable::Host => is_loaded(host, *fs, path@, r),
                ModuleLoaderVTable::BuiltinsOnly => r matches Err(
                    VsysError::ModuleLoad { path: p, message: m },
                ) && p@ == path@ && m@ == "Only built-in modules are allowed"@,
            },
    {
        match self {
            ModuleLoaderVTable::Host => default_load(host, fs, path),
            ModuleLoaderVTable::BuiltinsOnly => builtins_only_load(path),
        }
    }

    /// Whether a module exists at `path`: what the table, asked on the
    /// host, says of the path; "no" where only built-in modules are allowed.
    pub fn module_exists<H: HostFs>(&self, host: &H, fs: &FsVTable, path: &str) -> (r: bool)
        ensures
            *self == ModuleLoaderVTable::BuiltinsOnly || fs.exists is Deny ==> !r,
            match *self {
                ModuleLoaderVTable::Host => said_exists(host, *fs, path@, r),
                ModuleLoaderVTable::BuiltinsOnly => !r,
            },
    {
        match self {
            ModuleLoaderVTable::Host => default_exists(host, fs, path),
            ModuleLoaderVTable::BuiltinsOnly => false,
        }
    }

    /// Whether the specifier names a built-in module.
    pub fn is_builtin(&self, specifier: &str) -> (r: bool)
        ensures
            r == is_builtin(specifier@),
    {
        default_is_builtin(specifier)
    }

    /// The names of the built-in modules.
    pub fn list_builtins(&self) -> (r: Vec<String>)
        ensures
            r.len() == builtin_names().len(),
            forall|i: int| 0 <= i < r.len() ==> (#[trigger] r@[i])@ == builtin_names()[i]@,
    {
        default_list_builtins()
    }

    /// The nearest `package.json` from `start_dir` upwards: the first of
    /// the places of [`manifest_candidates`] that exists; none where only
    /// built-in modules are allowed.
    pub fn find_package_json<H: HostFs>(&self, host: &H, fs: &FsVTable, start_dir: &str) -> (r:
        Option<String>)
        ensures
            *self == ModuleLoaderVTable::BuiltinsOnly || fs.exists is Deny ==> r is None,
            r matches Some(place) ==> manifest_places(start_dir@).contains(place@),
            match *self {
                ModuleLoaderVTable::Host => is_first_existing(
                    host,
                    *fs,
                    manifest_places(start_dir@),
                    r.deep_view(),
                ),
                ModuleLoaderVTable::BuiltinsOnly => r is None,
            },
    {
        match self {
            ModuleLoaderVTable::Host => default_find_package_json(host, fs, start_dir),
            ModuleLoaderVTable::BuiltinsOnly => None,
        }
    }

    /// Reads and parses the package manifest at `path`.
    pub fn read_package_json<H: HostFs>(&self, host: &H, fs: &FsVTable, path: &str) -> (r:
        VsysResult<PackageJson>)
        ensures
            *self == ModuleLoaderVTable::BuiltinsOnly ==> (r matches Err(
                VsysError::ModuleResolution { specifier: s, message: m },
            ) && s@.len() == 0 && m@ == "Filesystem access not allowed"@),
    {
        match self {
            ModuleLoaderVTable::Host => default_read_package_json(host, fs, path),
            ModuleLoaderVTable::BuiltinsOnly => Err(
                VsysError::ModuleResolution {
                    specifier: String::new(),
                    message: String::from_str("Filesystem access not allowed"),
                },
            ),
        }
    }
}

} // verus!
