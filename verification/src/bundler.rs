//! What the bundler is asked to do.

use vstd::prelude::*;
use crate::text::concat;
use crate::vsys::path::{file_stem, path_stem};

verus! {

/// Errors that can occur during bundling
#[derive(Debug, Clone, PartialEq, Eq)]
pub enum BundleError {
    BundleFailed(String),
    /// An error of the underlying system, by its text.
    IoError(String),
    FeatureNotEnabled,
}

impl BundleError {
    /// The text that describes the error.
    pub fn message(&self) -> (r: String)
        ensures
            r@ == (match self {
                BundleError::BundleFailed(m) => "Bundling failed: "@ + m@,
                BundleError::IoError(m) => "IO error: "@ + m@,
                BundleError::FeatureNotEnabled => "Rolldown feature not enabled"@,
            }),
    {
        match self {
            BundleError::BundleFailed(m) => concat("Bundling failed: ", m.as_str()),
            BundleError::IoError(m) => concat("IO error: ", m.as_str()),
            BundleError::FeatureNotEnabled => String::from_str("Rolldown feature not enabled"),
        }
    }
}

/// Bundle output format
#[derive(Debug, Clone, Copy, PartialEq, Eq)]
pub enum BundleFormat {
    /// ES Module format
    Esm,
    /// CommonJS format
    Cjs,
    /// Immediately Invoked Function Expression
    Iife,
}

impl Default for BundleFormat {
    fn default() -> (r: Self)
        ensures
            r == BundleFormat::Esm,
    {
        BundleFormat::Esm
    }
}

/// Configuration for the bundler
#[derive(Debug, Clone)]
pub struct BundleConfig {
    /// Entry point(s) for the bundle
    pub entry: Vec<String>,
    /// Output directory
    pub output_dir: String,
    /// Output filename
    pub output_filename: Option<String>,
    /// Enable minification
    pub minify: bool,
    /// Enable source maps
    pub source_map: bool,
    /// Target format (esm, cjs, iife)
    pub format: BundleFormat,
    /// Enable tree-shaking
    pub tree_shake: bool,
    /// External modules (won't be bundled)
    pub external: Vec<String>,
}

impl Default for BundleConfig {
    /// No entry, output to `dist` as ES modules, with tree-shaking and
    /// nothing else switched on.
    fn default() -> (r: Self)
        ensures
            r.entry.len() == 0,
            r.output_dir@ == "dist"@,
            r.output_filename is None,
            !r.minify,
            !r.source_map,
            r.format == BundleFormat::Esm,
            r.tree_shake,
            r.external.len() == 0,
    {
        BundleConfig {
            entry: Vec::new(),
            output_dir: String::from_str("dist"),
            output_filename: None,
            minify: false,
            source_map: false,
            format: BundleFormat::Esm,
            tree_shake: true,
            external: Vec::new(),
        }
    }
}

/// The decimal text of a count: its digits without leading zeros.
pub open spec fn decimal_index(n: nat) -> Seq<char> {
    crate::text::digits_of(n)
}

/// `usize`'s `to_string`: the decimal text of the number, which is its
/// digits without leading zeros.
#[verifier::external_body]
pub(crate) fn index_text(n: usize) -> (r: String)
    ensures
        r@ == decimal_index(n as nat),
{
    n.to_string()
}

/// An entry point as the bundler takes it: a name and the file to import.
#[derive(Debug, Clone, PartialEq, Eq)]
pub struct InputItem {
    pub name: String,
    pub import: String,
}

/// The name of the entry point at position `index`: the file name of its
/// path without the extension, or `entry` and the position where the path has
/// no file name.
pub open spec fn entry_name(path: Seq<char>, index: nat) -> Seq<char> {
    match path_stem(path) {
        Some(stem) => stem,
        None => "entry"@ + decimal_index(index),
    }
}

/// The entry points of the configuration as the bundler takes them, each
/// with its name.
pub fn input_items(config: &BundleConfig) -> (r: Vec<InputItem>)
    ensures
        r.len() == config.entry.len(),
        forall|i: int|
            0 <= i < r.len() ==> (#[trigger] r@[i]).import@ == config.entry@[i]@ && r@[i].name@
                == entry_name(config.entry@[i]@, i as nat),
{
    let mut out: Vec<InputItem> = Vec::new();
    let mut i: usize = 0;
    while i < config.entry.len()
        invariant
            0 <= i <= config.entry.len(),
            out.len() == i,
            forall|j: int|
                0 <= j < i ==> (#[trigger] out@[j]).import@ == config.entry@[j]@ && out@[j].name@
                    == entry_name(config.entry@[j]@, j as nat),
        decreases config.entry.len() - i,
    {
        let path = config.entry[i].as_str();
        let name = match file_stem(path) {
            Some(stem) => stem,
            None => {
                let number = index_text(i);
                concat("entry", number.as_str())
            },
        };
        out.push(InputItem { name, import: String::from_str(path) });
        i = i + 1;
    }
    out
}

/// The modules that stay outside the bundle; none where the configuration
/// names none.
pub fn external_modules(config: &BundleConfig) -> (r: Option<Vec<String>>)
    ensures
        config.external.len() == 0 ==> r is None,
        config.external.len() > 0 ==> (r matches Some(list) && list.deep_view()
            == config.external.deep_view()),
{
    if config.external.len() == 0 {
        None
    } else {
        Some(crate::model::duplicate_all(&config.external))
    }
}

/// The configuration with which a script is bundled before it runs: the
/// script as the only entry, the output beside it under the script's name
/// with the extension `js` (`bundle.js` where the path has no file name), as
/// ES modules, with tree-shaking and nothing else switched on.
pub fn script_bundle(script_path: &str) -> (r: BundleConfig)
    ensures
        r.entry.len() == 1 && r.entry@[0]@ == script_path@,
        r.output_dir@ == "."@,
        r.output_filename matches Some(name) && name@ == (match path_stem(script_path@) {
            Some(stem) => stem,
            None => "bundle"@,
        }) + ".js"@,
        !r.minify && !r.source_map && r.tree_shake,
        r.format == BundleFormat::Esm,
        r.external.len() == 0,
{
    let name = match file_stem(script_path) {
        Some(stem) => stem,
        None => String::from_str("bundle"),
    };
    let mut entry: Vec<String> = Vec::new();
    entry.push(String::from_str(script_path));
    BundleConfig {
        entry,
        output_dir: String::from_str("."),
        output_filename: Some(concat(name.as_str(), ".js")),
        minify: false,
        source_map: false,
        format: BundleFormat::Esm,
        tree_shake: true,
        external: Vec::new(),
    }
}

} // verus!
