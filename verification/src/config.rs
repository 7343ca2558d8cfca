//! The configuration model: the manifest of template mappings, shared values and the
//! package list, with the checks made when each is loaded.

use crate::errors::DotstrapError;
use crate::text::{join_path, spec_join};
use crate::value::{from_json, json_model, Datum, Json, ValueMap};
use vstd::prelude::*;

verus! {

/// The one schema version that a manifest may declare.
pub const SUPPORTED_VERSION: u8 = 1;

/// Model of a template mapping.
pub ghost struct MappingView {
    pub source: Seq<char>,
    pub destination: Seq<char>,
    pub mode: Option<u32>,
}

/// One template: where it is read from, relative to the repository, where it is linked
/// to, relative to the home directory, and the permission bits of the linked file, if any.
#[derive(Debug, Clone)]
pub struct TemplateMapping {
    pub source: String,
    pub destination: String,
    pub mode: Option<u32>,
}

impl View for TemplateMapping {
    type V = MappingView;

    open spec fn view(&self) -> MappingView {
        MappingView { source: self.source@, destination: self.destination@, mode: self.mode }
    }
}

impl TemplateMapping {
    /// A copy with the same model.
    pub fn duplicate(&self) -> (r: TemplateMapping)
        ensures
            r@ == self@,
    {
        TemplateMapping {
            source: self.source.clone(),
            destination: self.destination.clone(),
            mode: self.mode,
        }
    }
}

/// The manifest: a schema version and the template mappings, in order.
#[derive(Debug, Clone)]
pub struct Manifest {
    pub version: u8,
    pub templates: Vec<TemplateMapping>,
}

impl Manifest {
    /// A manifest is valid where it declares the supported version and lists a template.
    pub open spec fn is_valid(&self) -> bool {
        self.version == SUPPORTED_VERSION && self.templates@.len() > 0
    }
}

/// Taps, formulae and casks to install, each in order.
#[derive(Debug, Clone)]
pub struct BrewSpec {
    pub taps: Vec<String>,
    pub formulae: Vec<String>,
    pub casks: Vec<String>,
}

impl Default for BrewSpec {
    fn default() -> (r: Self)
        ensures
            r.taps@.len() == 0,
            r.formulae@.len() == 0,
            r.casks@.len() == 0,
    {
        BrewSpec { taps: Vec::new(), formulae: Vec::new(), casks: Vec::new() }
    }
}

/// The document that `serde_yaml` reads from `bytes` as a `serde_json::Value`, or
/// `None` where it reports an error.
pub uninterp spec fn yaml_document(bytes: Seq<u8>) -> Option<Json>;

/// `serde_yaml::from_slice`, reading a `serde_json::Value`: the value that comes back
/// holds the document that `yaml_document` names for these bytes, and an error comes
/// back where it names none.
#[verifier::external_body]
fn parse_yaml(bytes: &[u8]) -> (r: Result<serde_json::Value, serde_yaml::Error>)
    ensures
        match r {
            Ok(raw) => yaml_document(bytes@) == Some(json_model(raw)),
            Err(_) => yaml_document(bytes@) is None,
        },
{
    serde_yaml::from_slice::<serde_json::Value>(bytes)
}

/// The manifest's file name.
pub open spec fn manifest_file() -> Seq<char> {
    "manifest.yaml"@
}

/// The values file's name.
pub open spec fn values_file() -> Seq<char> {
    "values.yaml"@
}

/// The package list's path, relative to the repository.
pub open spec fn brew_file() -> Seq<char> {
    "brew/packages.yaml"@
}

/// The path of the manifest.
pub fn manifest_path(repo: &str) -> (r: String)
    ensures
        r@ == spec_join(repo@, manifest_file()),
{
    join_path(repo, "manifest.yaml")
}

/// The path of the values file.
pub fn values_path(repo: &str) -> (r: String)
    ensures
        r@ == spec_join(repo@, values_file()),
{
    join_path(repo, "values.yaml")
}

/// The path of the package list.
pub fn brew_path(repo: &str) -> (r: String)
    ensures
        r@ == spec_join(repo@, brew_file()),
{
    join_path(repo, "brew/packages.yaml")
}

/// Whether `e` is a parse error that holds `err` and names the file `file` of `repo`.
pub open spec fn is_yaml_error(
    e: DotstrapError,
    err: serde_yaml::Error,
    repo: Seq<char>,
    file: Seq<char>,
) -> bool {
    e matches DotstrapError::Yaml { source, path } && source == err && path@ == spec_join(
        repo,
        file,
    )
}

/// Checks a parsed manifest. A parse error is passed on with the manifest's path; a
/// version other than the supported one is refused, and so is an empty list of
/// templates, in that order. A manifest that passes comes back unchanged.
pub fn load_manifest(repo: &str, parsed: Result<Manifest, serde_yaml::Error>) -> (r: Result<
    Manifest,
    DotstrapError,
>)
    ensures
        match parsed {
            Err(err) => r matches Err(e) && is_yaml_error(e, err, repo@, manifest_file()),
            Ok(m) => if m.version != SUPPORTED_VERSION {
                r matches Err(DotstrapError::UnsupportedManifestVersion { path, version })
                    && path@ == spec_join(repo@, manifest_file()) && version == m.version
            } else if m.templates@.len() == 0 {
                r matches Err(DotstrapError::ManifestMissingTemplates(path)) && path@ == spec_join(
                    repo@,
                    manifest_file(),
                )
            } else {
                r == Ok::<Manifest, DotstrapError>(m) && m.is_valid()
            },
        },
{
    let path = manifest_path(repo);
    match parsed {
        Err(source) => Err(DotstrapError::Yaml { source, path }),
        Ok(manifest) => {
            if manifest.version != SUPPORTED_VERSION {
                Err(DotstrapError::UnsupportedManifestVersion { path, version: manifest.version })
            } else if manifest.templates.len() == 0 {
                Err(DotstrapError::ManifestMissingTemplates(path))
            } else {
                Ok(manifest)
            }
        },
    }
}

/// The values that a document contributes: its entries where it is a mapping,
/// nothing where it is anything else.
pub open spec fn spec_values(document: Json) -> Map<Seq<char>, Json> {
    match document {
        Json::Object(entries) => entries,
        _ => Map::empty(),
    }
}

/// The values of a parsed document.
pub fn values_of(document: &Datum) -> (r: ValueMap)
    ensures
        r.wf(),
        r@ == spec_values(document@),
{
    match document {
        Datum::Object(entries) => {
            proof {
                crate::value::lemma_object_view(*entries);
            }
            ValueMap::from_entries(entries)
        },
        Datum::Array(items) => {
            proof {
                crate::value::lemma_array_view(*items);
            }
            ValueMap::new()
        },
        _ => ValueMap::new(),
    }
}

/// Loads the shared values from the bytes of the values file, if there is one.
/// No file gives no values; a malformed file is an error that names it; a document
/// that is not a mapping gives no values.
pub fn load_values(repo: &str, contents: Option<&[u8]>) -> (r: Result<ValueMap, DotstrapError>)
    ensures
        match contents {
            None => r matches Ok(m) && m.wf() && m@ == Map::<Seq<char>, Json>::empty(),
            Some(bytes) => match yaml_document(bytes@) {
                None => r matches Err(DotstrapError::Yaml { source, path }) && path@ == spec_join(
                    repo@,
                    values_file(),
                ),
                Some(document) => r matches Ok(m) && m.wf() && m@ == spec_values(document),
            },
        },
{
    match contents {
        None => Ok(ValueMap::new()),
        Some(bytes) => match parse_yaml(bytes) {
            Err(source) => Err(DotstrapError::Yaml { source, path: values_path(repo) }),
            Ok(raw) => {
                let document = from_json(&raw);
                Ok(values_of(&document))
            },
        },
    }
}

/// Loads the package list, if there is one: no file gives none, and a
/// malformed file is an error that names it.
pub fn load_brew_spec(repo: &str, parsed: Option<Result<BrewSpec, serde_yaml::Error>>) -> (r:
    Result<Option<BrewSpec>, DotstrapError>)
    ensures
        match parsed {
            None => r matches Ok(None),
            Some(Err(err)) => r matches Err(e) && is_yaml_error(e, err, repo@, brew_file()),
            Some(Ok(spec)) => r == Ok::<Option<BrewSpec>, DotstrapError>(Some(spec)),
        },
{
    match parsed {
        None => Ok(None),
        Some(Err(source)) => Err(DotstrapError::Yaml { source, path: brew_path(repo) }),
        Some(Ok(spec)) => Ok(Some(spec)),
    }
}

} // verus!
