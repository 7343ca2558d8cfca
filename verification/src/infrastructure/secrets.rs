//! Secret resolution: each declared secret comes from an environment variable or from
//! a file, and the resolved secrets form a flat mapping from names to text values.

use crate::errors::DotstrapError;
use crate::text::{is_absolute, join_path, spec_is_absolute, spec_join};
use crate::value::{Json, Datum, ValueMap};
use vstd::prelude::*;

verus! {

/// Where a secret comes from.
#[derive(Debug, Clone)]
pub enum SecretSource {
    /// An environment variable; an optional secret may be left unset.
    Env { key: String, optional: bool },
    /// The trimmed contents of a file.
    File { path: String },
}

/// What was found where a secret was looked for.
#[derive(Debug)]
pub enum SecretReading {
    /// The variable's value, or the file's contents.
    Found(String),
    /// The variable is not set.
    Missing,
    /// The file could not be read.
    Failed(std::io::Error),
}

/// A declared secret together with what was found for it.
#[derive(Debug)]
pub struct SecretEntry {
    pub name: String,
    pub source: SecretSource,
    pub reading: SecretReading,
}

/// What has to be read to resolve a secret.
#[derive(Debug)]
pub enum SecretQuery {
    /// The environment variable of this name.
    Variable(String),
    /// The file at this path.
    Contents(String),
}

/// `text` without its leading and trailing whitespace, as `str::trim` gives it.
pub uninterp spec fn trimmed(text: Seq<char>) -> Seq<char>;

/// `str::trim`, copied into an owned string: the result is the argument without its
/// leading and trailing whitespace.
#[verifier::external_body]
fn trim_text(text: &str) -> (r: String)
    ensures
        r@ == trimmed(text@),
{
    text.trim().to_string()
}

/// The file that declares the secrets, relative to the repository.
pub open spec fn secrets_file() -> Seq<char> {
    "secrets/secrets.yaml"@
}

/// The path of the file that declares the secrets.
pub fn secrets_path(repo: &str) -> (r: String)
    ensures
        r@ == spec_join(repo@, secrets_file()),
{
    join_path(repo, "secrets/secrets.yaml")
}

/// Whether a path begins with the home marker `~/`.
pub open spec fn has_home_marker(path: Seq<char>) -> bool {
    path.len() >= 2 && path[0] == '~' && path[1] == '/'
}

/// A declared path made concrete: what follows a home marker is adjoined to the home
/// directory, a relative path to the repository, and an absolute path stays as it is.
pub open spec fn spec_expand_path(path: Seq<char>, home: Seq<char>, repo: Seq<char>) -> Seq<char> {
    if has_home_marker(path) {
        spec_join(home, path.skip(2))
    } else if !spec_is_absolute(path) {
        spec_join(repo, path)
    } else {
        path
    }
}

/// Makes a declared path concrete.
pub fn expand_path(path: &str, home: &str, repo: &str) -> (r: String)
    ensures
        r@ == spec_expand_path(path@, home@, repo@),
{
    let n: usize = path.unicode_len();
    if n >= 2 && path.get_char(0) == '~' && path.get_char(1) == '/' {
        let rest = path.substring_char(2, n);
        assert(rest@ =~= path@.skip(2));
        return join_path(home, rest);
    }
    if !is_absolute(path) {
        join_path(repo, path)
    } else {
        String::from_str(path)
    }
}

/// What has to be read for a declared source.
pub open spec fn spec_query(source: SecretSource, home: Seq<char>, repo: Seq<char>) -> Seq<char> {
    match source {
        SecretSource::Env { key, optional } => key@,
        SecretSource::File { path } => spec_expand_path(path@, home, repo),
    }
}

/// Says what has to be read to resolve a secret: the variable, or the file at the
/// declared path made concrete.
pub fn query_for(source: &SecretSource, home: &str, repo: &str) -> (r: SecretQuery)
    ensures
        match r {
            SecretQuery::Variable(name) => source is Env && name@ == spec_query(
                *source,
                home@,
                repo@,
            ),
            SecretQuery::Contents(path) => source is File && path@ == spec_query(
                *source,
                home@,
                repo@,
            ),
        },
{
    match source {
        SecretSource::Env { key, optional } => SecretQuery::Variable(key.clone()),
        SecretSource::File { path } => SecretQuery::Contents(expand_path(path.as_str(), home, repo)),
    }
}

/// What one declared secret comes to.
pub ghost enum Resolution {
    /// The secret has this text as its value.
    Text(Seq<char>),
    /// The secret is left out.
    Omitted,
    /// The secret is required and has no value.
    Unavailable(Seq<char>),
    /// Reading the secret's file failed.
    Unreadable(std::io::Error),
}

/// How a provider is described where a secret is missing.
pub open spec fn variable_provider(key: Seq<char>) -> Seq<char> {
    "environment variable "@ + key
}

/// How a file is described where a secret is missing.
pub open spec fn file_provider(path: Seq<char>) -> Seq<char> {
    "file "@ + path
}

/// The rule for one secret. A variable that is set gives its value; one that is not
/// is left out where the secret is optional and is an error where it is not. A file
/// gives its contents, trimmed; a failed read is passed on.
pub open spec fn resolution(source: SecretSource, reading: SecretReading) -> Resolution {
    match source {
        SecretSource::Env { key, optional } => match reading {
            SecretReading::Found(text) => Resolution::Text(text@),
            _ => if optional {
                Resolution::Omitted
            } else {
                Resolution::Unavailable(variable_provider(key@))
            },
        },
        SecretSource::File { path } => match reading {
            SecretReading::Found(text) => Resolution::Text(trimmed(text@)),
            SecretReading::Missing => Resolution::Unavailable(file_provider(path@)),
            SecretReading::Failed(e) => Resolution::Unreadable(e),
        },
    }
}

/// Whether an error is the one that a failed resolution of the secret `name` calls for.
pub open spec fn is_failure_of(e: DotstrapError, name: Seq<char>, res: Resolution) -> bool {
    match res {
        Resolution::Unavailable(provider) => e matches DotstrapError::MissingSecret {
            name: n,
            provider: p,
        } && n@ == name && p@ == provider,
        Resolution::Unreadable(io) => e == DotstrapError::Io(io),
        _ => false,
    }
}

/// Resolves one secret from what was found for it.
pub fn resolve_secret(name: &str, source: SecretSource, reading: SecretReading) -> (r: Result<
    Option<Datum>,
    DotstrapError,
>)
    ensures
        match resolution(source, reading) {
            Resolution::Text(text) => r matches Ok(Some(v)) && v@ == Json::Text(text),
            Resolution::Omitted => r matches Ok(None),
            failure => r matches Err(e) && is_failure_of(e, name@, failure),
        },
{
    match source {
        SecretSource::Env { key, optional } => match reading {
            SecretReading::Found(text) => Ok(Some(Datum::String(text))),
            _ => {
                if optional {
                    Ok(None)
                } else {
                    let mut provider = String::from_str("environment variable ");
                    provider.append(key.as_str());
                    Err(DotstrapError::MissingSecret { name: String::from_str(name), provider })
                }
            },
        },
        SecretSource::File { path } => match reading {
            SecretReading::Found(text) => Ok(Some(Datum::String(trim_text(text.as_str())))),
            SecretReading::Missing => {
                let mut provider = String::from_str("file ");
                provider.append(path.as_str());
                Err(DotstrapError::MissingSecret { name: String::from_str(name), provider })
            },
            SecretReading::Failed(e) => Err(DotstrapError::Io(e)),
        },
    }
}

/// Whether resolving an entry fails.
pub open spec fn fails(entry: SecretEntry) -> bool {
    resolution(entry.source, entry.reading) is Unavailable || resolution(
        entry.source,
        entry.reading,
    ) is Unreadable
}

/// The mapping that a list of entries resolves to, entry by entry: a value is put
/// under the secret's name, everything else leaves the mapping as it is.
pub open spec fn resolved(entries: Seq<SecretEntry>) -> Map<Seq<char>, Json>
    decreases entries.len(),
{
    if entries.len() == 0 {
        Map::empty()
    } else {
        let front = resolved(entries.drop_last());
        match resolution(entries.last().source, entries.last().reading) {
            Resolution::Text(text) => front.insert(entries.last().name@, Json::Text(text)),
            _ => front,
        }
    }
}

/// Position of the first entry whose resolution fails, or the number of entries
/// where none fails.
pub open spec fn first_failure(entries: Seq<SecretEntry>) -> int
    decreases entries.len(),
{
    if entries.len() == 0 {
        0
    } else if first_failure(entries.drop_last()) < entries.len() - 1 {
        first_failure(entries.drop_last())
    } else if fails(entries.last()) {
        entries.len() - 1
    } else {
        entries.len() as int
    }
}

/// Once an entry fails, entries after it do not change which one failed first.
pub proof fn lemma_first_failure_prefix(entries: Seq<SecretEntry>, n: int)
    requires
        0 <= n <= entries.len(),
        first_failure(entries.take(n)) < n,
    ensures
        first_failure(entries) == first_failure(entries.take(n)),
    decreases entries.len(),
{
    if entries.len() == n {
        assert(entries.take(n) =~= entries);
    } else {
        assert(entries.drop_last().take(n) =~= entries.take(n));
        lemma_first_failure_prefix(entries.drop_last(), n);
    }
}

/// The first failure is a failing entry, and no entry before it fails.
pub proof fn lemma_first_failure(entries: Seq<SecretEntry>)
    ensures
        0 <= first_failure(entries) <= entries.len(),
        first_failure(entries) < entries.len() ==> fails(entries[first_failure(entries)]),
        forall|j: int| 0 <= j < first_failure(entries) ==> !fails(#[trigger] entries[j]),
    decreases entries.len(),
{
    if entries.len() > 0 {
        lemma_first_failure(entries.drop_last());
        assert forall|j: int| 0 <= j < first_failure(entries) implies !fails(
            #[trigger] entries[j],
        ) by {
            if j < entries.len() - 1 {
                assert(entries.drop_last()[j] == entries[j]);
            }
        }
    }
}

/// The file that declares the secrets may be absent, malformed, or hold declarations.
/// An absent file gives the empty mapping; a malformed one is an error that names the
/// file. Declarations are resolved in order: the first that fails ends the run with
/// its error, and what was resolved before it is dropped; where none fails the result
/// holds the value of every secret that has one.
pub fn load_secrets(repo: &str, parsed: Option<Result<Vec<SecretEntry>, serde_yaml::Error>>) -> (r:
    Result<ValueMap, DotstrapError>)
    ensures
        match parsed {
            None => r matches Ok(m) && m.wf() && m@ == Map::<Seq<char>, Json>::empty(),
            Some(Err(err)) => r matches Err(DotstrapError::Yaml { source, path }) && source == err
                && path@ == spec_join(repo@, secrets_file()),
            Some(Ok(entries)) => match r {
                Ok(m) => first_failure(entries@) == entries@.len() && m.wf() && m@ == resolved(
                    entries@,
                ),
                Err(e) => first_failure(entries@) < entries@.len() && is_failure_of(
                    e,
                    entries@[first_failure(entries@)].name@,
                    resolution(
                        entries@[first_failure(entries@)].source,
                        entries@[first_failure(entries@)].reading,
                    ),
                ),
            },
        },
{
    let entries = match parsed {
        None => {
            return Ok(ValueMap::new());
        },
        Some(Err(err)) => {
            return Err(DotstrapError::Yaml { source: err, path: secrets_path(repo) });
        },
        Some(Ok(entries)) => entries,
    };
    let ghost all = entries@;
    let mut rest = entries;
    let mut secrets = ValueMap::new();
    let ghost mut done: int = 0;
    proof {
        assert(all.take(0) =~= Seq::<SecretEntry>::empty());
    }
    while rest.len() > 0
        invariant
            parsed matches Some(Ok(declared)) && declared@ == all,
            0 <= done <= all.len(),
            rest@ == all.skip(done),
            secrets.wf(),
            secrets@ == resolved(all.take(done)),
            first_failure(all.take(done)) == done,
        decreases rest.len(),
    {
        let entry = rest.remove(0);
        proof {
            assert(entry == all[done]);
            assert(rest@ =~= all.skip(done + 1));
            assert(all.take(done + 1).drop_last() =~= all.take(done));
            assert(all.take(done + 1).last() == all[done]);
        }
        match resolve_secret(entry.name.as_str(), entry.source, entry.reading) {
            Ok(Some(value)) => {
                secrets.insert(entry.name, value);
            },
            Ok(None) => {},
            Err(e) => {
                proof {
                    lemma_first_failure_prefix(all, done + 1);
                }
                return Err(e);
            },
        }
        proof {
            done = done + 1;
        }
    }
    proof {
        assert(all.take(done) =~= all);
    }
    Ok(secrets)
}

/// Whether an entry declares an optional variable that is not set.
pub open spec fn is_optional_miss(entry: SecretEntry) -> bool {
    entry.source matches SecretSource::Env { key, optional } && optional && !(entry.reading is Found)
}

/// Whether an entry declares a required variable that is not set.
pub open spec fn is_required_miss(entry: SecretEntry) -> bool {
    entry.source matches SecretSource::Env { key, optional } && !optional && !(entry.reading
        is Found)
}

/// An optional variable that is not set never fails the run, and a name that is only
/// declared by such entries has no entry in the resolved mapping.
pub proof fn lemma_optional_secret_omitted(entries: Seq<SecretEntry>, name: Seq<char>)
    requires
        forall|i: int|
            0 <= i < entries.len() && (#[trigger] entries[i]).name@ == name ==> is_optional_miss(
                entries[i],
            ),
    ensures
        forall|i: int| 0 <= i < entries.len() && is_optional_miss(#[trigger] entries[i]) ==> !fails(
            entries[i],
        ),
        !resolved(entries).contains_key(name),
    decreases entries.len(),
{
    if entries.len() > 0 {
        let front = entries.drop_last();
        assert forall|i: int| 0 <= i < front.len() && (#[trigger] front[i]).name@
            == name implies is_optional_miss(front[i]) by {
            assert(front[i] == entries[i]);
        }
        lemma_optional_secret_omitted(front, name);
        assert(entries.last() == entries[entries.len() - 1]);
    }
}

/// A required variable that is not set fails the run: the first failure lies at that
/// entry or before it, and where it is that entry the error is a missing secret that
/// names the secret and the variable.
pub proof fn lemma_required_secret_fails(entries: Seq<SecretEntry>, i: int, e: DotstrapError)
    requires
        0 <= i < entries.len(),
        is_required_miss(entries[i]),
    ensures
        first_failure(entries) <= i,
        first_failure(entries) == i && is_failure_of(
            e,
            entries[i].name@,
            resolution(entries[i].source, entries[i].reading),
        ) ==> (e matches DotstrapError::MissingSecret { name, provider } && name@
            == entries[i].name@ && provider@ == variable_provider(entries[i].source->Env_key@)),
{
    lemma_first_failure(entries);
}

} // verus!
