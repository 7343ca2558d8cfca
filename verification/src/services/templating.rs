//! Rendering: the context that values and secrets give, and the templates of a
//! manifest rendered against it, in order, by one Handlebars engine.

use crate::config::{Manifest, TemplateMapping};
use crate::errors::DotstrapError;
use crate::text::{decimal, decimal_text, join_path, spec_join};
use crate::value::{json_model, to_json, Json, Datum, ValueMap};
use vstd::prelude::*;

verus! {

/// The Handlebars engine: a registry of compiled templates.
#[verifier::external_type_specification]
#[verifier::external_body]
pub struct ExHandlebars<'reg>(handlebars::Handlebars<'reg>);

/// An engine that owns everything it holds.
pub type Engine = handlebars::Handlebars<'static>;

/// The templates that an engine holds: the source text under each registered name.
pub uninterp spec fn registry(engine: Engine) -> Map<Seq<char>, Seq<char>>;

/// Whether Handlebars compiles `source` as the template `name`.
pub uninterp spec fn compiles(name: Seq<char>, source: Seq<char>) -> bool;

/// What an engine with the default settings and the templates `templates` renders for
/// the template `name` against `context`; `None` where rendering fails.
pub uninterp spec fn rendered(
    templates: Map<Seq<char>, Seq<char>>,
    name: Seq<char>,
    context: Json,
) -> Option<Seq<char>>;

/// The registry of an engine that holds no template.
pub open spec fn no_templates() -> Map<Seq<char>, Seq<char>> {
    Map::empty()
}

/// `Handlebars::new`: an engine with the default settings, the built-in helpers and
/// no template.
#[verifier::external_body]
fn new_engine() -> (r: Engine)
    ensures
        registry(r) == no_templates(),
{
    handlebars::Handlebars::new()
}

/// `Handlebars::register_template_string`: compiles the source and, where that
/// succeeds, keeps the template under the name, in place of an earlier one of that
/// name. Where it fails the engine is as before.
#[verifier::external_body]
fn register_template(engine: &mut Engine, name: &str, source: &str) -> (r:
    Result<(), handlebars::TemplateError>)
    ensures
        r is Ok == compiles(name@, source@),
        r is Ok ==> registry(*final(engine)) == registry(*old(engine)).insert(name@, source@),
        r is Err ==> registry(*final(engine)) == registry(*old(engine)),
{
    engine.register_template_string(name, source)
}

/// `Handlebars::render`: renders a registered template against a context. The text
/// that comes back is what `rendered` names for the engine's templates, the name and
/// what the context holds, and an error comes back where it names none.
#[verifier::external_body]
fn render_registered(
    engine: &Engine,
    name: &str,
    context: &serde_json::Value,
) -> (r: Result<String, handlebars::RenderError>)
    ensures
        match r {
            Ok(text) => rendered(registry(*engine), name@, json_model(*context)) == Some(text@),
            Err(_) => rendered(registry(*engine), name@, json_model(*context)) is None,
        },
{
    engine.render(name, context)
}

/// The key of the context under which the secrets stand.
pub open spec fn secrets_key() -> Seq<char> {
    "secrets"@
}

/// The context that values and secrets give: every value under its name, and the
/// secrets together as one object under the reserved key.
pub open spec fn spec_context(values: Map<Seq<char>, Json>, secrets: Map<Seq<char>, Json>) -> Json {
    Json::Object(values.insert(secrets_key(), Json::Object(secrets)))
}

/// Merges values and secrets into the rendering context.
pub fn build_context(values: &ValueMap, secrets: &ValueMap) -> (context: Datum)
    requires
        values.wf(),
        secrets.wf(),
    ensures
        context@ == spec_context(values@, secrets@),
{
    let mut root = values.duplicate();
    let inner = secrets.duplicate().into_object();
    root.insert(String::from_str("secrets"), inner);
    root.into_object()
}

/// Equal inputs give equal contexts.
pub proof fn lemma_context_deterministic(
    values: Map<Seq<char>, Json>,
    secrets: Map<Seq<char>, Json>,
    other_values: Map<Seq<char>, Json>,
    other_secrets: Map<Seq<char>, Json>,
)
    requires
        values == other_values,
        secrets == other_secrets,
    ensures
        spec_context(values, secrets) == spec_context(other_values, other_secrets),
{
}

/// Under the reserved key the context holds exactly the secrets, whatever value stood
/// under that name, and under every other name the value of that name.
pub proof fn lemma_context_shape(
    values: Map<Seq<char>, Json>,
    secrets: Map<Seq<char>, Json>,
    key: Seq<char>,
)
    ensures
        spec_context(values, secrets) matches Json::Object(root) && root[secrets_key()]
            == Json::Object(secrets) && root.dom() == values.dom().insert(secrets_key()) && (key
            != secrets_key() && values.contains_key(key) ==> root[key] == values[key]),
{
}

/// A manifest entry together with the path of its rendered file.
#[derive(Debug)]
pub struct RenderedTemplate {
    pub template: TemplateMapping,
    pub rendered_path: String,
}

/// The rendered templates of a run, in manifest order, each with the text that
/// belongs at its rendered path.
#[derive(Debug)]
pub struct RenderedSet {
    pub templates: Vec<RenderedTemplate>,
    pub contents: Vec<String>,
}

/// The name under which the template at position `idx` is registered.
pub open spec fn template_name(idx: nat) -> Seq<char> {
    "template_"@ + decimal(idx)
}

/// The file name of the rendered template at position `idx`.
pub open spec fn output_name(idx: nat) -> Seq<char> {
    "rendered_"@ + decimal(idx)
}

/// The templates that the engine holds when the first `n` sources have been
/// registered, each under the name of its position.
pub open spec fn registry_after(sources: Seq<Result<String, std::io::Error>>, n: nat) -> Map<
    Seq<char>,
    Seq<char>,
>
    decreases n,
{
    if n == 0 || n > sources.len() {
        Map::empty()
    } else {
        match sources[n - 1] {
            Ok(text) => registry_after(sources, (n - 1) as nat).insert(
                template_name((n - 1) as nat),
                text@,
            ),
            Err(_) => registry_after(sources, (n - 1) as nat),
        }
    }
}

/// What rendering the template at position `i` gives, where its source was read and
/// compiles.
pub open spec fn output_at(sources: Seq<Result<String, std::io::Error>>, context: Json, i: int) -> Option<
    Seq<char>,
> {
    rendered(registry_after(sources, (i + 1) as nat), template_name(i as nat), context)
}

/// Whether the template at position `i` goes through: its source was read, compiles
/// and renders.
pub open spec fn step_succeeds(
    sources: Seq<Result<String, std::io::Error>>,
    context: Json,
    i: int,
) -> bool {
    sources[i] matches Ok(text) && compiles(template_name(i as nat), text@) && output_at(
        sources,
        context,
        i,
    ) is Some
}

/// Whether `e` is the error that the template at position `i` fails with: the read
/// error, else a compilation error, else a render error, the last two with the path of
/// the template's source.
pub open spec fn is_step_failure(
    repo: Seq<char>,
    templates: Seq<TemplateMapping>,
    sources: Seq<Result<String, std::io::Error>>,
    context: Json,
    i: int,
    e: DotstrapError,
) -> bool {
    match sources[i] {
        Err(io) => e == DotstrapError::Io(io),
        Ok(text) => if !compiles(template_name(i as nat), text@) {
            e matches DotstrapError::TemplateCompile { source, path } && path@ == spec_join(
                repo,
                templates[i].source@,
            )
        } else {
            output_at(sources, context, i) is None && (e matches DotstrapError::Template {
                source,
                path,
            } && path@ == spec_join(repo, templates[i].source@))
        },
    }
}

/// What the answer to compiling a template means: an error becomes a compilation
/// failure that names the template's source.
pub fn compile_result(outcome: Result<(), handlebars::TemplateError>, path: String) -> (r: Result<
    (),
    DotstrapError,
>)
    ensures
        match outcome {
            Ok(_) => r is Ok,
            Err(error) => r == Err::<(), DotstrapError>(
                DotstrapError::TemplateCompile { source: error, path },
            ),
        },
{
    match outcome {
        Ok(()) => Ok(()),
        Err(source) => Err(DotstrapError::TemplateCompile { source, path }),
    }
}

/// What the answer to rendering a template means: the text is passed on, and an
/// error becomes a render failure that names the template's source.
pub fn render_result(outcome: Result<String, handlebars::RenderError>, path: String) -> (r: Result<
    String,
    DotstrapError,
>)
    ensures
        match outcome {
            Ok(text) => r == Ok::<String, DotstrapError>(text),
            Err(error) => r == Err::<String, DotstrapError>(
                DotstrapError::Template { source: error, path },
            ),
        },
{
    match outcome {
        Ok(text) => Ok(text),
        Err(source) => Err(DotstrapError::Template { source, path }),
    }
}

/// Whether `item` is what the template at position `i` leaves behind.
pub open spec fn is_rendered_at(
    scratch: Seq<char>,
    templates: Seq<TemplateMapping>,
    i: int,
    item: RenderedTemplate,
) -> bool {
    item.template@ == templates[i]@ && item.rendered_path@ == spec_join(
        scratch,
        output_name(i as nat),
    )
}

/// Renders the templates of a manifest, in order, against one context.
///
/// `sources` holds what reading each template's source gave, and `scratch` is the
/// directory in which the rendered files will stand. Each template is registered
/// under the name of its position and rendered; the first template whose source was
/// not read, does not compile or does not render ends the run with its error.
/// Otherwise the result has one entry for each template, in manifest order.
pub fn render_templates(
    repo: &str,
    scratch: &str,
    manifest: &Manifest,
    sources: Vec<Result<String, std::io::Error>>,
    context: &Datum,
) -> (r: Result<RenderedSet, DotstrapError>)
    requires
        sources@.len() == manifest.templates@.len(),
    ensures
        match r {
            Ok(set) => {
                &&& set.templates@.len() == manifest.templates@.len()
                &&& set.contents@.len() == manifest.templates@.len()
                &&& forall|i: int|
                    0 <= i < manifest.templates@.len() ==> #[trigger] step_succeeds(
                        sources@,
                        context@,
                        i,
                    )
                &&& forall|i: int|
                    0 <= i < manifest.templates@.len() ==> is_rendered_at(
                        scratch@,
                        manifest.templates@,
                        i,
                        #[trigger] set.templates@[i],
                    )
                &&& forall|i: int|
                    0 <= i < manifest.templates@.len() ==> Some((#[trigger] set.contents@[i])@)
                        == output_at(sources@, context@, i)
            },
            Err(e) => exists|i: int|
                {
                    &&& 0 <= i < manifest.templates@.len()
                    &&& forall|j: int|
                        0 <= j < i ==> #[trigger] step_succeeds(sources@, context@, j)
                    &&& #[trigger] is_step_failure(
                        repo@,
                        manifest.templates@,
                        sources@,
                        context@,
                        i,
                        e,
                    )
                },
        },
{
    let raw = to_json(context);
    let mut engine = new_engine();
    let mut templates: Vec<RenderedTemplate> = Vec::new();
    let mut contents: Vec<String> = Vec::new();
    let ghost all = sources@;
    let mut rest = sources;
    let mut idx: usize = 0;
    while idx < manifest.templates.len()
        invariant
            all == sources@,
            all.len() == manifest.templates@.len(),
            idx <= manifest.templates@.len(),
            rest@ == all.skip(idx as int),
            json_model(raw) == context@,
            registry(engine) == registry_after(all, idx as nat),
            templates@.len() == idx,
            contents@.len() == idx,
            forall|i: int| 0 <= i < idx ==> #[trigger] step_succeeds(all, context@, i),
            forall|i: int|
                0 <= i < idx ==> is_rendered_at(
                    scratch@,
                    manifest.templates@,
                    i,
                    #[trigger] templates@[i],
                ),
            forall|i: int|
                0 <= i < idx ==> Some((#[trigger] contents@[i])@) == output_at(all, context@, i),
        decreases manifest.templates.len() - idx,
    {
        let template = &manifest.templates[idx];
        let template_path = join_path(repo, template.source.as_str());
        let source = rest.remove(0);
        proof {
            assert(source == all[idx as int]);
            assert(rest@ =~= all.skip(idx + 1));
        }
        let text = match source {
            Ok(text) => text,
            Err(io) => {
                assert(is_step_failure(
                    repo@,
                    manifest.templates@,
                    all,
                    context@,
                    idx as int,
                    DotstrapError::Io(io),
                ));
                return Err(DotstrapError::Io(io));
            },
        };
        let mut name = String::from_str("template_");
        name.append(decimal_text(idx as u64).as_str());
        let compiled = register_template(&mut engine, name.as_str(), text.as_str());
        match compile_result(compiled, template_path.clone()) {
            Ok(()) => {},
            Err(e) => {
                assert(is_step_failure(repo@, manifest.templates@, all, context@, idx as int, e));
                return Err(e);
            },
        }
        let output = match render_result(
            render_registered(&engine, name.as_str(), &raw),
            template_path,
        ) {
            Ok(output) => output,
            Err(e) => {
                assert(is_step_failure(repo@, manifest.templates@, all, context@, idx as int, e));
                return Err(e);
            },
        };
        let mut file_name = String::from_str("rendered_");
        file_name.append(decimal_text(idx as u64).as_str());
        let rendered_path = join_path(scratch, file_name.as_str());
        templates.push(RenderedTemplate { template: template.duplicate(), rendered_path });
        contents.push(output);
        idx += 1;
    }
    Ok(RenderedSet { templates, contents })
}

} // verus!
