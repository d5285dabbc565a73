use vstd::prelude::*;
use crate::blueprint::{outputs_view, Blueprint};
use crate::context::Context;
use crate::expand::{Fault, RenderError, same_lookups, lemma_expand_from_same};
use crate::template_file::{OutputFile, SourceFile, path_is_safe};
use crate::blueprint::{BlueprintKind, Readme, BadgeBlueprint, inline_badge_key};

verus! {

/// A named, ordered collection of blueprints, with the source tree their
/// template files refer to.
pub struct Template {
    pub name: String,
    pub registry: String,
    pub version: String,
    pub blueprints: Vec<Blueprint>,
    pub files: Vec<SourceFile>,
}

/// A template as a value: its identity, blueprints and source files.
pub struct TemplateView {
    pub name: Seq<char>,
    pub registry: Seq<char>,
    pub version: Seq<char>,
    pub blueprints: Seq<Blueprint>,
    pub files: Seq<SourceFile>,
}

/// The blueprint that stopped the render phase, and why.
pub struct RenderFailure {
    pub index: usize,
    pub blueprint: String,
    pub error: RenderError,
}

/// What the render phase produced: the files of the blueprints that
/// rendered, in order, and the failure that stopped it, if any.
pub struct RenderReport {
    pub outputs: Vec<OutputFile>,
    pub failure: Option<RenderFailure>,
}

/// The render phase over `bps[i..]`: each blueprint in order, stopping at
/// the first that fails.
pub open spec fn run_from(bps: Seq<Blueprint>, files: Seq<SourceFile>, ctx: Context, i: int) -> (
    Seq<(Seq<char>, Seq<char>)>,
    Option<(int, Fault)>,
)
    decreases bps.len() - i,
{
    if i < 0 || i >= bps.len() {
        (Seq::empty(), None)
    } else {
        match bps[i].render_spec(files, ctx) {
            Err(e) => (Seq::empty(), Some((i, e))),
            Ok(o) => {
                let rest = run_from(bps, files, ctx, i + 1);
                (o + rest.0, rest.1)
            },
        }
    }
}

/// The render phase over a whole blueprint list.
pub open spec fn run_spec(bps: Seq<Blueprint>, files: Seq<SourceFile>, ctx: Context) -> (
    Seq<(Seq<char>, Seq<char>)>,
    Option<(int, Fault)>,
) {
    run_from(bps, files, ctx, 0)
}

impl RenderReport {
    pub open spec fn view(&self) -> (Seq<(Seq<char>, Seq<char>)>, Option<(int, Fault)>) {
        (
            outputs_view(self.outputs@),
            match self.failure {
                Some(f) => Some((f.index as int, f.error.view())),
                None => None,
            },
        )
    }
}

impl Template {
    pub open spec fn view(&self) -> TemplateView {
        TemplateView {
            name: self.name@,
            registry: self.registry@,
            version: self.version@,
            blueprints: self.blueprints@,
            files: self.files@,
        }
    }

    pub fn copy(&self) -> (r: Self)
        ensures
            r@ == self@,
    {
        let mut blueprints: Vec<Blueprint> = Vec::new();
        let mut i: usize = 0;
        while i < self.blueprints.len()
            invariant
                i <= self.blueprints@.len(),
                blueprints@ =~= self.blueprints@.take(i as int),
            decreases self.blueprints@.len() - i,
        {
            blueprints.push(self.blueprints[i].copy());
            i = i + 1;
            assert(blueprints@ =~= self.blueprints@.take(i as int));
        }
        let mut files: Vec<SourceFile> = Vec::new();
        let mut j: usize = 0;
        while j < self.files.len()
            invariant
                j <= self.files@.len(),
                files@ =~= self.files@.take(j as int),
            decreases self.files@.len() - j,
        {
            files.push(self.files[j].copy());
            j = j + 1;
            assert(files@ =~= self.files@.take(j as int));
        }
        assert(blueprints@ =~= self.blueprints@);
        assert(files@ =~= self.files@);
        Template {
            name: self.name.clone(),
            registry: self.registry.clone(),
            version: self.version.clone(),
            blueprints,
            files,
        }
    }

    /// The names of the blueprints, in declared order.
    pub fn blueprint_names(&self) -> (r: Vec<String>)
        ensures
            r@.len() == self.blueprints@.len(),
            forall|i: int| 0 <= i < r@.len() ==> (#[trigger] r@[i])@ == self.blueprints@[i].name@,
    {
        let mut r: Vec<String> = Vec::new();
        let mut i: usize = 0;
        while i < self.blueprints.len()
            invariant
                i <= self.blueprints@.len(),
                r@.len() == i,
                forall|j: int| 0 <= j < i ==> (#[trigger] r@[j])@ == self.blueprints@[j].name@,
            decreases self.blueprints@.len() - i,
        {
            r.push(self.blueprints[i].name.clone());
            i = i + 1;
        }
        r
    }

    /// Renders every blueprint in declared order and stops at the first
    /// failure; the files of earlier blueprints are kept in the report.
    pub fn render(&self, ctx: &Context) -> (r: RenderReport)
        ensures
            r@ == run_spec(self.blueprints@, self.files@, *ctx),
            r.failure matches Some(f) ==> f.index < self.blueprints@.len() && f.blueprint@
                == self.blueprints@[f.index as int].name@,
    {
        let ghost bps = self.blueprints@;
        let ghost files = self.files@;
        let mut outputs: Vec<OutputFile> = Vec::new();
        let mut i: usize = 0;
        while i < self.blueprints.len()
            invariant
                bps == self.blueprints@,
                files == self.files@,
                i <= bps.len(),
                run_spec(bps, files, *ctx) == (
                    outputs_view(outputs@) + run_from(bps, files, *ctx, i as int).0,
                    run_from(bps, files, *ctx, i as int).1,
                ),
            decreases bps.len() - i,
        {
            match self.blueprints[i].render(&self.files, ctx) {
                Ok(o) => {
                    let ghost before = outputs@;
                    let ghost added = o@;
                    let mut o = o;
                    outputs.append(&mut o);
                    proof {
                        let rest = run_from(bps, files, *ctx, i + 1);
                        assert(outputs_view(outputs@) =~= outputs_view(before) + outputs_view(
                            added,
                        ));
                        assert(outputs_view(before) + (outputs_view(added) + rest.0)
                            =~= outputs_view(outputs@) + rest.0);
                    }
                    i = i + 1;
                },
                Err(e) => {
                    proof {
                        assert(outputs_view(outputs@) + Seq::<(Seq<char>, Seq<char>)>::empty()
                            =~= outputs_view(outputs@));
                    }
                    return RenderReport {
                        outputs,
                        failure: Some(
                            RenderFailure { index: i, blueprint: self.blueprints[i].name.clone(), error: e },
                        ),
                    };
                },
            }
        }
        proof {
            assert(outputs_view(outputs@) + Seq::<(Seq<char>, Seq<char>)>::empty() =~= outputs_view(
                outputs@,
            ));
        }
        RenderReport { outputs, failure: None }
    }
}

/// The files of blueprints `i` up to `k` (excluded), in order, where each of
/// them renders.
pub open spec fn outputs_between(
    bps: Seq<Blueprint>,
    files: Seq<SourceFile>,
    ctx: Context,
    i: int,
    k: int,
) -> Seq<(Seq<char>, Seq<char>)>
    decreases k - i,
{
    if i < 0 || i >= k || i >= bps.len() {
        Seq::empty()
    } else {
        match bps[i].render_spec(files, ctx) {
            Ok(o) => o + outputs_between(bps, files, ctx, i + 1, k),
            Err(_) => Seq::empty(),
        }
    }
}

proof fn lemma_run_stops_at(
    bps: Seq<Blueprint>,
    head: Seq<Blueprint>,
    files: Seq<SourceFile>,
    ctx: Context,
    i: int,
    k: int,
)
    requires
        0 <= i <= k < bps.len(),
        head == bps.take(k + 1),
        forall|j: int| 0 <= j < k ==> (#[trigger] bps[j].render_spec(files, ctx)) is Ok,
        bps[k].render_spec(files, ctx) is Err,
    ensures
        run_from(bps, files, ctx, i) == (
            outputs_between(bps, files, ctx, i, k),
            Some((k, bps[k].render_spec(files, ctx)->Err_0)),
        ),
        run_from(head, files, ctx, i) == run_from(bps, files, ctx, i),
    decreases k - i,
{
    assert(head[i] == bps[i]);
    if i < k {
        assert(bps[i].render_spec(files, ctx) is Ok);
        lemma_run_stops_at(bps, head, files, ctx, i + 1, k);
    } else {
        assert(outputs_between(bps, files, ctx, i, k) =~= Seq::empty());
    }
}

/// Where blueprint `k` is the first that fails to render, the render phase
/// keeps the files of the blueprints before it, reports blueprint `k` with
/// its fault, and is the same whatever follows `k`: no later blueprint runs.
pub proof fn lemma_partial_failure(bps: Seq<Blueprint>, files: Seq<SourceFile>, ctx: Context, k: int)
    requires
        0 <= k < bps.len(),
        forall|j: int| 0 <= j < k ==> (#[trigger] bps[j].render_spec(files, ctx)) is Ok,
        bps[k].render_spec(files, ctx) is Err,
    ensures
        run_spec(bps, files, ctx).0 == outputs_between(bps, files, ctx, 0, k),
        run_spec(bps, files, ctx).1 == Some((k, bps[k].render_spec(files, ctx)->Err_0)),
        run_spec(bps.take(k + 1), files, ctx) == run_spec(bps, files, ctx),
{
    lemma_run_stops_at(bps, bps.take(k + 1), files, ctx, 0, k);
}

/// Every file that a blueprint renders lies under the project root.
pub proof fn lemma_blueprint_outputs_safe(b: Blueprint, files: Seq<SourceFile>, ctx: Context)
    ensures
        b.render_spec(files, ctx) matches Ok(o) ==> forall|j: int|
            0 <= j < o.len() ==> path_is_safe(#[trigger] o[j].0),
{
    reveal(Blueprint::render_spec);
    reveal_strlit("README.md");
    assert(path_is_safe(Readme::output_path()));
}

proof fn lemma_run_outputs_safe(bps: Seq<Blueprint>, files: Seq<SourceFile>, ctx: Context, i: int)
    ensures
        forall|j: int|
            0 <= j < run_from(bps, files, ctx, i).0.len() ==> path_is_safe(
                #[trigger] run_from(bps, files, ctx, i).0[j].0,
            ),
    decreases bps.len() - i,
{
    if 0 <= i < bps.len() {
        lemma_blueprint_outputs_safe(bps[i], files, ctx);
        lemma_run_outputs_safe(bps, files, ctx, i + 1);
        if let Ok(o) = bps[i].render_spec(files, ctx) {
            let rest = run_from(bps, files, ctx, i + 1);
            assert forall|j: int| 0 <= j < (o + rest.0).len() implies path_is_safe(
                #[trigger] (o + rest.0)[j].0,
            ) by {
                if j >= o.len() {
                    assert((o + rest.0)[j] == rest.0[j - o.len()]);
                }
            }
        }
    }
}

/// The render phase never produces a file outside the project root.
pub proof fn lemma_render_paths_safe(bps: Seq<Blueprint>, files: Seq<SourceFile>, ctx: Context)
    ensures
        forall|j: int|
            0 <= j < run_spec(bps, files, ctx).0.len() ==> path_is_safe(
                #[trigger] run_spec(bps, files, ctx).0[j].0,
            ),
{
    lemma_run_outputs_safe(bps, files, ctx, 0);
}

proof fn lemma_blueprint_same(b: Blueprint, files: Seq<SourceFile>, c1: Context, c2: Context)
    requires
        same_lookups(c1, c2),
    ensures
        b.render_spec(files, c1) == b.render_spec(files, c2),
{
    reveal(Blueprint::render_spec);
    match b.kind {
        BlueprintKind::Readme(r) => {
            if let Ok(t) = r.template.text_spec(files) {
                lemma_expand_from_same(t, c1, c2, 0);
            }
        },
        BlueprintKind::Badge(bb) => {
            reveal_strlit("readme.inline_badge");
            reveal_strlit("project.name");
            reveal_strlit("project.description");
            reveal_strlit("project.license");
            reveal_strlit("project.author");
            assert(inline_badge_key()[0] != "project.name"@[0]);
            assert(c1.lookup_spec(inline_badge_key()) == c2.lookup_spec(inline_badge_key()));
            assert(BadgeBlueprint::inlined(c1) == BadgeBlueprint::inlined(c2));
        },
        BlueprintKind::File(f) => {
            if let Ok(t) = f.template.text_spec(files) {
                lemma_expand_from_same(t, c1, c2, 0);
            }
        },
    }
}

proof fn lemma_run_same(bps: Seq<Blueprint>, files: Seq<SourceFile>, c1: Context, c2: Context, i: int)
    requires
        same_lookups(c1, c2),
    ensures
        run_from(bps, files, c1, i) == run_from(bps, files, c2, i),
    decreases bps.len() - i,
{
    if 0 <= i < bps.len() {
        lemma_blueprint_same(bps[i], files, c1, c2);
        lemma_run_same(bps, files, c1, c2, i + 1);
    }
}

/// Rendering is a function of the template and of what the context
/// resolves: the same template over contexts that resolve every key alike
/// (in particular, twice over one context) gives the same files and the
/// same outcome.
pub proof fn lemma_render_deterministic(
    bps: Seq<Blueprint>,
    files: Seq<SourceFile>,
    c1: Context,
    c2: Context,
)
    requires
        same_lookups(c1, c2),
    ensures
        run_spec(bps, files, c1) == run_spec(bps, files, c2),
{
    lemma_run_same(bps, files, c1, c2, 0);
}

} // verus!
