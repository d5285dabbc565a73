use vstd::prelude::*;
use vstd::string::StringExecFns;
use crate::context::{Context, opt_view};
use crate::expand::{Fault, RenderError};
use crate::template_file::{
    is_safe_path, path_is_safe, OutputFile, SourceFile, TemplateFile, TemplateSource,
};

verus! {

/// Project information shared by the components; it carries no data.
pub struct Info;

/// The context key through which the readme tells badges whether they are
/// inlined into it.
pub open spec fn inline_badge_key() -> Seq<char> {
    "readme.inline_badge"@
}

pub open spec fn flag_text(b: bool) -> Seq<char> {
    if b {
        "true"@
    } else {
        "false"@
    }
}

/// An answer that gives a value: present and not empty.
pub open spec fn is_answer(answer: Option<String>) -> bool {
    answer matches Some(a) && a@.len() > 0
}

/// The readme of the generated project.
pub struct Readme {
    pub template: TemplateFile,
    pub inline_badge: bool,
}

/// The value an `inline_badge` declaration stands for: absent means inlined.
pub open spec fn declared_inline_badge(b: Option<bool>) -> bool {
    match b {
        Some(v) => v,
        None => true,
    }
}

impl Readme {
    pub open spec fn default_template_path() -> Seq<char> {
        "./README.md.hbs"@
    }

    /// The template of a readme whose declaration names none.
    pub fn default_template() -> (r: TemplateFile)
        ensures
            r.source matches TemplateSource::Path(p) && p@ == Self::default_template_path(),
    {
        TemplateFile::from_str("./README.md.hbs")
    }

    /// Whether badges are inlined when the declaration does not say.
    pub fn default_inline_badge() -> (r: bool)
        ensures
            r == true,
    {
        true
    }

    /// A readme from its declared fields; an absent field takes its default.
    pub fn from_declaration(template: Option<TemplateFile>, inline_badge: Option<bool>) -> (r: Readme)
        ensures
            match template {
                Some(t) => r.template == t,
                None => r.template.source matches TemplateSource::Path(p) && p@
                    == Self::default_template_path(),
            },
            r.inline_badge == declared_inline_badge(inline_badge),
    {
        let template = match template {
            Some(t) => t,
            None => Self::default_template(),
        };
        let inline_badge = match inline_badge {
            Some(b) => b,
            None => Self::default_inline_badge(),
        };
        Readme { template, inline_badge }
    }

    pub open spec fn output_path() -> Seq<char> {
        "README.md"@
    }

    /// The question of the prompt phase: asked only while the project has no
    /// description.
    pub fn question(&self, ctx: &Context) -> (r: Option<String>)
        ensures
            r is Some <==> ctx.project.description is None,
            r matches Some(q) ==> q@ == "description of the project"@,
    {
        if ctx.project.description.is_none() {
            Some(String::from_str("description of the project"))
        } else {
            None
        }
    }

    /// The effect of the prompt phase, given the answer to `question` (none
    /// where it was not asked or the user declined).
    pub open spec fn prompted(&self, before: Context, answer: Option<String>, after: Context) -> bool {
        &&& opt_view(after.project.description) == if before.project.description is None
            && is_answer(answer) {
            opt_view(answer)
        } else {
            opt_view(before.project.description)
        }
        &&& opt_view(after.project.name) == opt_view(before.project.name)
        &&& opt_view(after.project.license) == opt_view(before.project.license)
        &&& opt_view(after.project.author) == opt_view(before.project.author)
        &&& after.sealed == before.sealed
        &&& forall|k: Seq<char>|
            #[trigger] after.var_spec(k) == if k == inline_badge_key() {
                Some(flag_text(self.inline_badge))
            } else {
                before.var_spec(k)
            }
    }

    /// Stores a non-empty answer as the project description, unless one is
    /// already there, and publishes whether badges are inlined.
    pub fn prompt(&self, ctx: &mut Context, answer: Option<String>)
        requires
            !old(ctx).sealed,
        ensures
            self.prompted(*old(ctx), answer, *final(ctx)),
    {
        if ctx.project.description.is_none() {
            if let Some(a) = answer {
                if a.as_str().unicode_len() > 0 {
                    ctx.project.description = Some(a);
                }
            }
        }
        let flag = if self.inline_badge {
            String::from_str("true")
        } else {
            String::from_str("false")
        };
        ctx.set(String::from_str("readme.inline_badge"), flag);
    }

    pub open spec fn render_spec(&self, files: Seq<SourceFile>, ctx: Context) -> Result<
        Seq<(Seq<char>, Seq<char>)>,
        Fault,
    > {
        match self.template.render_spec(files, ctx, Self::output_path()) {
            Ok(f) => Ok(seq![f]),
            Err(e) => Err(e),
        }
    }

    /// Renders the readme template to `README.md`.
    pub fn render(&self, files: &Vec<SourceFile>, ctx: &Context) -> (r: Result<
        Vec<OutputFile>,
        RenderError,
    >)
        ensures
            outputs_match(r, self.render_spec(files@, *ctx)),
    {
        match self.template.render(files, ctx, "README.md") {
            Ok(f) => {
                let mut v = Vec::new();
                v.push(f);
                assert(outputs_view(v@) =~= seq![v@[0]@]);
                Ok(v)
            },
            Err(e) => Err(e),
        }
    }
}

/// The files of a render, as pairs of path and contents.
pub open spec fn outputs_view(v: Seq<OutputFile>) -> Seq<(Seq<char>, Seq<char>)> {
    v.map_values(|f: OutputFile| f@)
}

pub open spec fn outputs_match(
    r: Result<Vec<OutputFile>, RenderError>,
    s: Result<Seq<(Seq<char>, Seq<char>)>, Fault>,
) -> bool {
    match (r, s) {
        (Ok(a), Ok(b)) => outputs_view(a@) == b,
        (Err(e), Err(f)) => e.view() == f,
        _ => false,
    }
}

/// A badge: hover text, image URL and link URL.
pub struct Badge {
    pub hover: String,
    pub image: String,
    pub link: String,
}

/// The markup of a badge: an image with its hover text, wrapped in a link.
pub open spec fn badge_markup(hover: Seq<char>, image: Seq<char>, link: Seq<char>) -> Seq<char> {
    "[!["@ + hover + "]("@ + image + ")]("@ + link + ")"@
}

impl Badge {
    pub open spec fn markup(&self) -> Seq<char> {
        badge_markup(self.hover@, self.image@, self.link@)
    }

    /// The badge's markup fragment.
    pub fn render(&self) -> (r: String)
        ensures
            r@ == self.markup(),
    {
        let mut s = String::from_str("[![");
        s.append(self.hover.as_str());
        s.append("](");
        s.append(self.image.as_str());
        s.append(")](");
        s.append(self.link.as_str());
        s.append(")");
        s
    }

    pub fn copy(&self) -> (r: Self)
        ensures
            r == *self,
    {
        Badge { hover: self.hover.clone(), image: self.image.clone(), link: self.link.clone() }
    }
}

/// A badge as a blueprint of its own: it publishes its markup under `key`
/// for a readme that inlines badges, and otherwise renders it to `target`.
pub struct BadgeBlueprint {
    pub badge: Badge,
    pub key: String,
    pub target: String,
}

impl BadgeBlueprint {
    /// Whether a readme earlier in the template asked for inlined badges.
    pub open spec fn inlined(ctx: Context) -> bool {
        ctx.var_spec(inline_badge_key()) == Some("true"@)
    }

    pub open spec fn prompted(&self, before: Context, after: Context) -> bool {
        &&& after.project == before.project
        &&& after.sealed == before.sealed
        &&& forall|k: Seq<char>|
            #[trigger] after.var_spec(k) == if k == self.key@ {
                if Self::inlined(before) {
                    Some(self.badge.markup())
                } else {
                    Some(Seq::<char>::empty())
                }
            } else {
                before.var_spec(k)
            }
    }

    fn is_inlined(ctx: &Context) -> (r: bool)
        ensures
            r == Self::inlined(*ctx),
    {
        match ctx.get("readme.inline_badge") {
            Some(v) => v == String::from_str("true"),
            None => false,
        }
    }

    /// Publishes the markup under `key` where badges are inlined, and an
    /// empty value where they are not.
    pub fn prompt(&self, ctx: &mut Context)
        requires
            !old(ctx).sealed,
        ensures
            self.prompted(*old(ctx), *final(ctx)),
    {
        let value = if Self::is_inlined(ctx) {
            self.badge.render()
        } else {
            String::new()
        };
        ctx.set(self.key.clone(), value);
    }

    pub open spec fn render_spec(&self, ctx: Context) -> Result<Seq<(Seq<char>, Seq<char>)>, Fault> {
        if Self::inlined(ctx) {
            Ok(Seq::empty())
        } else if !path_is_safe(self.target@) {
            Err(Fault::UnsafePath(self.target@))
        } else {
            Ok(seq![(self.target@, self.badge.markup())])
        }
    }

    /// Nothing where the readme inlines the badge; otherwise its own file.
    pub fn render(&self, ctx: &Context) -> (r: Result<Vec<OutputFile>, RenderError>)
        ensures
            outputs_match(r, self.render_spec(*ctx)),
    {
        let mut v: Vec<OutputFile> = Vec::new();
        if Self::is_inlined(ctx) {
            assert(outputs_view(v@) =~= Seq::empty());
            return Ok(v);
        }
        if !is_safe_path(self.target.as_str()) {
            return Err(RenderError::UnsafePath(self.target.clone()));
        }
        v.push(OutputFile { path: self.target.clone(), contents: self.badge.render() });
        assert(outputs_view(v@) =~= seq![v@[0]@]);
        Ok(v)
    }

    pub fn copy(&self) -> (r: Self)
        ensures
            r == *self,
    {
        BadgeBlueprint { badge: self.badge.copy(), key: self.key.clone(), target: self.target.clone() }
    }
}

/// A template file rendered to a fixed output path.
pub struct FileBlueprint {
    pub template: TemplateFile,
    pub output: String,
}

impl FileBlueprint {
    pub open spec fn render_spec(&self, files: Seq<SourceFile>, ctx: Context) -> Result<
        Seq<(Seq<char>, Seq<char>)>,
        Fault,
    > {
        match self.template.render_spec(files, ctx, self.output@) {
            Ok(f) => Ok(seq![f]),
            Err(e) => Err(e),
        }
    }

    pub fn render(&self, files: &Vec<SourceFile>, ctx: &Context) -> (r: Result<
        Vec<OutputFile>,
        RenderError,
    >)
        ensures
            outputs_match(r, self.render_spec(files@, *ctx)),
    {
        match self.template.render(files, ctx, self.output.as_str()) {
            Ok(f) => {
                let mut v = Vec::new();
                v.push(f);
                assert(outputs_view(v@) =~= seq![v@[0]@]);
                Ok(v)
            },
            Err(e) => Err(e),
        }
    }
}

/// The variants of blueprint.
pub enum BlueprintKind {
    Readme(Readme),
    Badge(BadgeBlueprint),
    File(FileBlueprint),
}

/// A named component of a template.
pub struct Blueprint {
    pub name: String,
    pub kind: BlueprintKind,
}

impl Blueprint {
    /// What the prompt phase of this blueprint does to the context.
    pub open spec fn prompted(&self, before: Context, answer: Option<String>, after: Context) -> bool {
        match self.kind {
            BlueprintKind::Readme(r) => r.prompted(before, answer, after),
            BlueprintKind::Badge(b) => b.prompted(before, after),
            BlueprintKind::File(_) => after == before,
        }
    }

    /// The files this blueprint renders, in order, or why it cannot.
    #[verifier::opaque]
    pub open spec fn render_spec(&self, files: Seq<SourceFile>, ctx: Context) -> Result<
        Seq<(Seq<char>, Seq<char>)>,
        Fault,
    > {
        match self.kind {
            BlueprintKind::Readme(r) => r.render_spec(files, ctx),
            BlueprintKind::Badge(b) => b.render_spec(ctx),
            BlueprintKind::File(f) => f.render_spec(files, ctx),
        }
    }

    /// The path of the file this blueprint renders on its own.
    pub fn output_path(&self) -> (r: String)
        ensures
            r@ == match self.kind {
                BlueprintKind::Readme(_) => Readme::output_path(),
                BlueprintKind::Badge(b) => b.target@,
                BlueprintKind::File(f) => f.output@,
            },
    {
        match &self.kind {
            BlueprintKind::Readme(_) => String::from_str("README.md"),
            BlueprintKind::Badge(b) => b.target.clone(),
            BlueprintKind::File(f) => f.output.clone(),
        }
    }

    /// The question to put to the user before `prompt`, if any.
    pub fn question(&self, ctx: &Context) -> (r: Option<String>)
        ensures
            r is Some <==> (self.kind is Readme && ctx.project.description is None),
    {
        match &self.kind {
            BlueprintKind::Readme(r) => r.question(ctx),
            _ => None,
        }
    }

    /// The prompt phase, given the answer to `question`.
    pub fn prompt(&self, ctx: &mut Context, answer: Option<String>)
        requires
            !old(ctx).sealed,
        ensures
            self.prompted(*old(ctx), answer, *final(ctx)),
    {
        match &self.kind {
            BlueprintKind::Readme(r) => r.prompt(ctx, answer),
            BlueprintKind::Badge(b) => b.prompt(ctx),
            BlueprintKind::File(_) => {},
        }
    }

    /// The render phase: the files to write, fully produced, or the error.
    pub fn render(&self, files: &Vec<SourceFile>, ctx: &Context) -> (r: Result<
        Vec<OutputFile>,
        RenderError,
    >)
        ensures
            outputs_match(r, self.render_spec(files@, *ctx)),
    {
        reveal(Blueprint::render_spec);
        match &self.kind {
            BlueprintKind::Readme(r) => r.render(files, ctx),
            BlueprintKind::Badge(b) => b.render(ctx),
            BlueprintKind::File(f) => f.render(files, ctx),
        }
    }

    pub fn copy(&self) -> (r: Self)
        ensures
            r == *self,
    {
        let kind = match &self.kind {
            BlueprintKind::Readme(r) => BlueprintKind::Readme(
                Readme { template: r.template.copy(), inline_badge: r.inline_badge },
            ),
            BlueprintKind::Badge(b) => BlueprintKind::Badge(b.copy()),
            BlueprintKind::File(f) => BlueprintKind::File(
                FileBlueprint { template: f.template.copy(), output: f.output.clone() },
            ),
        };
        Blueprint { name: self.name.clone(), kind }
    }
}

/// A readme whose declaration omits `inline_badge` behaves exactly as one
/// that sets it to true: the same prompt effect and the same rendered files.
pub proof fn lemma_inline_badge_default(omitted: Readme, explicit: Readme)
    requires
        omitted.template.same_source(explicit.template),
        omitted.inline_badge == declared_inline_badge(None),
        explicit.inline_badge == declared_inline_badge(Some(true)),
    ensures
        forall|files: Seq<SourceFile>, ctx: Context|
            #[trigger] omitted.render_spec(files, ctx) == explicit.render_spec(files, ctx),
        forall|before: Context, answer: Option<String>, after: Context|
            #[trigger] omitted.prompted(before, answer, after) == explicit.prompted(
                before,
                answer,
                after,
            ),
{
    assert forall|files: Seq<SourceFile>, ctx: Context|
        #[trigger] omitted.render_spec(files, ctx) == explicit.render_spec(files, ctx) by {
        assert(omitted.template.text_spec(files) == explicit.template.text_spec(files));
    }
}

/// A badge blueprint prompted after a readme: where the readme inlines
/// badges, the badge's markup is published under its key for the readme's
/// template and the badge renders no file of its own; where it does not,
/// the key holds an empty value and the badge renders its own file.
pub proof fn lemma_badge_after_readme(
    readme: Readme,
    badge: BadgeBlueprint,
    c0: Context,
    answer: Option<String>,
    c1: Context,
    c2: Context,
)
    requires
        readme.prompted(c0, answer, c1),
        badge.prompted(c1, c2),
        badge.key@ != inline_badge_key(),
    ensures
        readme.inline_badge ==> c2.var_spec(badge.key@) == Some(badge.badge.markup())
            && badge.render_spec(c2) == Ok::<Seq<(Seq<char>, Seq<char>)>, Fault>(Seq::empty()),
        !readme.inline_badge ==> c2.var_spec(badge.key@) == Some(Seq::<char>::empty()),
        !readme.inline_badge && path_is_safe(badge.target@) ==> badge.render_spec(c2) == Ok::<
            Seq<(Seq<char>, Seq<char>)>,
            Fault,
        >(seq![(badge.target@, badge.badge.markup())]),
{
    lemma_flag_text_true(readme.inline_badge);
    let k = inline_badge_key();
    assert(c1.var_spec(k) == Some(flag_text(readme.inline_badge)));
    assert(c2.var_spec(k) == c1.var_spec(k));
    assert(BadgeBlueprint::inlined(c1) == readme.inline_badge);
    assert(BadgeBlueprint::inlined(c2) == readme.inline_badge);
    assert(c2.var_spec(badge.key@) == if readme.inline_badge {
        Some(badge.badge.markup())
    } else {
        Some(Seq::<char>::empty())
    });
}

proof fn lemma_flag_text_true(b: bool)
    ensures
        (flag_text(b) == "true"@) == b,
{
    reveal_strlit("true");
    reveal_strlit("false");
    if !b {
        assert("false"@.len() != "true"@.len());
    }
}

} // verus!
