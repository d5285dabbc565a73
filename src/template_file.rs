use vstd::prelude::*;
use vstd::string::{StringExecFns, StrSliceExecFns};
use crate::context::Context;
use crate::expand::{expand, expand_spec, Fault, RenderError};
use crate::names::{first_index, lemma_first_index_is, lemma_first_index_none};

verus! {

pub open spec fn is_sep(c: char) -> bool {
    c == '/' || c == '\\'
}

/// A `..` path component starts at `i`.
pub open spec fn parent_at(p: Seq<char>, i: int) -> bool {
    &&& 0 <= i
    &&& i + 1 < p.len()
    &&& p[i] == '.'
    &&& p[i + 1] == '.'
    &&& (i == 0 || is_sep(p[i - 1]))
    &&& (i + 2 == p.len() || is_sep(p[i + 2]))
}

/// A relative path that stays under the directory it is resolved against:
/// not empty, not rooted, no drive prefix, and no `..` component.
pub open spec fn path_is_safe(p: Seq<char>) -> bool {
    &&& p.len() > 0
    &&& !is_sep(p[0])
    &&& !(p.len() >= 2 && p[1] == ':')
    &&& forall|i: int| 0 <= i < p.len() ==> !parent_at(p, i)
}

/// Whether an output path stays under the project root.
pub fn is_safe_path(p: &str) -> (r: bool)
    ensures
        r == path_is_safe(p@),
{
    let n = p.unicode_len();
    if n == 0 {
        return false;
    }
    let c0 = p.get_char(0);
    if c0 == '/' || c0 == '\\' {
        return false;
    }
    if n >= 2 && p.get_char(1) == ':' {
        return false;
    }
    let mut i: usize = 0;
    while i < n
        invariant
            n == p@.len(),
            i <= n,
            forall|k: int| 0 <= k < i ==> !parent_at(p@, k),
        decreases n - i,
    {
        if i + 1 < n && p.get_char(i) == '.' && p.get_char(i + 1) == '.' {
            let before = i == 0 || {
                let c = p.get_char(i - 1);
                c == '/' || c == '\\'
            };
            let after = i + 2 == n || {
                let c = p.get_char(i + 2);
                c == '/' || c == '\\'
            };
            if before && after {
                assert(parent_at(p@, i as int));
                return false;
            }
        }
        i = i + 1;
    }
    true
}

/// A file of a template's source tree, by its path within the template.
pub struct SourceFile {
    pub path: String,
    pub text: String,
}

impl SourceFile {
    pub fn copy(&self) -> (r: Self)
        ensures
            r == *self,
    {
        SourceFile { path: self.path.clone(), text: self.text.clone() }
    }
}

pub open spec fn source_paths(files: Seq<SourceFile>) -> Seq<Seq<char>> {
    files.map_values(|f: SourceFile| f.path@)
}

/// The text of the first file with the given path.
pub open spec fn source_text_spec(files: Seq<SourceFile>, path: Seq<char>) -> Option<Seq<char>> {
    match first_index(source_paths(files), path) {
        Some(i) => Some(files[i].text@),
        None => None,
    }
}

/// Where a template file's text comes from.
pub enum TemplateSource {
    Inline(String),
    Path(String),
}

/// A template text, inline or in the template's source tree.
pub struct TemplateFile {
    pub source: TemplateSource,
}

/// A file that rendering produced, with its path under the project root.
pub struct OutputFile {
    pub path: String,
    pub contents: String,
}

impl OutputFile {
    pub open spec fn view(&self) -> (Seq<char>, Seq<char>) {
        (self.path@, self.contents@)
    }
}

impl TemplateSource {
    pub fn copy(&self) -> (r: Self)
        ensures
            r == *self,
    {
        match self {
            TemplateSource::Inline(s) => TemplateSource::Inline(s.clone()),
            TemplateSource::Path(s) => TemplateSource::Path(s.clone()),
        }
    }
}

impl TemplateFile {
    /// A template file that refers to a path of the template's source tree.
    pub fn from_str(path: &str) -> (r: TemplateFile)
        ensures
            r.source matches TemplateSource::Path(p) && p@ == path@,
    {
        TemplateFile { source: TemplateSource::Path(String::from_str(path)) }
    }

    /// A template file whose text is given in place.
    pub fn inline(text: &str) -> (r: TemplateFile)
        ensures
            r.source matches TemplateSource::Inline(t) && t@ == text@,
    {
        TemplateFile { source: TemplateSource::Inline(String::from_str(text)) }
    }

    pub fn copy(&self) -> (r: Self)
        ensures
            r == *self,
    {
        TemplateFile { source: self.source.copy() }
    }

    /// Two template files that name the same text the same way.
    pub open spec fn same_source(&self, other: TemplateFile) -> bool {
        match (self.source, other.source) {
            (TemplateSource::Inline(a), TemplateSource::Inline(b)) => a@ == b@,
            (TemplateSource::Path(a), TemplateSource::Path(b)) => a@ == b@,
            _ => false,
        }
    }

    /// The template text, or the fault of a path the source tree lacks.
    pub open spec fn text_spec(&self, files: Seq<SourceFile>) -> Result<Seq<char>, Fault> {
        match self.source {
            TemplateSource::Inline(t) => Ok(t@),
            TemplateSource::Path(p) => match source_text_spec(files, p@) {
                Some(t) => Ok(t),
                None => Err(Fault::MissingSource(p@)),
            },
        }
    }

    /// Rendering into `out`: the path is checked first, then the text is
    /// loaded and expanded; the file's contents are the whole expansion.
    pub open spec fn render_spec(
        &self,
        files: Seq<SourceFile>,
        ctx: Context,
        out: Seq<char>,
    ) -> Result<(Seq<char>, Seq<char>), Fault> {
        if !path_is_safe(out) {
            Err(Fault::UnsafePath(out))
        } else {
            match self.text_spec(files) {
                Err(e) => Err(e),
                Ok(t) => match expand_spec(t, ctx) {
                    Err(e) => Err(e),
                    Ok(c) => Ok((out, c)),
                },
            }
        }
    }

    fn text(&self, files: &Vec<SourceFile>) -> (r: Result<String, RenderError>)
        ensures
            match (r, self.text_spec(files@)) {
                (Ok(a), Ok(b)) => a@ == b,
                (Err(e), Err(f)) => e.view() == f,
                _ => false,
            },
    {
        match &self.source {
            TemplateSource::Inline(t) => Ok(t.clone()),
            TemplateSource::Path(p) => {
                let ghost paths = source_paths(files@);
                let mut i: usize = 0;
                while i < files.len()
                    invariant
                        i <= files@.len(),
                        paths == source_paths(files@),
                        self.source == TemplateSource::Path(*p),
                        forall|j: int| 0 <= j < i ==> paths[j] != p@,
                    decreases files@.len() - i,
                {
                    assert(paths[i as int] == files@[i as int].path@);
                    if files[i].path == *p {
                        proof {
                            assert(paths[i as int] == p@);
                            lemma_first_index_is(paths, p@, i as int);
                        }
                        let t = files[i].text.clone();
                        return Ok(t);
                    }
                    i = i + 1;
                }
                proof {
                    lemma_first_index_none(paths, p@);
                }
                Err(RenderError::MissingSource(p.clone()))
            },
        }
    }

    /// Renders the template into a file at `out`, relative to the project
    /// root; the whole contents are produced before anything is written.
    pub fn render(&self, files: &Vec<SourceFile>, ctx: &Context, out: &str) -> (r: Result<
        OutputFile,
        RenderError,
    >)
        ensures
            match (r, self.render_spec(files@, *ctx, out@)) {
                (Ok(a), Ok(b)) => a@ == b,
                (Err(e), Err(f)) => e.view() == f,
                _ => false,
            },
    {
        if !is_safe_path(out) {
            return Err(RenderError::UnsafePath(String::from_str(out)));
        }
        let text = match self.text(files) {
            Ok(t) => t,
            Err(e) => return Err(e),
        };
        match expand(text.as_str(), ctx) {
            Ok(c) => Ok(OutputFile { path: String::from_str(out), contents: c }),
            Err(e) => Err(e),
        }
    }
}

/// An output path that would leave the project root is refused before the
/// template text is even loaded: no file is produced for it.
pub proof fn lemma_unsafe_output_rejected(
    tf: TemplateFile,
    files: Seq<SourceFile>,
    ctx: Context,
    out: Seq<char>,
)
    requires
        !path_is_safe(out),
    ensures
        tf.render_spec(files, ctx, out) == Err::<(Seq<char>, Seq<char>), Fault>(Fault::UnsafePath(out)),
{
}

} // verus!
