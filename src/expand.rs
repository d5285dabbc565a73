use vstd::prelude::*;
use vstd::string::{StringExecFns, StrSliceExecFns};
use crate::context::{Context, opt_view};

verus! {

/// Why rendering could not produce a file.
pub enum Fault {
    /// A `{{key}}` reference that the context does not resolve.
    Unresolved(Seq<char>),
    /// A `{{` with no `}}` after it.
    Unterminated,
    /// An output path that would leave the project root.
    UnsafePath(Seq<char>),
    /// A template source path that the template's files do not hold.
    MissingSource(Seq<char>),
}

/// The error of the render phase.
#[derive(Debug)]
pub enum RenderError {
    UnresolvedReference(String),
    UnterminatedReference,
    UnsafePath(String),
    MissingSource(String),
}

impl RenderError {
    pub open spec fn view(&self) -> Fault {
        match self {
            RenderError::UnresolvedReference(k) => Fault::Unresolved(k@),
            RenderError::UnterminatedReference => Fault::Unterminated,
            RenderError::UnsafePath(p) => Fault::UnsafePath(p@),
            RenderError::MissingSource(p) => Fault::MissingSource(p@),
        }
    }
}

/// An exec result agrees with a spec result.
pub open spec fn result_matches(r: Result<String, RenderError>, s: Result<Seq<char>, Fault>) -> bool {
    match (r, s) {
        (Ok(a), Ok(b)) => a@ == b,
        (Err(e), Err(f)) => e.view() == f,
        _ => false,
    }
}

pub open spec fn prepend(p: Seq<char>, r: Result<Seq<char>, Fault>) -> Result<Seq<char>, Fault> {
    match r {
        Ok(s) => Ok(p + s),
        Err(e) => Err(e),
    }
}

pub open spec fn opens_at(t: Seq<char>, i: int) -> bool {
    0 <= i && i + 1 < t.len() && t[i] == '{' && t[i + 1] == '{'
}

pub open spec fn closes_at(t: Seq<char>, i: int) -> bool {
    0 <= i && i + 1 < t.len() && t[i] == '}' && t[i + 1] == '}'
}

/// The expansion of `t` from position `i` on: text is copied, and each
/// `{{key}}` is replaced by what the context resolves `key` to.
pub open spec fn expand_from(t: Seq<char>, ctx: Context, i: int) -> Result<Seq<char>, Fault>
    decreases t.len() - i,
{
    if i < 0 || i >= t.len() {
        Ok(Seq::empty())
    } else if opens_at(t, i) {
        scan_ref(t, ctx, i + 2, i + 2)
    } else {
        prepend(seq![t[i]], expand_from(t, ctx, i + 1))
    }
}

/// Within a reference whose key starts at `ks`, the expansion from position
/// `j` on, where no `}}` stands between `ks` and `j`.
pub open spec fn scan_ref(t: Seq<char>, ctx: Context, ks: int, j: int) -> Result<Seq<char>, Fault>
    decreases t.len() - j,
{
    if j < 0 || j + 1 >= t.len() {
        Err(Fault::Unterminated)
    } else if closes_at(t, j) {
        match ctx.lookup_spec(t.subrange(ks, j)) {
            Some(v) => prepend(v, expand_from(t, ctx, j + 2)),
            None => Err(Fault::Unresolved(t.subrange(ks, j))),
        }
    } else {
        scan_ref(t, ctx, ks, j + 1)
    }
}

/// The expansion of a whole template text.
pub open spec fn expand_spec(t: Seq<char>, ctx: Context) -> Result<Seq<char>, Fault> {
    expand_from(t, ctx, 0)
}

proof fn lemma_prepend_assoc(a: Seq<char>, b: Seq<char>, r: Result<Seq<char>, Fault>)
    ensures
        prepend(a, prepend(b, r)) == prepend(a + b, r),
{
    if let Ok(s) = r {
        assert(a + (b + s) =~= (a + b) + s);
    }
}

proof fn lemma_prepend_empty(r: Result<Seq<char>, Fault>)
    ensures
        prepend(Seq::empty(), r) == r,
{
    if let Ok(s) = r {
        assert(Seq::<char>::empty() + s =~= s);
    }
}

/// Expands `{{key}}` references in `text` against the context.
pub fn expand(text: &str, ctx: &Context) -> (r: Result<String, RenderError>)
    ensures
        result_matches(r, expand_spec(text@, *ctx)),
{
    let ghost t = text@;
    let n = text.unicode_len();
    let mut out = String::new();
    let mut run: usize = 0;
    let mut i: usize = 0;
    proof {
        lemma_prepend_empty(expand_from(t, *ctx, 0));
    }
    while i < n
        invariant
            n == t.len(),
            t == text@,
            run <= i <= n,
            expand_spec(t, *ctx) == prepend(out@ + t.subrange(run as int, i as int), expand_from(t, *ctx, i as int)),
        decreases n - i,
    {
        if i + 1 < n && text.get_char(i) == '{' && text.get_char(i + 1) == '{' {
            out.append(text.substring_char(run, i));
            proof {
                assert(opens_at(t, i as int));
                assert(out@ + t.subrange(i as int, i as int) =~= out@);
            }
            let ks: usize = i + 2;
            let mut j: usize = ks;
            while j < n - 1 && !(text.get_char(j) == '}' && text.get_char(j + 1) == '}')
                invariant
                    n == t.len(),
                    t == text@,
                    ks <= j <= n,
                    n >= 2,
                    expand_spec(t, *ctx) == prepend(out@, scan_ref(t, *ctx, ks as int, j as int)),
                decreases n - j,
            {
                j = j + 1;
            }
            if j >= n - 1 {
                proof {
                    lemma_prepend_empty(scan_ref(t, *ctx, ks as int, j as int));
                }
                return Err(RenderError::UnterminatedReference);
            }
            let key = String::from_str(text.substring_char(ks, j));
            assert(closes_at(t, j as int));
            match ctx.lookup(&key) {
                Some(v) => {
                    proof {
                        lemma_prepend_assoc(out@, v@, expand_from(t, *ctx, j + 2));
                    }
                    out.append(v.as_str());
                    i = j + 2;
                    run = i;
                    proof {
                        assert(out@ + t.subrange(run as int, i as int) =~= out@);
                    }
                },
                None => {
                    return Err(RenderError::UnresolvedReference(key));
                },
            }
        } else {
            proof {
                assert(!opens_at(t, i as int));
                lemma_prepend_assoc(
                    out@ + t.subrange(run as int, i as int),
                    seq![t[i as int]],
                    expand_from(t, *ctx, i + 1),
                );
                assert(out@ + t.subrange(run as int, i as int) + seq![t[i as int]]
                    =~= out@ + t.subrange(run as int, i + 1));
            }
            i = i + 1;
        }
    }
    out.append(text.substring_char(run, n));
    proof {
        assert(expand_from(t, *ctx, i as int) == Ok::<Seq<char>, Fault>(Seq::empty()));
        assert(out@ + Seq::<char>::empty() =~= out@);
    }
    Ok(out)
}

/// Two contexts that resolve every key alike.
pub open spec fn same_lookups(c1: Context, c2: Context) -> bool {
    forall|k: Seq<char>| #[trigger] c1.lookup_spec(k) == c2.lookup_spec(k)
}

/// Expansion depends on the context only through what it resolves.
pub proof fn lemma_expand_from_same(t: Seq<char>, c1: Context, c2: Context, i: int)
    requires
        same_lookups(c1, c2),
    ensures
        expand_from(t, c1, i) == expand_from(t, c2, i),
    decreases t.len() - i, 1int,
{
    if 0 <= i < t.len() {
        if opens_at(t, i) {
            lemma_scan_ref_same(t, c1, c2, i + 2, i + 2);
        } else {
            lemma_expand_from_same(t, c1, c2, i + 1);
        }
    }
}

proof fn lemma_scan_ref_same(t: Seq<char>, c1: Context, c2: Context, ks: int, j: int)
    requires
        same_lookups(c1, c2),
    ensures
        scan_ref(t, c1, ks, j) == scan_ref(t, c2, ks, j),
    decreases t.len() - j, 0int,
{
    if 0 <= j && j + 1 < t.len() {
        if closes_at(t, j) {
            assert(c1.lookup_spec(t.subrange(ks, j)) == c2.lookup_spec(t.subrange(ks, j)));
            lemma_expand_from_same(t, c1, c2, j + 2);
        } else {
            lemma_scan_ref_same(t, c1, c2, ks, j + 1);
        }
    }
}

} // verus!
