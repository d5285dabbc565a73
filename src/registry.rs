use vstd::prelude::*;
use crate::blueprint::Blueprint;
use crate::names::{first_index, has_name, lemma_first_index_is, lemma_first_index_none,
    lemma_first_index_some, lemma_first_index_push, lemma_first_index_push_new,
    lemma_first_index_push_present, lemma_first_index_prefix, lemma_first_index_suffix};
use crate::template::{Template, TemplateView};
use crate::template_file::SourceFile;

verus! {

pub open spec fn bp_names(s: Seq<Blueprint>) -> Seq<Seq<char>> {
    s.map_values(|b: Blueprint| b.name@)
}

pub open spec fn file_paths(s: Seq<SourceFile>) -> Seq<Seq<char>> {
    s.map_values(|f: SourceFile| f.path@)
}

/// A base blueprint as the overlay sees it: replaced wholesale by the first
/// overriding blueprint of the same name, if there is one.
pub open spec fn pick_bp(b: Blueprint, over: Seq<Blueprint>) -> Blueprint {
    match first_index(bp_names(over), b.name@) {
        Some(j) => over[j],
        None => b,
    }
}

/// The overriding blueprints among the first `k` whose names the base lacks.
pub open spec fn extra_bps(base: Seq<Blueprint>, over: Seq<Blueprint>, k: int) -> Seq<Blueprint>
    decreases k,
{
    if k <= 0 || k > over.len() {
        Seq::empty()
    } else {
        let p = extra_bps(base, over, k - 1);
        if has_name(bp_names(base), over[k - 1].name@) {
            p
        } else {
            p.push(over[k - 1])
        }
    }
}

/// Blueprints of a lower-priority template overlaid by those of a
/// higher-priority one: the base order is kept, a shared name takes the
/// overriding declaration whole, and the overriding template's own
/// blueprints follow in their order.
pub open spec fn overlay_bps(base: Seq<Blueprint>, over: Seq<Blueprint>) -> Seq<Blueprint> {
    base.map_values(|b: Blueprint| pick_bp(b, over)) + extra_bps(base, over, over.len() as int)
}

pub open spec fn pick_file(f: SourceFile, over: Seq<SourceFile>) -> SourceFile {
    match first_index(file_paths(over), f.path@) {
        Some(j) => over[j],
        None => f,
    }
}

pub open spec fn extra_files(base: Seq<SourceFile>, over: Seq<SourceFile>, k: int) -> Seq<SourceFile>
    decreases k,
{
    if k <= 0 || k > over.len() {
        Seq::empty()
    } else {
        let p = extra_files(base, over, k - 1);
        if has_name(file_paths(base), over[k - 1].path@) {
            p
        } else {
            p.push(over[k - 1])
        }
    }
}

/// Source files overlaid by path, in the same way as blueprints by name.
pub open spec fn overlay_files(base: Seq<SourceFile>, over: Seq<SourceFile>) -> Seq<SourceFile> {
    base.map_values(|f: SourceFile| pick_file(f, over)) + extra_files(base, over, over.len() as int)
}

fn find_bp(s: &Vec<Blueprint>, n: &String) -> (r: Option<usize>)
    ensures
        match r {
            Some(i) => i < s@.len() && first_index(bp_names(s@), n@) == Some(i as int),
            None => !has_name(bp_names(s@), n@) && first_index(bp_names(s@), n@) is None,
        },
{
    let ghost names = bp_names(s@);
    let mut i: usize = 0;
    while i < s.len()
        invariant
            i <= s@.len(),
            names == bp_names(s@),
            forall|j: int| 0 <= j < i ==> names[j] != n@,
        decreases s@.len() - i,
    {
        assert(names[i as int] == s@[i as int].name@);
        if s[i].name == *n {
            proof {
                lemma_first_index_is(names, n@, i as int);
            }
            return Some(i);
        }
        i = i + 1;
    }
    proof {
        lemma_first_index_none(names, n@);
    }
    None
}

fn find_file(s: &Vec<SourceFile>, n: &String) -> (r: Option<usize>)
    ensures
        match r {
            Some(i) => i < s@.len() && first_index(file_paths(s@), n@) == Some(i as int),
            None => !has_name(file_paths(s@), n@) && first_index(file_paths(s@), n@) is None,
        },
{
    let ghost names = file_paths(s@);
    let mut i: usize = 0;
    while i < s.len()
        invariant
            i <= s@.len(),
            names == file_paths(s@),
            forall|j: int| 0 <= j < i ==> names[j] != n@,
        decreases s@.len() - i,
    {
        assert(names[i as int] == s@[i as int].path@);
        if s[i].path == *n {
            proof {
                lemma_first_index_is(names, n@, i as int);
            }
            return Some(i);
        }
        i = i + 1;
    }
    proof {
        lemma_first_index_none(names, n@);
    }
    None
}

/// Overlays blueprints by name; see `overlay_bps`.
pub fn overlay_blueprints(base: &Vec<Blueprint>, over: &Vec<Blueprint>) -> (r: Vec<Blueprint>)
    ensures
        r@ == overlay_bps(base@, over@),
{
    let ghost mapped = base@.map_values(|b: Blueprint| pick_bp(b, over@));
    let mut r: Vec<Blueprint> = Vec::new();
    let mut i: usize = 0;
    while i < base.len()
        invariant
            i <= base@.len(),
            mapped == base@.map_values(|b: Blueprint| pick_bp(b, over@)),
            r@ =~= mapped.take(i as int),
        decreases base@.len() - i,
    {
        let b = match find_bp(over, &base[i].name) {
            Some(j) => over[j].copy(),
            None => base[i].copy(),
        };
        r.push(b);
        i = i + 1;
        assert(r@ =~= mapped.take(i as int));
    }
    let mut k: usize = 0;
    while k < over.len()
        invariant
            k <= over@.len(),
            mapped.len() == base@.len(),
            r@ =~= mapped + extra_bps(base@, over@, k as int),
        decreases over@.len() - k,
    {
        if find_bp(base, &over[k].name).is_none() {
            r.push(over[k].copy());
        }
        k = k + 1;
        assert(r@ =~= mapped + extra_bps(base@, over@, k as int));
    }
    r
}

/// Overlays source files by path; see `overlay_files`.
pub fn overlay_sources(base: &Vec<SourceFile>, over: &Vec<SourceFile>) -> (r: Vec<SourceFile>)
    ensures
        r@ == overlay_files(base@, over@),
{
    let ghost mapped = base@.map_values(|f: SourceFile| pick_file(f, over@));
    let mut r: Vec<SourceFile> = Vec::new();
    let mut i: usize = 0;
    while i < base.len()
        invariant
            i <= base@.len(),
            mapped == base@.map_values(|f: SourceFile| pick_file(f, over@)),
            r@ =~= mapped.take(i as int),
        decreases base@.len() - i,
    {
        let f = match find_file(over, &base[i].path) {
            Some(j) => over[j].copy(),
            None => base[i].copy(),
        };
        r.push(f);
        i = i + 1;
        assert(r@ =~= mapped.take(i as int));
    }
    let mut k: usize = 0;
    while k < over.len()
        invariant
            k <= over@.len(),
            mapped.len() == base@.len(),
            r@ =~= mapped + extra_files(base@, over@, k as int),
        decreases over@.len() - k,
    {
        if find_file(base, &over[k].path).is_none() {
            r.push(over[k].copy());
        }
        k = k + 1;
        assert(r@ =~= mapped + extra_files(base@, over@, k as int));
    }
    r
}

/// A template of a lower-priority registry overridden by the same-named
/// template of a higher-priority one: identity from the higher one,
/// blueprints and source files overlaid.
pub open spec fn merge_view(lower: TemplateView, higher: TemplateView) -> TemplateView {
    TemplateView {
        name: higher.name,
        registry: higher.registry,
        version: higher.version,
        blueprints: overlay_bps(lower.blueprints, higher.blueprints),
        files: overlay_files(lower.files, higher.files),
    }
}

/// Merges a lower-priority template with a higher-priority one.
pub fn merge_templates(lower: &Template, higher: &Template) -> (r: Template)
    ensures
        r@ == merge_view(lower@, higher@),
{
    Template {
        name: higher.name.clone(),
        registry: higher.registry.clone(),
        version: higher.version.clone(),
        blueprints: overlay_blueprints(&lower.blueprints, &higher.blueprints),
        files: overlay_sources(&lower.files, &higher.files),
    }
}

/// A named source of templates, with the templates last fetched from it.
pub struct Registry {
    pub name: String,
    pub locator: String,
    pub last_update: Option<u64>,
    pub templates: Vec<Template>,
}

pub open spec fn template_names(s: Seq<Template>) -> Seq<Seq<char>> {
    s.map_values(|t: Template| t.name@)
}

pub open spec fn registry_names(s: Seq<Registry>) -> Seq<Seq<char>> {
    s.map_values(|r: Registry| r.name@)
}

pub open spec fn registry_locators(s: Seq<Registry>) -> Seq<Seq<char>> {
    s.map_values(|r: Registry| r.locator@)
}

impl Registry {
    /// The first template of this registry with the given name.
    pub open spec fn found(&self, name: Seq<char>) -> Option<TemplateView> {
        match first_index(template_names(self.templates@), name) {
            Some(i) => Some(self.templates@[i]@),
            None => None,
        }
    }

    fn find(&self, name: &String) -> (r: Option<usize>)
        ensures
            match r {
                Some(i) => i < self.templates@.len() && first_index(template_names(self.templates@), name@)
                    == Some(i as int),
                None => first_index(template_names(self.templates@), name@) is None,
            },
    {
        let ghost names = template_names(self.templates@);
        let mut i: usize = 0;
        while i < self.templates.len()
            invariant
                i <= self.templates@.len(),
                names == template_names(self.templates@),
                forall|j: int| 0 <= j < i ==> names[j] != name@,
            decreases self.templates@.len() - i,
        {
            assert(names[i as int] == self.templates@[i as int].name@);
            if self.templates[i].name == *name {
                proof {
                    lemma_first_index_is(names, name@, i as int);
                }
                return Some(i);
            }
            i = i + 1;
        }
        proof {
            lemma_first_index_none(names, name@);
        }
        None
    }
}

/// Resolution over the first `k` registries, lowest priority first: each
/// registry that holds the name overrides what the earlier ones gave.
pub open spec fn resolve_upto(regs: Seq<Registry>, name: Seq<char>, k: int) -> Option<TemplateView>
    decreases k,
{
    if k <= 0 || k > regs.len() {
        None
    } else {
        let acc = resolve_upto(regs, name, k - 1);
        match regs[k - 1].found(name) {
            None => acc,
            Some(t) => Some(
                match acc {
                    None => t,
                    Some(a) => merge_view(a, t),
                },
            ),
        }
    }
}

/// Whether the name or the locator is registered already.
pub open spec fn is_registered(regs: Seq<Registry>, name: Seq<char>, locator: Seq<char>) -> bool {
    has_name(registry_names(regs), name) || has_name(registry_locators(regs), locator)
}

/// Why a registry operation failed.
#[derive(Debug)]
pub enum RegistryError {
    /// The name or locator is registered already.
    Duplicate(String),
    /// The locator could not be reached when the registry was added.
    Unreachable(String),
    /// No registry has this name.
    NotFound(String),
    /// Fetching the registry failed; its cached templates were kept.
    FetchFailed(String),
}

/// What `status` reports of one registry.
pub struct RegistryStatus {
    pub name: String,
    pub locator: String,
    pub last_update: Option<u64>,
}

/// The user's choice when templates are missing.
#[derive(PartialEq, Eq, Structural, Debug, Clone, Copy)]
pub enum Decision {
    Proceed,
    Decline,
}

/// Whether to download templates: only where none are cached and the user
/// agreed. Declining is an ordinary outcome.
pub fn download_decision(cached: bool, confirmed: bool) -> (r: Decision)
    ensures
        r == Decision::Proceed <==> !cached && confirmed,
{
    if !cached && confirmed {
        Decision::Proceed
    } else {
        Decision::Decline
    }
}

/// The registries in priority order, lowest first: a later-added registry
/// overrides earlier ones.
pub struct RemoteTemplate {
    pub registries: Vec<Registry>,
}

impl RemoteTemplate {
    pub fn new() -> (r: RemoteTemplate)
        ensures
            r.registries@.len() == 0,
    {
        RemoteTemplate { registries: Vec::new() }
    }

    pub open spec fn resolve_spec(&self, name: Seq<char>) -> Option<TemplateView> {
        resolve_upto(self.registries@, name, self.registries@.len() as int)
    }

    fn find_registry(&self, name: &String) -> (r: Option<usize>)
        ensures
            match r {
                Some(i) => i < self.registries@.len() && first_index(
                    registry_names(self.registries@),
                    name@,
                ) == Some(i as int),
                None => !has_name(registry_names(self.registries@), name@),
            },
    {
        let ghost names = registry_names(self.registries@);
        let mut i: usize = 0;
        while i < self.registries.len()
            invariant
                i <= self.registries@.len(),
                names == registry_names(self.registries@),
                forall|j: int| 0 <= j < i ==> names[j] != name@,
            decreases self.registries@.len() - i,
        {
            assert(names[i as int] == self.registries@[i as int].name@);
            if self.registries[i].name == *name {
                proof {
                    lemma_first_index_is(names, name@, i as int);
                }
                return Some(i);
            }
            i = i + 1;
        }
        proof {
            lemma_first_index_none(names, name@);
        }
        None
    }

    fn has_locator(&self, locator: &String) -> (r: bool)
        ensures
            r == has_name(registry_locators(self.registries@), locator@),
    {
        let ghost locs = registry_locators(self.registries@);
        let mut i: usize = 0;
        while i < self.registries.len()
            invariant
                i <= self.registries@.len(),
                locs == registry_locators(self.registries@),
                forall|j: int| 0 <= j < i ==> locs[j] != locator@,
            decreases self.registries@.len() - i,
        {
            assert(locs[i as int] == self.registries@[i as int].locator@);
            if self.registries[i].locator == *locator {
                return true;
            }
            i = i + 1;
        }
        false
    }

    /// Registers a new registry, last in priority order. A name or locator
    /// that is registered already is refused, and so is a locator that the
    /// caller found unreachable.
    pub fn add(&mut self, name: String, locator: String, reachable: bool) -> (r: Result<(), RegistryError>)
        ensures
            if is_registered(old(self).registries@, name@, locator@) {
                &&& r matches Err(RegistryError::Duplicate(s))
                &&& s@ == locator@
                &&& final(self).registries@ == old(self).registries@
            } else if !reachable {
                &&& r matches Err(RegistryError::Unreachable(s))
                &&& s@ == locator@
                &&& final(self).registries@ == old(self).registries@
            } else {
                &&& r is Ok
                &&& final(self).registries@.len() == old(self).registries@.len() + 1
                &&& final(self).registries@.drop_last() == old(self).registries@
                &&& final(self).registries@.last().name == name
                &&& final(self).registries@.last().locator == locator
                &&& final(self).registries@.last().last_update is None
                &&& final(self).registries@.last().templates@.len() == 0
            },
    {
        if self.find_registry(&name).is_some() || self.has_locator(&locator) {
            return Err(RegistryError::Duplicate(locator));
        }
        if !reachable {
            return Err(RegistryError::Unreachable(locator));
        }
        self.registries.push(Registry { name, locator, last_update: None, templates: Vec::new() });
        Ok(())
    }

    /// Deregisters a registry with its cached templates; templates that
    /// other registries hold stay available from them.
    pub fn remove(&mut self, name: &String) -> (r: Result<(), RegistryError>)
        ensures
            match first_index(registry_names(old(self).registries@), name@) {
                Some(i) => r is Ok && final(self).registries@ == old(self).registries@.remove(i),
                None => r matches Err(RegistryError::NotFound(s)) && s@ == name@
                    && final(self).registries@ == old(self).registries@,
            },
    {
        match self.find_registry(name) {
            Some(i) => {
                self.registries.remove(i);
                Ok(())
            },
            None => {
                proof {
                    lemma_first_index_none(registry_names(self.registries@), name@);
                }
                Err(RegistryError::NotFound(name.clone()))
            },
        }
    }

    /// Records the outcome of fetching a registry at time `now`: fetched
    /// templates replace the cache; a failed fetch keeps the stale cache.
    pub fn update(&mut self, name: &String, fetched: Option<Vec<Template>>, now: u64) -> (r: Result<
        (),
        RegistryError,
    >)
        ensures
            match first_index(registry_names(old(self).registries@), name@) {
                None => r matches Err(RegistryError::NotFound(s)) && s@ == name@
                    && final(self).registries@ == old(self).registries@,
                Some(i) => match fetched {
                    None => r matches Err(RegistryError::FetchFailed(s)) && s@ == name@
                        && final(self).registries@ == old(self).registries@,
                    Some(ts) => r is Ok && final(self).registries@ == old(self).registries@.update(
                        i,
                        Registry {
                            name: old(self).registries@[i].name,
                            locator: old(self).registries@[i].locator,
                            last_update: Some(now),
                            templates: ts,
                        },
                    ),
                },
            },
    {
        match self.find_registry(name) {
            None => {
                proof {
                    lemma_first_index_none(registry_names(self.registries@), name@);
                }
                Err(RegistryError::NotFound(name.clone()))
            },
            Some(i) => match fetched {
                None => Err(RegistryError::FetchFailed(name.clone())),
                Some(ts) => {
                    let reg = self.registries.remove(i);
                    let fresh = Registry {
                        name: reg.name,
                        locator: reg.locator,
                        last_update: Some(now),
                        templates: ts,
                    };
                    self.registries.insert(i, fresh);
                    Ok(())
                },
            },
        }
    }

    /// Each registry's name, locator and time of last successful update, in
    /// priority order.
    pub fn status(&self) -> (r: Vec<RegistryStatus>)
        ensures
            r@.len() == self.registries@.len(),
            forall|i: int|
                0 <= i < r@.len() ==> (#[trigger] r@[i]).name@ == self.registries@[i].name@
                    && r@[i].locator@ == self.registries@[i].locator@ && r@[i].last_update
                    == self.registries@[i].last_update,
    {
        let mut r: Vec<RegistryStatus> = Vec::new();
        let mut i: usize = 0;
        while i < self.registries.len()
            invariant
                i <= self.registries@.len(),
                r@.len() == i,
                forall|j: int|
                    0 <= j < i ==> (#[trigger] r@[j]).name@ == self.registries@[j].name@
                        && r@[j].locator@ == self.registries@[j].locator@ && r@[j].last_update
                        == self.registries@[j].last_update,
            decreases self.registries@.len() - i,
        {
            let reg = &self.registries[i];
            r.push(
                RegistryStatus {
                    name: reg.name.clone(),
                    locator: reg.locator.clone(),
                    last_update: reg.last_update,
                },
            );
            i = i + 1;
        }
        r
    }

    /// Whether any registry holds a template of this name.
    pub fn has_template(&self, name: &String) -> (r: bool)
        ensures
            r <==> self.resolve_spec(name@) is Some,
    {
        self.resolve(name).is_some()
    }

    /// Resolves a template name across all registries; see `resolve_upto`.
    pub fn resolve(&self, name: &String) -> (r: Option<Template>)
        ensures
            match (r, self.resolve_spec(name@)) {
                (Some(t), Some(v)) => t@ == v,
                (None, None) => true,
                _ => false,
            },
    {
        let mut acc: Option<Template> = None;
        let mut k: usize = 0;
        while k < self.registries.len()
            invariant
                k <= self.registries@.len(),
                match (acc, resolve_upto(self.registries@, name@, k as int)) {
                    (Some(t), Some(v)) => t@ == v,
                    (None, None) => true,
                    _ => false,
                },
            decreases self.registries@.len() - k,
        {
            let reg = &self.registries[k];
            match reg.find(name) {
                None => {},
                Some(j) => {
                    let t = &reg.templates[j];
                    acc = match acc {
                        None => Some(t.copy()),
                        Some(a) => Some(merge_templates(&a, t)),
                    };
                },
            }
            k = k + 1;
        }
        acc
    }
}

proof fn lemma_extra_bps(base: Seq<Blueprint>, over: Seq<Blueprint>, n: Seq<char>, k: int)
    requires
        !has_name(bp_names(base), n),
        0 <= k <= over.len(),
    ensures
        ({
            let e = extra_bps(base, over, k);
            match first_index(bp_names(over), n) {
                Some(f) if f < k => has_name(bp_names(e), n) && e[first_index(bp_names(e), n).unwrap()]
                    == over[f],
                _ => !has_name(bp_names(e), n),
            }
        }),
    decreases k,
{
    let f_opt = first_index(bp_names(over), n);
    if has_name(bp_names(over), n) {
        lemma_first_index_some(bp_names(over), n);
    }
    if k == 0 {
        assert(bp_names(extra_bps(base, over, 0)) =~= Seq::<Seq<char>>::empty());
    } else {
        lemma_extra_bps(base, over, n, k - 1);
        let prev = extra_bps(base, over, k - 1);
        let x = over[k - 1];
        assert(bp_names(over)[k - 1] == x.name@);
        if has_name(bp_names(base), x.name@) {
            assert(x.name@ != n);
        } else {
            let e = prev.push(x);
            assert(bp_names(e) =~= bp_names(prev).push(x.name@));
            match f_opt {
                Some(f) => {
                    if f < k - 1 {
                        lemma_first_index_push_present(bp_names(prev), x.name@, n);
                        lemma_first_index_some(bp_names(prev), n);
                    } else if f == k - 1 {
                        lemma_first_index_push_new(bp_names(prev), x.name@);
                    } else {
                        lemma_first_index_push(bp_names(prev), x.name@, n);
                    }
                },
                None => {
                    lemma_first_index_push(bp_names(prev), x.name@, n);
                },
            }
        }
    }
}

proof fn lemma_picked_names(base: Seq<Blueprint>, over: Seq<Blueprint>)
    ensures
        bp_names(base.map_values(|b: Blueprint| pick_bp(b, over))) == bp_names(base),
{
    let mapped = base.map_values(|b: Blueprint| pick_bp(b, over));
    assert forall|i: int| 0 <= i < base.len() implies #[trigger] bp_names(mapped)[i] == bp_names(
        base,
    )[i] by {
        let b = base[i];
        if has_name(bp_names(over), b.name@) {
            lemma_first_index_some(bp_names(over), b.name@);
        }
    }
    assert(bp_names(mapped) =~= bp_names(base));
}

pub open spec fn merge_law(base: Seq<Blueprint>, over: Seq<Blueprint>, n: Seq<char>) -> bool {
    let m = overlay_bps(base, over);
    &&& has_name(bp_names(m), n) <==> (has_name(bp_names(base), n) || has_name(bp_names(over), n))
    &&& has_name(bp_names(over), n) ==> m[first_index(bp_names(m), n).unwrap()] == over[first_index(
        bp_names(over),
        n,
    ).unwrap()]
    &&& !has_name(bp_names(over), n) && has_name(bp_names(base), n) ==> m[first_index(
        bp_names(m),
        n,
    ).unwrap()] == base[first_index(bp_names(base), n).unwrap()]
}

proof fn lemma_merge_from_base(base: Seq<Blueprint>, over: Seq<Blueprint>, n: Seq<char>)
    requires
        has_name(bp_names(base), n),
    ensures
        merge_law(base, over, n),
{
    let mapped = base.map_values(|b: Blueprint| pick_bp(b, over));
    let e = extra_bps(base, over, over.len() as int);
    let m = overlay_bps(base, over);
    lemma_picked_names(base, over);
    assert(bp_names(m) =~= bp_names(mapped) + bp_names(e));
    lemma_first_index_some(bp_names(base), n);
    lemma_first_index_prefix(bp_names(mapped), bp_names(e), n);
    let i = first_index(bp_names(base), n).unwrap();
    assert(m[i] == mapped[i]);
    if has_name(bp_names(over), n) {
        lemma_first_index_some(bp_names(over), n);
    }
}

proof fn lemma_concat_first(a: Seq<Blueprint>, b: Seq<Blueprint>, n: Seq<char>)
    requires
        !has_name(bp_names(a), n),
    ensures
        has_name(bp_names(a + b), n) == has_name(bp_names(b), n),
        has_name(bp_names(b), n) ==> (a + b)[first_index(bp_names(a + b), n).unwrap()]
            == b[first_index(bp_names(b), n).unwrap()],
{
    assert(bp_names(a + b) =~= bp_names(a) + bp_names(b));
    lemma_first_index_suffix(bp_names(a), bp_names(b), n);
    if has_name(bp_names(b), n) {
        lemma_first_index_some(bp_names(b), n);
        let j = first_index(bp_names(b), n).unwrap();
        assert((a + b)[a.len() + j] == b[j]);
    }
}

proof fn lemma_merge_from_extras(base: Seq<Blueprint>, over: Seq<Blueprint>, n: Seq<char>)
    requires
        !has_name(bp_names(base), n),
    ensures
        merge_law(base, over, n),
{
    let mapped = base.map_values(|b: Blueprint| pick_bp(b, over));
    let e = extra_bps(base, over, over.len() as int);
    lemma_picked_names(base, over);
    lemma_extra_bps(base, over, n, over.len() as int);
    lemma_concat_first(mapped, e, n);
    if has_name(bp_names(over), n) {
        lemma_first_index_some(bp_names(over), n);
    }
}

/// Overriding across registries works on whole blueprints: the merged
/// template has a blueprint of a name exactly where either side has one;
/// a name that the higher-priority template declares takes its declaration
/// unchanged, and a name only the lower one declares passes through.
pub proof fn lemma_override_merge(base: Seq<Blueprint>, over: Seq<Blueprint>, n: Seq<char>)
    ensures
        merge_law(base, over, n),
{
    if has_name(bp_names(base), n) {
        lemma_merge_from_base(base, over, n);
    } else {
        lemma_merge_from_extras(base, over, n);
    }
}

} // verus!
