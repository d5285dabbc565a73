use vstd::prelude::*;
use vstd::string::StringExecFns;
use crate::names::{first_index, has_name, lemma_first_index_is, lemma_first_index_none,
    lemma_first_index_some, lemma_first_index_push, lemma_first_index_push_new};

verus! {

/// The value an optional string field stands for.
pub open spec fn opt_view(o: Option<String>) -> Option<Seq<char>> {
    match o {
        Some(s) => Some(s@),
        None => None,
    }
}

/// The top-level record of the project being generated.
pub struct Project {
    pub name: Option<String>,
    pub description: Option<String>,
    pub license: Option<String>,
    pub author: Option<String>,
}

/// One blueprint-specific entry of the context.
pub struct Var {
    pub key: String,
    pub value: String,
}

/// Data collected while prompting and read while rendering.
///
/// Entries may be set only until the context is sealed, which happens when
/// the render phase starts.
pub struct Context {
    pub project: Project,
    pub vars: Vec<Var>,
    pub sealed: bool,
}

pub open spec fn var_keys(vars: Seq<Var>) -> Seq<Seq<char>> {
    vars.map_values(|v: Var| v.key@)
}

impl Context {
    /// The value of a blueprint-specific key: the first entry that holds it.
    pub open spec fn var_spec(&self, key: Seq<char>) -> Option<Seq<char>> {
        match first_index(var_keys(self.vars@), key) {
            Some(i) => Some(self.vars@[i].value@),
            None => None,
        }
    }

    /// What a template reference resolves to: `project.<field>` names a field
    /// of the project record, every other key a blueprint-specific entry.
    pub open spec fn lookup_spec(&self, key: Seq<char>) -> Option<Seq<char>> {
        if key == "project.name"@ {
            opt_view(self.project.name)
        } else if key == "project.description"@ {
            opt_view(self.project.description)
        } else if key == "project.license"@ {
            opt_view(self.project.license)
        } else if key == "project.author"@ {
            opt_view(self.project.author)
        } else {
            self.var_spec(key)
        }
    }

    /// An empty, unsealed context.
    pub fn new() -> (r: Context)
        ensures
            r.project.name is None,
            r.project.description is None,
            r.project.license is None,
            r.project.author is None,
            r.vars@.len() == 0,
            !r.sealed,
            forall|k: Seq<char>| r.var_spec(k) is None,
    {
        Context {
            project: Project { name: None, description: None, license: None, author: None },
            vars: Vec::new(),
            sealed: false,
        }
    }

    fn find_var(&self, key: &String) -> (r: Option<usize>)
        ensures
            match r {
                Some(i) => i < self.vars@.len() && self.vars@[i as int].key@ == key@
                    && first_index(var_keys(self.vars@), key@) == Some(i as int),
                None => first_index(var_keys(self.vars@), key@) is None && !has_name(
                    var_keys(self.vars@),
                    key@,
                ),
            },
    {
        let ghost keys = var_keys(self.vars@);
        let mut i: usize = 0;
        while i < self.vars.len()
            invariant
                i <= self.vars@.len(),
                keys == var_keys(self.vars@),
                forall|j: int| 0 <= j < i ==> keys[j] != key@,
            decreases self.vars@.len() - i,
        {
            if self.vars[i].key == *key {
                proof {
                    lemma_first_index_is(keys, key@, i as int);
                }
                return Some(i);
            }
            i = i + 1;
        }
        proof {
            lemma_first_index_none(keys, key@);
        }
        None
    }

    /// The value of a blueprint-specific key, if it was set.
    pub fn get(&self, key: &str) -> (r: Option<String>)
        ensures
            opt_view(r) == self.var_spec(key@),
    {
        let k = String::from_str(key);
        match self.find_var(&k) {
            Some(i) => Some(self.vars[i].value.clone()),
            None => None,
        }
    }

    /// Sets a blueprint-specific key; a later set of the same key replaces it.
    pub fn set(&mut self, key: String, value: String)
        requires
            !old(self).sealed,
        ensures
            final(self).project == old(self).project,
            !final(self).sealed,
            forall|k: Seq<char>|
                #[trigger] final(self).var_spec(k) == if k == key@ {
                    Some(value@)
                } else {
                    old(self).var_spec(k)
                },
    {
        let ghost old_vars = self.vars@;
        match self.find_var(&key) {
            Some(i) => {
                let ghost entry = Var { key: key, value: value };
                self.vars.set(i, Var { key, value });
                proof {
                    assert(var_keys(self.vars@) =~= var_keys(old_vars)) by {
                        assert forall|j: int| 0 <= j < old_vars.len() implies
                            #[trigger] var_keys(self.vars@)[j] == var_keys(old_vars)[j] by {
                            if j != i {
                                assert(self.vars@[j] == old_vars[j]);
                            }
                        }
                    }
                    assert forall|k: Seq<char>|
                        #[trigger] self.var_spec(k) == if k == entry.key@ {
                            Some(entry.value@)
                        } else {
                            old(self).var_spec(k)
                        } by {
                        if k != entry.key@ {
                            if has_name(var_keys(old_vars), k) {
                                lemma_first_index_some(var_keys(old_vars), k);
                                assert(first_index(var_keys(old_vars), k).unwrap() != i);
                            }
                        }
                    }
                }
            },
            None => {
                let ghost entry = Var { key: key, value: value };
                self.vars.push(Var { key, value });
                proof {
                    assert(var_keys(self.vars@) =~= var_keys(old_vars).push(entry.key@));
                    lemma_first_index_push_new(var_keys(old_vars), entry.key@);
                    assert forall|k: Seq<char>|
                        #[trigger] self.var_spec(k) == if k == entry.key@ {
                            Some(entry.value@)
                        } else {
                            old(self).var_spec(k)
                        } by {
                        if k != entry.key@ {
                            lemma_first_index_push(var_keys(old_vars), entry.key@, k);
                            if has_name(var_keys(old_vars), k) {
                                lemma_first_index_some(var_keys(old_vars), k);
                            }
                        }
                    }
                }
            },
        }
    }

    /// Ends the prompt phase: no entry can be set afterwards.
    pub fn seal(&mut self)
        ensures
            final(self).project == old(self).project,
            final(self).vars == old(self).vars,
            final(self).sealed,
    {
        self.sealed = true;
    }

    /// What a template reference resolves to, if anything.
    pub fn lookup(&self, key: &String) -> (r: Option<String>)
        ensures
            opt_view(r) == self.lookup_spec(key@),
    {
        if *key == String::from_str("project.name") {
            self.project.name.clone()
        } else if *key == String::from_str("project.description") {
            self.project.description.clone()
        } else if *key == String::from_str("project.license") {
            self.project.license.clone()
        } else if *key == String::from_str("project.author") {
            self.project.author.clone()
        } else {
            match self.find_var(key) {
                Some(i) => Some(self.vars[i].value.clone()),
                None => None,
            }
        }
    }
}

} // verus!
