//! The resolution run, step by step.
//!
//! A [`Resolver`] never touches a file. It says which path is to be
//! inspected next; the caller inspects it and hands back what was found.

use vstd::prelude::*;
use vstd::string::*;
use crate::error::{outcome_view, InspectionError, ResolveError};
use crate::format::establish;
use crate::model::{
    admitted, admitted_properties, next, next_is_well_formed, paired, pending, probes, settled, skipped,
    start, start_is_well_formed, wanted, well_formed, Library, Model, Phase, Request,
};
use crate::names::{holds, listed_by_key, lowercase, lowercase_all, lowercase_of, lowercased};
use crate::search::{candidates, SearchRoot};
use crate::text::texts;

verus! {

/// A library and the path at which it was found.
#[derive(Debug, PartialEq, Eq)]
pub struct ResolvedLibrary {
    pub name: String,
    pub path: String,
}

impl View for ResolvedLibrary {
    type V = Library;

    open spec fn view(&self) -> Library {
        Library { name: self.name@, path: self.path@ }
    }
}

/// The libraries that a sequence of records holds, one for one.
pub open spec fn libraries(v: Seq<ResolvedLibrary>) -> Seq<Library> {
    Seq::new(v.len(), |i: int| v[i]@)
}

/// What a run asks of its caller.
#[derive(Debug, PartialEq, Eq)]
pub enum Action {
    /// Inspect the file at `path` and hand back what was found.
    Inspect { path: String },
    /// The run is complete: these are the libraries, in the order in which
    /// their names were admitted.
    Done { libraries: Vec<ResolvedLibrary> },
    /// The run has failed and has no result.
    Failed { error: ResolveError },
}

impl View for Action {
    type V = Request;

    open spec fn view(&self) -> Request {
        match self {
            Action::Inspect { path } => Request::Inspect { path: path@ },
            Action::Done { libraries: found } => Request::Done { libraries: libraries(found@) },
            Action::Failed { error } => Request::Failed { fault: error@ },
        }
    }
}

/// A candidate that was passed over because its format is not the run's.
#[derive(Debug, PartialEq, Eq)]
pub struct Skipped {
    pub path: String,
    pub found: String,
    pub required: String,
}

/// What one step of a run yields.
#[derive(Debug, PartialEq, Eq)]
pub struct Step {
    /// What the run asks for next.
    pub action: Action,
    /// The candidate that this step passed over for its format, if any.
    pub skipped: Option<Skipped>,
}

/// Where a run stands, with the reason where it has failed.
enum Standing {
    Seeds,
    Search,
    Done,
    Failed { error: ResolveError },
}

impl Standing {
    spec fn phase(self) -> Phase {
        match self {
            Standing::Seeds => Phase::Seeds,
            Standing::Search => Phase::Search,
            Standing::Done => Phase::Done,
            Standing::Failed { error } => Phase::Failed,
        }
    }
}

/// A resolution run.
pub struct Resolver {
    seeds: Vec<String>,
    system: Vec<String>,
    system_keys: Vec<String>,
    root: SearchRoot,
    standing: Standing,
    format: String,
    seed: usize,
    names: Vec<String>,
    keys: Vec<String>,
    paths: Vec<String>,
    probes: Vec<String>,
    probe: usize,
}

/// Takes the imports of one file into `names`, keeping `keys` in step.
fn take_in(
    names: &mut Vec<String>,
    keys: &mut Vec<String>,
    system: &Vec<String>,
    system_keys: &Vec<String>,
    imports: &Vec<String>,
)
    requires
        texts(old(keys)@) == lowercased(texts(old(names)@)),
        texts(system_keys@) == lowercased(texts(system@)),
    ensures
        texts(final(names)@) == admitted(texts(old(names)@), texts(system@), texts(imports@)),
        texts(final(keys)@) == lowercased(texts(final(names)@)),
{
    let ghost before = texts(names@);
    let ghost sys = texts(system@);
    let mut i: usize = 0;
    assert(texts(imports@).take(0) =~= Seq::<Seq<char>>::empty());
    while i < imports.len()
        invariant
            i <= imports@.len(),
            texts(system_keys@) == lowercased(sys),
            sys == texts(system@),
            texts(names@) == admitted(before, sys, texts(imports@).take(i as int)),
            texts(keys@) == lowercased(texts(names@)),
        decreases imports@.len() - i,
    {
        let import = &imports[i];
        let key = lowercase(import.as_str());
        proof {
            let upto = texts(imports@).take(i + 1);
            assert(upto.drop_last() =~= texts(imports@).take(i as int));
            assert(upto.last() == import@);
            listed_by_key(sys, import@);
            listed_by_key(texts(names@), import@);
        }
        if !holds(system_keys, key.as_str()) && !holds(keys, key.as_str()) {
            let ghost names0 = texts(names@);
            let ghost keys0 = texts(keys@);
            let ghost key0 = key@;
            names.push(import.clone());
            keys.push(key);
            assert(texts(names@) =~= names0.push(import@));
            assert(texts(keys@) =~= keys0.push(key0));
            assert forall|k: int| 0 <= k < keys@.len() implies texts(keys@)[k] == lowercase_of(
                texts(names@)[k],
            ) by {
                if k < keys0.len() {
                    assert(keys0[k] == lowercased(names0)[k]);
                }
            }
            assert(texts(keys@) =~= lowercased(texts(names@)));
        }
        i += 1;
    }
    assert(texts(imports@).take(imports@.len() as int) =~= texts(imports@));
}

impl View for Resolver {
    type V = Model;

    closed spec fn view(&self) -> Model {
        Model {
            seeds: texts(self.seeds@),
            system: texts(self.system@),
            root: self.root@,
            phase: self.standing.phase(),
            format: self.format@,
            seed: self.seed as int,
            names: texts(self.names@),
            paths: texts(self.paths@),
            probe: self.probe as int,
            fault: match self.standing {
                Standing::Failed { error } => Some(error@),
                _ => None,
            },
        }
    }
}

impl Resolver {
    /// The run is in a state that a run can reach.
    pub closed spec fn wf(&self) -> bool {
        &&& well_formed(self@)
        &&& texts(self.keys@) == lowercased(texts(self.names@))
        &&& texts(self.system_keys@) == lowercased(texts(self.system@))
        &&& self@.phase == Phase::Search ==> texts(self.probes@) == probes(self@)
    }

    /// A reachable state is well formed.
    pub proof fn wf_is_well_formed(&self)
        requires
            self.wf(),
        ensures
            well_formed(self@),
    {
    }

    /// Begins a run on the given seed artifacts.
    pub fn new(seeds: Vec<String>, system: Vec<String>, root: SearchRoot) -> (run: Resolver)
        ensures
            run.wf(),
            run@ == start(texts(seeds@), texts(system@), root@),
    {
        let system_keys = lowercase_all(&system);
        let mut run = Resolver {
            seeds,
            system,
            system_keys,
            root,
            standing: Standing::Seeds,
            format: String::new(),
            seed: 0,
            names: Vec::new(),
            keys: Vec::new(),
            paths: Vec::new(),
            probes: Vec::new(),
            probe: 0,
        };
        assert(texts(run.names@) =~= Seq::<Seq<char>>::empty());
        assert(texts(run.paths@) =~= Seq::<Seq<char>>::empty());
        assert(texts(run.keys@) =~= lowercased(texts(run.names@)));
        if run.seeds.len() == 0 {
            run.standing = Standing::Done;
        }
        proof {
            start_is_well_formed(texts(seeds@), texts(system@), root@);
        }
        run
    }

    /// Moves on once the seeds are inspected or a name is resolved.
    fn settle(&mut self)
        requires
            old(self).paths@.len() <= old(self).names@.len(),
            old(self)@.fault is None,
        ensures
            final(self)@ == settled(old(self)@),
            final(self).keys == old(self).keys,
            final(self).system_keys == old(self).system_keys,
            final(self)@.phase == Phase::Search ==> texts(final(self).probes@) == probes(final(self)@),
    {
        if self.paths.len() >= self.names.len() {
            self.standing = Standing::Done;
        } else {
            let name = &self.names[self.paths.len()];
            let found = candidates(name.as_str(), &self.root);
            if found.len() == 0 {
                self.standing = Standing::Failed {
                    error: ResolveError::UnresolvedDependency { name: name.clone() },
                };
            } else {
                self.probes = found;
                self.probe = 0;
                self.standing = Standing::Search;
            }
        }
    }

    /// Gives up on the current candidate: the next one is probed, or the
    /// run fails when there is none.
    fn reject(&mut self)
        requires
            old(self).wf(),
            old(self)@.phase == Phase::Search,
        ensures
            final(self).wf(),
            final(self)@ == (if old(self)@.probe + 1 < probes(old(self)@).len() {
                Model { probe: old(self)@.probe + 1, ..old(self)@ }
            } else {
                crate::model::failed(
                    old(self)@,
                    crate::error::ResolveFault::UnresolvedDependency { name: wanted(old(self)@) },
                )
            }),
    {
        let count = self.probes.len();
        assert(self.probe < texts(self.probes@).len());
        if self.probe + 1 < count {
            self.probe = self.probe + 1;
        } else {
            let name = self.names[self.paths.len()].clone();
            self.standing = Standing::Failed { error: ResolveError::UnresolvedDependency { name } };
        }
    }

    /// Takes the answer to the pending inspection and moves the run on.
    ///
    /// A seed that cannot be inspected, or whose format is not the run's,
    /// fails the run. A candidate that cannot be inspected, or whose format
    /// is not the run's, is passed over; the name is unresolved, and the run
    /// fails, when its last candidate is passed over. A run that is done or
    /// failed stays as it is.
    pub fn step(&mut self, outcome: Result<(String, Vec<String>), InspectionError>) -> (step: Step)
        requires
            old(self).wf(),
        ensures
            final(self).wf(),
            final(self)@ == next(old(self)@, outcome_view(outcome)),
            step.action@ == pending(final(self)@),
            match step.skipped {
                Some(skip) => skipped(old(self)@, outcome_view(outcome)) == Some((skip.path@, skip.found@))
                    && skip.required@ == old(self)@.format,
                None => skipped(old(self)@, outcome_view(outcome)) is None,
            },
    {
        let ghost before = self@;
        let ghost answer = outcome_view(outcome);
        let mut skip: Option<Skipped> = None;
        proof {
            next_is_well_formed(before, answer);
        }
        match &self.standing {
            Standing::Seeds => {
                match outcome {
                    Err(error) => {
                        let path = self.seeds[self.seed].clone();
                        self.standing = Standing::Failed { error: ResolveError::Inspection { path, error } };
                    },
                    Ok((format, imports)) => {
                        match establish(self.format.as_str(), format.as_str()) {
                            None => {
                                let required = self.format.clone();
                                self.standing = Standing::Failed {
                                    error: ResolveError::FormatMismatch { found: format, required },
                                };
                            },
                            Some(tag) => {
                                self.format = tag;
                                take_in(
                                    &mut self.names,
                                    &mut self.keys,
                                    &self.system,
                                    &self.system_keys,
                                    &imports,
                                );
                                let count = self.seeds.len();
                                assert(self.seed < texts(self.seeds@).len());
                                self.seed = self.seed + 1;
                                if self.seed >= count {
                                    proof {
                                        admitted_properties(before.names, before.system, texts(imports@));
                                    }
                                    self.settle();
                                }
                            },
                        }
                    },
                }
            },
            Standing::Search => {
                match outcome {
                    Err(_) => {
                        self.reject();
                    },
                    Ok((format, imports)) => {
                        if crate::format::matches(self.format.as_str(), format.as_str()) {
                            self.paths.push(self.probes[self.probe].clone());
                            assert(texts(self.paths@) =~= before.paths.push(probes(before)[before.probe]));
                            take_in(&mut self.names, &mut self.keys, &self.system, &self.system_keys, &imports);
                            proof {
                                admitted_properties(before.names, before.system, texts(imports@));
                            }
                            self.settle();
                        } else {
                            skip = Some(
                                Skipped {
                                    path: self.probes[self.probe].clone(),
                                    found: format,
                                    required: self.format.clone(),
                                },
                            );
                            self.reject();
                        }
                    },
                }
            },
            Standing::Done => {},
            Standing::Failed { error } => {},
        }
        let action = self.action();
        Step { action, skipped: skip }
    }

    /// What the run asks for now.
    pub fn action(&self) -> (action: Action)
        requires
            self.wf(),
        ensures
            action@ == pending(self@),
    {
        match &self.standing {
            Standing::Seeds => Action::Inspect { path: self.seeds[self.seed].clone() },
            Standing::Search => Action::Inspect { path: self.probes[self.probe].clone() },
            Standing::Done => {
                let mut found: Vec<ResolvedLibrary> = Vec::new();
                let mut i: usize = 0;
                while i < self.paths.len()
                    invariant
                        i <= self.paths@.len() <= self.names@.len(),
                        found@.len() == i,
                        forall|k: int|
                            0 <= k < i ==> (#[trigger] found@[k])@ == (Library {
                                name: self.names@[k]@,
                                path: self.paths@[k]@,
                            }),
                    decreases self.paths@.len() - i,
                {
                    found.push(ResolvedLibrary { name: self.names[i].clone(), path: self.paths[i].clone() });
                    i += 1;
                }
                assert(libraries(found@) =~= paired(self@.names, self@.paths));
                Action::Done { libraries: found }
            },
            Standing::Failed { error } => Action::Failed { error: error.duplicate() },
        }
    }
}

} // verus!
