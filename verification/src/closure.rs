//! The closure of a set of seed artifacts over a catalog of binaries.
//!
//! A catalog says, for each path it lists, what an inspection of the file
//! there reports; a path it does not list holds no file. Over a catalog a
//! run needs no caller: every inspection is answered from the catalog, and
//! the run ends after finitely many of them, whatever the imports are.

use vstd::prelude::*;
use vstd::string::*;
use crate::error::{outcome_view, InspectionError, InspectionFault, ResolveError, ResolveFault};
use crate::model::{
    admitted, admitted_properties, next, next_is_well_formed, paired, pending, probes, start, wanted,
    well_formed, Library, Model, Outcome, Phase, Request,
};
use crate::names::{listed, same_name};
use crate::resolver::{libraries, Action, ResolvedLibrary, Resolver};
use crate::search::{candidate_paths, Roots, SearchRoot};
use crate::text::{same_text, texts};

verus! {

/// A binary as a catalog lists it, as a mathematical value.
pub struct Entry {
    pub path: Seq<char>,
    pub format: Seq<char>,
    pub imports: Seq<Seq<char>>,
}

/// A binary as a catalog lists it: where it lies and what an inspection of
/// it reports.
#[derive(Debug, PartialEq, Eq)]
pub struct Binary {
    pub path: String,
    pub format: String,
    pub imports: Vec<String>,
}

impl View for Binary {
    type V = Entry;

    open spec fn view(&self) -> Entry {
        Entry { path: self.path@, format: self.format@, imports: texts(self.imports@) }
    }
}

/// The entries that a sequence of binaries holds, one for one.
pub open spec fn entries(v: Seq<Binary>) -> Seq<Entry> {
    Seq::new(v.len(), |i: int| v[i]@)
}

/// What the first entry at or after `from` that lies at `path` reports;
/// `NotFound` when there is none.
pub open spec fn found(catalog: Seq<Entry>, path: Seq<char>, from: int) -> Outcome
    decreases catalog.len() - from,
{
    if from < 0 || from >= catalog.len() {
        Err(InspectionFault::NotFound)
    } else if catalog[from].path == path {
        Ok((catalog[from].format, catalog[from].imports))
    } else {
        found(catalog, path, from + 1)
    }
}

/// What an inspection of `path` yields over `catalog`.
pub open spec fn answer(catalog: Seq<Entry>, path: Seq<char>) -> Outcome {
    found(catalog, path, 0)
}

/// Every import that the first `upto` entries of the catalog report, entry
/// by entry.
pub open spec fn all_imports(catalog: Seq<Entry>, upto: int) -> Seq<Seq<char>>
    decreases upto,
{
    if upto <= 0 || upto > catalog.len() {
        Seq::empty()
    } else {
        all_imports(catalog, upto - 1) + catalog[upto - 1].imports
    }
}

/// How many imports the catalog reports in all.
pub open spec fn import_count(catalog: Seq<Entry>) -> int {
    all_imports(catalog, catalog.len() as int).len() as int
}

/// The run is over.
pub open spec fn over(m: Model) -> bool {
    m.phase == Phase::Done || m.phase == Phase::Failed
}

/// The state after the pending inspection was answered from the catalog. A
/// run that is over stays as it is.
pub open spec fn advance(m: Model, catalog: Seq<Entry>) -> Model {
    match pending(m) {
        Request::Inspect { path } => next(m, answer(catalog, path)),
        _ => m,
    }
}

/// The state after `steps` inspections were answered from the catalog.
pub open spec fn run(m: Model, catalog: Seq<Entry>, steps: nat) -> Model
    decreases steps,
{
    if steps == 0 {
        m
    } else {
        advance(run(m, catalog, (steps - 1) as nat), catalog)
    }
}

/// Every admitted name is an import that the catalog reports.
pub open spec fn within(m: Model, catalog: Seq<Entry>) -> bool {
    forall|i: int|
        0 <= i < m.names.len() ==> all_imports(catalog, catalog.len() as int).contains(#[trigger] m.names[i])
}

/// The seeds that are still to be inspected.
pub open spec fn seeds_left(m: Model) -> int {
    m.seeds.len() - m.seed
}

/// Twice the imports of the catalog, less the names admitted and the names
/// resolved: what bounds the names that can still be admitted or resolved.
pub open spec fn names_left(m: Model, catalog: Seq<Entry>) -> int {
    2 * import_count(catalog) - m.names.len() - m.paths.len()
}

/// The candidates of the wanted name that are still to be inspected.
pub open spec fn probes_left(m: Model) -> int {
    if m.phase == Phase::Search {
        probes(m).len() - m.probe
    } else {
        0
    }
}

/// What an answer from the catalog reports is an entry of the catalog.
pub proof fn found_is_listed(catalog: Seq<Entry>, path: Seq<char>, from: int)
    requires
        0 <= from,
    ensures
        match found(catalog, path, from) {
            Ok((format, imports)) => exists|k: int|
                from <= k < catalog.len() && (#[trigger] catalog[k]).path == path && catalog[k].format
                    == format && catalog[k].imports == imports,
            Err(fault) => fault == InspectionFault::NotFound && forall|k: int|
                from <= k < catalog.len() ==> (#[trigger] catalog[k]).path != path,
        },
    decreases catalog.len() - from,
{
    if from < catalog.len() && catalog[from].path != path {
        found_is_listed(catalog, path, from + 1);
    }
}

/// The imports of every entry are among all imports of the catalog.
pub proof fn imports_are_counted(catalog: Seq<Entry>, upto: int, k: int, j: int)
    requires
        0 <= k < upto <= catalog.len(),
        0 <= j < catalog[k].imports.len(),
    ensures
        all_imports(catalog, upto).contains(catalog[k].imports[j]),
    decreases upto,
{
    let before = all_imports(catalog, upto - 1);
    let all = all_imports(catalog, upto);
    if k == upto - 1 {
        assert(all[before.len() + j] == catalog[k].imports[j]);
    } else {
        imports_are_counted(catalog, upto - 1, k, j);
        let i = choose|i: int| 0 <= i < before.len() && before[i] == catalog[k].imports[j];
        assert(all[i] == catalog[k].imports[j]);
    }
}

/// No more names are admitted than the catalog reports imports.
pub proof fn names_are_bounded(m: Model, catalog: Seq<Entry>)
    requires
        well_formed(m),
        within(m, catalog),
    ensures
        m.paths.len() <= m.names.len() <= import_count(catalog),
{
    let all = all_imports(catalog, catalog.len() as int);
    assert(m.names.no_duplicates()) by {
        assert forall|i: int, j: int| 0 <= i < m.names.len() && 0 <= j < m.names.len() && i != j implies m.names[i]
            != m.names[j] by {
            if i < j {
                assert(!same_name(m.names[i], m.names[j]));
            } else {
                assert(!same_name(m.names[j], m.names[i]));
            }
        }
    }
    m.names.unique_seq_to_set();
    all.lemma_cardinality_of_set();
    vstd::seq_lib::seq_to_set_is_finite(all);
    assert(m.names.to_set().subset_of(all.to_set())) by {
        assert forall|x: Seq<char>| m.names.to_set().contains(x) implies all.to_set().contains(x) by {
            let i = choose|i: int| 0 <= i < m.names.len() && m.names[i] == x;
            assert(all.contains(m.names[i]));
        }
    }
    vstd::set_lib::lemma_len_subset(m.names.to_set(), all.to_set());
}

/// Answering from the catalog keeps every admitted name among the imports
/// that the catalog reports.
pub proof fn advance_stays_within(m: Model, catalog: Seq<Entry>)
    requires
        well_formed(m),
        within(m, catalog),
    ensures
        well_formed(advance(m, catalog)),
        within(advance(m, catalog), catalog),
{
    if let Request::Inspect { path } = pending(m) {
        let outcome = answer(catalog, path);
        next_is_well_formed(m, outcome);
        found_is_listed(catalog, path, 0);
        if let Ok((format, imports)) = outcome {
            let k = choose|k: int|
                0 <= k < catalog.len() && (#[trigger] catalog[k]).path == path && catalog[k].format == format
                    && catalog[k].imports == imports;
            let all = all_imports(catalog, catalog.len() as int);
            let grown = admitted(m.names, m.system, imports);
            admitted_properties(m.names, m.system, imports);
            assert forall|i: int| 0 <= i < grown.len() implies all.contains(#[trigger] grown[i]) by {
                if i < m.names.len() {
                    assert(grown[i] == grown.take(m.names.len() as int)[i]);
                    assert(all.contains(m.names[i]));
                } else {
                    let j = choose|j: int| 0 <= j < imports.len() && imports[j] == grown[i];
                    imports_are_counted(catalog, catalog.len() as int, k, j);
                }
            }
        }
    }
}

/// Every answer from the catalog brings a run that is not over nearer to
/// its end: a seed less is left; or as many seeds, and fewer names; or as
/// many of both, and fewer candidates.
pub proof fn advance_comes_nearer(m: Model, catalog: Seq<Entry>)
    requires
        well_formed(m),
        within(m, catalog),
        !over(m),
    ensures
        ({
            let after = advance(m, catalog);
            &&& 0 <= seeds_left(after)
            &&& 0 <= names_left(after, catalog)
            &&& 0 <= probes_left(after)
            &&& over(after) || seeds_left(after) < seeds_left(m) || (seeds_left(after) == seeds_left(m) && (
                names_left(after, catalog) < names_left(m, catalog) || (names_left(after, catalog)
                    == names_left(m, catalog) && probes_left(after) < probes_left(m))))
        }),
{
    let after = advance(m, catalog);
    advance_stays_within(m, catalog);
    names_are_bounded(m, catalog);
    names_are_bounded(after, catalog);
    if let Request::Inspect { path } = pending(m) {
        if let Ok((format, imports)) = answer(catalog, path) {
            admitted_properties(m.names, m.system, imports);
        }
    }
}

/// The catalog lists at `path` a file of the given format.
pub open spec fn accepts(catalog: Seq<Entry>, format: Seq<char>, path: Seq<char>) -> bool {
    answer(catalog, path) matches Ok((tag, _)) && tag == format
}

/// The names that the file at `path` imports; none where there is no file.
pub open spec fn imports_at(catalog: Seq<Entry>, path: Seq<char>) -> Seq<Seq<char>> {
    match answer(catalog, path) {
        Ok((_, imports)) => imports,
        Err(_) => Seq::empty(),
    }
}

/// Each of `imports` is a system library or an admitted name.
pub open spec fn covered(m: Model, imports: Seq<Seq<char>>) -> bool {
    forall|k: int| 0 <= k < imports.len() ==> listed(m.system, #[trigger] imports[k]) || listed(m.names, imports[k])
}

/// None of the first `upto` candidates of `name` is accepted.
pub open spec fn passed_over(m: Model, catalog: Seq<Entry>, name: Seq<char>, upto: int) -> bool {
    forall|k: int| 0 <= k < upto ==> !accepts(catalog, m.format, #[trigger] candidate_paths(name, m.root)[k])
}

/// The path of the `i`-th name is the first of its candidates that is
/// accepted.
pub open spec fn first_match(m: Model, catalog: Seq<Entry>, i: int) -> bool {
    exists|at: int|
        0 <= at < candidate_paths(m.names[i], m.root).len() && #[trigger] candidate_paths(m.names[i], m.root)[at]
            == m.paths[i] && accepts(catalog, m.format, m.paths[i]) && passed_over(m, catalog, m.names[i], at)
}

/// The `s`-th seed was inspected, its format is the run's or empty, and its
/// imports are covered.
pub open spec fn seed_in_order(m: Model, catalog: Seq<Entry>, s: int) -> bool {
    answer(catalog, m.seeds[s]) matches Ok((tag, imports)) && (tag == m.format || tag.len() == 0) && covered(
        m,
        imports,
    )
}

/// The `i`-th name is imported by an inspected seed or by a library that
/// was resolved before it.
pub open spec fn needed(m: Model, catalog: Seq<Entry>, i: int) -> bool {
    ||| exists|s: int| 0 <= s < m.seed && (#[trigger] imports_at(catalog, m.seeds[s])).contains(m.names[i])
    ||| exists|j: int|
        0 <= j < i && j < m.paths.len() && (#[trigger] imports_at(catalog, m.paths[j])).contains(m.names[i])
}

/// The reason for which the run failed is true of the catalog.
pub open spec fn truthful(m: Model, catalog: Seq<Entry>) -> bool {
    match m.fault {
        Some(ResolveFault::Inspection { path, fault }) => {
            &&& m.seed < m.seeds.len()
            &&& path == m.seeds[m.seed]
            &&& answer(catalog, path) == Err::<(Seq<char>, Seq<Seq<char>>), InspectionFault>(fault)
        },
        Some(ResolveFault::FormatMismatch { found, required }) => {
            &&& m.seed < m.seeds.len()
            &&& required == m.format
            &&& required.len() > 0
            &&& found != required
            &&& accepts(catalog, found, m.seeds[m.seed])
        },
        Some(ResolveFault::UnresolvedDependency { name }) => {
            &&& m.seed == m.seeds.len()
            &&& m.paths.len() < m.names.len()
            &&& name == wanted(m)
            &&& passed_over(m, catalog, name, probes(m).len() as int)
        },
        None => false,
    }
}

/// What a run over a catalog has established in state `m`: the seeds
/// inspected so far agree on the format; every resolved name lies at the
/// first of its candidates that the catalog accepts, and what that file
/// imports is covered; every admitted name is needed; the candidates tried
/// for the wanted name were not acceptable; and a failure is truthful.
pub open spec fn sound(m: Model, catalog: Seq<Entry>) -> bool {
    &&& forall|s: int| 0 <= s < m.seed ==> #[trigger] seed_in_order(m, catalog, s)
    &&& forall|i: int| 0 <= i < m.paths.len() ==> #[trigger] first_match(m, catalog, i)
    &&& forall|i: int| 0 <= i < m.paths.len() ==> covered(m, #[trigger] imports_at(catalog, m.paths[i]))
    &&& forall|i: int| 0 <= i < m.names.len() ==> #[trigger] needed(m, catalog, i)
    &&& m.phase == Phase::Search ==> passed_over(m, catalog, wanted(m), m.probe)
    &&& m.phase == Phase::Failed ==> truthful(m, catalog)
}

/// A name that is listed stays listed when names are added behind.
pub proof fn listed_grows(names: Seq<Seq<char>>, grown: Seq<Seq<char>>, name: Seq<char>)
    requires
        names.len() <= grown.len(),
        grown.take(names.len() as int) == names,
        listed(names, name),
    ensures
        listed(grown, name),
{
    let i = choose|i: int| 0 <= i < names.len() && same_name(#[trigger] names[i], name);
    assert(grown[i] == grown.take(names.len() as int)[i]);
    assert(same_name(grown[i], name));
}

/// Imports that are covered stay covered when names are admitted.
pub proof fn covered_grows(m: Model, after: Model, imports: Seq<Seq<char>>)
    requires
        after.system == m.system,
        m.names.len() <= after.names.len(),
        after.names.take(m.names.len() as int) == m.names,
        covered(m, imports),
    ensures
        covered(after, imports),
{
    assert forall|k: int| 0 <= k < imports.len() implies listed(after.system, #[trigger] imports[k]) || listed(
        after.names,
        imports[k],
    ) by {
        if listed(m.names, imports[k]) {
            listed_grows(m.names, after.names, imports[k]);
        }
    }
}

/// What was established of seeds, paths and names holds on in a state that
/// differs in none of them.
proof fn sound_carries(m: Model, after: Model, catalog: Seq<Entry>)
    requires
        sound(m, catalog),
        after.seeds == m.seeds,
        after.system == m.system,
        after.root == m.root,
        after.format == m.format,
        after.seed == m.seed,
        after.names == m.names,
        after.paths == m.paths,
    ensures
        forall|s: int| 0 <= s < after.seed ==> #[trigger] seed_in_order(after, catalog, s),
        forall|i: int| 0 <= i < after.paths.len() ==> #[trigger] first_match(after, catalog, i),
        forall|i: int| 0 <= i < after.paths.len() ==> covered(after, #[trigger] imports_at(catalog, after.paths[i])),
        forall|i: int| 0 <= i < after.names.len() ==> #[trigger] needed(after, catalog, i),
{
    assert forall|s: int| 0 <= s < after.seed implies #[trigger] seed_in_order(after, catalog, s) by {
        assert(seed_in_order(m, catalog, s));
    }
    assert forall|i: int| 0 <= i < after.paths.len() implies #[trigger] first_match(after, catalog, i) by {
        assert(first_match(m, catalog, i));
    }
    assert forall|i: int| 0 <= i < after.names.len() implies #[trigger] needed(after, catalog, i) by {
        assert(needed(m, catalog, i));
    }
}

/// Answering from the catalog keeps what the run has established.
pub proof fn advance_stays_sound(m: Model, catalog: Seq<Entry>)
    requires
        well_formed(m),
        sound(m, catalog),
    ensures
        sound(advance(m, catalog), catalog),
{
    let after = advance(m, catalog);
    if let Request::Inspect { path } = pending(m) {
        let outcome = answer(catalog, path);
        next_is_well_formed(m, outcome);
        match outcome {
            Ok((format, imports)) => {
                admitted_properties(m.names, m.system, imports);
                let grown = admitted(m.names, m.system, imports);
                if !(after.names == grown) {
                    sound_carries(m, after, catalog);
                } else {
                    assert forall|s: int| 0 <= s < after.seed implies #[trigger] seed_in_order(after, catalog, s) by {
                        if s < m.seed {
                            assert(seed_in_order(m, catalog, s));
                            covered_grows(m, after, answer(catalog, m.seeds[s])->Ok_0.1);
                        } else {
                            assert(covered(after, imports));
                        }
                    }
                    assert forall|i: int| 0 <= i < after.paths.len() implies #[trigger] first_match(
                        after,
                        catalog,
                        i,
                    ) by {
                        assert(after.names[i] == grown.take(m.names.len() as int)[i]);
                        if i < m.paths.len() {
                            assert(first_match(m, catalog, i));
                            assert(after.paths[i] == m.paths[i]);
                        } else {
                            assert(candidate_paths(after.names[i], after.root)[m.probe] == after.paths[i]);
                        }
                    }
                    assert forall|i: int| 0 <= i < after.paths.len() implies covered(
                        after,
                        #[trigger] imports_at(catalog, after.paths[i]),
                    ) by {
                        if i < m.paths.len() {
                            assert(after.paths[i] == m.paths[i]);
                            covered_grows(m, after, imports_at(catalog, m.paths[i]));
                        } else {
                            assert(covered(after, imports));
                        }
                    }
                    assert forall|i: int| 0 <= i < after.names.len() implies #[trigger] needed(after, catalog, i) by {
                        if i < m.names.len() {
                            assert(after.names[i] == grown.take(m.names.len() as int)[i]);
                            assert(needed(m, catalog, i));
                            if exists|s: int|
                                0 <= s < m.seed && (#[trigger] imports_at(catalog, m.seeds[s])).contains(m.names[i]) {
                                let s = choose|s: int|
                                    0 <= s < m.seed && (#[trigger] imports_at(catalog, m.seeds[s])).contains(
                                        m.names[i],
                                    );
                                assert(imports_at(catalog, after.seeds[s]).contains(after.names[i]));
                            } else {
                                let j = choose|j: int|
                                    0 <= j < i && j < m.paths.len() && (#[trigger] imports_at(
                                        catalog,
                                        m.paths[j],
                                    )).contains(m.names[i]);
                                assert(after.paths[j] == m.paths[j]);
                                assert(imports_at(catalog, after.paths[j]).contains(after.names[i]));
                            }
                        } else {
                            assert(imports.contains(after.names[i]));
                            if m.phase == Phase::Seeds {
                                assert(imports_at(catalog, after.seeds[m.seed]).contains(after.names[i]));
                            } else {
                                let j = m.paths.len() as int;
                                assert(imports_at(catalog, after.paths[j]).contains(after.names[i]));
                            }
                        }
                    }
                }
            },
            Err(_) => {
                sound_carries(m, after, catalog);
            },
        }
    } else {
        sound_carries(m, after, catalog);
    }
}

/// Every run over a catalog begins with nothing established falsely.
pub proof fn start_is_sound(seeds: Seq<Seq<char>>, system: Seq<Seq<char>>, root: Roots, catalog: Seq<Entry>)
    ensures
        well_formed(start(seeds, system, root)),
        within(start(seeds, system, root), catalog),
        sound(start(seeds, system, root), catalog),
{
}

/// After any number of answers from the catalog the run is in a
/// well-formed state and what it has established is true of the catalog.
pub proof fn run_is_sound(
    seeds: Seq<Seq<char>>,
    system: Seq<Seq<char>>,
    root: Roots,
    catalog: Seq<Entry>,
    steps: nat,
)
    ensures
        well_formed(run(start(seeds, system, root), catalog, steps)),
        within(run(start(seeds, system, root), catalog, steps), catalog),
        sound(run(start(seeds, system, root), catalog, steps), catalog),
    decreases steps,
{
    if steps == 0 {
        start_is_sound(seeds, system, root, catalog);
    } else {
        let before = run(start(seeds, system, root), catalog, (steps - 1) as nat);
        run_is_sound(seeds, system, root, catalog, (steps - 1) as nat);
        advance_stays_within(before, catalog);
        advance_stays_sound(before, catalog);
    }
}

/// A run that is over stays as it is, whatever is answered further.
pub proof fn run_stays_over(m: Model, catalog: Seq<Entry>, steps: nat, more: nat)
    requires
        over(run(m, catalog, steps)),
    ensures
        run(m, catalog, steps + more) == run(m, catalog, steps),
    decreases more,
{
    if more > 0 {
        run_stays_over(m, catalog, steps, (more - 1) as nat);
        assert(run(m, catalog, steps + more) == advance(run(m, catalog, (steps + more - 1) as nat), catalog));
    }
}

/// A run ends in one state only: however many answers two runs over the
/// same catalog took from the same state, once both are over they are in
/// the same state, and so hand out the same libraries or the same failure.
pub proof fn run_ends_in_one_state(m: Model, catalog: Seq<Entry>, one: nat, other: nat)
    requires
        over(run(m, catalog, one)),
        over(run(m, catalog, other)),
    ensures
        run(m, catalog, one) == run(m, catalog, other),
{
    if one <= other {
        run_stays_over(m, catalog, one, (other - one) as nat);
        assert(one + (other - one) as nat == other);
    } else {
        run_stays_over(m, catalog, other, (one - other) as nat);
        assert(other + (one - other) as nat == one);
    }
}

/// Answering once and then `steps` times is answering `steps + 1` times.
pub proof fn run_from_next(m: Model, catalog: Seq<Entry>, steps: nat)
    ensures
        run(advance(m, catalog), catalog, steps) == run(m, catalog, steps + 1),
    decreases steps,
{
    if steps > 0 {
        run_from_next(m, catalog, (steps - 1) as nat);
        assert(run(m, catalog, steps + 1) == advance(run(m, catalog, steps), catalog));
    } else {
        assert(run(m, catalog, 1) == advance(run(m, catalog, 0), catalog));
    }
}

/// From every well-formed state whose names the catalog reports, the run
/// is over after finitely many answers: cycles and repeated imports among
/// the binaries do not keep it going.
pub proof fn run_ends_from(m: Model, catalog: Seq<Entry>) -> (steps: nat)
    requires
        well_formed(m),
        within(m, catalog),
    ensures
        over(run(m, catalog, steps)),
    decreases seeds_left(m), names_left(m, catalog), probes_left(m),
{
    if over(m) {
        0
    } else if over(advance(m, catalog)) {
        run_from_next(m, catalog, 0);
        1
    } else {
        advance_comes_nearer(m, catalog);
        advance_stays_within(m, catalog);
        let rest = run_ends_from(advance(m, catalog), catalog);
        run_from_next(m, catalog, rest);
        rest + 1
    }
}

/// Every run over a catalog ends: for all seeds, system libraries, search
/// roots and catalogs there is a number of answers after which it is over.
pub proof fn run_ends(seeds: Seq<Seq<char>>, system: Seq<Seq<char>>, root: Roots, catalog: Seq<Entry>)
    ensures
        exists|steps: nat| over(#[trigger] run(start(seeds, system, root), catalog, steps)),
{
    start_is_sound(seeds, system, root, catalog);
    let steps = run_ends_from(start(seeds, system, root), catalog);
    assert(over(run(start(seeds, system, root), catalog, steps)));
}

/// The view of what a run hands back in the end.
pub open spec fn result_view(result: Result<Vec<ResolvedLibrary>, ResolveError>) -> Result<
    Seq<Library>,
    ResolveFault,
> {
    match result {
        Ok(found) => Ok(libraries(found@)),
        Err(error) => Err(error@),
    }
}

/// The run is over in state `m`, with `result`: done with these libraries,
/// or failed for this reason.
pub open spec fn ends_as(m: Model, result: Result<Seq<Library>, ResolveFault>) -> bool {
    match result {
        Ok(found) => m.phase == Phase::Done && found == paired(m.names, m.paths),
        Err(fault) => m.phase == Phase::Failed && m.fault == Some(fault),
    }
}

/// A copy of a list of names.
fn copy_names(names: &Vec<String>) -> (copy: Vec<String>)
    ensures
        texts(copy@) == texts(names@),
{
    let mut copy: Vec<String> = Vec::new();
    let mut i: usize = 0;
    while i < names.len()
        invariant
            i <= names@.len(),
            copy@.len() == i,
            forall|k: int| 0 <= k < i ==> (#[trigger] copy@[k])@ == names@[k]@,
        decreases names@.len() - i,
    {
        copy.push(names[i].clone());
        i += 1;
    }
    assert(texts(copy@) =~= texts(names@));
    copy
}

/// Looks `path` up in the catalog: the report of the first binary listed
/// there, or `NotFound`.
pub fn inspect(catalog: &Vec<Binary>, path: &str) -> (outcome: Result<(String, Vec<String>), InspectionError>)
    ensures
        outcome_view(outcome) == answer(entries(catalog@), path@),
{
    let mut i: usize = 0;
    while i < catalog.len()
        invariant
            i <= catalog@.len(),
            answer(entries(catalog@), path@) == found(entries(catalog@), path@, i as int),
        decreases catalog@.len() - i,
    {
        let binary = &catalog[i];
        assert(entries(catalog@)[i as int] == binary@);
        if same_text(binary.path.as_str(), path) {
            return Ok((binary.format.clone(), copy_names(&binary.imports)));
        }
        i += 1;
    }
    Err(InspectionError::NotFound)
}

/// Resolves the libraries that the seed artifacts need, over a catalog.
///
/// The result is what the run ends with when every inspection is answered
/// from the catalog, and every call returns: the libraries in the order in
/// which their names were admitted, or the reason for which the run failed.
/// Of the state in which the run ended, `well_formed` and `sound` say what
/// holds: no name occurs twice or is a system library, each library lies at
/// the first candidate of its name that the catalog lists with the run's
/// format, the imports of every seed and of every library are system
/// libraries or among the names, and a failure is true of the catalog.
pub fn resolve(seeds: Vec<String>, system: Vec<String>, root: SearchRoot, catalog: &Vec<Binary>) -> (result: Result<
    Vec<ResolvedLibrary>,
    ResolveError,
>)
    ensures
        exists|steps: nat|
            {
                let m = #[trigger] run(start(texts(seeds@), texts(system@), root@), entries(catalog@), steps);
                well_formed(m) && sound(m, entries(catalog@)) && ends_as(m, result_view(result))
            },
{
    let ghost first = start(texts(seeds@), texts(system@), root@);
    let ghost listed = entries(catalog@);
    let ghost mut steps: nat = 0;
    let mut resolver = Resolver::new(seeds, system, root);
    proof {
        start_is_sound(first.seeds, first.system, first.root, listed);
    }
    loop
        invariant
            resolver.wf(),
            listed == entries(catalog@),
            first == start(texts(seeds@), texts(system@), root@),
            resolver@ == run(first, listed, steps),
            well_formed(resolver@),
            within(resolver@, listed),
            sound(resolver@, listed),
        decreases seeds_left(resolver@), names_left(resolver@, listed), probes_left(resolver@),
    {
        let ghost before = resolver@;
        match resolver.action() {
            Action::Inspect { path } => {
                let outcome = inspect(catalog, path.as_str());
                let step = resolver.step(outcome);
                proof {
                    assert(resolver@ == advance(before, listed));
                    advance_stays_within(before, listed);
                    advance_stays_sound(before, listed);
                    advance_comes_nearer(before, listed);
                    steps = steps + 1;
                }
                match step.action {
                    Action::Done { libraries: found } => {
                        return Ok(found);
                    },
                    Action::Failed { error } => {
                        return Err(error);
                    },
                    Action::Inspect { path: _ } => {},
                }
            },
            Action::Done { libraries: found } => {
                return Ok(found);
            },
            Action::Failed { error } => {
                return Err(error);
            },
        }
    }
}

} // verus!
