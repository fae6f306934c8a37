//! The resolution run as a mathematical state machine.
//!
//! A run inspects every seed artifact, then searches a file for each
//! imported name, oldest first, admitting the imports of each file it
//! accepts. What the run asks for next is a function of its state alone,
//! and each answer takes it to exactly one next state.

use vstd::prelude::*;
use crate::error::{InspectionFault, ResolveFault};
use crate::format::{established, tags_match};
use crate::names::{distinct, listed, same_name};
use crate::search::{candidate_paths, Roots};

verus! {

/// Where a run stands.
#[derive(Clone, Copy, Debug, PartialEq, Eq, Structural)]
pub enum Phase {
    /// A seed artifact is being inspected.
    Seeds,
    /// A candidate path of the oldest unresolved name is being inspected.
    Search,
    /// Every admitted name has a path.
    Done,
    /// The run has failed.
    Failed,
}

/// A library and the path at which it was found.
pub struct Library {
    pub name: Seq<char>,
    pub path: Seq<char>,
}

/// What a run asks of its caller.
pub enum Request {
    /// Inspect the file at `path` and hand back what was found.
    Inspect { path: Seq<char> },
    /// The run is complete: these are the libraries, in the order in which
    /// their names were admitted.
    Done { libraries: Seq<Library> },
    /// The run has failed and has no result.
    Failed { fault: ResolveFault },
}

/// What an inspection hands back: format tag and imported names, or a fault.
pub type Outcome = Result<(Seq<char>, Seq<Seq<char>>), InspectionFault>;

/// The state of a run.
pub struct Model {
    /// The seed artifacts.
    pub seeds: Seq<Seq<char>>,
    /// The names of the system libraries.
    pub system: Seq<Seq<char>>,
    /// Where libraries are searched.
    pub root: Roots,
    pub phase: Phase,
    /// The format tag of the run; empty until a seed has reported one.
    pub format: Seq<char>,
    /// How many seeds have been inspected.
    pub seed: int,
    /// Every name admitted so far, oldest first.
    pub names: Seq<Seq<char>>,
    /// The paths found so far: `paths[i]` is where `names[i]` was found.
    pub paths: Seq<Seq<char>>,
    /// Which candidate of the oldest unresolved name is being inspected.
    pub probe: int,
    /// Why the run failed, once it has.
    pub fault: Option<ResolveFault>,
}

/// `names` after the imports of one file were admitted in file order: an
/// import joins at the end unless it is a system library or the same as a
/// name already there.
pub open spec fn admitted(names: Seq<Seq<char>>, system: Seq<Seq<char>>, imports: Seq<Seq<char>>) -> Seq<
    Seq<char>,
>
    decreases imports.len(),
{
    if imports.len() == 0 {
        names
    } else {
        let before = admitted(names, system, imports.drop_last());
        let import = imports.last();
        if listed(system, import) || listed(before, import) {
            before
        } else {
            before.push(import)
        }
    }
}

/// The first `paths.len()` names, each with its path.
pub open spec fn paired(names: Seq<Seq<char>>, paths: Seq<Seq<char>>) -> Seq<Library> {
    Seq::new(paths.len(), |i: int| Library { name: names[i], path: paths[i] })
}

/// The oldest name that has no path yet.
pub open spec fn wanted(m: Model) -> Seq<char> {
    m.names[m.paths.len() as int]
}

/// The candidate paths of the oldest unresolved name, in probe order.
pub open spec fn probes(m: Model) -> Seq<Seq<char>> {
    candidate_paths(wanted(m), m.root)
}

/// What the run asks for in state `m`.
pub open spec fn pending(m: Model) -> Request {
    match m.phase {
        Phase::Seeds => Request::Inspect { path: m.seeds[m.seed] },
        Phase::Search => Request::Inspect { path: probes(m)[m.probe] },
        Phase::Done => Request::Done { libraries: paired(m.names, m.paths) },
        Phase::Failed => Request::Failed { fault: m.fault->0 },
    }
}

/// The state `m`, failed for the given reason.
pub open spec fn failed(m: Model, fault: ResolveFault) -> Model {
    Model { phase: Phase::Failed, fault: Some(fault), ..m }
}

/// The state after the seeds, or after a name was resolved: done when no
/// name is left, failed when the next name has nowhere to be looked for,
/// else probing the next name's first candidate.
pub open spec fn settled(m: Model) -> Model {
    if m.paths.len() >= m.names.len() {
        Model { phase: Phase::Done, ..m }
    } else if probes(m).len() == 0 {
        failed(m, ResolveFault::UnresolvedDependency { name: wanted(m) })
    } else {
        Model { phase: Phase::Search, probe: 0, ..m }
    }
}

/// The state in which a run begins.
pub open spec fn start(seeds: Seq<Seq<char>>, system: Seq<Seq<char>>, root: Roots) -> Model {
    let m = Model {
        seeds,
        system,
        root,
        phase: Phase::Seeds,
        format: Seq::empty(),
        seed: 0,
        names: Seq::empty(),
        paths: Seq::empty(),
        probe: 0,
        fault: None,
    };
    if seeds.len() == 0 {
        settled(m)
    } else {
        m
    }
}

/// A seed's format tag is in order: the run has none yet, or it is the
/// run's own.
pub open spec fn seed_accepted(m: Model, format: Seq<char>) -> bool {
    established(m.format, format) is Some
}

/// A candidate is accepted: it was inspected and its format tag is the
/// run's, letter for letter.
pub open spec fn candidate_accepted(m: Model, outcome: Outcome) -> bool {
    outcome matches Ok((format, _)) && tags_match(m.format, format)
}

/// The state after a seed was inspected.
pub open spec fn after_seed(m: Model, outcome: Outcome) -> Model {
    match outcome {
        Err(fault) => failed(m, ResolveFault::Inspection { path: m.seeds[m.seed], fault }),
        Ok((format, imports)) => {
            if !seed_accepted(m, format) {
                failed(m, ResolveFault::FormatMismatch { found: format, required: m.format })
            } else {
                let m1 = Model {
                    format,
                    names: admitted(m.names, m.system, imports),
                    seed: m.seed + 1,
                    ..m
                };
                if m1.seed < m1.seeds.len() {
                    m1
                } else {
                    settled(m1)
                }
            }
        },
    }
}

/// The state after a candidate was inspected.
pub open spec fn after_probe(m: Model, outcome: Outcome) -> Model {
    if candidate_accepted(m, outcome) {
        settled(
            Model {
                names: admitted(m.names, m.system, outcome->Ok_0.1),
                paths: m.paths.push(probes(m)[m.probe]),
                ..m
            },
        )
    } else if m.probe + 1 < probes(m).len() {
        Model { probe: m.probe + 1, ..m }
    } else {
        failed(m, ResolveFault::UnresolvedDependency { name: wanted(m) })
    }
}

/// The state that follows `m` when the pending inspection is answered with
/// `outcome`. A run that is done or failed stays as it is.
pub open spec fn next(m: Model, outcome: Outcome) -> Model {
    match m.phase {
        Phase::Seeds => after_seed(m, outcome),
        Phase::Search => after_probe(m, outcome),
        Phase::Done => m,
        Phase::Failed => m,
    }
}

/// The candidate that was rejected for its format alone, if the answer
/// `outcome` in state `m` is such a rejection: its path and the tag found.
pub open spec fn skipped(m: Model, outcome: Outcome) -> Option<(Seq<char>, Seq<char>)> {
    if m.phase == Phase::Search && outcome is Ok && !candidate_accepted(m, outcome) {
        Some((probes(m)[m.probe], outcome->Ok_0.0))
    } else {
        None
    }
}

/// What holds of every state of a run.
pub open spec fn well_formed(m: Model) -> bool {
    &&& 0 <= m.seed <= m.seeds.len()
    &&& m.paths.len() <= m.names.len()
    &&& distinct(m.names)
    &&& forall|i: int| 0 <= i < m.names.len() ==> !listed(m.system, #[trigger] m.names[i])
    &&& forall|i: int|
        0 <= i < m.paths.len() ==> candidate_paths(m.names[i], m.root).contains(#[trigger] m.paths[i])
    &&& m.phase == Phase::Seeds ==> m.seed < m.seeds.len() && m.paths.len() == 0
    &&& m.phase == Phase::Search ==> m.seed == m.seeds.len() && m.paths.len() < m.names.len() && 0
        <= m.probe < probes(m).len()
    &&& m.phase == Phase::Done ==> m.seed == m.seeds.len() && m.paths.len() == m.names.len()
    &&& m.phase == Phase::Failed <==> m.fault is Some
}

/// Admitting imports keeps the names that were there, in place, and adds
/// only names that are new and not system libraries; afterwards every
/// import is a system library or among the names.
pub proof fn admitted_properties(names: Seq<Seq<char>>, system: Seq<Seq<char>>, imports: Seq<Seq<char>>)
    requires
        distinct(names),
        forall|i: int| 0 <= i < names.len() ==> !listed(system, #[trigger] names[i]),
    ensures
        names.len() <= admitted(names, system, imports).len() <= names.len() + imports.len(),
        admitted(names, system, imports).take(names.len() as int) == names,
        distinct(admitted(names, system, imports)),
        forall|i: int|
            0 <= i < admitted(names, system, imports).len() ==> !listed(
                system,
                #[trigger] admitted(names, system, imports)[i],
            ),
        forall|i: int|
            names.len() <= i < admitted(names, system, imports).len() ==> imports.contains(
                #[trigger] admitted(names, system, imports)[i],
            ),
        forall|k: int|
            0 <= k < imports.len() ==> listed(system, #[trigger] imports[k]) || listed(
                admitted(names, system, imports),
                imports[k],
            ),
    decreases imports.len(),
{
    let all = admitted(names, system, imports);
    if imports.len() == 0 {
        assert(all.take(names.len() as int) =~= names);
    } else {
        let rest = imports.drop_last();
        let before = admitted(names, system, rest);
        let import = imports.last();
        admitted_properties(names, system, rest);
        assert(all.take(names.len() as int) =~= before.take(names.len() as int));
        assert forall|i: int| names.len() <= i < all.len() implies imports.contains(#[trigger] all[i]) by {
            if i < before.len() {
                let k = choose|k: int| 0 <= k < rest.len() && rest[k] == before[i];
                assert(imports[k] == all[i]);
            } else {
                assert(imports[imports.len() - 1] == all[i]);
            }
        }
        assert forall|k: int| 0 <= k < imports.len() implies listed(system, #[trigger] imports[k]) || listed(
            all,
            imports[k],
        ) by {
            if k < rest.len() {
                assert(rest[k] == imports[k]);
                if listed(before, imports[k]) {
                    let i = choose|i: int| 0 <= i < before.len() && same_name(#[trigger] before[i], imports[k]);
                    assert(same_name(all[i], imports[k]));
                }
            } else {
                if listed(before, import) {
                    let i = choose|i: int| 0 <= i < before.len() && same_name(#[trigger] before[i], import);
                    assert(same_name(all[i], import));
                } else if !listed(system, import) {
                    assert(same_name(all[before.len() as int], import));
                }
            }
        }
        if !(listed(system, import) || listed(before, import)) {
            assert forall|i: int, j: int| 0 <= i < j < all.len() implies !same_name(
                #[trigger] all[i],
                #[trigger] all[j],
            ) by {
                if j == before.len() {
                    assert(all[i] == before[i]);
                    if same_name(before[i], import) {
                        assert(listed(before, import));
                    }
                }
            }
        }
    }
}

/// Every run begins in a well-formed state.
pub proof fn start_is_well_formed(seeds: Seq<Seq<char>>, system: Seq<Seq<char>>, root: Roots)
    ensures
        well_formed(start(seeds, system, root)),
{
}

/// Every answer takes a well-formed state to a well-formed state.
pub proof fn next_is_well_formed(m: Model, outcome: Outcome)
    requires
        well_formed(m),
    ensures
        well_formed(next(m, outcome)),
{
    match m.phase {
        Phase::Seeds => {
            if let Ok((format, imports)) = outcome {
                admitted_properties(m.names, m.system, imports);
            }
        },
        Phase::Search => {
            if candidate_accepted(m, outcome) {
                let imports = outcome->Ok_0.1;
                admitted_properties(m.names, m.system, imports);
                let names = admitted(m.names, m.system, imports);
                let paths = m.paths.push(probes(m)[m.probe]);
                assert forall|i: int| 0 <= i < paths.len() implies candidate_paths(names[i], m.root).contains(
                    #[trigger] paths[i],
                ) by {
                    assert(names[i] == names.take(m.names.len() as int)[i]);
                    if i < m.paths.len() {
                        assert(paths[i] == m.paths[i]);
                    }
                }
            }
        },
        _ => {},
    }
}

/// A finished run hands out each name once: as many libraries as names
/// were admitted, and no two of them with the same name.
pub proof fn names_resolve_once(m: Model)
    requires
        well_formed(m),
        m.phase == Phase::Done,
    ensures
        pending(m) == (Request::Done { libraries: paired(m.names, m.paths) }),
        paired(m.names, m.paths).len() == m.names.len(),
        forall|i: int, j: int|
            0 <= i < j < m.names.len() ==> !same_name(
                (#[trigger] paired(m.names, m.paths)[i]).name,
                (#[trigger] paired(m.names, m.paths)[j]).name,
            ),
{
    assert forall|i: int, j: int| 0 <= i < j < m.names.len() implies !same_name(
        (#[trigger] paired(m.names, m.paths)[i]).name,
        (#[trigger] paired(m.names, m.paths)[j]).name,
    ) by {
        assert(!same_name(m.names[i], m.names[j]));
    }
}

/// An import that is a system library is never admitted, whatever its
/// case: after the imports of a file were admitted, no name is the same as
/// it.
pub proof fn system_import_is_dropped(
    names: Seq<Seq<char>>,
    system: Seq<Seq<char>>,
    imports: Seq<Seq<char>>,
    k: int,
)
    requires
        distinct(names),
        forall|i: int| 0 <= i < names.len() ==> !listed(system, #[trigger] names[i]),
        0 <= k < imports.len(),
        listed(system, imports[k]),
    ensures
        !listed(admitted(names, system, imports), imports[k]),
{
    let all = admitted(names, system, imports);
    admitted_properties(names, system, imports);
    if listed(all, imports[k]) {
        let i = choose|i: int| 0 <= i < all.len() && same_name(#[trigger] all[i], imports[k]);
        let j = choose|j: int| 0 <= j < system.len() && same_name(#[trigger] system[j], imports[k]);
        assert(same_name(system[j], all[i]));
        assert(listed(system, all[i]));
    }
}

/// No system library is among the names of a run, and none is ever looked
/// for: while seeds are inspected the run asks for a seed, and afterwards
/// only for a candidate path of a name that is no system library.
pub proof fn system_libraries_stay_out(m: Model)
    requires
        well_formed(m),
    ensures
        forall|i: int| 0 <= i < m.names.len() ==> !listed(m.system, #[trigger] m.names[i]),
        m.phase == Phase::Seeds ==> pending(m) == (Request::Inspect { path: m.seeds[m.seed] }),
        m.phase == Phase::Search ==> !listed(m.system, wanted(m)) && 0 <= m.probe < candidate_paths(
            wanted(m),
            m.root,
        ).len() && pending(m) == (Request::Inspect { path: candidate_paths(wanted(m), m.root)[m.probe] }),
{
}

/// The name that is looked for has no path yet, under any spelling: a name
/// that was resolved is never searched again.
pub proof fn wanted_name_is_unresolved(m: Model)
    requires
        well_formed(m),
        m.phase == Phase::Search,
    ensures
        !listed(m.names.take(m.paths.len() as int), wanted(m)),
{
    let resolved = m.names.take(m.paths.len() as int);
    if listed(resolved, wanted(m)) {
        let i = choose|i: int| 0 <= i < resolved.len() && same_name(#[trigger] resolved[i], wanted(m));
        assert(resolved[i] == m.names[i]);
        assert(!same_name(m.names[i], m.names[m.paths.len() as int]));
    }
}

/// Once a seed has reported a format, the format of the run never changes.
pub proof fn format_is_fixed(m: Model, outcome: Outcome)
    requires
        m.format.len() > 0,
    ensures
        next(m, outcome).format == m.format,
{
}

/// A seed that reports another format than the one established fails the
/// run with `FormatMismatch`, and no path has been searched by then: every
/// seed is inspected before the first candidate.
pub proof fn mismatched_seed_fails(m: Model, found: Seq<char>, imports: Seq<Seq<char>>)
    requires
        well_formed(m),
        m.phase == Phase::Seeds,
        m.format.len() > 0,
        found != m.format,
    ensures
        pending(next(m, Ok((found, imports)))) == (Request::Failed {
            fault: ResolveFault::FormatMismatch { found, required: m.format },
        }),
        next(m, Ok((found, imports))).paths.len() == 0,
        next(m, Ok((found, imports))).names == m.names,
{
}

/// A seed that cannot be inspected fails the run.
pub proof fn unreadable_seed_fails(m: Model, fault: InspectionFault)
    requires
        well_formed(m),
        m.phase == Phase::Seeds,
    ensures
        pending(next(m, Err(fault))) == (Request::Failed {
            fault: ResolveFault::Inspection { path: m.seeds[m.seed], fault },
        }),
{
}

/// A candidate that is not accepted does not fail the run while another
/// candidate is left: the next one is asked for, in probe order.
pub proof fn rejected_candidate_is_passed_over(m: Model, outcome: Outcome)
    requires
        well_formed(m),
        m.phase == Phase::Search,
        !candidate_accepted(m, outcome),
        m.probe + 1 < probes(m).len(),
    ensures
        pending(next(m, outcome)) == (Request::Inspect { path: probes(m)[m.probe + 1] }),
        next(m, outcome).names == m.names,
        next(m, outcome).paths == m.paths,
{
}

/// A name whose last candidate is not accepted fails the run with
/// `UnresolvedDependency`; the run then hands out no library.
pub proof fn unresolved_is_fatal(m: Model, outcome: Outcome)
    requires
        well_formed(m),
        m.phase == Phase::Search,
        !candidate_accepted(m, outcome),
        m.probe + 1 == probes(m).len(),
    ensures
        pending(next(m, outcome)) == (Request::Failed {
            fault: ResolveFault::UnresolvedDependency { name: wanted(m) },
        }),
{
}

/// A failed run stays failed, for the same reason.
pub proof fn failure_is_final(m: Model, outcome: Outcome)
    requires
        m.phase == Phase::Failed,
    ensures
        next(m, outcome) == m,
{
}

} // verus!
