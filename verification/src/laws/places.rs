//! What locations mean, and what is known of them.

use vstd::prelude::*;

use crate::location;
use crate::location::LocationId;

verus! {

/// A root is a process or a cluster.
pub proof fn roots_are_processes_or_clusters(place: LocationId)
    ensures
        place.spec_root() is Process || place.spec_root() is Cluster,
    decreases place,
{
    match place {
        LocationId::Atomic(tick) => roots_are_processes_or_clusters(*tick),
        LocationId::Tick(_, id) => roots_are_processes_or_clusters(*id),
        _ => {},
    }
}

/// A process or a cluster is its own root, and an atomic region or a tick has
/// the root of the location it lies in, whatever its clock.
pub proof fn virtual_locations_keep_the_root(place: LocationId, clock: usize)
    ensures
        place is Process || place is Cluster ==> place.spec_root() == place,
        LocationId::Atomic(Box::new(place)).spec_root() == place.spec_root(),
        LocationId::Tick(clock, Box::new(place)).spec_root() == place.spec_root(),
{
}

/// Two roots under different keys, or of different kinds, differ.
pub proof fn roots_are_told_apart_by_kind_and_key(a: u64, b: u64)
    ensures
        LocationId::Process(a).spec_root() != LocationId::Cluster(b).spec_root(),
        LocationId::Process(a).spec_root() == LocationId::Process(b).spec_root() <==> a == b,
        LocationId::Cluster(a).spec_root() == LocationId::Cluster(b).spec_root() <==> a == b,
{
}

/// Nothing is known before the first answer. An answer that names a cluster is
/// entered for the root of its location, in place of what was known of it, and
/// leaves the rest alone; one that names none changes nothing.
pub proof fn answers_are_entered_one_by_one(
    answers: Seq<(LocationId, Option<(String, usize)>)>,
    place: LocationId,
    name: String,
    size: usize,
)
    ensures
        location::answers_map(Seq::empty()) == Map::<LocationId, (Seq<char>, usize)>::empty(),
        location::answers_map(answers.push((place, Some((name, size))))) == location::answers_map(
            answers,
        ).insert(place.spec_root(), (name@, size)),
        location::answers_map(answers.push((place, None))) == location::answers_map(answers),
{
    let more = answers.push((place, Some((name, size))));
    assert(more.drop_last() =~= answers);
    let same = answers.push((place, None));
    assert(same.drop_last() =~= answers);
}

/// An entry is read as it is written: its name and its size.
pub proof fn entries_are_read_as_written(name: String, size: usize)
    ensures
        location::entry_view((name, size)) == (name@, size),
{
}

} // verus!
