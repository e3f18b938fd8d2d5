//! The domain tree of the interactive view: every domain once, children
//! depth first below their parent, each with its ancestors' and own
//! last-child flags.
use vstd::prelude::*;

use super::batch::{id_values, insert_sorted, lemma_sorted_unique, strictly_increasing};
use crate::event::DomainId;
use crate::state::{keyed_by_id, DomainParent, DomainState, DomainView, State, StateView};

verus! {

broadcast use vstd::seq_lib::group_seq_properties;

/// The IDs and trails of tree entries, in order.
pub open spec fn tree_entries(tree: Seq<(DomainId, Vec<bool>)>) -> Seq<(u64, Seq<bool>)> {
    tree.map_values(|entry: (DomainId, Vec<bool>)| (entry.0@, entry.1@))
}

/// The domain IDs of tree entries, in order.
pub open spec fn entry_ids(entries: Seq<(DomainId, Vec<bool>)>) -> Seq<u64> {
    entries.map_values(|entry: (DomainId, Vec<bool>)| entry.0@)
}

/// Whether every tree entry has a nonempty trail.
pub open spec fn trails_nonempty(entries: Seq<(DomainId, Vec<bool>)>) -> bool {
    forall|i: int| 0 <= i < entries.len() ==> (#[trigger] entries[i]).1@.len() >= 1
}

/// The known domain IDs in increasing order.
pub open spec fn sorted_domain_ids(state: StateView) -> Seq<u64> {
    choose|ids: Seq<u64>| strictly_increasing(ids) && ids.to_set() == state.domains.dom()
}

/// The position of `id` among `ids`, if it is there.
pub open spec fn position_in(ids: Seq<u64>, id: u64) -> Option<int> {
    if exists|j: int| 0 <= j < ids.len() && ids[j] == id {
        Some(choose|j: int| 0 <= j < ids.len() && ids[j] == id)
    } else {
        None
    }
}

/// The position of the parent of the domain at position `i`, when the
/// parent is a known domain; `None` for a root, or a parent unknown or not
/// reconstructed.
pub open spec fn parent_position(state: StateView, ids: Seq<u64>, i: int) -> Option<int> {
    match state.domains[ids[i]].parent {
        Some(DomainParent::Domain(parent)) => position_in(ids, parent@),
        _ => None,
    }
}

/// The positions below `count` that `keep` holds of, in increasing order.
pub open spec fn positions_where(count: nat, keep: spec_fn(int) -> bool) -> Seq<int>
    decreases count,
{
    if count == 0 {
        Seq::empty()
    } else {
        positions_where((count - 1) as nat, keep) + if keep(count - 1) {
            seq![count - 1]
        } else {
            Seq::empty()
        }
    }
}

/// The positions of the children of the domain at `parent`, in increasing
/// ID order.
pub open spec fn child_positions(state: StateView, ids: Seq<u64>, parent: int) -> Seq<int> {
    positions_where(ids.len(), |i: int| parent_position(state, ids, i) == Some(parent))
}

/// The children of every domain, by position.
pub open spec fn child_lists(state: StateView, ids: Seq<u64>) -> Seq<Seq<int>> {
    Seq::new(ids.len(), |parent: int| child_positions(state, ids, parent))
}

/// The positions of the domains without a known parent, in increasing ID
/// order.
pub open spec fn root_positions(state: StateView, ids: Seq<u64>) -> Seq<int> {
    positions_where(ids.len(), |i: int| parent_position(state, ids, i) is None)
}

/// The entries of the domain at `position` and, depth first, of its
/// descendants not in `visited`, with the positions visited after them;
/// `trail` holds the ancestors' and the domain's own last-child flags.
pub open spec fn visit(
    ids: Seq<u64>,
    children: Seq<Seq<int>>,
    position: int,
    trail: Seq<bool>,
    visited: Set<int>,
    fuel: nat,
) -> (Seq<(u64, Seq<bool>)>, Set<int>)
    decreases fuel, 0int,
{
    if fuel == 0 || visited.contains(position) {
        (Seq::empty(), visited)
    } else {
        let below = visit_children(
            ids,
            children,
            position,
            trail,
            0,
            visited.insert(position),
            (fuel - 1) as nat,
        );
        (seq![(ids[position], trail)] + below.0, below.1)
    }
}

/// The entries of the children of `parent` from the `index`-th on, each
/// with its subtree.
pub open spec fn visit_children(
    ids: Seq<u64>,
    children: Seq<Seq<int>>,
    parent: int,
    trail: Seq<bool>,
    index: int,
    visited: Set<int>,
    fuel: nat,
) -> (Seq<(u64, Seq<bool>)>, Set<int>)
    decreases fuel, children[parent].len() - index,
{
    let list = children[parent];
    if index < 0 || index >= list.len() {
        (Seq::empty(), visited)
    } else {
        let first = visit(
            ids,
            children,
            list[index],
            trail.push(index + 1 == list.len()),
            visited,
            fuel,
        );
        let rest = visit_children(ids, children, parent, trail, index + 1, first.1, fuel);
        (first.0 + rest.0, rest.1)
    }
}

/// The entries of the trees of the roots from the `index`-th on.
pub open spec fn visit_roots(
    ids: Seq<u64>,
    children: Seq<Seq<int>>,
    roots: Seq<int>,
    index: int,
    visited: Set<int>,
    fuel: nat,
) -> (Seq<(u64, Seq<bool>)>, Set<int>)
    decreases roots.len() - index,
{
    if index < 0 || index >= roots.len() {
        (Seq::empty(), visited)
    } else {
        let first = visit(ids, children, roots[index], seq![index + 1 == roots.len()], visited, fuel);
        let rest = visit_roots(ids, children, roots, index + 1, first.1, fuel);
        (first.0 + rest.0, rest.1)
    }
}

/// The entries of the domains from position `index` on that no tree
/// reached, such as those on a parent cycle, each as the root of its own
/// tree.
pub open spec fn visit_leftovers(
    ids: Seq<u64>,
    children: Seq<Seq<int>>,
    index: int,
    visited: Set<int>,
    fuel: nat,
) -> (Seq<(u64, Seq<bool>)>, Set<int>)
    decreases ids.len() - index,
{
    if index < 0 || index >= ids.len() {
        (Seq::empty(), visited)
    } else {
        let first = visit(ids, children, index, seq![true], visited, fuel);
        let rest = visit_leftovers(ids, children, index + 1, first.1, fuel);
        (first.0 + rest.0, rest.1)
    }
}

/// The domain tree: from each root in increasing ID order, the domains
/// depth first, children in increasing ID order, each once; then each
/// domain no root reached, in increasing ID order, as a root. Each entry
/// has its ancestors' and its own last-child flags.
pub open spec fn domain_tree_of(state: StateView) -> Seq<(u64, Seq<bool>)> {
    let ids = sorted_domain_ids(state);
    let children = child_lists(state, ids);
    let fuel = (ids.len() + 1) as nat;
    let from_roots = visit_roots(ids, children, root_positions(state, ids), 0, Set::empty(), fuel);
    from_roots.0 + visit_leftovers(ids, children, 0, from_roots.1, fuel).0
}

/// The positions among `visited` that are marked.
pub open spec fn marked(visited: Seq<bool>) -> Set<int> {
    Set::new(|i: int| 0 <= i < visited.len() && visited[i])
}

proof fn lemma_marked_bounds(visited: Seq<bool>)
    ensures
        marked(visited).finite(),
        marked(visited).len() <= visited.len(),
{
    vstd::set_lib::lemma_int_range(0, visited.len() as int);
    assert(marked(visited).subset_of(vstd::set_lib::set_int_range(0, visited.len() as int)));
    vstd::set_lib::lemma_len_subset(marked(visited), vstd::set_lib::set_int_range(0, visited.len() as int));
}

/// A position left unmarked leaves fewer marks than positions.
proof fn lemma_marked_excludes(visited: Seq<bool>, position: int)
    requires
        0 <= position < visited.len(),
        !visited[position],
    ensures
        marked(visited).len() < visited.len(),
{
    let range = vstd::set_lib::set_int_range(0, visited.len() as int);
    vstd::set_lib::lemma_int_range(0, visited.len() as int);
    assert(marked(visited).subset_of(range.remove(position)));
    vstd::set_lib::lemma_len_subset(marked(visited), range.remove(position));
}

/// The children lists, by position.
pub open spec fn kid_lists(children: Seq<Vec<usize>>) -> Seq<Seq<int>> {
    children.map_values(|list: Vec<usize>| list@.map_values(|child: usize| child as int))
}

/// Whether the entries name each marked position's ID exactly once.
spec fn lists_marked(entries: Seq<(DomainId, Vec<bool>)>, ids: Seq<u64>, visited: Seq<bool>) -> bool {
    &&& entry_ids(entries).no_duplicates()
    &&& forall|x: u64|
        #[trigger] entry_ids(entries).contains(x) <==> exists|i: int|
            0 <= i < ids.len() && visited[i] && ids[i] == x
    &&& trails_nonempty(entries)
}

/// Returns a copy of `trail`.
fn copy_trail(trail: &Vec<bool>) -> (copy: Vec<bool>)
    ensures
        copy@ == trail@,
{
    let mut copy: Vec<bool> = Vec::new();
    let mut index: usize = 0;
    while index < trail.len()
        invariant
            index <= trail@.len(),
            copy@ == trail@.take(index as int),
        decreases trail@.len() - index,
    {
        copy.push(trail[index]);
        proof {
            assert(trail@.take(index + 1) =~= trail@.take(index as int).push(trail@[index as int]));
        }
        index = index + 1;
    }
    assert(trail@.take(trail@.len() as int) =~= trail@);
    copy
}

/// Appends the domain at `position` and, depth first, its unvisited
/// descendants, each with its ancestors' and own last-child flags.
fn append_subtree(
    position: usize,
    ids: &Vec<DomainId>,
    children: &Vec<Vec<usize>>,
    trail: &mut Vec<bool>,
    visited: &mut Vec<bool>,
    output: &mut Vec<(DomainId, Vec<bool>)>,
    Ghost(fuel): Ghost<nat>,
)
    requires
        position < ids@.len(),
        old(visited)@.len() == ids@.len(),
        children@.len() == ids@.len(),
        forall|i: int, j: int|
            0 <= i < children@.len() && 0 <= j < children@[i]@.len() ==> #[trigger] children@[i]@[j]
                < ids@.len(),
        strictly_increasing(id_values(ids@)),
        old(trail)@.len() >= 1,
        lists_marked(old(output)@, id_values(ids@), old(visited)@),
        marked(old(visited)@).len() + fuel > ids@.len(),
    ensures
        final(trail)@ == old(trail)@,
        final(visited)@.len() == ids@.len(),
        forall|i: int| 0 <= i < ids@.len() && old(visited)@[i] ==> final(visited)@[i],
        final(visited)@[position as int],
        lists_marked(final(output)@, id_values(ids@), final(visited)@),
        tree_entries(final(output)@) == tree_entries(old(output)@) + visit(
            id_values(ids@),
            kid_lists(children@),
            position as int,
            old(trail)@,
            marked(old(visited)@),
            fuel,
        ).0,
        marked(final(visited)@) == visit(
            id_values(ids@),
            kid_lists(children@),
            position as int,
            old(trail)@,
            marked(old(visited)@),
            fuel,
        ).1,
    decreases ids@.len() - marked(old(visited)@).len(),
{
    let ghost values = id_values(ids@);
    let ghost kids = kid_lists(children@);
    proof {
        lemma_marked_bounds(visited@);
    }
    if visited[position] {
        assert(marked(visited@).contains(position as int));
        assert(tree_entries(output@) =~= tree_entries(output@) + Seq::<(u64, Seq<bool>)>::empty());
        return;
    }
    proof {
        lemma_marked_excludes(visited@, position as int);
    }
    let ghost before = visited@;
    visited.set(position, true);
    proof {
        lemma_marked_bounds(visited@);
        assert(marked(visited@) =~= marked(before).insert(position as int));
        let id = values[position as int];
        assert(!entry_ids(output@).contains(id)) by {
            if entry_ids(output@).contains(id) {
                let i = choose|i: int| 0 <= i < values.len() && before[i] && values[i] == id;
                if i < position {
                    assert(values[i] < values[position as int]);
                } else if i > position {
                    assert(values[position as int] < values[i]);
                }
            }
        }
    }
    let ghost entries_before = output@;
    output.push((ids[position], copy_trail(trail)));
    proof {
        assert(entry_ids(output@) =~= entry_ids(entries_before).push(values[position as int]));
        assert forall|x: u64| #[trigger] entry_ids(output@).contains(x) <==> exists|i: int|
            0 <= i < values.len() && visited@[i] && values[i] == x by {
            if entry_ids(output@).contains(x) && x != values[position as int] {
                let k = choose|k: int| 0 <= k < entry_ids(output@).len() && entry_ids(output@)[k] == x;
                assert(entry_ids(entries_before)[k] == x);
                assert(entry_ids(entries_before).contains(x));
            }
            if exists|i: int| 0 <= i < values.len() && visited@[i] && values[i] == x {
                let i = choose|i: int| 0 <= i < values.len() && visited@[i] && values[i] == x;
                if i != position {
                    assert(before[i]);
                    assert(entry_ids(entries_before).contains(x));
                    let k = choose|k: int| 0 <= k < entry_ids(entries_before).len() && entry_ids(entries_before)[k] == x;
                    assert(entry_ids(output@)[k] == x);
                } else {
                    assert(entry_ids(output@)[entries_before.len() as int] == x);
                }
            }
        }
    }
    let ghost entry_marks = marked(before).len();
    let ghost start_trail = trail@;
    let ghost base = tree_entries(output@);
    let ghost whole = visit_children(values, kids, position as int, start_trail, 0, marked(visited@), (fuel - 1) as nat);
    let ghost mut done: Seq<(u64, Seq<bool>)> = Seq::empty();
    proof {
        assert(base =~= tree_entries(entries_before).push((values[position as int], start_trail)));
        assert(visit(values, kids, position as int, start_trail, marked(before), fuel) == (
            seq![(values[position as int], start_trail)] + whole.0,
            whole.1,
        ));
        assert(tree_entries(output@) == base + done);
    }
    let list = &children[position];
    let mut index: usize = 0;
    while index < list.len()
        invariant
            index <= list@.len(),
            list@ == children@[position as int]@,
            trail@ == start_trail,
            start_trail.len() >= 1,
            visited@.len() == ids@.len(),
            visited@[position as int],
            forall|i: int| 0 <= i < ids@.len() && before[i] ==> visited@[i],
            before.len() == ids@.len(),
            marked(visited@).len() >= entry_marks + 1,
            entry_marks == marked(before).len(),
            entry_marks + fuel > ids@.len(),
            marked(before).len() <= ids@.len(),
            before == old(visited)@,
            lists_marked(output@, values, visited@),
            values == id_values(ids@),
            kids == kid_lists(children@),
            strictly_increasing(values),
            children@.len() == ids@.len(),
            forall|i: int, j: int|
                0 <= i < children@.len() && 0 <= j < children@[i]@.len() ==> #[trigger] children@[i]@[j]
                    < ids@.len(),
            position < ids@.len(),
            fuel >= 2,
            tree_entries(output@) == base + done,
            whole.0 == done + visit_children(
                values,
                kids,
                position as int,
                start_trail,
                index as int,
                marked(visited@),
                (fuel - 1) as nat,
            ).0,
            whole.1 == visit_children(
                values,
                kids,
                position as int,
                start_trail,
                index as int,
                marked(visited@),
                (fuel - 1) as nat,
            ).1,
        decreases list@.len() - index,
    {
        trail.push(index + 1 == list.len());
        let ghost marks_now = visited@;
        let ghost output_now = tree_entries(output@);
        proof {
            lemma_marked_bounds(visited@);
            assert(ids@.len() - marked(visited@).len() < ids@.len() - marked(old(visited)@).len());
            assert(kids[position as int] =~= list@.map_values(|child: usize| child as int));
            assert(kids[position as int][index as int] == list@[index as int] as int);
            assert(kids[position as int].len() == list@.len());
        }
        append_subtree(list[index], ids, children, trail, visited, output, Ghost((fuel - 1) as nat));
        proof {
            lemma_marked_bounds(visited@);
            assert(marked(marks_now).subset_of(marked(visited@)));
            vstd::set_lib::lemma_len_subset(marked(marks_now), marked(visited@));
            let first = visit(
                values,
                kids,
                list@[index as int] as int,
                start_trail.push(index + 1 == list@.len()),
                marked(marks_now),
                (fuel - 1) as nat,
            );
            assert(tree_entries(output@) == output_now + first.0);
            done = done + first.0;
            assert(tree_entries(output@) =~= base + done);
        }
        trail.pop();
        assert(trail@ =~= start_trail);
        index = index + 1;
    }
    proof {
        assert(kids[position as int].len() == list@.len());
        assert(whole.0 =~= done);
    }
}

/// Returns the position of `id` among the increasing `ids`, if present.
fn position_of_id(ids: &Vec<DomainId>, id: DomainId) -> (position: Option<usize>)
    requires
        strictly_increasing(id_values(ids@)),
    ensures
        match position {
            Some(i) => position_in(id_values(ids@), id@) == Some(i as int),
            None => position_in(id_values(ids@), id@) is None,
        },
{
    let ghost values = id_values(ids@);
    let mut index: usize = 0;
    while index < ids.len()
        invariant
            index <= ids@.len(),
            values == id_values(ids@),
            strictly_increasing(values),
            forall|i: int| 0 <= i < index ==> values[i] != id@,
        decreases ids@.len() - index,
    {
        if ids[index].get() == id.get() {
            proof {
                assert(values[index as int] == id@);
                let j = choose|j: int| 0 <= j < values.len() && values[j] == id@;
                if j < index {
                    assert(values[j] < values[index as int]);
                } else if j > index {
                    assert(values[index as int] < values[j]);
                }
            }
            return Some(index);
        }
        index = index + 1;
    }
    None
}

/// The parent position of a domain, as found.
pub open spec fn found_parent(parent: Option<usize>) -> Option<int> {
    match parent {
        Some(p) => Some(p as int),
        None => None,
    }
}

/// Returns every domain of `state` in tree order with its ancestors' and own
/// last-child flags.
pub fn domain_tree_entries(state: &State) -> (tree: Vec<(DomainId, Vec<bool>)>)
    requires
        keyed_by_id(state@),
        state@.domains.dom().finite(),
    ensures
        tree_entries(tree@) == domain_tree_of(state@),
        entry_ids(tree@).no_duplicates(),
        entry_ids(tree@).to_set() == state@.domains.dom(),
        trails_nonempty(tree@),
{
    let domains = state.domains();
    let ghost map = state@.domains;
    let ghost items = domains@.map_values(|domain: &DomainState| domain@);
    let mut ids: Vec<DomainId> = Vec::new();
    let mut index: usize = 0;
    while index < domains.len()
        invariant
            index <= domains@.len(),
            items == domains@.map_values(|domain: &DomainState| domain@),
            strictly_increasing(id_values(ids@)),
            id_values(ids@).to_set() == items.take(index as int).map_values(
                |domain: DomainView| domain.id@,
            ).to_set(),
        decreases domains@.len() - index,
    {
        insert_sorted(&mut ids, domains[index].domain_id());
        proof {
            let done = items.take(index as int).map_values(|domain: DomainView| domain.id@);
            let next = items.take(index + 1).map_values(|domain: DomainView| domain.id@);
            assert(next =~= done.push(items[index as int].id@));
            done.lemma_push_to_set_commute(items[index as int].id@);
        }
        index = index + 1;
    }
    let ghost values = id_values(ids@);
    proof {
        assert(items.take(items.len() as int) =~= items);
        assert(values.to_set() =~= map.dom()) by {
            assert forall|x: u64| #[trigger] values.to_set().contains(x) implies map.dom().contains(x) by {
                let ids_of = items.map_values(|domain: DomainView| domain.id@);
                let k = choose|k: int| 0 <= k < ids_of.len() && ids_of[k] == x;
                assert(map.values().contains(items[k]));
                let key = choose|key: u64| map.contains_key(key) && map[key] == items[k];
                assert(map[key].id@ == key);
            }
            assert forall|x: u64| map.dom().contains(x) implies #[trigger] values.to_set().contains(x) by {
                assert(map.values().contains(map[x]));
                assert(items.contains(map[x]));
                let k = choose|k: int| 0 <= k < items.len() && items[k] == map[x];
                let ids_of = items.map_values(|domain: DomainView| domain.id@);
                assert(ids_of[k] == x);
                assert(ids_of.to_set().contains(x));
            }
        }
        lemma_sorted_unique(values, sorted_domain_ids(state@));
    }
    let count = ids.len();
    let mut parents: Vec<Option<usize>> = Vec::new();
    let mut index: usize = 0;
    while index < count
        invariant
            index <= count,
            count == ids@.len(),
            values == id_values(ids@),
            values == sorted_domain_ids(state@),
            values.to_set() == state@.domains.dom(),
            strictly_increasing(values),
            parents@.len() == index,
            forall|i: int| 0 <= i < index ==> (#[trigger] parents@[i] matches Some(p) ==> p < count),
            forall|i: int|
                0 <= i < index ==> found_parent(#[trigger] parents@[i]) == parent_position(
                    state@,
                    values,
                    i,
                ),
        decreases count - index,
    {
        proof {
            assert(values.to_set().contains(values[index as int]));
        }
        let parent = match state.domain(ids[index]) {
            Some(domain) => match domain.parent() {
                Some(DomainParent::Domain(parent)) => position_of_id(&ids, parent),
                _ => None,
            },
            None => None,
        };
        proof {
            if let Some(p) = parent {
                assert(position_in(values, values[p as int]) == Some(p as int));
            }
        }
        parents.push(parent);
        index = index + 1;
    }
    let ghost kids_spec = child_lists(state@, values);
    let ghost roots_spec = root_positions(state@, values);
    let mut children: Vec<Vec<usize>> = Vec::new();
    let mut roots: Vec<usize> = Vec::new();
    let mut index: usize = 0;
    while index < count
        invariant
            index <= count,
            count == ids@.len(),
            values == id_values(ids@),
            parents@.len() == count,
            forall|i: int|
                0 <= i < count ==> found_parent(#[trigger] parents@[i]) == parent_position(
                    state@,
                    values,
                    i,
                ),
            children@.len() == index,
            forall|i: int, j: int|
                0 <= i < children@.len() && 0 <= j < children@[i]@.len() ==> #[trigger] children@[i]@[j]
                    < count,
            forall|j: int| 0 <= j < roots@.len() ==> #[trigger] roots@[j] < count,
            forall|p: int|
                0 <= p < index ==> (#[trigger] children@[p])@.map_values(|child: usize| child as int)
                    == child_positions(state@, values, p),
            roots@.map_values(|root: usize| root as int) == positions_where(
                index as nat,
                |i: int| parent_position(state@, values, i) is None,
            ),
        decreases count - index,
    {
        let ghost keep = |i: int| parent_position(state@, values, i) == Some(index as int);
        let mut list: Vec<usize> = Vec::new();
        let mut child: usize = 0;
        while child < count
            invariant
                child <= count,
                count == ids@.len(),
                values == id_values(ids@),
                parents@.len() == count,
                forall|i: int|
                    0 <= i < count ==> found_parent(#[trigger] parents@[i]) == parent_position(
                        state@,
                        values,
                        i,
                    ),
                forall|j: int| 0 <= j < list@.len() ==> #[trigger] list@[j] < count,
                keep == (|i: int| parent_position(state@, values, i) == Some(index as int)),
                list@.map_values(|c: usize| c as int) == positions_where(child as nat, keep),
            decreases count - child,
        {
            let ghost before = list@;
            if parents[child] == Some(index) {
                list.push(child);
            }
            proof {
                assert(found_parent(parents@[child as int]) == parent_position(state@, values, child as int));
                assert(keep(child as int) == (parents@[child as int] == Some(index)));
                assert(positions_where((child + 1) as nat, keep) == positions_where(child as nat, keep) + if keep(child as int) {
                    seq![child as int]
                } else {
                    Seq::empty()
                });
                assert(list@.map_values(|c: usize| c as int) =~= positions_where((child + 1) as nat, keep));
            }
            child = child + 1;
        }
        let ghost roots_before = roots@;
        if parents[index].is_none() {
            roots.push(index);
        }
        proof {
            let none = |i: int| parent_position(state@, values, i) is None;
            assert(found_parent(parents@[index as int]) == parent_position(state@, values, index as int));
            assert(positions_where((index + 1) as nat, none) == positions_where(index as nat, none) + if none(index as int) {
                seq![index as int]
            } else {
                Seq::empty()
            });
            assert(roots@.map_values(|root: usize| root as int) =~= positions_where((index + 1) as nat, none));
            assert(list@.map_values(|c: usize| c as int) == child_positions(state@, values, index as int));
        }
        children.push(list);
        proof {
            assert forall|p: int| 0 <= p < index + 1 implies (#[trigger] children@[p])@.map_values(|child: usize| child as int)
                == child_positions(state@, values, p) by {
            }
        }
        index = index + 1;
    }
    let ghost kids = kid_lists(children@);
    proof {
        assert(kids =~= kids_spec);
        assert(roots@.map_values(|root: usize| root as int) == roots_spec);
    }
    let mut visited: Vec<bool> = Vec::new();
    let mut index: usize = 0;
    while index < count
        invariant
            index <= count,
            visited@.len() == index,
            forall|i: int| 0 <= i < index ==> !visited@[i],
        decreases count - index,
    {
        visited.push(false);
        index = index + 1;
    }
    let fuel = Ghost((count + 1) as nat);
    let mut output: Vec<(DomainId, Vec<bool>)> = Vec::new();
    proof {
        assert(entry_ids(output@) =~= Seq::empty());
        assert(marked(visited@) =~= Set::empty());
        assert(tree_entries(output@) =~= Seq::empty());
    }
    let ghost all_roots = visit_roots(values, kids, roots_spec, 0, Set::empty(), fuel@);
    let mut index: usize = 0;
    while index < roots.len()
        invariant
            index <= roots@.len(),
            forall|j: int| 0 <= j < roots@.len() ==> #[trigger] roots@[j] < count,
            count == ids@.len(),
            visited@.len() == count,
            children@.len() == count,
            forall|i: int, j: int|
                0 <= i < children@.len() && 0 <= j < children@[i]@.len() ==> #[trigger] children@[i]@[j]
                    < count,
            strictly_increasing(id_values(ids@)),
            lists_marked(output@, id_values(ids@), visited@),
            values == id_values(ids@),
            kids == kid_lists(children@),
            fuel@ == count + 1,
            roots@.map_values(|root: usize| root as int) == roots_spec,
            all_roots.0 == tree_entries(output@) + visit_roots(
                values,
                kids,
                roots_spec,
                index as int,
                marked(visited@),
                fuel@,
            ).0,
            all_roots.1 == visit_roots(values, kids, roots_spec, index as int, marked(visited@), fuel@).1,
        decreases roots@.len() - index,
    {
        let mut trail: Vec<bool> = Vec::new();
        trail.push(index + 1 == roots.len());
        let ghost output_now = tree_entries(output@);
        let ghost marks_now = marked(visited@);
        proof {
            lemma_marked_bounds(visited@);
            assert(roots_spec[index as int] == roots@[index as int] as int);
            assert(trail@ =~= seq![index + 1 == roots_spec.len()]);
        }
        append_subtree(roots[index], &ids, &children, &mut trail, &mut visited, &mut output, fuel);
        proof {
            let first = visit(
                values,
                kids,
                roots_spec[index as int],
                seq![index + 1 == roots_spec.len()],
                marks_now,
                fuel@,
            );
            assert(tree_entries(output@) == output_now + first.0);
            assert(output_now + visit_roots(values, kids, roots_spec, index as int, marks_now, fuel@).0
                =~= tree_entries(output@) + visit_roots(
                values,
                kids,
                roots_spec,
                index + 1,
                marked(visited@),
                fuel@,
            ).0);
        }
        index = index + 1;
    }
    proof {
        assert(all_roots.0 =~= tree_entries(output@));
        assert(all_roots.1 == marked(visited@));
    }
    let ghost roots_output = tree_entries(output@);
    let ghost all_leftovers = visit_leftovers(values, kids, 0, marked(visited@), fuel@);
    let mut index: usize = 0;
    while index < count
        invariant
            index <= count,
            count == ids@.len(),
            visited@.len() == count,
            children@.len() == count,
            forall|i: int, j: int|
                0 <= i < children@.len() && 0 <= j < children@[i]@.len() ==> #[trigger] children@[i]@[j]
                    < count,
            strictly_increasing(id_values(ids@)),
            lists_marked(output@, id_values(ids@), visited@),
            forall|i: int| 0 <= i < index ==> visited@[i],
            values == id_values(ids@),
            kids == kid_lists(children@),
            fuel@ == count + 1,
            roots_output + all_leftovers.0 == tree_entries(output@) + visit_leftovers(
                values,
                kids,
                index as int,
                marked(visited@),
                fuel@,
            ).0,
        decreases count - index,
    {
        let ghost output_now = tree_entries(output@);
        let ghost marks_now = marked(visited@);
        proof {
            lemma_marked_bounds(visited@);
        }
        if !visited[index] {
            let mut trail: Vec<bool> = Vec::new();
            trail.push(true);
            assert(trail@ =~= seq![true]);
            append_subtree(index, &ids, &children, &mut trail, &mut visited, &mut output, fuel);
        } else {
            assert(marks_now.contains(index as int));
            assert(tree_entries(output@) =~= output_now + Seq::<(u64, Seq<bool>)>::empty());
        }
        proof {
            let first = visit(values, kids, index as int, seq![true], marks_now, fuel@);
            assert(tree_entries(output@) == output_now + first.0);
            assert(marked(visited@) == first.1);
            assert(output_now + visit_leftovers(values, kids, index as int, marks_now, fuel@).0
                =~= tree_entries(output@) + visit_leftovers(
                values,
                kids,
                index + 1,
                marked(visited@),
                fuel@,
            ).0);
        }
        index = index + 1;
    }
    proof {
        assert(roots_output + all_leftovers.0 =~= tree_entries(output@));
        assert(tree_entries(output@) == domain_tree_of(state@));
        let values_again = id_values(ids@);
        assert(entry_ids(output@).to_set() =~= state@.domains.dom()) by {
            assert forall|x: u64| #[trigger] entry_ids(output@).to_set().contains(x) <==> state@.domains.dom().contains(x) by {
                if entry_ids(output@).to_set().contains(x) {
                    assert(entry_ids(output@).contains(x));
                    let i = choose|i: int| 0 <= i < values_again.len() && visited@[i] && values_again[i] == x;
                    assert(values_again.to_set().contains(x));
                }
                if state@.domains.dom().contains(x) {
                    assert(values_again.to_set().contains(x));
                    let i = choose|i: int| 0 <= i < values_again.len() && values_again[i] == x;
                    assert(visited@[i]);
                    assert(entry_ids(output@).contains(x));
                }
            }
        }
    }
    output
}

} // verus!
