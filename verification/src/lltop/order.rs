//! Ordering of the interactive view's lists: descending counts, ascending
//! text and ascending identities.
use vstd::prelude::*;

verus! {

broadcast use vstd::seq_lib::group_seq_properties;

/// Whether text `a` sorts before text `b`: lexicographically by Unicode
/// scalar value, a proper prefix first.
pub open spec fn text_less(a: Seq<char>, b: Seq<char>) -> bool
    decreases a.len(),
{
    if a.len() == 0 {
        b.len() > 0
    } else if b.len() == 0 {
        false
    } else if a[0] != b[0] {
        (a[0] as int) < (b[0] as int)
    } else {
        text_less(a.drop_first(), b.drop_first())
    }
}

/// No text sorts before itself.
pub proof fn lemma_text_less_irreflexive(a: Seq<char>)
    ensures
        !text_less(a, a),
    decreases a.len(),
{
    if a.len() > 0 {
        lemma_text_less_irreflexive(a.drop_first());
    }
}

/// Sorting before is transitive.
pub proof fn lemma_text_less_transitive(a: Seq<char>, b: Seq<char>, c: Seq<char>)
    requires
        text_less(a, b),
        text_less(b, c),
    ensures
        text_less(a, c),
    decreases a.len(),
{
    if a.len() > 0 && b.len() > 0 && c.len() > 0 && a[0] == b[0] && b[0] == c[0] {
        lemma_text_less_transitive(a.drop_first(), b.drop_first(), c.drop_first());
    }
}

/// Of two different texts, one sorts before the other.
pub proof fn lemma_text_less_total(a: Seq<char>, b: Seq<char>)
    requires
        a != b,
    ensures
        text_less(a, b) || text_less(b, a),
    decreases a.len(),
{
    if a.len() > 0 && b.len() > 0 {
        if a[0] == b[0] {
            if a.drop_first() == b.drop_first() {
                assert(a =~= seq![a[0]] + a.drop_first());
                assert(b =~= seq![b[0]] + b.drop_first());
            }
            lemma_text_less_total(a.drop_first(), b.drop_first());
        } else {
            assert((a[0] as int) != (b[0] as int));
        }
    } else if a.len() == 0 && b.len() == 0 {
        assert(a =~= b);
    }
}

/// Returns whether text `a` sorts before text `b`.
pub fn text_less_than(a: &Vec<char>, b: &Vec<char>) -> (less: bool)
    ensures
        less == text_less(a@, b@),
{
    let mut index: usize = 0;
    while index < a.len() && index < b.len()
        invariant
            index <= a@.len(),
            index <= b@.len(),
            forall|i: int| 0 <= i < index ==> a@[i] == b@[i],
            text_less(a@, b@) == text_less(a@.skip(index as int), b@.skip(index as int)),
        decreases a@.len() - index,
    {
        if a[index] != b[index] {
            proof {
                assert(a@.skip(index as int)[0] == a@[index as int]);
                assert(b@.skip(index as int)[0] == b@[index as int]);
            }
            return a[index] < b[index];
        }
        proof {
            assert(a@.skip(index as int).drop_first() =~= a@.skip(index + 1));
            assert(b@.skip(index as int).drop_first() =~= b@.skip(index + 1));
        }
        index = index + 1;
    }
    index == a.len() && index < b.len()
}

/// One component of a sort key: a count that sorts descending, a number
/// that sorts ascending, or a text that sorts ascending.
pub enum KeyPart {
    Descending(u64),
    Ascending(u64),
    Text(Vec<char>),
}

/// The facts of a sort key component.
pub enum KeyPartView {
    Descending(u64),
    Ascending(u64),
    Text(Seq<char>),
}

impl View for KeyPart {
    type V = KeyPartView;

    open spec fn view(&self) -> KeyPartView {
        match self {
            KeyPart::Descending(value) => KeyPartView::Descending(*value),
            KeyPart::Ascending(value) => KeyPartView::Ascending(*value),
            KeyPart::Text(text) => KeyPartView::Text(text@),
        }
    }
}

/// A sort key: components compared in order.
pub type SortKey = Vec<KeyPart>;

/// The facts of a sort key.
pub open spec fn key_view(key: SortKey) -> Seq<KeyPartView> {
    key@.map_values(|part: KeyPart| part@)
}

/// Whether component `a` sorts strictly before component `b` of the same
/// kind.
pub open spec fn part_less(a: KeyPartView, b: KeyPartView) -> bool {
    match (a, b) {
        (KeyPartView::Descending(x), KeyPartView::Descending(y)) => x > y,
        (KeyPartView::Ascending(x), KeyPartView::Ascending(y)) => x < y,
        (KeyPartView::Text(x), KeyPartView::Text(y)) => text_less(x, y),
        _ => false,
    }
}

/// Whether two components are of the same kind.
pub open spec fn same_kind(a: KeyPartView, b: KeyPartView) -> bool {
    ||| (a is Descending && b is Descending)
    ||| (a is Ascending && b is Ascending)
    ||| (a is Text && b is Text)
}

/// Whether two keys have components of the same kinds in the same order.
pub open spec fn same_shape(a: Seq<KeyPartView>, b: Seq<KeyPartView>) -> bool {
    a.len() == b.len() && forall|i: int| 0 <= i < a.len() ==> same_kind(#[trigger] a[i], b[i])
}

/// Whether key `a` sorts strictly before key `b`: at the first differing
/// component.
pub open spec fn key_less(a: Seq<KeyPartView>, b: Seq<KeyPartView>) -> bool
    decreases a.len(),
{
    if a.len() == 0 || b.len() == 0 {
        false
    } else if a[0] != b[0] {
        part_less(a[0], b[0])
    } else {
        key_less(a.drop_first(), b.drop_first())
    }
}

proof fn lemma_part_less_transitive(a: KeyPartView, b: KeyPartView, c: KeyPartView)
    requires
        part_less(a, b),
        part_less(b, c),
    ensures
        part_less(a, c),
{
    match (a, b, c) {
        (KeyPartView::Text(x), KeyPartView::Text(y), KeyPartView::Text(z)) => {
            lemma_text_less_transitive(x, y, z);
        },
        _ => {},
    }
}

proof fn lemma_part_less_strict(a: KeyPartView, b: KeyPartView)
    ensures
        !(part_less(a, b) && part_less(b, a)),
        !part_less(a, a),
{
    match (a, b) {
        (KeyPartView::Text(x), KeyPartView::Text(y)) => {
            lemma_text_less_irreflexive(x);
            if text_less(x, y) && text_less(y, x) {
                lemma_text_less_transitive(x, y, x);
            }
        },
        (KeyPartView::Text(x), _) => {
            lemma_text_less_irreflexive(x);
        },
        _ => {},
    }
}

proof fn lemma_part_less_total(a: KeyPartView, b: KeyPartView)
    requires
        same_kind(a, b),
        a != b,
    ensures
        part_less(a, b) || part_less(b, a),
{
    match (a, b) {
        (KeyPartView::Text(x), KeyPartView::Text(y)) => {
            lemma_text_less_total(x, y);
        },
        _ => {},
    }
}

proof fn lemma_same_shape_via(a: Seq<KeyPartView>, b: Seq<KeyPartView>, shape: Seq<KeyPartView>)
    requires
        same_shape(a, shape),
        same_shape(b, shape),
    ensures
        same_shape(a, b),
{
    assert forall|i: int| 0 <= i < a.len() implies same_kind(#[trigger] a[i], b[i]) by {
        assert(same_kind(a[i], shape[i]));
        assert(same_kind(b[i], shape[i]));
    }
}

proof fn lemma_key_less_transitive(a: Seq<KeyPartView>, b: Seq<KeyPartView>, c: Seq<KeyPartView>)
    requires
        key_less(a, b),
        key_less(b, c),
    ensures
        key_less(a, c),
    decreases a.len(),
{
    if a[0] != b[0] && b[0] != c[0] {
        lemma_part_less_transitive(a[0], b[0], c[0]);
        if a[0] == c[0] {
            lemma_part_less_strict(a[0], b[0]);
        }
    } else if a[0] == b[0] && b[0] == c[0] {
        lemma_key_less_transitive(a.drop_first(), b.drop_first(), c.drop_first());
    }
}

proof fn lemma_key_less_total(a: Seq<KeyPartView>, b: Seq<KeyPartView>)
    requires
        same_shape(a, b),
    ensures
        !key_less(a, b) ==> (key_less(b, a) || a == b),
        !(key_less(a, b) && key_less(b, a)),
    decreases a.len(),
{
    if a.len() > 0 {
        if a[0] != b[0] {
            assert(same_kind(a[0], b[0]));
            lemma_part_less_total(a[0], b[0]);
            lemma_part_less_strict(a[0], b[0]);
        } else {
            assert(same_shape(a.drop_first(), b.drop_first())) by {
                assert forall|i: int| 0 <= i < a.drop_first().len() implies same_kind(
                    #[trigger] a.drop_first()[i],
                    b.drop_first()[i],
                ) by {
                    assert(same_kind(a[i + 1], b[i + 1]));
                }
            }
            lemma_key_less_total(a.drop_first(), b.drop_first());
            if a.drop_first() == b.drop_first() {
                assert(a =~= b);
            }
        }
    } else {
        assert(a =~= b);
    }
}

/// Returns whether two components are equal, given that they are of the
/// same kind.
fn part_equal(a: &KeyPart, b: &KeyPart) -> (equal: bool)
    ensures
        equal == (a@ == b@),
{
    match (a, b) {
        (KeyPart::Descending(x), KeyPart::Descending(y)) => *x == *y,
        (KeyPart::Ascending(x), KeyPart::Ascending(y)) => *x == *y,
        (KeyPart::Text(x), KeyPart::Text(y)) => {
            let forward = text_less_than(x, y);
            let backward = text_less_than(y, x);
            proof {
                if x@ == y@ {
                    lemma_text_less_irreflexive(x@);
                } else {
                    lemma_text_less_total(x@, y@);
                }
            }
            !forward && !backward
        },
        _ => false,
    }
}

/// Returns whether component `a` sorts strictly before component `b`.
fn part_less_than(a: &KeyPart, b: &KeyPart) -> (less: bool)
    ensures
        less == part_less(a@, b@),
{
    match (a, b) {
        (KeyPart::Descending(x), KeyPart::Descending(y)) => *x > *y,
        (KeyPart::Ascending(x), KeyPart::Ascending(y)) => *x < *y,
        (KeyPart::Text(x), KeyPart::Text(y)) => text_less_than(x, y),
        _ => false,
    }
}

/// Returns whether key `a` sorts strictly before key `b`.
fn key_less_than(a: &SortKey, b: &SortKey) -> (less: bool)
    ensures
        less == key_less(key_view(*a), key_view(*b)),
{
    let ghost av = key_view(*a);
    let ghost bv = key_view(*b);
    let mut index: usize = 0;
    while index < a.len() && index < b.len()
        invariant
            index <= a@.len(),
            index <= b@.len(),
            av == key_view(*a),
            bv == key_view(*b),
            key_less(av, bv) == key_less(av.skip(index as int), bv.skip(index as int)),
        decreases a@.len() - index,
    {
        proof {
            assert(av.skip(index as int)[0] == av[index as int]);
            assert(bv.skip(index as int)[0] == bv[index as int]);
        }
        if !part_equal(&a[index], &b[index]) {
            return part_less_than(&a[index], &b[index]);
        }
        proof {
            assert(av.skip(index as int).drop_first() =~= av.skip(index + 1));
            assert(bv.skip(index as int).drop_first() =~= bv.skip(index + 1));
        }
        index = index + 1;
    }
    false
}

/// No key sorts strictly before itself.
proof fn lemma_key_less_irreflexive(a: Seq<KeyPartView>)
    ensures
        !key_less(a, a),
    decreases a.len(),
{
    if a.len() > 0 {
        lemma_key_less_irreflexive(a.drop_first());
    }
}

/// Whether `origin` gives, for each sorted item, the position of the item
/// it is among `items`: each position once, and items of equal keys in
/// their order among `items`.
pub open spec fn stable_origin<T>(origin: Seq<int>, items: Seq<(SortKey, T)>, sorted: Seq<(SortKey, T)>) -> bool {
    &&& origin.len() == sorted.len()
    &&& forall|i: int|
        0 <= i < sorted.len() ==> 0 <= #[trigger] origin[i] < items.len() && sorted[i] == items[origin[i]]
    &&& forall|i: int, j: int| 0 <= i < j < sorted.len() ==> #[trigger] origin[i] != #[trigger] origin[j]
    &&& forall|i: int, j: int|
        0 <= i < j < sorted.len() && key_view(#[trigger] sorted[i].0) == key_view(#[trigger] sorted[j].0)
            ==> origin[i] < origin[j]
}

/// The keys of keyed items, in order.
pub open spec fn keys_of<T>(items: Seq<(SortKey, T)>) -> Seq<Seq<KeyPartView>> {
    items.map_values(|item: (SortKey, T)| key_view(item.0))
}

/// Whether no key sorts strictly before an earlier one.
pub open spec fn sorted_keys(keys: Seq<Seq<KeyPartView>>) -> bool {
    forall|i: int, j: int| 0 <= i < j < keys.len() ==> !key_less(#[trigger] keys[j], #[trigger] keys[i])
}

/// Returns `items` sorted by key, equal keys keeping their order.
pub(crate) fn sort_by_key<T>(items: Vec<(SortKey, T)>, Ghost(shape): Ghost<Seq<KeyPartView>>) -> (sorted: Vec<(SortKey, T)>)
    requires
        forall|i: int| 0 <= i < items@.len() ==> same_shape(#[trigger] keys_of(items@)[i], shape),
    ensures
        sorted@.to_multiset() == items@.to_multiset(),
        sorted_keys(keys_of(sorted@)),
        exists|origin: Seq<int>| stable_origin(origin, items@, sorted@),
{
    let mut taken = items;
    let ghost input = taken@;
    let total = taken.len();
    let mut sorted: Vec<(SortKey, T)> = Vec::new();
    let mut index: usize = 0;
    let ghost mut origin: Seq<int> = Seq::empty();
    while taken.len() > 0
        invariant
            taken@ == input.skip(index as int),
            stable_origin(origin, input, sorted@),
            forall|i: int| 0 <= i < origin.len() ==> #[trigger] origin[i] < index,
            index <= total,
            total == input.len(),
            sorted@.to_multiset() == input.take(index as int).to_multiset(),
            sorted_keys(keys_of(sorted@)),
            sorted@.len() == index,
            forall|i: int| 0 <= i < input.len() ==> same_shape(#[trigger] keys_of(input)[i], shape),
            forall|i: int| 0 <= i < sorted@.len() ==> same_shape(#[trigger] keys_of(sorted@)[i], shape),
        decreases taken@.len(),
    {
        let item = taken.remove(0);
        proof {
            assert(item == input[index as int]);
            assert(taken@ =~= input.skip(index + 1));
        }
        let mut position: usize = 0;
        while position < sorted.len() && !key_less_than(&item.0, &sorted[position].0)
            invariant
                position <= sorted@.len(),
                forall|i: int| 0 <= i < position ==> !key_less(key_view(item.0), #[trigger] keys_of(sorted@)[i]),
            decreases sorted@.len() - position,
        {
            position = position + 1;
        }
        let ghost before = sorted@;
        let ghost keys = keys_of(before);
        let ghost old_origin = origin;
        sorted.insert(position, item);
        proof {
            origin = old_origin.insert(position as int, index as int);
            let x = key_view(item.0);
            if position < keys.len() {
                assert(key_less(x, keys[position as int]));
            }
            assert forall|i: int, j: int|
                0 <= i < j < sorted@.len() && key_view(#[trigger] sorted@[i].0) == key_view(
                    #[trigger] sorted@[j].0,
                ) implies origin[i] < origin[j] by {
                if i == position {
                    let y = keys[j - 1];
                    assert(key_view(sorted@[j].0) == y);
                    if j - 1 == position {
                        lemma_key_less_irreflexive(x);
                    } else {
                        assert(!key_less(keys[j - 1], keys[position as int]));
                    }
                } else if j == position {
                    assert(old_origin[i] < index);
                } else {
                    let oi = if i < position { i } else { i - 1 };
                    let oj = if j < position { j } else { j - 1 };
                    assert(sorted@[i] == before[oi]);
                    assert(sorted@[j] == before[oj]);
                }
            }
            assert forall|i: int| 0 <= i < sorted@.len() implies 0 <= #[trigger] origin[i] < input.len()
                && sorted@[i] == input[origin[i]] by {
                if i < position {
                    assert(sorted@[i] == before[i]);
                } else if i > position {
                    assert(sorted@[i] == before[i - 1]);
                }
            }
            assert forall|i: int, j: int| 0 <= i < j < sorted@.len() implies #[trigger] origin[i]
                != #[trigger] origin[j] by {
                if i != position && j != position {
                    let oi = if i < position { i } else { i - 1 };
                    let oj = if j < position { j } else { j - 1 };
                    assert(origin[i] == old_origin[oi]);
                    assert(origin[j] == old_origin[oj]);
                } else if i == position {
                    assert(old_origin[j - 1] < index);
                } else {
                    assert(old_origin[i] < index);
                }
            }
            assert forall|i: int| 0 <= i < origin.len() implies #[trigger] origin[i] < index + 1 by {
                if i < position {
                    assert(origin[i] == old_origin[i]);
                } else if i > position {
                    assert(origin[i] == old_origin[i - 1]);
                }
            }
        }
        proof {
            let new_keys = keys_of(sorted@);
            assert(new_keys =~= keys.insert(position as int, key_view(item.0)));
            assert(same_shape(key_view(item.0), shape)) by {
                assert(keys_of(input)[index as int] == key_view(item.0));
            }
            assert forall|i: int| 0 <= i < new_keys.len() implies same_shape(#[trigger] new_keys[i], shape) by {
                if i < position {
                    assert(new_keys[i] == keys[i]);
                } else if i > position {
                    assert(new_keys[i] == keys[i - 1]);
                }
            }
            assert forall|i: int, j: int| 0 <= i < j < new_keys.len() implies !key_less(
                #[trigger] new_keys[j],
                #[trigger] new_keys[i],
            ) by {
                let x = key_view(item.0);
                assert(same_shape(x, shape)) by {
                    assert(keys_of(input)[index as int] == x);
                }
                if j == position {
                    assert(same_shape(keys[i], shape));
                    lemma_same_shape_via(x, keys[i], shape);
                    lemma_key_less_total(x, keys[i]);
                } else if i == position {
                    let y = keys[j - 1];
                    if position < keys.len() {
                        assert(key_less(x, keys[position as int]));
                        assert(same_shape(keys[position as int], shape));
                        assert(same_shape(y, shape));
                        lemma_same_shape_via(x, y, shape);
                        lemma_same_shape_via(keys[position as int], y, shape);
                        if j - 1 > position {
                            lemma_key_less_total(keys[position as int], y);
                            if key_less(y, keys[position as int]) {
                                assert(false);
                            }
                            if y != keys[position as int] {
                                lemma_key_less_transitive(x, keys[position as int], y);
                            }
                        }
                        lemma_key_less_total(x, y);
                    }
                } else {
                    let oi = if i < position { i } else { i - 1 };
                    let oj = if j < position { j } else { j - 1 };
                    assert(!key_less(keys[oj], keys[oi]));
                }
            }
            assert(input.take(index + 1) =~= input.take(index as int).push(input[index as int]));
            assert(sorted@.to_multiset() =~= before.to_multiset().insert(item));
        }
        index = index + 1;
    }
    assert(input.take(total as int) =~= input);
    assert(stable_origin(origin, items@, sorted@));
    sorted
}

} // verus!
