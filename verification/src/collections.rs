use vstd::prelude::*;

verus! {

/// `indexmap::IndexSet`, carried as a value whose inside is not looked into.
#[verifier::external_type_specification]
#[verifier::external_body]
#[verifier::reject_recursive_types(T)]
#[verifier::reject_recursive_types(S)]
pub struct ExIndexSet<T, S>(indexmap::IndexSet<T, S>);

/// The identifiers that an ordered set holds, in the order in which they
/// were first inserted.
pub uninterp spec fn ordered_ids(set: indexmap::IndexSet<u64>) -> Seq<u64>;

/// `ids` without `id`, the others in their order.
pub open spec fn without(ids: Seq<u64>, id: u64) -> Seq<u64> {
    ids.filter(|other: u64| other != id)
}

/// `ids` with `id`: at the end if it is new, where it stood otherwise.
pub open spec fn with(ids: Seq<u64>, id: u64) -> Seq<u64> {
    if ids.contains(id) {
        ids
    } else {
        ids.push(id)
    }
}

/// Putting a value into a sequence without repeats leaves it without
/// repeats, and holding the value.
pub proof fn lemma_with(ids: Seq<u64>, id: u64)
    ensures
        with(ids, id).contains(id),
        forall|other: u64|
            other != id ==> #[trigger] with(ids, id).contains(other) == ids.contains(other),
        ids.no_duplicates() ==> with(ids, id).no_duplicates(),
{
    assert(ids.push(id)[ids.len() as int] == id);
    assert forall|other: u64| other != id implies #[trigger] with(ids, id).contains(other)
        == ids.contains(other) by {
        if ids.contains(other) {
            let at = choose|at: int| 0 <= at < ids.len() && ids[at] == other;
            assert(ids.push(id)[at] == other);
        }
    }
}

/// Taking a value out of a sequence takes out nothing else, and nothing at
/// all if the sequence does not hold the value.
pub proof fn lemma_without(ids: Seq<u64>, id: u64)
    ensures
        !without(ids, id).contains(id),
        forall|other: u64|
            other != id ==> #[trigger] without(ids, id).contains(other) == ids.contains(other),
        !ids.contains(id) ==> without(ids, id) == ids,
        ids.no_duplicates() ==> without(ids, id).no_duplicates(),
        without(ids, id).len() <= ids.len(),
    decreases ids.len(),
{
    reveal(Seq::filter);
    if ids.len() > 0 {
        let front = ids.drop_last();
        let last = ids.last();
        lemma_without(front, id);
        let short = without(front, id);
        let all = without(ids, id);
        assert(all == if last != id {
            short.push(last)
        } else {
            short
        });
        assert forall|other: u64| other != id implies #[trigger] all.contains(other)
            == ids.contains(other) by {
            assert(short.contains(other) == front.contains(other));
        }
        if ids.no_duplicates() && last != id {
            assert(!short.contains(last));
            assert forall|a: int, b: int|
                0 <= a < all.len() && 0 <= b < all.len() && a != b implies all[a] != all[b] by {
                if a == short.len() {
                    assert(short.contains(short[b]));
                } else if b == short.len() {
                    assert(short.contains(short[a]));
                }
            }
        }
    }
}

/// `indexmap::IndexSet::new`: the set starts out empty.
#[verifier::external_body]
pub(crate) fn ordered_new() -> (set: indexmap::IndexSet<u64>)
    ensures
        ordered_ids(set) == Seq::<u64>::empty(),
{
    indexmap::IndexSet::new()
}

/// `indexmap::IndexSet::len`: the number of identifiers held.
#[verifier::external_body]
pub(crate) fn ordered_len(set: &indexmap::IndexSet<u64>) -> (n: usize)
    ensures
        n == ordered_ids(*set).len(),
{
    set.len()
}

/// `indexmap::IndexSet::insert`: an identifier that the set lacks goes to
/// the end and the answer is `true`; one that it holds changes nothing, and
/// the answer is `false`.
#[verifier::external_body]
pub(crate) fn ordered_insert(set: &mut indexmap::IndexSet<u64>, id: u64) -> (fresh: bool)
    ensures
        fresh == !ordered_ids(*old(set)).contains(id),
        ordered_ids(*final(set)) == with(ordered_ids(*old(set)), id),
{
    set.insert(id)
}

/// `indexmap::IndexSet::shift_remove`: the identifier leaves and those
/// behind it move up, keeping their order; the answer says whether it was
/// held.
#[verifier::external_body]
pub(crate) fn ordered_shift_remove(set: &mut indexmap::IndexSet<u64>, id: u64) -> (held: bool)
    ensures
        held == ordered_ids(*old(set)).contains(id),
        ordered_ids(*final(set)) == without(ordered_ids(*old(set)), id),
{
    set.shift_remove(&id)
}

/// `indexmap::IndexSet::get_index`: the identifier at a position of the
/// order, or nothing at a position past the end.
#[verifier::external_body]
pub(crate) fn ordered_get_index(set: &indexmap::IndexSet<u64>, at: usize) -> (id: Option<u64>)
    ensures
        id == if at < ordered_ids(*set).len() {
            Some(ordered_ids(*set)[at as int])
        } else {
            None
        },
{
    set.get_index(at).copied()
}

/// A table from keys to positions, kept in a `hashbrown::HashMap`.
#[verifier::external_body]
pub struct KeyIndex {
    map: hashbrown::HashMap<u64, usize>,
}

/// The position that a table holds under each of its keys.
pub uninterp spec fn key_positions(table: KeyIndex) -> Map<u64, usize>;

/// `hashbrown::HashMap::new`: the table starts out empty.
#[verifier::external_body]
pub(crate) fn key_index_new() -> (table: KeyIndex)
    ensures
        key_positions(table) == (Map::<u64, usize>::empty()),
{
    KeyIndex { map: hashbrown::HashMap::new() }
}

/// `hashbrown::HashMap::get`: the position held under `key`, if any.
#[verifier::external_body]
pub(crate) fn key_index_get(table: &KeyIndex, key: u64) -> (at: Option<usize>)
    ensures
        at == if key_positions(*table).contains_key(key) {
            Some(key_positions(*table)[key])
        } else {
            None
        },
{
    table.map.get(&key).copied()
}

/// `hashbrown::HashMap::insert`: `key` now leads to `at`, whatever it led to
/// before, which is the answer.
#[verifier::external_body]
pub(crate) fn key_index_insert(table: &mut KeyIndex, key: u64, at: usize) -> (former: Option<usize>)
    ensures
        key_positions(*final(table)) == key_positions(*old(table)).insert(key, at),
        former == if key_positions(*old(table)).contains_key(key) {
            Some(key_positions(*old(table))[key])
        } else {
            None
        },
{
    table.map.insert(key, at)
}

} // verus!
