//! What a list of entries holds: the set of the keys of its entries.

use vstd::prelude::*;

verus! {

/// The keys of the entries of a list, as a set.
pub open spec fn held<E, K>(entries: Seq<E>, key: spec_fn(E) -> K) -> Set<K> {
    entries.map_values(key).to_set()
}

/// An entry pushed to a list adds its key to what the list holds.
pub proof fn lemma_held_push<E, K>(entries: Seq<E>, entry: E, key: spec_fn(E) -> K)
    ensures
        held(entries.push(entry), key) == held(entries, key).insert(key(entry)),
{
    entries.lemma_push_map_commute(key, entry);
    entries.map_values(key).lemma_push_to_set_commute(key(entry));
}

/// Where a key that a list holds stands in the list.
pub proof fn lemma_held_position<E, K>(entries: Seq<E>, key: spec_fn(E) -> K, wanted: K) -> (at:
    int)
    requires
        held(entries, key).contains(wanted),
    ensures
        0 <= at < entries.len(),
        key(entries[at]) == wanted,
{
    let keys = entries.map_values(key);
    choose|at: int| 0 <= at < keys.len() && keys[at] == wanted
}

/// The key of every entry of a list is among the keys that the list holds.
pub proof fn lemma_held_at<E, K>(entries: Seq<E>, key: spec_fn(E) -> K, at: int)
    requires
        0 <= at < entries.len(),
    ensures
        held(entries, key).contains(key(entries[at])),
{
    let keys = entries.map_values(key);
    assert(keys[at] == key(entries[at]));
}

/// Where a list holds exactly the entries of another that a condition keeps,
/// and the condition goes by the key alone, it holds exactly the keys of the
/// other that the condition keeps.
pub proof fn lemma_held_kept<E, K>(
    before: Seq<E>,
    after: Seq<E>,
    key: spec_fn(E) -> K,
    kept: spec_fn(E) -> bool,
    kept_key: spec_fn(K) -> bool,
)
    requires
        forall|e: E| after.contains(e) <==> before.contains(e) && kept(e),
        forall|e: E| kept(e) == kept_key(#[trigger] key(e)),
    ensures
        held(after, key) == held(before, key).filter(kept_key),
{
    assert forall|k: K| held(after, key).contains(k) == held(before, key).filter(
        kept_key,
    ).contains(k) by {
        if held(after, key).contains(k) {
            let at = lemma_held_position(after, key, k);
            assert(after.contains(after[at]));
            let from = choose|from: int| 0 <= from < before.len() && before[from] == after[at];
            lemma_held_at(before, key, from);
        }
        if held(before, key).contains(k) && kept_key(k) {
            let from = lemma_held_position(before, key, k);
            assert(before.contains(before[from]));
            assert(after.contains(before[from]));
            let at = choose|at: int| 0 <= at < after.len() && after[at] == before[from];
            lemma_held_at(after, key, at);
        }
    }
    assert(held(after, key) =~= held(before, key).filter(kept_key));
}

/// Moves out of `entries`, which is left empty, the entries that `keep` keeps.
pub(crate) fn take_kept<E, F: Fn(&E) -> bool>(
    entries: &mut Vec<E>,
    keep: F,
    Ghost(kept): Ghost<spec_fn(E) -> bool>,
) -> (taken: Vec<E>)
    requires
        forall|e: &E| #[trigger] keep.requires((e,)),
        forall|e: &E, yes: bool| #[trigger] keep.ensures((e,), yes) ==> yes == kept(*e),
    ensures
        final(entries)@.len() == 0,
        forall|e: E| taken@.contains(e) <==> old(entries)@.contains(e) && kept(e),
{
    let mut taken: Vec<E> = Vec::new();
    let ghost before = entries@;
    loop
        invariant
            forall|e: &E| #[trigger] keep.requires((e,)),
            forall|e: &E, yes: bool| #[trigger] keep.ensures((e,), yes) ==> yes == kept(*e),
            entries@.len() <= before.len(),
            entries@ == before.subrange(0, entries@.len() as int),
            forall|e: E|
                taken@.contains(e) <==> before.subrange(
                    entries@.len() as int,
                    before.len() as int,
                ).contains(e) && kept(e),
        ensures
            entries@.len() == 0,
        decreases entries@.len(),
    {
        let ghost rest = entries@;
        let ghost had = taken@;
        let ghost seen = before.subrange(rest.len() as int, before.len() as int);
        match entries.pop() {
            None => {
                break ;
            },
            Some(entry) => {
                let ghost now_seen = before.subrange(rest.len() - 1, before.len() as int);
                proof {
                    assert(entry == before[rest.len() - 1]);
                    assert(now_seen =~= seq![entry] + seen);
                    assert(entries@ =~= before.subrange(0, rest.len() - 1));
                    assert forall|e: E| now_seen.contains(e) <==> e == entry || seen.contains(
                        e,
                    ) by {
                        if now_seen.contains(e) {
                            let i = choose|i: int| 0 <= i < now_seen.len() && now_seen[i] == e;
                            if i > 0 {
                                assert(seen[i - 1] == e);
                            }
                        }
                        if seen.contains(e) {
                            let i = choose|i: int| 0 <= i < seen.len() && seen[i] == e;
                            assert(now_seen[i + 1] == e);
                        }
                        if e == entry {
                            assert(now_seen[0] == e);
                        }
                    }
                }
                let yes = keep(&entry);
                assert(yes == kept(entry));
                if yes {
                    taken.push(entry);
                    proof {
                        assert(taken@ == had.push(entry));
                        assert forall|e: E| taken@.contains(e) <==> had.contains(e) || e
                            == entry by {
                            if taken@.contains(e) {
                                let i = choose|i: int| 0 <= i < taken@.len() && taken@[i] == e;
                                if i < had.len() {
                                    assert(had[i] == e);
                                }
                            }
                            if had.contains(e) {
                                let i = choose|i: int| 0 <= i < had.len() && had[i] == e;
                                assert(taken@[i] == e);
                            }
                            if e == entry {
                                assert(taken@[had.len() as int] == e);
                            }
                        }
                    }
                }
                proof {
                    assert(entries@.len() == rest.len() - 1);
                    assert forall|e: E| taken@.contains(e) <==> now_seen.contains(e) && kept(
                        e,
                    ) by {
                        assert(had.contains(e) <==> seen.contains(e) && kept(e));
                        assert(now_seen.contains(e) <==> e == entry || seen.contains(e));
                    }
                }
            },
        }
    }
    proof {
        assert(before.subrange(0, before.len() as int) =~= before);
    }
    taken
}

} // verus!
