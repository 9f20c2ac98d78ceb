//! A run of the duplicate engine as a whole: what it leaves in the index
//! and on disk, and what holds of that whatever the order in which the
//! files come in.

use vstd::prelude::*;
use crate::hasher::{dropped_of, kept_of, keeps_incoming, renamed, taken_in, HasherEventDuplicate};
use crate::index::Hashes;

verus! {

/// A file as it reaches the engine: its content key and its path.
pub struct Entry {
    pub key: Hashes,
    pub path: Seq<char>,
}

/// A decided pair: the file that stays and the file that does not.
pub struct Pair {
    pub keep: Seq<char>,
    pub drop: Seq<char>,
}

/// A run of the engine, seen from outside: the index, the files on disk
/// whose creation time can be read, each with that time, and the pairs
/// decided so far.
pub struct Run {
    pub index: Map<Hashes, Seq<char>>,
    pub created: Map<Seq<char>, u128>,
    pub pairs: Seq<Pair>,
}

/// The run before the first file: nothing indexed, nothing decided.
pub open spec fn fresh(created: Map<Seq<char>, u128>) -> Run {
    Run { index: Map::empty(), created, pairs: Seq::empty() }
}

/// The files on disk after `event` was applied to the dropped file.
pub open spec fn acted(
    event: HasherEventDuplicate,
    created: Map<Seq<char>, u128>,
    dropped: Seq<char>,
    hash: u128,
) -> Map<Seq<char>, u128> {
    match event {
        HasherEventDuplicate::Remove => created.remove(dropped),
        HasherEventDuplicate::Rename => created.remove(dropped).insert(
            renamed(dropped, hash),
            created[dropped],
        ),
        HasherEventDuplicate::Print => created,
    }
}

/// The run after one more file. The engine takes the file in
/// (`AppHasher::take_in`). Where its key is known, both creation times are
/// read; where both can be had, the pair is settled
/// (`AppHasher::on_duplicate`) and the event is applied to the dropped
/// file; where one cannot, the pair is passed over.
pub open spec fn step(event: HasherEventDuplicate, run: Run, entry: Entry) -> Run {
    if !run.index.contains_key(entry.key) {
        Run {
            index: taken_in(run.index, entry.key, entry.path),
            created: run.created,
            pairs: run.pairs,
        }
    } else {
        let indexed = run.index[entry.key];
        if run.created.contains_key(entry.path) && run.created.contains_key(indexed) {
            let keep = kept_of(entry.path, indexed, run.created[entry.path], run.created[indexed]);
            let drop = dropped_of(
                entry.path,
                indexed,
                run.created[entry.path],
                run.created[indexed],
            );
            Run {
                index: run.index.insert(entry.key, keep),
                created: acted(event, run.created, drop, entry.key.hash),
                pairs: run.pairs.push(Pair { keep, drop }),
            }
        } else {
            run
        }
    }
}

/// The run after the files of `entries`, in their order.
pub open spec fn run_all(event: HasherEventDuplicate, start: Run, entries: Seq<Entry>) -> Run
    decreases entries.len(),
{
    if entries.len() == 0 {
        start
    } else {
        step(event, run_all(event, start, entries.drop_last()), entries.last())
    }
}

/// The index never loses a key, and a run under `Print` changes no file.
pub proof fn law_index_grows(event: HasherEventDuplicate, start: Run, entries: Seq<Entry>)
    ensures
        start.index.dom().subset_of(run_all(event, start, entries).index.dom()),
        event == HasherEventDuplicate::Print ==> run_all(event, start, entries).created
            == start.created,
    decreases entries.len(),
{
    if entries.len() > 0 {
        law_index_grows(event, start, entries.drop_last());
    }
}

/// Under `Print` a run changes no file, so a second run over the same
/// files, taken in the same order, decides the same pairs.
pub proof fn law_print_run_repeats(created: Map<Seq<char>, u128>, entries: Seq<Entry>)
    ensures
        run_all(HasherEventDuplicate::Print, fresh(created), entries).created == created,
        run_all(
            HasherEventDuplicate::Print,
            fresh(run_all(HasherEventDuplicate::Print, fresh(created), entries).created),
            entries,
        ).pairs == run_all(HasherEventDuplicate::Print, fresh(created), entries).pairs,
{
    law_index_grows(HasherEventDuplicate::Print, fresh(created), entries);
}

/// Of two files with the same content the one created earlier stays and
/// the other is dropped, whichever of them comes in first.
pub proof fn law_earlier_file_is_kept(
    event: HasherEventDuplicate,
    created: Map<Seq<char>, u128>,
    older: Entry,
    newer: Entry,
)
    requires
        older.key == newer.key,
        created.contains_key(older.path),
        created.contains_key(newer.path),
        created[older.path] < created[newer.path],
    ensures
        run_all(event, fresh(created), seq![older, newer]).pairs == seq![
            Pair { keep: older.path, drop: newer.path },
        ],
        run_all(event, fresh(created), seq![newer, older]).pairs == seq![
            Pair { keep: older.path, drop: newer.path },
        ],
        run_all(event, fresh(created), seq![older, newer]).index[older.key] == older.path,
        run_all(event, fresh(created), seq![newer, older]).index[older.key] == older.path,
{
    let forth = seq![older, newer];
    let back = seq![newer, older];
    assert(forth.drop_last() =~= seq![older]);
    assert(seq![older].drop_last() =~= Seq::<Entry>::empty());
    assert(back.drop_last() =~= seq![newer]);
    assert(seq![newer].drop_last() =~= Seq::<Entry>::empty());
    let start = fresh(created);
    assert(run_all(event, start, Seq::<Entry>::empty()) == start);
    assert(run_all(event, start, seq![older]) == step(event, start, older));
    assert(run_all(event, start, seq![newer]) == step(event, start, newer));
    assert(run_all(event, start, forth) == step(event, step(event, start, older), newer));
    assert(run_all(event, start, back) == step(event, step(event, start, newer), older));
    assert(run_all(event, start, forth).pairs =~= seq![Pair { keep: older.path, drop: newer.path }]);
    assert(run_all(event, start, back).pairs =~= seq![Pair { keep: older.path, drop: newer.path }]);
}

/// Whether a run may be taken over `entries`: the creation time of every
/// file can be read, no file comes twice, and no file stands where a
/// dropped one would be renamed to.
pub open spec fn sound_entries(created: Map<Seq<char>, u128>, entries: Seq<Entry>) -> bool {
    &&& forall|i: int| 0 <= i < entries.len() ==> created.contains_key((#[trigger] entries[i]).path)
    &&& forall|i: int, j: int|
        0 <= i < j < entries.len() ==> (#[trigger] entries[i]).path != (#[trigger] entries[j]).path
    &&& forall|i: int, j: int|
        0 <= i < entries.len() && 0 <= j < entries.len() ==> renamed(
            (#[trigger] entries[i]).path,
            entries[i].key.hash,
        ) != (#[trigger] entries[j]).path
}

/// `path` belongs to one of the first `n` files of `entries` with the key
/// `key`, and none of them was created before it.
pub open spec fn is_earliest(
    created: Map<Seq<char>, u128>,
    entries: Seq<Entry>,
    n: int,
    key: Hashes,
    path: Seq<char>,
) -> bool {
    &&& exists|i: int| 0 <= i < n && (#[trigger] entries[i]).key == key && entries[i].path == path
    &&& forall|j: int|
        0 <= j < n && (#[trigger] entries[j]).key == key ==> created[path] <= created[entries[j].path]
}

/// What holds of a run after the first `n` files of `entries`.
spec fn settled(created: Map<Seq<char>, u128>, entries: Seq<Entry>, n: int, run: Run) -> bool {
    &&& forall|k: Hashes| #[trigger]
        run.index.contains_key(k) <==> exists|i: int| 0 <= i < n && (#[trigger] entries[i]).key == k
    &&& forall|k: Hashes| #[trigger]
        run.index.contains_key(k) ==> {
            &&& is_earliest(created, entries, n, k, run.index[k])
            &&& run.created.contains_key(run.index[k])
            &&& run.created[run.index[k]] == created[run.index[k]]
        }
    &&& forall|i: int|
        n <= i < entries.len() ==> run.created.contains_key((#[trigger] entries[i]).path)
            && run.created[entries[i].path] == created[entries[i].path]
}

proof fn lemma_settled(
    event: HasherEventDuplicate,
    created: Map<Seq<char>, u128>,
    entries: Seq<Entry>,
    n: int,
)
    requires
        sound_entries(created, entries),
        0 <= n <= entries.len(),
    ensures
        settled(created, entries, n, run_all(event, fresh(created), entries.take(n))),
    decreases n,
{
    if n == 0 {
        assert(entries.take(0) =~= Seq::<Entry>::empty());
    } else {
        lemma_settled(event, created, entries, n - 1);
        let before = run_all(event, fresh(created), entries.take(n - 1));
        let entry = entries[n - 1];
        assert(entries.take(n).drop_last() =~= entries.take(n - 1));
        assert(entries.take(n).last() == entry);
        let after = step(event, before, entry);
        assert(run_all(event, fresh(created), entries.take(n)) == after);
        if !before.index.contains_key(entry.key) {
            assert forall|k: Hashes| #[trigger] after.index.contains_key(k) implies is_earliest(
                created,
                entries,
                n,
                k,
                after.index[k],
            ) by {
                if k == entry.key {
                    assert(entries[n - 1].key == k && entries[n - 1].path == after.index[k]);
                } else {
                    assert(before.index.contains_key(k));
                    let i = choose|i: int|
                        0 <= i < n - 1 && (#[trigger] entries[i]).key == k && entries[i].path
                            == before.index[k];
                    assert(entries[i].key == k && entries[i].path == after.index[k]);
                }
            }
            assert forall|k: Hashes| #[trigger] after.index.contains_key(k) implies exists|i: int|
                0 <= i < n && (#[trigger] entries[i]).key == k by {
                if k == entry.key {
                    assert(entries[n - 1].key == k);
                } else {
                    assert(before.index.contains_key(k));
                    let i = choose|i: int| 0 <= i < n - 1 && (#[trigger] entries[i]).key == k;
                    assert(entries[i].key == k);
                }
            }
        } else {
            let indexed = before.index[entry.key];
            assert(is_earliest(created, entries, n - 1, entry.key, indexed));
            let at = choose|i: int|
                0 <= i < n - 1 && (#[trigger] entries[i]).key == entry.key && entries[i].path
                    == indexed;
            assert(entries[at].path != entries[n - 1].path);
            assert(before.created.contains_key(entry.path));
            assert(before.created.contains_key(indexed));
            let incoming_stays = keeps_incoming(before.created[entry.path], before.created[indexed]);
            let keep = if incoming_stays {
                entry.path
            } else {
                indexed
            };
            let drop = if incoming_stays {
                indexed
            } else {
                entry.path
            };
            let drop_at = if incoming_stays {
                at
            } else {
                n - 1
            };
            assert(entries[drop_at].path == drop && entries[drop_at].key == entry.key);
            assert(after.index == before.index.insert(entry.key, keep));
            assert(after.created == acted(event, before.created, drop, entry.key.hash));
            assert forall|k: Hashes| #[trigger] after.index.contains_key(k) implies {
                &&& is_earliest(created, entries, n, k, after.index[k])
                &&& after.created.contains_key(after.index[k])
                &&& after.created[after.index[k]] == created[after.index[k]]
            } by {
                assert(before.index.contains_key(k));
                if k == entry.key {
                    if incoming_stays {
                        assert(entries[n - 1].key == k && entries[n - 1].path == keep);
                    } else {
                        assert(entries[at].key == k && entries[at].path == keep);
                    }
                    assert(keep != drop);
                    assert(renamed(entries[drop_at].path, entries[drop_at].key.hash) != keep);
                } else {
                    let i = choose|i: int|
                        0 <= i < n - 1 && (#[trigger] entries[i]).key == k && entries[i].path
                            == before.index[k];
                    assert(entries[i].key == k && entries[i].path == after.index[k]);
                    assert(i != drop_at);
                    assert(entries[i].path != entries[drop_at].path);
                    assert(renamed(entries[drop_at].path, entries[drop_at].key.hash)
                        != entries[i].path);
                }
            }
            assert forall|k: Hashes| #[trigger] after.index.contains_key(k) implies exists|i: int|
                0 <= i < n && (#[trigger] entries[i]).key == k by {
                assert(before.index.contains_key(k));
                let i = choose|i: int| 0 <= i < n - 1 && (#[trigger] entries[i]).key == k;
                assert(entries[i].key == k);
            }
            assert forall|i: int| n <= i < entries.len() implies after.created.contains_key(
                (#[trigger] entries[i]).path,
            ) && after.created[entries[i].path] == created[entries[i].path] by {
                assert(entries[i].path != entries[drop_at].path);
                assert(renamed(entries[drop_at].path, entries[drop_at].key.hash)
                    != entries[i].path);
            }
        }
    }
}

/// After a run the index holds, for the content of every file that came
/// in, a file with that content than which none was created earlier;
/// and it holds nothing else. So where no two files with the same content
/// are equally old, the files that stay do not depend on the order in
/// which the files came in.
pub proof fn law_index_holds_the_earliest(
    event: HasherEventDuplicate,
    created: Map<Seq<char>, u128>,
    entries: Seq<Entry>,
)
    requires
        sound_entries(created, entries),
    ensures
        forall|k: Hashes| #[trigger]
            run_all(event, fresh(created), entries).index.contains_key(k) <==> exists|i: int|
                0 <= i < entries.len() && (#[trigger] entries[i]).key == k,
        forall|k: Hashes| #[trigger]
            run_all(event, fresh(created), entries).index.contains_key(k) ==> is_earliest(
                created,
                entries,
                entries.len() as int,
                k,
                run_all(event, fresh(created), entries).index[k],
            ),
{
    lemma_settled(event, created, entries, entries.len() as int);
    assert(entries.take(entries.len() as int) =~= entries);
}

/// Where no two files with the same content are equally old, the index
/// at the end of a run is the same for every order in which the same
/// files come in.
pub proof fn law_kept_files_do_not_depend_on_order(
    event: HasherEventDuplicate,
    created: Map<Seq<char>, u128>,
    first: Seq<Entry>,
    second: Seq<Entry>,
)
    requires
        sound_entries(created, first),
        sound_entries(created, second),
        forall|e: Entry| first.contains(e) <==> second.contains(e),
        forall|i: int, j: int|
            0 <= i < j < first.len() && (#[trigger] first[i]).key == (#[trigger] first[j]).key
                ==> created[first[i].path] != created[first[j].path],
    ensures
        run_all(event, fresh(created), first).index == run_all(
            event,
            fresh(created),
            second,
        ).index,
{
    let a = run_all(event, fresh(created), first).index;
    let b = run_all(event, fresh(created), second).index;
    law_index_holds_the_earliest(event, created, first);
    law_index_holds_the_earliest(event, created, second);
    assert forall|k: Hashes| a.contains_key(k) implies b.contains_key(k) by {
        let i = choose|i: int| 0 <= i < first.len() && (#[trigger] first[i]).key == k;
        assert(first.contains(first[i]));
        assert(second.contains(first[i]));
        let j = choose|j: int| 0 <= j < second.len() && second[j] == first[i];
        assert(second[j].key == k);
    }
    assert forall|k: Hashes| b.contains_key(k) implies a.contains_key(k) by {
        let j = choose|j: int| 0 <= j < second.len() && (#[trigger] second[j]).key == k;
        assert(second.contains(second[j]));
        assert(first.contains(second[j]));
        let i = choose|i: int| 0 <= i < first.len() && first[i] == second[j];
        assert(first[i].key == k);
    }
    assert forall|k: Hashes| a.contains_key(k) implies a[k] == b[k] by {
        assert(b.contains_key(k));
        assert(is_earliest(created, first, first.len() as int, k, a[k]));
        assert(is_earliest(created, second, second.len() as int, k, b[k]));
        let i = choose|i: int|
            0 <= i < first.len() && (#[trigger] first[i]).key == k && first[i].path == a[k];
        let j = choose|j: int|
            0 <= j < second.len() && (#[trigger] second[j]).key == k && second[j].path == b[k];
        assert(second.contains(second[j]));
        assert(first.contains(second[j]));
        let i2 = choose|i2: int| 0 <= i2 < first.len() && first[i2] == second[j];
        assert(first.contains(first[i]));
        assert(second.contains(first[i]));
        let j2 = choose|j2: int| 0 <= j2 < second.len() && second[j2] == first[i];
        assert(first[i2].key == k);
        assert(second[j2].key == k);
        assert(created[a[k]] <= created[first[i2].path]);
        assert(created[b[k]] <= created[second[j2].path]);
        if i != i2 {
            if i < i2 {
                assert(created[first[i].path] != created[first[i2].path]);
            } else {
                assert(created[first[i2].path] != created[first[i].path]);
            }
        }
    }
    assert(a =~= b);
}

/// The files that a run has dropped.
pub open spec fn dropped_paths(run: Run) -> Set<Seq<char>> {
    Set::new(|p: Seq<char>| exists|m: int| 0 <= m < run.pairs.len() && (#[trigger] run.pairs[m]).drop == p)
}

/// Whether the index of `run` holds the file `entry`.
pub open spec fn stays(run: Run, entry: Entry) -> bool {
    run.index.contains_key(entry.key) && run.index[entry.key] == entry.path
}

/// What holds of the pairs of a run after the first `n` files of `entries`.
spec fn sorted_out(entries: Seq<Entry>, n: int, run: Run) -> bool {
    &&& forall|i: int|
        0 <= i < n ==> (stays(run, #[trigger] entries[i]) != dropped_paths(run).contains(
            entries[i].path,
        ))
    &&& forall|p: Seq<char>| #[trigger]
        dropped_paths(run).contains(p) ==> exists|i: int|
            0 <= i < n && (#[trigger] entries[i]).path == p
}

proof fn lemma_sorted_out(
    event: HasherEventDuplicate,
    created: Map<Seq<char>, u128>,
    entries: Seq<Entry>,
    n: int,
)
    requires
        sound_entries(created, entries),
        0 <= n <= entries.len(),
    ensures
        sorted_out(entries, n, run_all(event, fresh(created), entries.take(n))),
    decreases n,
{
    if n == 0 {
        assert(entries.take(0) =~= Seq::<Entry>::empty());
    } else {
        lemma_sorted_out(event, created, entries, n - 1);
        lemma_settled(event, created, entries, n - 1);
        let before = run_all(event, fresh(created), entries.take(n - 1));
        let entry = entries[n - 1];
        assert(entries.take(n).drop_last() =~= entries.take(n - 1));
        assert(entries.take(n).last() == entry);
        let after = step(event, before, entry);
        assert(run_all(event, fresh(created), entries.take(n)) == after);
        if !before.index.contains_key(entry.key) {
            assert(dropped_paths(after) =~= dropped_paths(before));
            assert forall|i: int| 0 <= i < n implies (stays(after, #[trigger] entries[i])
                != dropped_paths(after).contains(entries[i].path)) by {
                if i == n - 1 {
                    if dropped_paths(before).contains(entry.path) {
                        let j = choose|j: int|
                            0 <= j < n - 1 && (#[trigger] entries[j]).path == entry.path;
                        assert(entries[j].path != entries[n - 1].path);
                    }
                } else {
                    assert(stays(before, entries[i]) != dropped_paths(before).contains(
                        entries[i].path,
                    ));
                    if entries[i].key == entry.key {
                        assert(entries[i].key == entry.key);
                        assert(before.index.contains_key(entry.key));
                    }
                }
            }
            assert forall|p: Seq<char>| #[trigger]
                dropped_paths(after).contains(p) implies exists|i: int|
                0 <= i < n && (#[trigger] entries[i]).path == p by {
                assert(dropped_paths(before).contains(p));
                let i = choose|i: int| 0 <= i < n - 1 && (#[trigger] entries[i]).path == p;
                assert(entries[i].path == p);
            }
        } else {
            let indexed = before.index[entry.key];
            assert(is_earliest(created, entries, n - 1, entry.key, indexed));
            let at = choose|i: int|
                0 <= i < n - 1 && (#[trigger] entries[i]).key == entry.key && entries[i].path
                    == indexed;
            assert(entries[at].path != entries[n - 1].path);
            assert(before.created.contains_key(entry.path));
            assert(before.created.contains_key(indexed));
            let incoming_stays = keeps_incoming(before.created[entry.path], before.created[indexed]);
            let keep = if incoming_stays {
                entry.path
            } else {
                indexed
            };
            let drop = if incoming_stays {
                indexed
            } else {
                entry.path
            };
            assert(after.index == before.index.insert(entry.key, keep));
            assert(after.pairs == before.pairs.push(Pair { keep, drop }));
            assert(after.pairs[before.pairs.len() as int].drop == drop);
            assert(dropped_paths(after).contains(drop));
            assert forall|p: Seq<char>| #[trigger]
                dropped_paths(after).contains(p) == (dropped_paths(before).contains(p) || p
                    == drop) by {
                if dropped_paths(before).contains(p) {
                    let m = choose|m: int|
                        0 <= m < before.pairs.len() && (#[trigger] before.pairs[m]).drop == p;
                    assert(after.pairs[m].drop == p);
                }
                if dropped_paths(after).contains(p) && p != drop {
                    let m = choose|m: int|
                        0 <= m < after.pairs.len() && (#[trigger] after.pairs[m]).drop == p;
                    assert(m < before.pairs.len());
                    assert(before.pairs[m].drop == p);
                }
            }
            assert(stays(before, entries[at]));
            assert(!dropped_paths(before).contains(indexed));
            if dropped_paths(before).contains(entry.path) {
                let j = choose|j: int| 0 <= j < n - 1 && (#[trigger] entries[j]).path == entry.path;
                assert(entries[j].path != entries[n - 1].path);
            }
            assert forall|i: int| 0 <= i < n implies (stays(after, #[trigger] entries[i])
                != dropped_paths(after).contains(entries[i].path)) by {
                if i == n - 1 {
                } else {
                    assert(stays(before, entries[i]) != dropped_paths(before).contains(
                        entries[i].path,
                    ));
                    assert(entries[i].path != entries[n - 1].path);
                    if i != at {
                        assert(entries[i].path != entries[at].path);
                    }
                }
            }
            assert forall|p: Seq<char>| #[trigger]
                dropped_paths(after).contains(p) implies exists|i: int|
                0 <= i < n && (#[trigger] entries[i]).path == p by {
                if p == drop {
                    if incoming_stays {
                        assert(entries[at].path == p);
                    } else {
                        assert(entries[n - 1].path == p);
                    }
                } else {
                    assert(dropped_paths(before).contains(p));
                    let i = choose|i: int| 0 <= i < n - 1 && (#[trigger] entries[i]).path == p;
                    assert(entries[i].path == p);
                }
            }
        }
    }
}

/// Every file that came in either stays or was dropped, never both, and
/// nothing else was dropped.
pub proof fn law_files_stay_or_drop(
    event: HasherEventDuplicate,
    created: Map<Seq<char>, u128>,
    entries: Seq<Entry>,
)
    requires
        sound_entries(created, entries),
    ensures
        forall|i: int|
            0 <= i < entries.len() ==> (stays(
                run_all(event, fresh(created), entries),
                #[trigger] entries[i],
            ) != dropped_paths(run_all(event, fresh(created), entries)).contains(entries[i].path)),
        forall|p: Seq<char>| #[trigger]
            dropped_paths(run_all(event, fresh(created), entries)).contains(p) ==> exists|i: int|
                0 <= i < entries.len() && (#[trigger] entries[i]).path == p,
{
    lemma_sorted_out(event, created, entries, entries.len() as int);
    assert(entries.take(entries.len() as int) =~= entries);
}

/// Where no two files with the same content are equally old, the files
/// dropped in a run are the same for every order in which the same files
/// come in.
pub proof fn law_dropped_files_do_not_depend_on_order(
    event: HasherEventDuplicate,
    created: Map<Seq<char>, u128>,
    first: Seq<Entry>,
    second: Seq<Entry>,
)
    requires
        sound_entries(created, first),
        sound_entries(created, second),
        forall|e: Entry| first.contains(e) <==> second.contains(e),
        forall|i: int, j: int|
            0 <= i < j < first.len() && (#[trigger] first[i]).key == (#[trigger] first[j]).key
                ==> created[first[i].path] != created[first[j].path],
    ensures
        dropped_paths(run_all(event, fresh(created), first)) == dropped_paths(
            run_all(event, fresh(created), second),
        ),
{
    let a = run_all(event, fresh(created), first);
    let b = run_all(event, fresh(created), second);
    law_kept_files_do_not_depend_on_order(event, created, first, second);
    law_files_stay_or_drop(event, created, first);
    law_files_stay_or_drop(event, created, second);
    assert forall|p: Seq<char>| dropped_paths(a).contains(p) implies dropped_paths(b).contains(
        p,
    ) by {
        let i = choose|i: int| 0 <= i < first.len() && (#[trigger] first[i]).path == p;
        assert(first.contains(first[i]));
        assert(second.contains(first[i]));
        let j = choose|j: int| 0 <= j < second.len() && second[j] == first[i];
        assert(!stays(a, first[i]));
        assert(!stays(b, second[j]));
    }
    assert forall|p: Seq<char>| dropped_paths(b).contains(p) implies dropped_paths(a).contains(
        p,
    ) by {
        let j = choose|j: int| 0 <= j < second.len() && (#[trigger] second[j]).path == p;
        assert(second.contains(second[j]));
        assert(first.contains(second[j]));
        let i = choose|i: int| 0 <= i < first.len() && first[i] == second[j];
        assert(!stays(b, second[j]));
        assert(!stays(a, first[i]));
    }
    assert(dropped_paths(a) =~= dropped_paths(b));
}

} // verus!
