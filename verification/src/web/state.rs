//! The application state container: values under explicit keys, filled at
//! start-up in two phases and read-only afterwards.
//!
//! The first phase inserts the entries that are known up front. The second
//! phase runs the state factories, which may read what the container holds
//! so far and may fail; the first factory that fails ends the run, and
//! with it the start of the application. Every entry of the first phase is
//! in the container before the first factory runs.
use vstd::prelude::*;

verus! {

/// A value with the key it is stored under.
pub struct StateEntry<V> {
    pub key: u64,
    pub value: V,
}

/// What a container that held `base` holds after the given insertions,
/// made in order: a later entry replaces an earlier one with the same key.
pub open spec fn filled_onto<V>(base: Map<u64, V>, entries: Seq<StateEntry<V>>) -> Map<u64, V>
    decreases entries.len(),
{
    if entries.len() == 0 {
        base
    } else {
        filled_onto(base, entries.drop_last()).insert(entries.last().key, entries.last().value)
    }
}

/// What an empty container holds after the given insertions.
pub open spec fn filled<V>(entries: Seq<StateEntry<V>>) -> Map<u64, V> {
    filled_onto(Map::empty(), entries)
}

/// Inserting two lists one after the other is inserting their
/// concatenation.
pub proof fn lemma_filled_concat<V>(
    base: Map<u64, V>,
    first: Seq<StateEntry<V>>,
    second: Seq<StateEntry<V>>,
)
    ensures
        filled_onto(base, first + second) == filled_onto(filled_onto(base, first), second),
    decreases second.len(),
{
    if second.len() > 0 {
        assert((first + second).drop_last() =~= first + second.drop_last());
        lemma_filled_concat(base, first, second.drop_last());
    }
}

/// A mapping from keys to values.
pub struct StateContainer<V> {
    entries: Vec<StateEntry<V>>,
}

impl<V> View for StateContainer<V> {
    type V = Map<u64, V>;

    closed spec fn view(&self) -> Map<u64, V> {
        filled(self.entries@)
    }
}

impl<V> StateContainer<V> {
    /// The empty container.
    pub fn new() -> (c: Self)
        ensures
            c@ == Map::<u64, V>::empty(),
    {
        StateContainer { entries: Vec::new() }
    }

    /// Stores `value` under `key`, in place of what was stored there.
    pub fn insert(&mut self, key: u64, value: V)
        ensures
            final(self)@ == old(self)@.insert(key, value),
    {
        let ghost before = self.entries@;
        self.entries.push(StateEntry { key, value });
        proof {
            assert(self.entries@.drop_last() =~= before);
        }
    }

    /// Stores the entries in order.
    pub fn extend(&mut self, entries: Vec<StateEntry<V>>)
        ensures
            final(self)@ == filled_onto(old(self)@, entries@),
    {
        let mut entries = entries;
        proof {
            lemma_filled_concat(Map::empty(), self.entries@, entries@);
        }
        self.entries.append(&mut entries);
    }

    /// The value stored under `key`.
    pub fn get(&self, key: u64) -> (r: Option<&V>)
        ensures
            match r {
                Some(v) => self@.contains_key(key) && self@[key] == *v,
                None => !self@.contains_key(key),
            },
    {
        let mut i: usize = self.entries.len();
        proof {
            assert(self.entries@.take(i as int) =~= self.entries@);
        }
        while i > 0
            invariant
                i <= self.entries@.len(),
                filled(self.entries@).contains_key(key) == filled(
                    self.entries@.take(i as int),
                ).contains_key(key),
                filled(self.entries@).contains_key(key) ==> filled(self.entries@)[key] == filled(
                    self.entries@.take(i as int),
                )[key],
            decreases i,
        {
            i -= 1;
            proof {
                assert(self.entries@.take(i + 1).drop_last() =~= self.entries@.take(i as int));
            }
            if self.entries[i].key == key {
                return Some(&self.entries[i].value);
            }
        }
        None
    }

    /// Whether a value is stored under `key`.
    pub fn contains(&self, key: u64) -> (b: bool)
        ensures
            b == self@.contains_key(key),
    {
        self.get(key).is_some()
    }

    /// Takes the outcome of a state factory: an entry is stored, a failure
    /// is handed on and leaves the container as it was. After a failure no
    /// further factory is to run.
    pub fn store(&mut self, outcome: Result<StateEntry<V>, ()>) -> (r: Result<(), ()>)
        ensures
            match outcome {
                Ok(entry) => r is Ok && final(self)@ == old(self)@.insert(entry.key, entry.value),
                Err(_) => r is Err && final(self)@ == old(self)@,
            },
    {
        match outcome {
            Ok(entry) => {
                self.insert(entry.key, entry.value);
                Ok(())
            },
            Err(_) => Err(()),
        }
    }

    /// Removes every entry.
    pub fn clear(&mut self)
        ensures
            final(self)@ == Map::<u64, V>::empty(),
    {
        self.entries.clear();
    }
}

/// A factory of the second phase. It may read the container as it stands
/// when the factory runs.
pub trait StateFactory<V> {
    /// The outcomes that the factory may have on a container that holds
    /// `seen`.
    open spec fn may_produce(&self, seen: Map<u64, V>, outcome: Result<StateEntry<V>, ()>) -> bool {
        true
    }

    /// Produces one entry, or fails.
    fn create(&self, state: &StateContainer<V>) -> (outcome: Result<StateEntry<V>, ()>)
        ensures
            self.may_produce(state@, outcome),
    ;
}

/// Whether `produced` is what the factories may produce when they run in
/// order on a container that starts as `start` and every one of them
/// succeeds: each factory reads what `start` and the factories before it
/// left.
pub open spec fn produced_by<V, F: StateFactory<V>>(
    factories: Seq<F>,
    start: Map<u64, V>,
    produced: Seq<StateEntry<V>>,
) -> bool {
    &&& produced.len() == factories.len()
    &&& forall|j: int|
        0 <= j < factories.len() ==> (#[trigger] factories[j]).may_produce(
            filled_onto(start, produced.take(j)),
            Ok(produced[j]),
        )
}

/// Whether the run of the factories may stop after `produced`: the first
/// factories succeed with these entries, and the next factory may fail on
/// what it then reads.
pub open spec fn stopped_after<V, F: StateFactory<V>>(
    factories: Seq<F>,
    start: Map<u64, V>,
    produced: Seq<StateEntry<V>>,
) -> bool {
    &&& produced.len() < factories.len()
    &&& produced_by(factories.take(produced.len() as int), start, produced)
    &&& factories[produced.len() as int].may_produce(filled_onto(start, produced), Err(()))
}

/// Whether some factory may fail on what it reads.
pub open spec fn may_stop<V, F: StateFactory<V>>(factories: Seq<F>, start: Map<u64, V>) -> bool {
    exists|produced: Seq<StateEntry<V>>| #[trigger] stopped_after(factories, start, produced)
}

/// First phase: a container that holds `entries`, inserted in order.
pub fn populate<V>(entries: Vec<StateEntry<V>>) -> (c: StateContainer<V>)
    ensures
        c@ == filled(entries@),
{
    StateContainer { entries }
}

/// Second phase: runs the factories in order on the container and stores
/// what each produces. Each factory sees what the first phase and the
/// factories before it stored. The run stops at the first factory that
/// fails, and the failure is the result; what the factories before it
/// produced stays in the container.
pub fn run_factories<V, F: StateFactory<V>>(
    state: &mut StateContainer<V>,
    factories: &Vec<F>,
) -> (r: Result<(), ()>)
    ensures
        match r {
            Ok(_) => exists|produced: Seq<StateEntry<V>>| #[trigger]
                produced_by(factories@, old(state)@, produced) && final(state)@ == filled_onto(
                    old(state)@,
                    produced,
                ),
            Err(_) => exists|produced: Seq<StateEntry<V>>| #[trigger]
                stopped_after(factories@, old(state)@, produced) && final(state)@ == filled_onto(
                    old(state)@,
                    produced,
                ),
        },
        r is Err ==> may_stop(factories@, old(state)@),
{
    let ghost start = state@;
    let ghost mut produced: Seq<StateEntry<V>> = Seq::empty();
    let mut j: usize = 0;
    while j < factories.len()
        invariant
            j <= factories@.len(),
            produced.len() == j,
            start == old(state)@,
            state@ == filled_onto(start, produced),
            forall|k: int|
                0 <= k < j ==> (#[trigger] factories@[k]).may_produce(
                    filled_onto(start, produced.take(k)),
                    Ok(produced[k]),
                ),
        decreases factories@.len() - j,
    {
        let outcome = factories[j].create(state);
        match state.store(outcome) {
            Err(e) => {
                proof {
                    assert(outcome == Err::<StateEntry<V>, ()>(outcome->Err_0));
                    assert(factories@[j as int].may_produce(filled_onto(start, produced), Err(())));
                    assert forall|k: int| 0 <= k < j implies (#[trigger] factories@.take(j as int)[k]).may_produce(
                        filled_onto(start, produced.take(k)),
                        Ok(produced[k]),
                    ) by {
                        assert(factories@.take(j as int)[k] == factories@[k]);
                    }
                    assert(stopped_after(factories@, start, produced));
                }
                return Err(());
            },
            Ok(_) => {
                proof {
                    let entry = outcome->Ok_0;
                    let longer = produced.push(entry);
                    assert(longer.take(j as int) =~= produced);
                    assert(longer.drop_last() =~= produced);
                    assert forall|k: int| 0 <= k < j + 1 implies (#[trigger] factories@[k]).may_produce(
                        filled_onto(start, longer.take(k)),
                        Ok(longer[k]),
                    ) by {
                        if k < j {
                            assert(longer.take(k) =~= produced.take(k));
                        }
                    }
                    produced = longer;
                }
            },
        }
        j += 1;
    }
    proof {
        assert(produced_by(factories@, start, produced));
    }
    Ok(())
}

/// Whether each factory produces at most one entry on what it reads.
pub open spec fn single_valued<V, F: StateFactory<V>>(factories: Seq<F>) -> bool {
    forall|j: int, seen: Map<u64, V>, a: StateEntry<V>, b: StateEntry<V>|
        0 <= j < factories.len() && #[trigger] factories[j].may_produce(seen, Ok(a))
            && #[trigger] factories[j].may_produce(seen, Ok(b)) ==> a == b
}

/// Two runs of the same single-valued factories on containers that hold
/// the same produce the same entries, and so leave containers that hold
/// the same: the state of an application is then a function of what was
/// registered.
pub proof fn lemma_same_start_same_state<V, F: StateFactory<V>>(
    factories: Seq<F>,
    start: Map<u64, V>,
    first: Seq<StateEntry<V>>,
    second: Seq<StateEntry<V>>,
    k: int,
)
    requires
        single_valued(factories),
        produced_by(factories, start, first),
        produced_by(factories, start, second),
        0 <= k <= factories.len(),
    ensures
        first.take(k) == second.take(k),
        k == factories.len() ==> first == second && filled_onto(start, first) == filled_onto(
            start,
            second,
        ),
    decreases k,
{
    if k > 0 {
        lemma_same_start_same_state(factories, start, first, second, k - 1);
        let seen = filled_onto(start, first.take(k - 1));
        assert(factories[k - 1].may_produce(seen, Ok(first[k - 1])));
        assert(factories[k - 1].may_produce(seen, Ok(second[k - 1])));
        assert(first.take(k) =~= first.take(k - 1).push(first[k - 1]));
        assert(second.take(k) =~= second.take(k - 1).push(second[k - 1]));
    }
    assert(first.take(0) =~= second.take(0));
    if k == factories.len() {
        assert(first.take(k) =~= first);
        assert(second.take(k) =~= second);
    }
}

/// An entry of the first phase is in the container whatever the order of
/// the entries: under its key stands its value or that of a later entry
/// with the same key.
pub proof fn lemma_filled_has_every_key<V>(
    base: Map<u64, V>,
    entries: Seq<StateEntry<V>>,
    i: int,
)
    requires
        0 <= i < entries.len(),
    ensures
        filled_onto(base, entries).contains_key(entries[i].key),
        (forall|j: int| i < j < entries.len() ==> entries[j].key != entries[i].key)
            ==> filled_onto(base, entries)[entries[i].key] == entries[i].value,
    decreases entries.len(),
{
    if i < entries.len() - 1 {
        lemma_filled_has_every_key(base, entries.drop_last(), i);
    }
}

/// Insertions never remove a key.
pub proof fn lemma_filled_keeps_keys<V>(base: Map<u64, V>, entries: Seq<StateEntry<V>>, key: u64)
    requires
        base.contains_key(key),
    ensures
        filled_onto(base, entries).contains_key(key),
    decreases entries.len(),
{
    if entries.len() > 0 {
        lemma_filled_keeps_keys(base, entries.drop_last(), key);
    }
}

/// Phase order: whichever factory of the second phase runs, and whatever
/// the factories before it produced, the container it reads holds every
/// key of the first phase. The order in which the entries of the first
/// phase were registered makes no difference: the same holds with the
/// entries reversed.
pub proof fn lemma_first_phase_visible<V>(
    base: Map<u64, V>,
    entries: Seq<StateEntry<V>>,
    produced: Seq<StateEntry<V>>,
    j: int,
    i: int,
)
    requires
        0 <= i < entries.len(),
        0 <= j <= produced.len(),
    ensures
        filled_onto(filled_onto(base, entries), produced.take(j)).contains_key(entries[i].key),
        filled_onto(filled_onto(base, entries.reverse()), produced.take(j)).contains_key(
            entries[i].key,
        ),
{
    lemma_filled_has_every_key(base, entries, i);
    lemma_filled_keeps_keys(filled_onto(base, entries), produced.take(j), entries[i].key);
    let back = entries.reverse();
    assert(back[entries.len() - 1 - i] == entries[i]);
    lemma_filled_has_every_key(base, back, entries.len() - 1 - i);
    lemma_filled_keeps_keys(filled_onto(base, back), produced.take(j), entries[i].key);
}

} // verus!
