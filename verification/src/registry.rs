//! The subscription registry: which listeners are registered under which
//! subscription key.
//!
//! The registry is modelled as a map from a key to the ordered, non-empty
//! list of its listeners. A key is present exactly while it has a listener.

use crate::text::chars_eq;
use crate::text::chars_of;
use crate::text::contains_char;
use crate::text::starts_with;
use vstd::prelude::*;

verus! {

/// A registered listener: an identifier and the callback to invoke.
pub struct ListenerHandle<C> {
    pub id: u64,
    pub callback: C,
}

/// One key of the registry with its listeners, in order of registration.
struct RegistryEntry<C> {
    key: String,
    listeners: Vec<ListenerHandle<C>>,
}

/// The registry of subscriptions.
pub struct SubscriptionRegistry<C> {
    entries: Vec<RegistryEntry<C>>,
}

/// The identifier after `counter`.
pub open spec fn next_id(counter: u64) -> u64 {
    (counter + 1) as u64
}

/// The listeners of a key in a registry model: none for an absent key.
pub open spec fn listeners_of<C>(m: Map<Seq<char>, Seq<ListenerHandle<C>>>, key: Seq<char>) -> Seq<
    ListenerHandle<C>,
> {
    if m.contains_key(key) {
        m[key]
    } else {
        Seq::empty()
    }
}

/// The listeners of a list whose identifier is not `id`, in order.
pub open spec fn without_id<C>(listeners: Seq<ListenerHandle<C>>, id: u64) -> Seq<
    ListenerHandle<C>,
> {
    listeners.filter(|h: ListenerHandle<C>| h.id != id)
}

/// The model after a listener is added under a key.
pub open spec fn registry_add<C>(
    m: Map<Seq<char>, Seq<ListenerHandle<C>>>,
    key: Seq<char>,
    handle: ListenerHandle<C>,
) -> Map<Seq<char>, Seq<ListenerHandle<C>>> {
    m.insert(key, listeners_of(m, key).push(handle))
}

/// The model after the listener `id` is removed from a key: the key goes
/// with its last listener.
pub open spec fn registry_remove<C>(
    m: Map<Seq<char>, Seq<ListenerHandle<C>>>,
    key: Seq<char>,
    id: u64,
) -> Map<Seq<char>, Seq<ListenerHandle<C>>> {
    if !m.contains_key(key) {
        m
    } else if without_id(m[key], id).len() == 0 {
        m.remove(key)
    } else {
        m.insert(key, without_id(m[key], id))
    }
}

/// Whether a key belongs to a topic: it is the topic itself, or the topic
/// followed by `?` and options, or, for a topic that holds a `?` itself,
/// the topic followed by `&options=` and options.
pub open spec fn key_of_topic(key: Seq<char>, topic: Seq<char>) -> bool {
    key == topic || (topic + seq!['?']).is_prefix_of(key) || (topic.contains('?') && (topic
        + seq!['&'] + "options="@).is_prefix_of(key))
}

/// The model without the keys that begin with `prefix`.
pub open spec fn registry_without_prefix<C>(
    m: Map<Seq<char>, Seq<ListenerHandle<C>>>,
    prefix: Seq<char>,
) -> Map<Seq<char>, Seq<ListenerHandle<C>>> {
    m.restrict(Set::new(|k: Seq<char>| !prefix.is_prefix_of(k)))
}

/// The model without the keys that belong to `topic`.
pub open spec fn registry_without_topic<C>(
    m: Map<Seq<char>, Seq<ListenerHandle<C>>>,
    topic: Seq<char>,
) -> Map<Seq<char>, Seq<ListenerHandle<C>>> {
    m.restrict(Set::new(|k: Seq<char>| !key_of_topic(k, topic)))
}

/// The model after the listener `id` is removed from every key of `topic`.
pub open spec fn registry_remove_from_topic<C>(
    m: Map<Seq<char>, Seq<ListenerHandle<C>>>,
    topic: Seq<char>,
    id: u64,
) -> Map<Seq<char>, Seq<ListenerHandle<C>>> {
    Map::new(
        |k: Seq<char>|
            m.contains_key(k) && (key_of_topic(k, topic) ==> without_id(m[k], id).len() > 0),
        |k: Seq<char>|
            if key_of_topic(k, topic) {
                without_id(m[k], id)
            } else {
                m[k]
            },
    )
}

/// Whether a registry model has no key.
pub open spec fn registry_is_empty<C>(m: Map<Seq<char>, Seq<ListenerHandle<C>>>) -> bool {
    forall|k: Seq<char>| !m.contains_key(k)
}

/// Whether a key of the first model is missing from the second.
pub open spec fn loses_key<C>(
    before: Map<Seq<char>, Seq<ListenerHandle<C>>>,
    after: Map<Seq<char>, Seq<ListenerHandle<C>>>,
) -> bool {
    exists|k: Seq<char>| before.contains_key(k) && !after.contains_key(k)
}

/// The entries of a registry as pairs of a key and its listeners.
spec fn model_of<C>(entries: Seq<RegistryEntry<C>>) -> Seq<(Seq<char>, Seq<ListenerHandle<C>>)> {
    Seq::new(entries.len(), |i: int| (entries[i].key@, entries[i].listeners@))
}

/// No key occurs twice among the entries.
spec fn distinct_keys<C>(m: Seq<(Seq<char>, Seq<ListenerHandle<C>>)>) -> bool {
    forall|i: int, j: int| 0 <= i < j < m.len() ==> (#[trigger] m[i]).0 != (#[trigger] m[j]).0
}

/// Every entry has a listener.
spec fn nonempty_lists<C>(m: Seq<(Seq<char>, Seq<ListenerHandle<C>>)>) -> bool {
    forall|i: int| 0 <= i < m.len() ==> (#[trigger] m[i]).1.len() > 0
}

/// Whether some entry has the key.
spec fn has_key<C>(m: Seq<(Seq<char>, Seq<ListenerHandle<C>>)>, key: Seq<char>) -> bool {
    exists|i: int| 0 <= i < m.len() && (#[trigger] m[i]).0 == key
}

/// Index of an entry of a key among the entries.
spec fn slot_of<C>(m: Seq<(Seq<char>, Seq<ListenerHandle<C>>)>, key: Seq<char>) -> int {
    choose|i: int| 0 <= i < m.len() && (#[trigger] m[i]).0 == key
}

/// The map that a sequence of entries stands for.
spec fn map_of<C>(m: Seq<(Seq<char>, Seq<ListenerHandle<C>>)>) -> Map<
    Seq<char>,
    Seq<ListenerHandle<C>>,
> {
    Map::new(|k: Seq<char>| has_key(m, k), |k: Seq<char>| m[slot_of(m, k)].1)
}

/// With distinct keys, each entry is found in the map under its key, and
/// each key of the map has its entry.
proof fn lemma_map_of<C>(m: Seq<(Seq<char>, Seq<ListenerHandle<C>>)>)
    requires
        distinct_keys(m),
    ensures
        forall|i: int|
            0 <= i < m.len() ==> map_of(m).contains_key((#[trigger] m[i]).0) && map_of(m)[m[i].0]
                == m[i].1,
        forall|k: Seq<char>| #[trigger]
            map_of(m).contains_key(k) ==> 0 <= slot_of(m, k) < m.len() && m[slot_of(m, k)].0 == k,
{
    assert forall|i: int| 0 <= i < m.len() implies map_of(m).contains_key((#[trigger] m[i]).0)
        && map_of(m)[m[i].0] == m[i].1 by {
        let k = m[i].0;
        assert(has_key(m, k));
        let s = slot_of(m, k);
        assert(0 <= s < m.len() && m[s].0 == k);
        if s < i {
            assert(m[s].0 != m[i].0);
        } else if i < s {
            assert(m[i].0 != m[s].0);
        }
    }
}

/// With distinct keys, a map that agrees with the entries is their map.
proof fn lemma_map_of_is<C>(
    m: Seq<(Seq<char>, Seq<ListenerHandle<C>>)>,
    target: Map<Seq<char>, Seq<ListenerHandle<C>>>,
)
    requires
        distinct_keys(m),
        forall|i: int|
            0 <= i < m.len() ==> target.contains_key((#[trigger] m[i]).0) && target[m[i].0]
                == m[i].1,
        forall|k: Seq<char>| #[trigger] target.contains_key(k) ==> has_key(m, k),
    ensures
        map_of(m) == target,
{
    lemma_map_of(m);
    assert forall|k: Seq<char>| map_of(m).contains_key(k) implies target.contains_key(k)
        && map_of(m)[k] == target[k] by {
        let s = slot_of(m, k);
        assert(m[s].0 == k);
    }
    assert(map_of(m) =~= target);
}

/// Which keys an operation on the registry applies to.
enum KeySelector {
    Exact(Vec<char>),
    Prefix(Vec<char>),
    Topic(Vec<char>),
}

impl KeySelector {
    /// Whether the selector applies to a key.
    spec fn selected(self, key: Seq<char>) -> bool {
        match self {
            KeySelector::Exact(k) => key == k@,
            KeySelector::Prefix(p) => p@.is_prefix_of(key),
            KeySelector::Topic(t) => key_of_topic(key, t@),
        }
    }

    /// Whether the selector applies to a key.
    fn selects(&self, key: &Vec<char>) -> (r: bool)
        ensures
            r == self.selected(key@),
    {
        match self {
            KeySelector::Exact(k) => chars_eq(key, k),
            KeySelector::Prefix(p) => starts_with(key, p),
            KeySelector::Topic(t) => {
                if chars_eq(key, t) {
                    return true;
                }
                let mut with_mark: Vec<char> = Vec::new();
                let mut with_options: Vec<char> = Vec::new();
                let mut i: usize = 0;
                while i < t.len()
                    invariant
                        i <= t.len(),
                        with_mark@ == t@.take(i as int),
                        with_options@ == t@.take(i as int),
                    decreases t.len() - i,
                {
                    with_mark.push(t[i]);
                    with_options.push(t[i]);
                    proof {
                        assert(with_mark@ =~= t@.take(i as int + 1));
                    }
                    i += 1;
                }
                with_mark.push('?');
                with_options.push('&');
                let word = chars_of("options=");
                let mut j: usize = 0;
                while j < word.len()
                    invariant
                        j <= word.len(),
                        with_options@ == t@ + seq!['&'] + word@.take(j as int),
                    decreases word.len() - j,
                {
                    with_options.push(word[j]);
                    proof {
                        assert(with_options@ =~= t@ + seq!['&'] + word@.take(j as int + 1));
                    }
                    j += 1;
                }
                proof {
                    assert(t@.take(t.len() as int) =~= t@);
                    assert(word@.take(word.len() as int) =~= word@);
                    assert(with_mark@ =~= t@ + seq!['?']);
                }
                starts_with(key, &with_mark) || (contains_char(t, '?') && starts_with(
                    key,
                    &with_options,
                ))
            },
        }
    }
}

/// What is left of one entry after pruning: its listeners, or nothing
/// where the entry goes.
spec fn entry_after<C>(
    entry: (Seq<char>, Seq<ListenerHandle<C>>),
    selector: KeySelector,
    id: Option<u64>,
) -> Option<Seq<ListenerHandle<C>>> {
    if !selector.selected(entry.0) {
        Some(entry.1)
    } else {
        match id {
            None => None,
            Some(id) => if without_id(entry.1, id).len() == 0 {
                None
            } else {
                Some(without_id(entry.1, id))
            },
        }
    }
}

/// The entries after pruning, in the order they had.
spec fn pruned_entries<C>(
    m: Seq<(Seq<char>, Seq<ListenerHandle<C>>)>,
    selector: KeySelector,
    id: Option<u64>,
) -> Seq<(Seq<char>, Seq<ListenerHandle<C>>)>
    decreases m.len(),
{
    if m.len() == 0 {
        Seq::empty()
    } else {
        let rest = pruned_entries(m.drop_last(), selector, id);
        match entry_after(m.last(), selector, id) {
            Some(listeners) => rest.push((m.last().0, listeners)),
            None => rest,
        }
    }
}

/// A registry model after pruning: each selected key loses the listener
/// `id`, or everything where no identifier is given, and goes when nothing
/// is left of it.
spec fn pruned<C>(
    m: Map<Seq<char>, Seq<ListenerHandle<C>>>,
    selector: KeySelector,
    id: Option<u64>,
) -> Map<Seq<char>, Seq<ListenerHandle<C>>> {
    Map::new(
        |k: Seq<char>| m.contains_key(k) && entry_after((k, m[k]), selector, id) is Some,
        |k: Seq<char>| entry_after((k, m[k]), selector, id).unwrap(),
    )
}

/// Pruning the entries prunes their map, keeps the keys distinct and the
/// lists non-empty, and shortens the entries exactly when a key goes.
proof fn lemma_pruned_entries<C>(
    m: Seq<(Seq<char>, Seq<ListenerHandle<C>>)>,
    selector: KeySelector,
    id: Option<u64>,
)
    requires
        distinct_keys(m),
        nonempty_lists(m),
    ensures
        distinct_keys(pruned_entries(m, selector, id)),
        nonempty_lists(pruned_entries(m, selector, id)),
        map_of(pruned_entries(m, selector, id)) == pruned(map_of(m), selector, id),
        pruned_entries(m, selector, id).len() <= m.len(),
        pruned_entries(m, selector, id).len() < m.len() <==> loses_key(
            map_of(m),
            pruned(map_of(m), selector, id),
        ),
    decreases m.len(),
{
    let p = pruned_entries(m, selector, id);
    let target = pruned(map_of(m), selector, id);
    lemma_map_of(m);
    if m.len() == 0 {
        assert(map_of(p) =~= target);
    } else {
        let r = m.drop_last();
        let e = m.last();
        let pr = pruned_entries(r, selector, id);
        assert(distinct_keys(r) && nonempty_lists(r)) by {
            assert forall|i: int| 0 <= i < r.len() implies (#[trigger] r[i]) == m[i] by {}
        }
        lemma_pruned_entries(r, selector, id);
        lemma_map_of(r);
        lemma_map_of(pr);
        // the last key is new to the earlier entries, before and after pruning
        assert(!map_of(r).contains_key(e.0)) by {
            if map_of(r).contains_key(e.0) {
                let s = slot_of(r, e.0);
                assert(m[s].0 == m[m.len() - 1].0);
            }
        }
        assert(!map_of(pr).contains_key(e.0));
        assert(!has_key(pr, e.0));
        // the map of all entries is the earlier map with the last entry
        assert(map_of(m) =~= map_of(r).insert(e.0, e.1)) by {
            assert forall|k: Seq<char>| map_of(m).contains_key(k) <==> map_of(r).insert(
                e.0,
                e.1,
            ).contains_key(k) by {
                if map_of(m).contains_key(k) {
                    let s = slot_of(m, k);
                    if s < r.len() {
                        assert(r[s].0 == k);
                    }
                }
                if map_of(r).contains_key(k) {
                    let s = slot_of(r, k);
                    assert(m[s].0 == k);
                }
                assert(m[m.len() - 1].0 == e.0);
            }
            assert forall|k: Seq<char>| map_of(m).contains_key(k) implies map_of(m)[k] == map_of(
                r,
            ).insert(e.0, e.1)[k] by {
                let s = slot_of(m, k);
                if s < r.len() {
                    assert(r[s] == m[s]);
                    assert(map_of(r)[r[s].0] == r[s].1);
                }
            }
        }
        match entry_after(e, selector, id) {
            Some(listeners) => {
                assert(p == pr.push((e.0, listeners)));
                assert(distinct_keys(p)) by {
                    assert forall|i: int, j: int| 0 <= i < j < p.len() implies (#[trigger] p[i]).0
                        != (#[trigger] p[j]).0 by {
                        if j == pr.len() {
                            assert(pr[i].0 == p[i].0);
                            assert(has_key(pr, pr[i].0));
                        } else {
                            assert(pr[i].0 != pr[j].0);
                        }
                    }
                }
                assert(nonempty_lists(p)) by {
                    assert forall|i: int| 0 <= i < p.len() implies (#[trigger] p[i]).1.len()
                        > 0 by {
                        if i < pr.len() {
                            assert(pr[i].1.len() > 0);
                        } else {
                            assert(m[m.len() - 1].1.len() > 0);
                        }
                    }
                }
                assert forall|i: int| 0 <= i < p.len() implies target.contains_key(
                    (#[trigger] p[i]).0,
                ) && target[p[i].0] == p[i].1 by {
                    if i < pr.len() {
                        assert(pr[i] == p[i]);
                        assert(map_of(pr).contains_key(pr[i].0));
                    }
                }
                assert forall|k: Seq<char>| #[trigger] target.contains_key(k) implies has_key(
                    p,
                    k,
                ) by {
                    if k == e.0 {
                        assert(p[pr.len() as int].0 == k);
                    } else {
                        assert(map_of(pr).contains_key(k));
                        let s = slot_of(pr, k);
                        assert(p[s].0 == k);
                    }
                }
                lemma_map_of_is(p, target);
                if pr.len() < r.len() {
                    let k = choose|k: Seq<char>|
                        map_of(r).contains_key(k) && !pruned(map_of(r), selector, id).contains_key(
                            k,
                        );
                    assert(map_of(m).contains_key(k) && !target.contains_key(k));
                    assert(loses_key(map_of(m), target));
                }
                if loses_key(map_of(m), target) {
                    let k = choose|k: Seq<char>|
                        map_of(m).contains_key(k) && !target.contains_key(k);
                    assert(k != e.0);
                    assert(map_of(r).contains_key(k) && !pruned(
                        map_of(r),
                        selector,
                        id,
                    ).contains_key(k));
                    assert(loses_key(map_of(r), pruned(map_of(r), selector, id)));
                }
            },
            None => {
                assert(p == pr);
                assert(map_of(p) =~= target);
                assert(map_of(m).contains_key(e.0) && !target.contains_key(e.0));
                assert(loses_key(map_of(m), target));
            },
        }
    }
}

/// The listeners whose identifier is not `id`, in order.
fn filter_out<C>(listeners: Vec<ListenerHandle<C>>, id: u64) -> (kept: Vec<ListenerHandle<C>>)
    ensures
        kept@ == without_id(listeners@, id),
{
    let mut rest = listeners;
    let mut kept: Vec<ListenerHandle<C>> = Vec::new();
    let ghost orig = rest@;
    let total = rest.len();
    let mut done: usize = 0;
    proof {
        assert(orig.take(0) =~= Seq::empty());
    }
    while rest.len() > 0
        invariant
            done + rest@.len() == orig.len(),
            orig.len() == total,
            rest@ == orig.skip(done as int),
            kept@ == without_id(orig.take(done as int), id),
        decreases rest@.len(),
    {
        let handle = rest.remove(0);
        proof {
            let next = orig.take(done as int + 1);
            assert(next.drop_last() =~= orig.take(done as int));
            assert(next.last() == handle);
            assert(rest@ =~= orig.skip(done as int + 1));
            reveal(Seq::filter);
        }
        if handle.id != id {
            kept.push(handle);
        }
        done += 1;
    }
    proof {
        assert(orig.take(orig.len() as int) =~= orig);
    }
    kept
}

impl<C> SubscriptionRegistry<C> {
    /// The entries as pairs of a key and its listeners.
    spec fn model(&self) -> Seq<(Seq<char>, Seq<ListenerHandle<C>>)> {
        model_of(self.entries@)
    }

    /// Well-formedness: no key occurs twice, and every key has a listener.
    pub closed spec fn wf(&self) -> bool {
        distinct_keys(self.model()) && nonempty_lists(self.model())
    }

    /// The registry as a map from each key to its listeners in order.
    pub closed spec fn view(&self) -> Map<Seq<char>, Seq<ListenerHandle<C>>> {
        map_of(self.model())
    }

    /// In a well-formed registry every key has at least one listener.
    pub proof fn lemma_keys_have_listeners(&self)
        requires
            self.wf(),
        ensures
            forall|k: Seq<char>| self@.contains_key(k) ==> (#[trigger] self@[k]).len() > 0,
    {
        let m = self.model();
        lemma_map_of(m);
        assert forall|k: Seq<char>| self@.contains_key(k) implies (#[trigger] self@[k]).len()
            > 0 by {
            let s = slot_of(m, k);
            assert(m[s].1.len() > 0);
        }
    }

    /// An empty registry.
    pub fn new() -> (r: Self)
        ensures
            r.wf(),
            registry_is_empty(r@),
    {
        SubscriptionRegistry { entries: Vec::new() }
    }

    fn find(&self, key: &String) -> (r: Option<usize>)
        requires
            self.wf(),
        ensures
            match r {
                Some(i) => i < self.model().len() && self.model()[i as int].0 == key@,
                None => !self@.contains_key(key@),
            },
    {
        let mut i: usize = 0;
        while i < self.entries.len()
            invariant
                i <= self.entries.len(),
                forall|j: int| 0 <= j < i ==> (#[trigger] self.model()[j]).0 != key@,
            decreases self.entries.len() - i,
        {
            if self.entries[i].key == *key {
                return Some(i);
            }
            i += 1;
        }
        proof {
            lemma_map_of(self.model());
        }
        None
    }

    /// Whether the registry has no key.
    pub fn is_empty(&self) -> (r: bool)
        requires
            self.wf(),
        ensures
            r == registry_is_empty(self@),
    {
        proof {
            lemma_map_of(self.model());
            if self.model().len() > 0 {
                assert(self@.contains_key(self.model()[0].0));
            }
        }
        self.entries.len() == 0
    }

    /// Whether a key is present.
    pub fn contains_key(&self, key: &str) -> (r: bool)
        requires
            self.wf(),
        ensures
            r == self@.contains_key(key@),
    {
        let owned = key.to_owned();
        proof {
            lemma_map_of(self.model());
        }
        self.find(&owned).is_some()
    }

    /// The number of listeners registered under a key.
    pub fn listener_count(&self, key: &str) -> (r: usize)
        requires
            self.wf(),
        ensures
            r == listeners_of(self@, key@).len(),
    {
        let owned = key.to_owned();
        proof {
            lemma_map_of(self.model());
        }
        match self.find(&owned) {
            Some(i) => self.entries[i].listeners.len(),
            None => 0,
        }
    }

    /// Registers a listener under a key, after the listeners already there.
    pub fn add(&mut self, key: &str, handle: ListenerHandle<C>)
        requires
            old(self).wf(),
        ensures
            final(self).wf(),
            final(self)@ == registry_add(old(self)@, key@, handle),
    {
        let owned = key.to_owned();
        let ghost before = self.model();
        let ghost target = registry_add(self@, key@, handle);
        proof {
            lemma_map_of(before);
        }
        match self.find(&owned) {
            Some(i) => {
                let mut entry = self.entries.remove(i);
                entry.listeners.push(handle);
                self.entries.insert(i, entry);
                proof {
                    let after = self.model();
                    assert(after =~= before.update(
                        i as int,
                        (key@, before[i as int].1.push(handle)),
                    ));
                    assert forall|j: int| 0 <= j < after.len() implies (#[trigger] after[j]).0
                        == before[j].0 by {}
                    assert(distinct_keys(after)) by {
                        assert forall|a: int, b: int| 0 <= a < b < after.len() implies (
                        #[trigger] after[a]).0 != (#[trigger] after[b]).0 by {
                            assert(before[a].0 != before[b].0);
                        }
                    }
                    assert(nonempty_lists(after)) by {
                        assert forall|j: int| 0 <= j < after.len() implies (
                        #[trigger] after[j]).1.len() > 0 by {
                            if j != i {
                                assert(before[j].1.len() > 0);
                            }
                        }
                    }
                    assert forall|j: int| 0 <= j < after.len() implies target.contains_key(
                        (#[trigger] after[j]).0,
                    ) && target[after[j].0] == after[j].1 by {
                        assert(old(self)@.contains_key(before[j].0));
                        if j != i {
                            assert(before[j].0 != before[i as int].0);
                        }
                    }
                    assert forall|k: Seq<char>| #[trigger] target.contains_key(k) implies has_key(
                        after,
                        k,
                    ) by {
                        if k == key@ {
                            assert(after[i as int].0 == k);
                        } else {
                            let s = slot_of(before, k);
                            assert(after[s].0 == k);
                        }
                    }
                    lemma_map_of_is(after, target);
                }
            },
            None => {
                let mut listeners: Vec<ListenerHandle<C>> = Vec::new();
                listeners.push(handle);
                self.entries.push(RegistryEntry { key: owned, listeners });
                proof {
                    let after = self.model();
                    assert(after =~= before.push((key@, Seq::empty().push(handle))));
                    assert(distinct_keys(after)) by {
                        assert forall|a: int, b: int| 0 <= a < b < after.len() implies (
                        #[trigger] after[a]).0 != (#[trigger] after[b]).0 by {
                            if b == before.len() {
                                assert(old(self)@.contains_key(before[a].0));
                            } else {
                                assert(before[a].0 != before[b].0);
                            }
                        }
                    }
                    assert(nonempty_lists(after)) by {
                        assert forall|j: int| 0 <= j < after.len() implies (
                        #[trigger] after[j]).1.len() > 0 by {
                            if j < before.len() {
                                assert(before[j].1.len() > 0);
                            }
                        }
                    }
                    assert forall|j: int| 0 <= j < after.len() implies target.contains_key(
                        (#[trigger] after[j]).0,
                    ) && target[after[j].0] == after[j].1 by {
                        if j < before.len() {
                            assert(old(self)@.contains_key(before[j].0));
                        }
                    }
                    assert forall|k: Seq<char>| #[trigger] target.contains_key(k) implies has_key(
                        after,
                        k,
                    ) by {
                        if k == key@ {
                            assert(after[before.len() as int].0 == k);
                        } else {
                            let s = slot_of(before, k);
                            assert(after[s].0 == k);
                        }
                    }
                    lemma_map_of_is(after, target);
                }
            },
        }
    }

    /// The listeners registered under a key, in order of registration; none
    /// for a key that is absent.
    pub fn listeners_for(&self, key: &str) -> (r: Vec<&ListenerHandle<C>>)
        requires
            self.wf(),
        ensures
            r@.len() == listeners_of(self@, key@).len(),
            forall|i: int| 0 <= i < r@.len() ==> *r@[i] == listeners_of(self@, key@)[i],
    {
        let owned = key.to_owned();
        let mut out: Vec<&ListenerHandle<C>> = Vec::new();
        proof {
            lemma_map_of(self.model());
        }
        match self.find(&owned) {
            Some(i) => {
                let listeners = &self.entries[i].listeners;
                assert(listeners@ == self.model()[i as int].1);
                let mut j: usize = 0;
                while j < listeners.len()
                    invariant
                        j <= listeners.len(),
                        out@.len() == j,
                        forall|k: int| 0 <= k < j ==> *out@[k] == listeners@[k],
                    decreases listeners.len() - j,
                {
                    out.push(&listeners[j]);
                    j += 1;
                }
            },
            None => {},
        }
        out
    }

    /// The keys of the registry: each key once.
    pub fn keys(&self) -> (r: Vec<String>)
        requires
            self.wf(),
        ensures
            r.deep_view().no_duplicates(),
            forall|k: Seq<char>| r.deep_view().contains(k) <==> self@.contains_key(k),
    {
        let mut out: Vec<String> = Vec::new();
        let mut i: usize = 0;
        while i < self.entries.len()
            invariant
                i <= self.entries.len(),
                out.deep_view().len() == i,
                forall|j: int| 0 <= j < i ==> out.deep_view()[j] == (#[trigger] self.model()[j]).0,
            decreases self.entries.len() - i,
        {
            let ghost before = out.deep_view();
            out.push(self.entries[i].key.clone());
            proof {
                assert(out.deep_view() =~= before.push(self.model()[i as int].0));
            }
            i += 1;
        }
        proof {
            let m = self.model();
            lemma_map_of(m);
            let ks = out.deep_view();
            assert forall|a: int, b: int|
                0 <= a < ks.len() && 0 <= b < ks.len() && a != b implies ks[a] != ks[b] by {
                if a < b {
                    assert(m[a].0 != m[b].0);
                } else {
                    assert(m[b].0 != m[a].0);
                }
            }
            assert forall|k: Seq<char>| ks.contains(k) <==> self@.contains_key(k) by {
                if ks.contains(k) {
                    let j = choose|j: int| 0 <= j < ks.len() && ks[j] == k;
                    assert(m[j].0 == k);
                }
                if self@.contains_key(k) {
                    let j = slot_of(m, k);
                    assert(ks[j] == k);
                }
            }
        }
        out
    }

    /// Removes the listener `id` from a key. The key goes with its last
    /// listener. The result tells whether the key was removed.
    pub fn remove(&mut self, key: &str, id: u64) -> (changed: bool)
        requires
            old(self).wf(),
        ensures
            final(self).wf(),
            final(self)@ == registry_remove(old(self)@, key@, id),
            changed == (old(self)@.contains_key(key@) && !final(self)@.contains_key(key@)),
    {
        let changed = self.prune(&KeySelector::Exact(chars_of(key)), Some(id));
        proof {
            assert(self@ =~= registry_remove(old(self)@, key@, id));
            if old(self)@.contains_key(key@) && !self@.contains_key(key@) {
                assert(loses_key(old(self)@, self@));
            }
        }
        changed
    }

    /// Removes a key with all its listeners. The result tells whether the
    /// key was present.
    pub fn remove_key(&mut self, key: &str) -> (changed: bool)
        requires
            old(self).wf(),
        ensures
            final(self).wf(),
            final(self)@ == old(self)@.remove(key@),
            changed == old(self)@.contains_key(key@),
    {
        let changed = self.prune(&KeySelector::Exact(chars_of(key)), None);
        proof {
            assert(self@ =~= old(self)@.remove(key@));
            if old(self)@.contains_key(key@) {
                assert(loses_key(old(self)@, self@));
            }
        }
        changed
    }

    /// Removes every key that begins with `prefix`. The result tells
    /// whether a key was removed.
    pub fn remove_by_topic_prefix(&mut self, prefix: &str) -> (changed: bool)
        requires
            old(self).wf(),
        ensures
            final(self).wf(),
            final(self)@ == registry_without_prefix(old(self)@, prefix@),
            changed == loses_key(old(self)@, final(self)@),
    {
        let changed = self.prune(&KeySelector::Prefix(chars_of(prefix)), None);
        proof {
            assert(self@ =~= registry_without_prefix(old(self)@, prefix@));
        }
        changed
    }

    /// Removes every key of a topic: the topic itself and the topic with
    /// options. The result tells whether a key was removed.
    pub fn remove_topic(&mut self, topic: &str) -> (changed: bool)
        requires
            old(self).wf(),
        ensures
            final(self).wf(),
            final(self)@ == registry_without_topic(old(self)@, topic@),
            changed == loses_key(old(self)@, final(self)@),
    {
        let changed = self.prune(&KeySelector::Topic(chars_of(topic)), None);
        proof {
            assert(self@ =~= registry_without_topic(old(self)@, topic@));
        }
        changed
    }

    /// Removes the listener `id` from every key of a topic. A key goes with
    /// its last listener. The result tells whether a key was removed.
    pub fn remove_from_topic(&mut self, topic: &str, id: u64) -> (changed: bool)
        requires
            old(self).wf(),
        ensures
            final(self).wf(),
            final(self)@ == registry_remove_from_topic(old(self)@, topic@, id),
            changed == loses_key(old(self)@, final(self)@),
    {
        let changed = self.prune(&KeySelector::Topic(chars_of(topic)), Some(id));
        proof {
            assert(self@ =~= registry_remove_from_topic(old(self)@, topic@, id));
        }
        changed
    }

    /// Removes every key.
    pub fn remove_all(&mut self)
        requires
            old(self).wf(),
        ensures
            final(self).wf(),
            registry_is_empty(final(self)@),
    {
        self.entries = Vec::new();
    }

    fn prune(&mut self, selector: &KeySelector, id: Option<u64>) -> (changed: bool)
        requires
            old(self).wf(),
        ensures
            final(self).wf(),
            final(self)@ == pruned(old(self)@, *selector, id),
            changed == loses_key(old(self)@, final(self)@),
    {
        let mut rest: Vec<RegistryEntry<C>> = Vec::new();
        core::mem::swap(&mut self.entries, &mut rest);
        let ghost orig = model_of(rest@);
        let total = rest.len();
        let mut changed = false;
        let mut done: usize = 0;
        proof {
            assert(orig == old(self).model());
            assert(orig.take(0) =~= Seq::empty());
            assert(self.model() =~= Seq::empty());
        }
        while rest.len() > 0
            invariant
                done + rest@.len() == orig.len(),
                orig.len() == total,
                model_of(rest@) == orig.skip(done as int),
                self.model() == pruned_entries(orig.take(done as int), *selector, id),
                changed == (self.model().len() < done),
                self.model().len() <= done,
            decreases rest@.len(),
        {
            let ghost before = self.model();
            let ghost rest_before = model_of(rest@);
            let entry = rest.remove(0);
            proof {
                let next = orig.take(done as int + 1);
                assert(next.drop_last() =~= orig.take(done as int));
                assert(rest_before[0] == orig[done as int]);
                assert(rest_before[0] == (entry.key@, entry.listeners@));
                assert(next.last() == (entry.key@, entry.listeners@));
                assert(model_of(rest@) =~= orig.skip(done as int + 1)) by {
                    assert forall|j: int| 0 <= j < rest@.len() implies model_of(rest@)[j]
                        == orig.skip(done as int + 1)[j] by {
                        assert(model_of(rest@)[j] == rest_before[j + 1]);
                    }
                }
            }
            let key_chars = chars_of(entry.key.as_str());
            if selector.selects(&key_chars) {
                match id {
                    None => {
                        changed = true;
                    },
                    Some(id) => {
                        let RegistryEntry { key, listeners } = entry;
                        let kept = filter_out(listeners, id);
                        if kept.len() == 0 {
                            changed = true;
                        } else {
                            let ghost pair = (key@, kept@);
                            self.entries.push(RegistryEntry { key, listeners: kept });
                            proof {
                                assert(self.model() =~= before.push(pair));
                            }
                        }
                    },
                }
            } else {
                let ghost pair = (entry.key@, entry.listeners@);
                self.entries.push(entry);
                proof {
                    assert(self.model() =~= before.push(pair));
                }
            }
            done += 1;
        }
        proof {
            assert(orig.take(orig.len() as int) =~= orig);
            lemma_pruned_entries(orig, *selector, id);
            assert(self.model() == pruned_entries(orig, *selector, id));
            assert(self@ == pruned(old(self)@, *selector, id));
            assert(changed == (pruned_entries(orig, *selector, id).len() < orig.len()));
        }
        changed
    }
}


/// Two listeners registered under a key that was not there make one entry
/// with both, in order. Removing the first leaves the entry with the
/// second; removing the second as well removes the entry.
pub proof fn lemma_two_listeners<C>(
    m: Map<Seq<char>, Seq<ListenerHandle<C>>>,
    key: Seq<char>,
    first: ListenerHandle<C>,
    second: ListenerHandle<C>,
)
    requires
        !m.contains_key(key),
        first.id != second.id,
    ensures
        ({
            let both = registry_add(registry_add(m, key, first), key, second);
            let one = registry_remove(both, key, first.id);
            let none = registry_remove(one, key, second.id);
            &&& both.dom() =~= m.dom().insert(key)
            &&& both[key] == seq![first, second]
            &&& one.dom() =~= both.dom()
            &&& one[key] == seq![second]
            &&& !loses_key(both, one)
            &&& none == m
        }),
{
    let both = registry_add(registry_add(m, key, first), key, second);
    assert(both[key] =~= seq![first, second]);
    lemma_without_id_pair(first, second);
    let one = registry_remove(both, key, first.id);
    assert(one[key] == seq![second]);
    let none = registry_remove(one, key, second.id);
    assert(none =~= m);
}

/// Filtering a pair or a single listener by identifier.
pub proof fn lemma_without_id_pair<C>(first: ListenerHandle<C>, second: ListenerHandle<C>)
    requires
        first.id != second.id,
    ensures
        without_id(seq![first, second], first.id) == seq![second],
        without_id(seq![second], second.id) == Seq::<ListenerHandle<C>>::empty(),
        without_id(seq![second], first.id) == seq![second],
{
    reveal_with_fuel(Seq::filter, 3);
    let pair = seq![first, second];
    assert(pair.drop_last() =~= seq![first]);
    assert(seq![first].drop_last() =~= Seq::<ListenerHandle<C>>::empty());
    assert(seq![second].drop_last() =~= Seq::<ListenerHandle<C>>::empty());
    assert(without_id(seq![first], first.id) =~= Seq::<ListenerHandle<C>>::empty());
    assert(without_id(pair, first.id) =~= seq![second]);
    assert(without_id(seq![second], second.id) =~= Seq::<ListenerHandle<C>>::empty());
    assert(without_id(seq![second], first.id) =~= seq![second]);
}


/// Every key of the model has at least one listener.
pub open spec fn keys_have_listeners<C>(m: Map<Seq<char>, Seq<ListenerHandle<C>>>) -> bool {
    forall|k: Seq<char>| m.contains_key(k) ==> (#[trigger] m[k]).len() > 0
}

/// Every identifier of the model was handed out by a counter that now
/// stands at `counter`: it lies between one and `counter`.
pub open spec fn ids_within<C>(m: Map<Seq<char>, Seq<ListenerHandle<C>>>, counter: u64) -> bool {
    forall|k: Seq<char>, i: int|
        m.contains_key(k) && 0 <= i < m[k].len() ==> 1 <= (#[trigger] m[k][i]).id <= counter
}

/// No identifier occurs twice in the model: a listener belongs to one key,
/// and stands there once.
pub open spec fn ids_distinct<C>(m: Map<Seq<char>, Seq<ListenerHandle<C>>>) -> bool {
    forall|k1: Seq<char>, i1: int, k2: Seq<char>, i2: int|
        m.contains_key(k1) && 0 <= i1 < m[k1].len() && m.contains_key(k2) && 0 <= i2 < m[k2].len()
            && (#[trigger] m[k1][i1]).id == (#[trigger] m[k2][i2]).id ==> k1 == k2 && i1 == i2
}

/// The second model is cut out of the first: it has no key of its own, and
/// the listeners of each of its keys are listeners of that key in the
/// first model, in the same order.
pub open spec fn cut_from<C>(
    after: Map<Seq<char>, Seq<ListenerHandle<C>>>,
    before: Map<Seq<char>, Seq<ListenerHandle<C>>>,
) -> bool {
    forall|k: Seq<char>| #[trigger]
        after.contains_key(k) ==> before.contains_key(k) && is_subsequence(after[k], before[k])
}

/// The first list is the second with some listeners left out.
pub open spec fn is_subsequence<C>(part: Seq<ListenerHandle<C>>, whole: Seq<ListenerHandle<C>>)
    -> bool {
    exists|at: Seq<int>|
        at.len() == part.len() && (forall|j: int|
            0 <= j < at.len() ==> 0 <= (#[trigger] at[j]) < whole.len() && part[j] == whole[at[j]])
            && (forall|a: int, b: int| 0 <= a < b < at.len() ==> at[a] < at[b])
}

/// A list is a subsequence of itself.
pub proof fn lemma_subsequence_self<C>(s: Seq<ListenerHandle<C>>)
    ensures
        is_subsequence(s, s),
{
    let at = Seq::new(s.len(), |j: int| j);
    assert(at.len() == s.len());
    assert(forall|j: int| 0 <= j < at.len() ==> 0 <= (#[trigger] at[j]) < s.len() && s[j] == s[at[j]]);
    assert(forall|a: int, b: int| 0 <= a < b < at.len() ==> at[a] < at[b]);
}

/// Leaving out the listeners of one identifier gives a subsequence.
pub proof fn lemma_without_id_subsequence<C>(s: Seq<ListenerHandle<C>>, id: u64)
    ensures
        is_subsequence(without_id(s, id), s),
    decreases s.len(),
{
    reveal(Seq::filter);
    if s.len() == 0 {
        lemma_subsequence_self(s);
        assert(without_id(s, id) =~= s);
    } else {
        let rest = s.drop_last();
        lemma_without_id_subsequence(rest, id);
        let part = without_id(rest, id);
        let at = choose|at: Seq<int>|
            at.len() == part.len() && (forall|j: int|
                0 <= j < at.len() ==> 0 <= (#[trigger] at[j]) < rest.len() && part[j] == rest[at[j]])
                && (forall|a: int, b: int| 0 <= a < b < at.len() ==> at[a] < at[b]);
        if s.last().id != id {
            let full = without_id(s, id);
            assert(full == part.push(s.last()));
            let at2 = at.push(s.len() - 1);
            assert forall|j: int| 0 <= j < at2.len() implies 0 <= (#[trigger] at2[j]) < s.len()
                && full[j] == s[at2[j]] by {
                if j < at.len() {
                    assert(at2[j] == at[j]);
                    assert(part[j] == rest[at[j]]);
                }
            }
            assert forall|a: int, b: int| 0 <= a < b < at2.len() implies at2[a] < at2[b] by {
                if b < at.len() {
                    assert(at[a] < at[b]);
                } else {
                    assert(at2[a] == at[a]);
                    assert(0 <= at[a] < rest.len());
                }
            }
            assert(at2.len() == full.len());
        } else {
            assert(without_id(s, id) == part);
            assert forall|j: int| 0 <= j < at.len() implies 0 <= (#[trigger] at[j]) < s.len()
                && part[j] == s[at[j]] by {
                assert(part[j] == rest[at[j]]);
            }
        }
    }
}

/// Leaving out an identifier that no listener of the list carries changes nothing.
pub proof fn lemma_without_absent_id<C>(s: Seq<ListenerHandle<C>>, id: u64)
    requires
        forall|i: int| 0 <= i < s.len() ==> (#[trigger] s[i]).id != id,
    ensures
        without_id(s, id) == s,
    decreases s.len(),
{
    reveal(Seq::filter);
    if s.len() > 0 {
        let rest = s.drop_last();
        assert forall|i: int| 0 <= i < rest.len() implies (#[trigger] rest[i]).id != id by {
            assert(rest[i] == s[i]);
        }
        lemma_without_absent_id(rest, id);
        assert(s.last() == s[s.len() - 1]);
        assert(without_id(s, id) =~= s);
    } else {
        assert(without_id(s, id) =~= s);
    }
}

/// What is cut out of a model keeps its identifiers within the counter and distinct.
pub proof fn lemma_cut_keeps_ids<C>(
    after: Map<Seq<char>, Seq<ListenerHandle<C>>>,
    before: Map<Seq<char>, Seq<ListenerHandle<C>>>,
    counter: u64,
)
    requires
        cut_from(after, before),
        ids_within(before, counter),
        ids_distinct(before),
    ensures
        ids_within(after, counter),
        ids_distinct(after),
{
    assert forall|k: Seq<char>, i: int| after.contains_key(k) && 0 <= i < after[k].len() implies 1
        <= (#[trigger] after[k][i]).id <= counter by {
        let at = subsequence_indices(after[k], before[k]);
        assert(after[k][i] == before[k][at[i]]);
    }
    assert forall|k1: Seq<char>, i1: int, k2: Seq<char>, i2: int|
        after.contains_key(k1) && 0 <= i1 < after[k1].len() && after.contains_key(k2) && 0 <= i2
            < after[k2].len() && (#[trigger] after[k1][i1]).id == (#[trigger] after[k2][i2]).id
        implies k1 == k2 && i1 == i2 by {
        let at1 = subsequence_indices(after[k1], before[k1]);
        let at2 = subsequence_indices(after[k2], before[k2]);
        assert(after[k1][i1] == before[k1][at1[i1]]);
        assert(after[k2][i2] == before[k2][at2[i2]]);
        assert(k1 == k2 && at1[i1] == at2[i2]);
        if i1 < i2 {
            assert(at1[i1] < at1[i2]);
        } else if i2 < i1 {
            assert(at1[i2] < at1[i1]);
        }
    }
}

/// Indices that show the first list to be a subsequence of the second.
pub open spec fn subsequence_indices<C>(
    part: Seq<ListenerHandle<C>>,
    whole: Seq<ListenerHandle<C>>,
) -> Seq<int> {
    choose|at: Seq<int>|
        at.len() == part.len() && (forall|j: int|
            0 <= j < at.len() ==> 0 <= (#[trigger] at[j]) < whole.len() && part[j] == whole[at[j]])
            && (forall|a: int, b: int| 0 <= a < b < at.len() ==> at[a] < at[b])
}

/// Each removal cuts the model out of the one before.
pub proof fn lemma_removals_cut<C>(
    m: Map<Seq<char>, Seq<ListenerHandle<C>>>,
    text: Seq<char>,
    id: u64,
)
    ensures
        cut_from(registry_remove(m, text, id), m),
        cut_from(registry_remove_from_topic(m, text, id), m),
        cut_from(registry_without_prefix(m, text), m),
        cut_from(registry_without_topic(m, text), m),
        cut_from(m.remove(text), m),
        cut_from(Map::<Seq<char>, Seq<ListenerHandle<C>>>::empty(), m),
{
    assert forall|k: Seq<char>| m.contains_key(k) implies is_subsequence(m[k], m[k])
        && is_subsequence(without_id(m[k], id), m[k]) by {
        lemma_subsequence_self(m[k]);
        lemma_without_id_subsequence(m[k], id);
    }
}

/// Adding a listener with the next identifier keeps the identifiers within
/// the counter and distinct, and every key with a listener.
pub proof fn lemma_add_keeps_ids<C>(
    m: Map<Seq<char>, Seq<ListenerHandle<C>>>,
    key: Seq<char>,
    handle: ListenerHandle<C>,
    counter: u64,
)
    requires
        ids_within(m, counter),
        ids_distinct(m),
        counter < u64::MAX,
        handle.id == counter + 1,
    ensures
        ids_within(registry_add(m, key, handle), (counter + 1) as u64),
        ids_distinct(registry_add(m, key, handle)),
{
    let after = registry_add(m, key, handle);
    let old_len = listeners_of(m, key).len() as int;
    assert forall|k: Seq<char>, i: int| after.contains_key(k) && 0 <= i < after[k].len() implies (
    if k == key && i == old_len {
        after[k][i] == handle
    } else {
        m.contains_key(k) && 0 <= i < m[k].len() && #[trigger] after[k][i] == m[k][i]
    }) by {}
    assert forall|k: Seq<char>, i: int| after.contains_key(k) && 0 <= i < after[k].len() implies 1
        <= (#[trigger] after[k][i]).id <= counter + 1 by {
        if !(k == key && i == old_len) {
            assert(after[k][i] == m[k][i]);
        }
    }
    assert forall|k1: Seq<char>, i1: int, k2: Seq<char>, i2: int|
        after.contains_key(k1) && 0 <= i1 < after[k1].len() && after.contains_key(k2) && 0 <= i2
            < after[k2].len() && (#[trigger] after[k1][i1]).id == (#[trigger] after[k2][i2]).id
        implies k1 == k2 && i1 == i2 by {
        let new1 = k1 == key && i1 == old_len;
        let new2 = k2 == key && i2 == old_len;
        if !new1 {
            assert(after[k1][i1] == m[k1][i1]);
        }
        if !new2 {
            assert(after[k2][i2] == m[k2][i2]);
        }
    }
}


/// Leaving out an identifier a second time changes nothing.
pub proof fn lemma_without_id_twice<C>(s: Seq<ListenerHandle<C>>, id: u64)
    ensures
        without_id(without_id(s, id), id) == without_id(s, id),
{
    let once = without_id(s, id);
    let pred = |h: ListenerHandle<C>| h.id != id;
    assert forall|i: int| 0 <= i < once.len() implies (#[trigger] once[i]).id != id by {
        s.lemma_filter_pred(pred, i);
    }
    lemma_without_absent_id(once, id);
}

/// Removing a listener a second time changes nothing: not in one key, and
/// not in the keys of a topic.
pub proof fn lemma_remove_twice<C>(
    m: Map<Seq<char>, Seq<ListenerHandle<C>>>,
    text: Seq<char>,
    id: u64,
)
    ensures
        registry_remove(registry_remove(m, text, id), text, id) == registry_remove(m, text, id),
        registry_remove_from_topic(registry_remove_from_topic(m, text, id), text, id)
            == registry_remove_from_topic(m, text, id),
        !loses_key(
            registry_remove_from_topic(m, text, id),
            registry_remove_from_topic(registry_remove_from_topic(m, text, id), text, id),
        ),
{
    assert forall|k: Seq<char>| m.contains_key(k) implies without_id(
        #[trigger] without_id(m[k], id),
        id,
    ) == without_id(m[k], id) by {
        lemma_without_id_twice(m[k], id);
    }
    let once = registry_remove(m, text, id);
    assert(registry_remove(once, text, id) =~= once);
    let topic_once = registry_remove_from_topic(m, text, id);
    assert(registry_remove_from_topic(topic_once, text, id) =~= topic_once);
}

} // verus!
