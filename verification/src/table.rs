use vstd::prelude::*;

use crate::token::Token;

verus! {

/// The correlation table: the registry matching outstanding probes to
/// eventual replies by token. Modelled as a map from token bytes to the
/// pending completion handle; while a token is registered it maps to
/// exactly one handle. The handle type is the caller's: the transport
/// layer stores its one-shot completion slots here, and never learns more
/// about them than this map.
pub struct Table<V> {
    entries: Vec<(Token, V)>,
}

/// The map an entry list denotes, later entries taking precedence (the
/// table itself keeps its keys unique, so order never matters).
pub closed spec fn entries_map<V>(es: Seq<(Token, V)>) -> Map<Seq<u8>, V>
    decreases es.len(),
{
    if es.len() == 0 {
        Map::empty()
    } else {
        entries_map(es.drop_last()).insert(es.last().0@, es.last().1)
    }
}

proof fn lemma_entries_map_contains<V>(es: Seq<(Token, V)>, k: Seq<u8>)
    ensures
        entries_map(es).contains_key(k) <==> exists|i: int| 0 <= i < es.len() && es[i].0@ == k,
    decreases es.len(),
{
    if es.len() > 0 {
        lemma_entries_map_contains(es.drop_last(), k);
        if es.last().0@ == k {
            assert(es[es.len() - 1].0@ == k);
        } else if entries_map(es).contains_key(k) {
            let i = choose|i: int| 0 <= i < es.len() - 1 && es.drop_last()[i].0@ == k;
            assert(es[i].0@ == k);
        } else if exists|i: int| 0 <= i < es.len() && es[i].0@ == k {
            let i = choose|i: int| 0 <= i < es.len() && es[i].0@ == k;
            assert(es.drop_last()[i].0@ == k);
        }
    }
}

proof fn lemma_entries_map_index<V>(es: Seq<(Token, V)>, i: int)
    requires
        0 <= i < es.len(),
        forall|a: int, b: int| 0 <= a < b < es.len() ==> es[a].0@ != es[b].0@,
    ensures
        entries_map(es).contains_key(es[i].0@),
        entries_map(es)[es[i].0@] == es[i].1,
    decreases es.len(),
{
    lemma_entries_map_contains(es, es[i].0@);
    if i < es.len() - 1 {
        assert(es[i].0@ != es.last().0@);
        lemma_entries_map_index(es.drop_last(), i);
        assert(es.drop_last()[i] == es[i]);
    }
}

proof fn lemma_entries_map_remove<V>(es: Seq<(Token, V)>, i: int)
    requires
        0 <= i < es.len(),
        forall|a: int, b: int| 0 <= a < b < es.len() ==> es[a].0@ != es[b].0@,
    ensures
        entries_map(es.remove(i)) == entries_map(es).remove(es[i].0@),
    decreases es.len(),
{
    let k = es[i].0@;
    if i == es.len() - 1 {
        assert(es.remove(i) =~= es.drop_last());
        lemma_entries_map_contains(es.drop_last(), k);
        assert(forall|j: int| 0 <= j < es.len() - 1 ==> es.drop_last()[j].0@ != k);
        assert(!entries_map(es.drop_last()).contains_key(k));
        assert(entries_map(es.drop_last()).insert(k, es.last().1).remove(k)
            =~= entries_map(es.drop_last()));
    } else {
        let shorter = es.drop_last();
        assert(es.remove(i).drop_last() =~= shorter.remove(i));
        assert(es.remove(i).last() == es.last());
        lemma_entries_map_remove(shorter, i);
        assert(es.last().0@ != k);
        assert(entries_map(shorter).remove(k).insert(es.last().0@, es.last().1)
            =~= entries_map(shorter).insert(es.last().0@, es.last().1).remove(k));
    }
}

impl<V> View for Table<V> {
    type V = Map<Seq<u8>, V>;

    closed spec fn view(&self) -> Map<Seq<u8>, V> {
        entries_map(self.entries@)
    }
}

impl<V> Table<V> {
    /// The table's invariant: no token is registered twice.
    pub closed spec fn wf(&self) -> bool {
        forall|a: int, b: int|
            0 <= a < b < self.entries@.len() ==> self.entries@[a].0@ != self.entries@[b].0@
    }

    /// An empty table.
    pub fn new() -> (t: Table<V>)
        ensures
            t.wf(),
            t@ == Map::<Seq<u8>, V>::empty(),
    {
        Table { entries: Vec::new() }
    }

    /// The index of the entry registered under `token`, if any.
    fn find(&self, token: &Token) -> (r: Option<usize>)
        ensures
            match r {
                Some(i) => i < self.entries@.len() && self.entries@[i as int].0@ == token@,
                None => forall|i: int|
                    0 <= i < self.entries@.len() ==> self.entries@[i].0@ != token@,
            },
    {
        let n = self.entries.len();
        let mut i: usize = 0;
        while i < n
            invariant
                n == self.entries@.len(),
                i <= n,
                forall|j: int| 0 <= j < i ==> self.entries@[j].0@ != token@,
            decreases n - i,
        {
            if self.entries[i].0.eq_token(token) {
                return Some(i);
            }
            i += 1;
        }
        None
    }

    /// Installs a fresh completion slot under `token`. Fails, handing the
    /// slot back untouched, exactly when the token is already registered:
    /// among concurrently in-flight probes the caller guarantees
    /// uniqueness.
    pub fn register(&mut self, token: Token, handle: V) -> (r: Result<(), V>)
        requires
            old(self).wf(),
        ensures
            final(self).wf(),
            match r {
                Ok(()) => !old(self)@.contains_key(token@)
                    && final(self)@ == old(self)@.insert(token@, handle),
                Err(h) => old(self)@.contains_key(token@) && final(self)@ == old(self)@
                    && h == handle,
            },
    {
        proof {
            lemma_entries_map_contains(self.entries@, token@);
        }
        match self.find(&token) {
            Some(_) => Err(handle),
            None => {
                self.entries.push((token, handle));
                proof {
                    assert(self.entries@.drop_last() =~= old(self).entries@);
                }
                Ok(())
            }
        }
    }

    /// Atomically takes and removes the slot registered under `token`.
    /// Absence is not an error: an unrelated, already-resolved or expired
    /// token yields `None` and leaves the table as it was.
    pub fn remove(&mut self, token: &Token) -> (r: Option<V>)
        requires
            old(self).wf(),
        ensures
            final(self).wf(),
            match r {
                Some(h) => old(self)@.contains_key(token@)
                    && h == old(self)@[token@]
                    && final(self)@ == old(self)@.remove(token@),
                None => !old(self)@.contains_key(token@) && final(self)@ == old(self)@,
            },
    {
        proof {
            lemma_entries_map_contains(self.entries@, token@);
        }
        match self.find(token) {
            Some(i) => {
                proof {
                    lemma_entries_map_index(self.entries@, i as int);
                    lemma_entries_map_remove(self.entries@, i as int);
                }
                let (_, handle) = self.entries.remove(i);
                proof {
                    assert(forall|a: int, b: int|
                        0 <= a < b < self.entries@.len()
                            ==> self.entries@[a].0@ != self.entries@[b].0@) by {
                        assert(self.entries@ == old(self).entries@.remove(i as int));
                    };
                }
                Some(handle)
            }
            None => None,
        }
    }

    /// Whether `token` is currently registered.
    pub fn contains(&self, token: &Token) -> (r: bool)
        requires
            self.wf(),
        ensures
            r == self@.contains_key(token@),
    {
        proof {
            lemma_entries_map_contains(self.entries@, token@);
        }
        self.find(token).is_some()
    }
}

/// Correlation exactness: once a token is registered, the table delivers
/// that token's handle, and only that one, to whoever removes the token;
/// every other token's slot is untouched by the registration.
pub proof fn lemma_correlation_exact<V>(m: Map<Seq<u8>, V>, t: Seq<u8>, h: V, t2: Seq<u8>)
    requires
        t2 != t,
    ensures
        m.insert(t, h).contains_key(t),
        m.insert(t, h)[t] == h,
        m.insert(t, h).contains_key(t2) == m.contains_key(t2),
        m.insert(t, h).contains_key(t2) ==> m.insert(t, h)[t2] == m[t2],
        m.insert(t, h).remove(t) =~= m.remove(t),
{
}

/// Isolation of distinct tokens: register and remove on one token commute
/// with register and remove on any other, so concurrent register/remove
/// pairs on distinct tokens, however interleaved, never cross-deliver.
pub proof fn lemma_distinct_tokens_commute<V>(m: Map<Seq<u8>, V>, t1: Seq<u8>, h1: V, t2: Seq<u8>, h2: V)
    requires
        t1 != t2,
    ensures
        m.insert(t1, h1).insert(t2, h2) =~= m.insert(t2, h2).insert(t1, h1),
        m.insert(t1, h1).remove(t2) =~= m.remove(t2).insert(t1, h1),
        m.remove(t1).remove(t2) =~= m.remove(t2).remove(t1),
        m.insert(t1, h1).contains_key(t2) == m.contains_key(t2),
        m.remove(t1).contains_key(t2) == m.contains_key(t2),
{
}

} // verus!
