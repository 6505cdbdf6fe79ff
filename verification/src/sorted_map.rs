//! A mapping from string names to values, kept in ascending lexicographic
//! name order so that iteration — and hence rendering — is deterministic
//! regardless of the order in which entries were added.

use vstd::prelude::*;

use crate::text_order::{
    lemma_lex_lt_asym, lemma_lex_lt_connected, lemma_lex_lt_irrefl, lemma_lex_lt_trans, lex_lt,
    str_compare, NameOrder,
};

verus! {

/// The names of the entries are strictly ascending in `lex_lt`.
pub open spec fn keys_sorted<V>(s: Seq<(String, V)>) -> bool {
    forall|i: int, j: int|
        0 <= i < j < s.len() ==> #[trigger] lex_lt(s[i].0@, s[j].0@)
}

/// Where `insert` puts a new entry: before the first entry whose name is not
/// below the new name, replacing that entry when the names are equal.
pub open spec fn sorted_insert<V>(s: Seq<(String, V)>, name: String, value: V) -> Seq<(String, V)>
    decreases s.len(),
{
    if s.len() == 0 {
        seq![(name, value)]
    } else if lex_lt(name@, s[0].0@) {
        seq![(name, value)] + s
    } else if name@ == s[0].0@ {
        seq![(name, value)] + s.drop_first()
    } else {
        seq![s[0]] + sorted_insert(s.drop_first(), name, value)
    }
}

/// A map whose entries stand in ascending name order.
pub struct SortedMap<V> {
    pub entries: Vec<(String, V)>,
}

impl<V> View for SortedMap<V> {
    type V = Seq<(String, V)>;

    open spec fn view(&self) -> Seq<(String, V)> {
        self.entries@
    }
}

impl<V> SortedMap<V> {
    pub open spec fn wf(&self) -> bool {
        keys_sorted(self@)
    }

    pub fn new() -> (r: Self)
        ensures
            r@ == Seq::<(String, V)>::empty(),
            r.wf(),
    {
        SortedMap { entries: Vec::new() }
    }

    pub fn len(&self) -> (n: usize)
        ensures
            n == self@.len(),
    {
        self.entries.len()
    }

    /// Adds an entry, keeping the entries sorted by name; an entry with the
    /// same name is replaced.
    pub fn insert(&mut self, name: String, value: V)
        ensures
            final(self)@ == sorted_insert(old(self)@, name, value),
            old(self).wf() ==> final(self).wf(),
    {
        let ghost s = old(self)@;
        let mut i: usize = 0;
        while i < self.entries.len()
            invariant
                self.entries@ == s,
                s == old(self)@,
                0 <= i <= s.len(),
                forall|j: int| 0 <= j < i ==> lex_lt(#[trigger] s[j].0@, name@),
            decreases s.len() - i,
        {
            match str_compare(name.as_str(), self.entries[i].0.as_str()) {
                NameOrder::Less => {
                    proof {
                        lemma_sorted_insert_stops(s, name, value, i as int);
                        assert(sorted_insert(s, name, value) =~= s.insert(
                            i as int,
                            (name, value),
                        ));
                        if keys_sorted(s) {
                            lemma_keys_sorted_inserted(s, name, value, i as int);
                        }
                    }
                    self.entries.insert(i, (name, value));
                    return ;
                },
                NameOrder::Equal => {
                    proof {
                        lemma_sorted_insert_stops(s, name, value, i as int);
                        let t = s.update(i as int, (name, value));
                        assert(sorted_insert(s, name, value) =~= t);
                        if keys_sorted(s) {
                            assert forall|p: int, q: int|
                                0 <= p < q < t.len() implies lex_lt(t[p].0@, t[q].0@) by {
                                assert(lex_lt(s[p].0@, s[q].0@));
                            }
                            assert(keys_sorted(t));
                        }
                    }
                    self.entries[i] = (name, value);
                    return ;
                },
                NameOrder::Greater => {
                    i += 1;
                },
            }
        }
        proof {
            lemma_sorted_insert_stops(s, name, value, s.len() as int);
            let t = s.push((name, value));
            assert(sorted_insert(s, name, value) =~= t);
            if keys_sorted(s) {
                assert forall|p: int, q: int|
                    0 <= p < q < t.len() implies lex_lt(t[p].0@, t[q].0@) by {
                    if q < s.len() {
                        assert(lex_lt(s[p].0@, s[q].0@));
                    } else {
                        assert(lex_lt(s[p].0@, name@));
                    }
                }
                assert(keys_sorted(t));
            }
        }
        self.entries.push((name, value));
    }
}

/// Unfolds `sorted_insert` up to position `i`, the first position whose name
/// is not below the inserted name: the entries before `i` stay in place.
proof fn lemma_sorted_insert_prefix<V>(s: Seq<(String, V)>, name: String, value: V, i: int)
    requires
        0 <= i <= s.len(),
        forall|j: int| 0 <= j < i ==> lex_lt(#[trigger] s[j].0@, name@),
    ensures
        sorted_insert(s, name, value) == s.take(i) + sorted_insert(s.skip(i), name, value),
    decreases i,
{
    if i == 0 {
        assert(s.skip(0) =~= s);
        assert(sorted_insert(s, name, value) =~= s.take(0) + sorted_insert(s, name, value));
    } else {
        lemma_lex_lt_asym(s[0].0@, name@);
        lemma_lex_lt_irrefl(name@);
        let rest = s.drop_first();
        assert(forall|j: int| 0 <= j < i - 1 ==> lex_lt(#[trigger] rest[j].0@, name@)) by {
            assert(forall|j: int| 0 <= j < i - 1 ==> rest[j] == s[j + 1]);
        }
        lemma_sorted_insert_prefix(rest, name, value, i - 1);
        assert(rest.take(i - 1) =~= s.take(i).drop_first());
        assert(rest.skip(i - 1) =~= s.skip(i));
        assert(seq![s[0]] + (rest.take(i - 1) + sorted_insert(rest.skip(i - 1), name, value))
            =~= s.take(i) + sorted_insert(s.skip(i), name, value));
    }
}

/// The shape `sorted_insert` takes at the stopping position `i`: what stands
/// before `i` is kept, the new entry follows, and the rest follows that,
/// without its first entry when that entry's name equals the new name.
proof fn lemma_sorted_insert_stops<V>(s: Seq<(String, V)>, name: String, value: V, i: int)
    requires
        0 <= i <= s.len(),
        forall|j: int| 0 <= j < i ==> lex_lt(#[trigger] s[j].0@, name@),
    ensures
        i == s.len() ==> sorted_insert(s, name, value) == s.take(i).push((name, value)),
        i < s.len() && lex_lt(name@, s[i].0@) ==> sorted_insert(s, name, value) == s.take(i).push(
            (name, value),
        ) + s.skip(i),
        i < s.len() && name@ == s[i].0@ ==> sorted_insert(s, name, value) == s.take(i).push(
            (name, value),
        ) + s.skip(i + 1),
{
    lemma_sorted_insert_prefix(s, name, value, i);
    let tail = s.skip(i);
    if i == s.len() {
        assert(tail =~= Seq::<(String, V)>::empty());
        assert(s.take(i) + sorted_insert(tail, name, value) =~= s.take(i).push((name, value)));
    } else {
        assert(tail[0] == s[i]);
        lemma_lex_lt_irrefl(name@);
        if lex_lt(name@, s[i].0@) {
            assert(s.take(i) + (seq![(name, value)] + tail) =~= s.take(i).push((name, value))
                + s.skip(i));
        } else if name@ == s[i].0@ {
            lemma_lex_lt_irrefl(name@);
            assert(tail[0].0@ == name@);
            assert(!lex_lt(name@, tail[0].0@));
            assert(sorted_insert(tail, name, value) == seq![(name, value)] + tail.drop_first());
            assert(tail.drop_first() =~= s.skip(i + 1));
            assert(s.take(i) + (seq![(name, value)] + tail.drop_first()) =~= s.take(i).push(
                (name, value),
            ) + s.skip(i + 1));
        }
    }
}

/// Inserting a new entry at the stopping position keeps the names sorted.
proof fn lemma_keys_sorted_inserted<V>(s: Seq<(String, V)>, name: String, value: V, i: int)
    requires
        keys_sorted(s),
        0 <= i <= s.len(),
        forall|j: int| 0 <= j < i ==> lex_lt(#[trigger] s[j].0@, name@),
        i < s.len() ==> lex_lt(name@, s[i].0@),
    ensures
        keys_sorted(s.insert(i, (name, value))),
{
    let t = s.insert(i, (name, value));
    assert forall|p: int, q: int| 0 <= p < q < t.len() implies #[trigger] lex_lt(
        t[p].0@,
        t[q].0@,
    ) by {
        if p < i && q == i {
        } else if p == i && q > i {
            if q > i + 1 {
                lemma_lex_lt_trans(name@, s[i].0@, t[q].0@);
            }
        } else if p < i && q > i {
            if q == i + 1 {
                lemma_lex_lt_trans(t[p].0@, name@, t[q].0@);
            }
        }
    }
}

} // verus!
