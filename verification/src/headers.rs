//! The header map: an ordered multi-map from byte-string keys to byte-string
//! values. Keys are compared byte for byte; nothing is assumed of the
//! encoding of keys or values.

use vstd::prelude::*;
use crate::bytes::{bytes_eq, to_vec};

verus! {

/// The predicate "this entry is stored under `key`".
pub open spec fn has_key(key: Seq<u8>) -> spec_fn((Seq<u8>, Seq<u8>)) -> bool {
    |entry: (Seq<u8>, Seq<u8>)| entry.0 == key
}

/// The predicate "this entry is stored under another key than `key`".
pub open spec fn has_other_key(key: Seq<u8>) -> spec_fn((Seq<u8>, Seq<u8>)) -> bool {
    |entry: (Seq<u8>, Seq<u8>)| entry.0 != key
}

/// The value of an entry.
pub open spec fn value_of() -> spec_fn((Seq<u8>, Seq<u8>)) -> Seq<u8> {
    |entry: (Seq<u8>, Seq<u8>)| entry.1
}

/// All values stored under `key`, in the order of their entries.
pub open spec fn values_of(entries: Seq<(Seq<u8>, Seq<u8>)>, key: Seq<u8>) -> Seq<Seq<u8>> {
    entries.filter(has_key(key)).map_values(value_of())
}

/// The entries that are left when every entry under `key` is taken out.
pub open spec fn without(entries: Seq<(Seq<u8>, Seq<u8>)>, key: Seq<u8>) -> Seq<(Seq<u8>, Seq<u8>)> {
    entries.filter(has_other_key(key))
}

/// The index of the first entry under `key`, or the number of entries if
/// there is none.
pub open spec fn first_index(entries: Seq<(Seq<u8>, Seq<u8>)>, key: Seq<u8>) -> int
    decreases entries.len(),
{
    if entries.len() == 0 || entries[0].0 == key {
        0
    } else {
        1 + first_index(entries.drop_first(), key)
    }
}

/// The entries after `key` is set to `value`: one entry for `key`, where its
/// first entry stood before, or at the end if it had none; the other keys'
/// entries as they were.
pub open spec fn with_single(
    entries: Seq<(Seq<u8>, Seq<u8>)>,
    key: Seq<u8>,
    value: Seq<u8>,
) -> Seq<(Seq<u8>, Seq<u8>)> {
    let at: int = first_index(entries, key);
    if at >= entries.len() {
        entries.push((key, value))
    } else {
        entries.take(at).push((key, value)) + without(entries.skip(at + 1), key)
    }
}

/// The first value stored under `key`, if there is one.
pub open spec fn first_value(entries: Seq<(Seq<u8>, Seq<u8>)>, key: Seq<u8>) -> Option<Seq<u8>> {
    if values_of(entries, key).len() == 0 {
        None
    } else {
        Some(values_of(entries, key)[0])
    }
}

/// `first_index` is in range, no entry before it is under `key`, and the
/// entry at it, if any, is.
pub proof fn lemma_first_index(entries: Seq<(Seq<u8>, Seq<u8>)>, key: Seq<u8>)
    ensures
        0 <= first_index(entries, key) <= entries.len(),
        forall|i: int| 0 <= i < first_index(entries, key) ==> (#[trigger] entries[i]).0 != key,
        first_index(entries, key) < entries.len() ==> entries[first_index(entries, key)].0 == key,
    decreases entries.len(),
{
    if entries.len() == 0 || entries[0].0 == key {
    } else {
        let rest = entries.drop_first();
        lemma_first_index(rest, key);
        assert forall|i: int| 0 <= i < first_index(entries, key) implies (#[trigger] entries[i]).0
            != key by {
            if i > 0 {
                assert(entries[i] == rest[i - 1]);
            }
        }
        assert(first_index(entries, key) < entries.len() ==> entries[first_index(entries, key)]
            == rest[first_index(rest, key)]);
    }
}

/// The first index at which an entry under `key` stands is `first_index`.
pub proof fn lemma_first_index_is(entries: Seq<(Seq<u8>, Seq<u8>)>, key: Seq<u8>, at: int)
    requires
        0 <= at <= entries.len(),
        forall|i: int| 0 <= i < at ==> (#[trigger] entries[i]).0 != key,
        at < entries.len() ==> entries[at].0 == key,
    ensures
        first_index(entries, key) == at,
{
    lemma_first_index(entries, key);
    let found: int = first_index(entries, key);
    if found < at {
        assert(entries[found].0 == key);
    } else if found > at {
        assert(entries[at].0 != key);
    }
}

/// What one more entry at the end adds to the values under `key` and to
/// what is left without `key`.
pub proof fn lemma_push_entry(
    entries: Seq<(Seq<u8>, Seq<u8>)>,
    entry: (Seq<u8>, Seq<u8>),
    key: Seq<u8>,
)
    ensures
        values_of(entries.push(entry), key) == if entry.0 == key {
            values_of(entries, key).push(entry.1)
        } else {
            values_of(entries, key)
        },
        without(entries.push(entry), key) == if entry.0 == key {
            without(entries, key)
        } else {
            without(entries, key).push(entry)
        },
{
    entries.lemma_filter_push(entry, has_key(key));
    entries.lemma_filter_push(entry, has_other_key(key));
    if entry.0 == key {
        assert(values_of(entries.push(entry), key) =~= values_of(entries, key).push(entry.1));
    }
}

/// No entries hold no values.
pub proof fn lemma_no_entries(key: Seq<u8>)
    ensures
        values_of(Seq::<(Seq<u8>, Seq<u8>)>::empty(), key) == Seq::<Seq<u8>>::empty(),
        without(Seq::<(Seq<u8>, Seq<u8>)>::empty(), key) == Seq::<(Seq<u8>, Seq<u8>)>::empty(),
{
    reveal(Seq::filter);
    assert(values_of(Seq::<(Seq<u8>, Seq<u8>)>::empty(), key) =~= Seq::<Seq<u8>>::empty());
}

/// Entries of which none is under `key` hold no value for it, and taking
/// `key` out of them changes nothing.
pub proof fn lemma_key_absent(entries: Seq<(Seq<u8>, Seq<u8>)>, key: Seq<u8>)
    requires
        forall|i: int| 0 <= i < entries.len() ==> (#[trigger] entries[i]).0 != key,
    ensures
        values_of(entries, key) == Seq::<Seq<u8>>::empty(),
        without(entries, key) == entries,
    decreases entries.len(),
{
    if entries.len() == 0 {
        lemma_no_entries(key);
        assert(entries =~= Seq::<(Seq<u8>, Seq<u8>)>::empty());
    } else {
        let front = entries.drop_last();
        assert forall|i: int| 0 <= i < front.len() implies (#[trigger] front[i]).0 != key by {
            assert(front[i] == entries[i]);
        }
        lemma_key_absent(front, key);
        assert(entries.last() == entries[entries.len() - 1]);
        assert(entries =~= front.push(entries.last()));
        lemma_push_entry(front, entries.last(), key);
    }
}

/// What is left after `key` is taken out holds no value for `key`, and holds
/// for every other key the values it had.
pub proof fn lemma_without(entries: Seq<(Seq<u8>, Seq<u8>)>, key: Seq<u8>, other: Seq<u8>)
    ensures
        values_of(without(entries, key), key) == Seq::<Seq<u8>>::empty(),
        other != key ==> values_of(without(entries, key), other) == values_of(entries, other),
    decreases entries.len(),
{
    if entries.len() == 0 {
        lemma_no_entries(key);
        lemma_no_entries(other);
        assert(entries =~= Seq::<(Seq<u8>, Seq<u8>)>::empty());
    } else {
        let front = entries.drop_last();
        let last = entries.last();
        lemma_without(front, key, other);
        assert(entries =~= front.push(last));
        lemma_push_entry(front, last, key);
        lemma_push_entry(front, last, other);
        if last.0 != key {
            lemma_push_entry(without(front, key), last, key);
            lemma_push_entry(without(front, key), last, other);
        }
    }
}

/// The values under `key` of two runs of entries joined are those of the
/// first run, then those of the second.
pub proof fn lemma_values_of_concat(
    front: Seq<(Seq<u8>, Seq<u8>)>,
    back: Seq<(Seq<u8>, Seq<u8>)>,
    key: Seq<u8>,
)
    ensures
        values_of(front + back, key) == values_of(front, key) + values_of(back, key),
{
    Seq::filter_distributes_over_add(front, back, has_key(key));
    assert(values_of(front + back, key) =~= values_of(front, key) + values_of(back, key));
}

/// After `key` is set to `value`, the values under `key` are exactly
/// `[value]`, and every other key has the values it had.
pub proof fn lemma_with_single(
    entries: Seq<(Seq<u8>, Seq<u8>)>,
    key: Seq<u8>,
    value: Seq<u8>,
    other: Seq<u8>,
)
    ensures
        values_of(with_single(entries, key, value), key) == seq![value],
        other != key ==> values_of(with_single(entries, key, value), other) == values_of(
            entries,
            other,
        ),
{
    lemma_first_index(entries, key);
    let at: int = first_index(entries, key);
    let none = Seq::<(Seq<u8>, Seq<u8>)>::empty();
    let single = seq![(key, value)];
    assert(single =~= none.push((key, value)));
    lemma_no_entries(key);
    lemma_no_entries(other);
    lemma_push_entry(none, (key, value), key);
    lemma_push_entry(none, (key, value), other);
    assert(values_of(single, key) =~= seq![value]);
    let head = entries.take(at);
    assert forall|i: int| 0 <= i < head.len() implies (#[trigger] head[i]).0 != key by {
        assert(head[i] == entries[i]);
    }
    lemma_key_absent(head, key);
    if at >= entries.len() {
        assert(head =~= entries);
        assert(with_single(entries, key, value) =~= entries + single);
        lemma_values_of_concat(entries, single, key);
        lemma_values_of_concat(entries, single, other);
        assert(values_of(entries, key) + seq![value] =~= seq![value]);
        assert(other != key ==> values_of(entries, other) + Seq::<Seq<u8>>::empty() =~= values_of(
            entries,
            other,
        ));
    } else {
        let tail = entries.skip(at + 1);
        let kept = without(tail, key);
        assert(with_single(entries, key, value) =~= head + single + kept);
        lemma_without(tail, key, other);
        lemma_values_of_concat(head + single, kept, key);
        lemma_values_of_concat(head, single, key);
        assert(values_of(with_single(entries, key, value), key) =~= seq![value]);
        if other != key {
            let old_single = seq![entries[at]];
            assert(old_single =~= none.push(entries[at]));
            lemma_push_entry(none, entries[at], other);
            assert(entries =~= head + old_single + tail);
            lemma_values_of_concat(head + single, kept, other);
            lemma_values_of_concat(head, single, other);
            lemma_values_of_concat(head + old_single, tail, other);
            lemma_values_of_concat(head, old_single, other);
            assert(values_of(with_single(entries, key, value), other) =~= values_of(entries, other));
        }
    }
}

/// The first value under `key` is the value of the entry at `first_index`.
pub proof fn lemma_first_value(entries: Seq<(Seq<u8>, Seq<u8>)>, key: Seq<u8>)
    ensures
        first_value(entries, key) == if first_index(entries, key) < entries.len() {
            Some(entries[first_index(entries, key)].1)
        } else {
            None
        },
{
    lemma_first_index(entries, key);
    let at: int = first_index(entries, key);
    let head = entries.take(at);
    assert forall|i: int| 0 <= i < head.len() implies (#[trigger] head[i]).0 != key by {
        assert(head[i] == entries[i]);
    }
    lemma_key_absent(head, key);
    if at < entries.len() {
        let tail = entries.skip(at + 1);
        assert(entries =~= head.push(entries[at]) + tail);
        lemma_push_entry(head, entries[at], key);
        lemma_values_of_concat(head.push(entries[at]), tail, key);
    } else {
        assert(head =~= entries);
    }
}

/// An ordered multi-map of headers. A key may have several entries; they
/// stay in the order in which they were added until they are removed or
/// replaced.
pub struct HeaderMap {
    entries: Vec<(Vec<u8>, Vec<u8>)>,
}

impl View for HeaderMap {
    type V = Seq<(Seq<u8>, Seq<u8>)>;

    closed spec fn view(&self) -> Seq<(Seq<u8>, Seq<u8>)> {
        Seq::new(self.entries@.len(), |i: int| (self.entries@[i].0@, self.entries@[i].1@))
    }
}

impl HeaderMap {
    /// A map without entries.
    pub fn new() -> (map: HeaderMap)
        ensures
            map@ == Seq::<(Seq<u8>, Seq<u8>)>::empty(),
    {
        let map = HeaderMap { entries: Vec::new() };
        assert(map@ =~= Seq::<(Seq<u8>, Seq<u8>)>::empty());
        map
    }

    /// The number of entries.
    pub fn len(&self) -> (count: usize)
        ensures
            count == self@.len(),
    {
        self.entries.len()
    }

    /// The key and the value of entry `index`, or `None` past the last entry.
    pub fn entry(&self, index: usize) -> (found: Option<(&[u8], &[u8])>)
        ensures
            match found {
                Some((key, value)) => index < self@.len() && (key@, value@) == self@[index as int],
                None => index >= self@.len(),
            },
    {
        if index < self.entries.len() {
            let pair = &self.entries[index];
            Some((pair.0.as_slice(), pair.1.as_slice()))
        } else {
            None
        }
    }

    /// Adds an entry at the end, whatever entries `key` already has.
    pub fn append(&mut self, key: &[u8], value: &[u8])
        ensures
            final(self)@ == old(self)@.push((key@, value@)),
    {
        self.entries.push((to_vec(key), to_vec(value)));
        assert(self@ =~= old(self)@.push((key@, value@)));
    }

    /// The value of the first entry under `key`, or `None` if it has none.
    pub fn get_first(&self, key: &[u8]) -> (found: Option<&[u8]>)
        ensures
            match found {
                Some(value) => first_value(self@, key@) == Some(value@),
                None => first_value(self@, key@).is_none(),
            },
    {
        let mut i: usize = 0;
        while i < self.entries.len()
            invariant
                i <= self.entries@.len(),
                self@.len() == self.entries@.len(),
                forall|k: int| 0 <= k < i ==> (#[trigger] self@[k]).0 != key@,
            decreases self.entries@.len() - i,
        {
            if bytes_eq(self.entries[i].0.as_slice(), key) {
                proof {
                    lemma_first_index_is(self@, key@, i as int);
                    lemma_first_value(self@, key@);
                }
                return Some(self.entries[i].1.as_slice());
            }
            i += 1;
        }
        proof {
            lemma_first_index_is(self@, key@, i as int);
            lemma_first_value(self@, key@);
        }
        None
    }

    /// The values of all entries under `key`, in order; empty if it has none.
    pub fn get_all(&self, key: &[u8]) -> (found: Vec<&[u8]>)
        ensures
            found@.len() == values_of(self@, key@).len(),
            forall|i: int|
                #![trigger found@[i]]
                0 <= i < found@.len() ==> found@[i]@ == values_of(self@, key@)[i],
    {
        let mut found: Vec<&[u8]> = Vec::new();
        let mut i: usize = 0;
        proof {
            lemma_no_entries(key@);
            assert(self@.take(0) =~= Seq::<(Seq<u8>, Seq<u8>)>::empty());
        }
        while i < self.entries.len()
            invariant
                i <= self.entries@.len(),
                self@.len() == self.entries@.len(),
                found@.len() == values_of(self@.take(i as int), key@).len(),
                forall|k: int|
                    #![trigger found@[k]]
                    0 <= k < found@.len() ==> found@[k]@ == values_of(self@.take(i as int), key@)[k],
            decreases self.entries@.len() - i,
        {
            proof {
                assert(self@.take(i + 1) =~= self@.take(i as int).push(self@[i as int]));
                lemma_push_entry(self@.take(i as int), self@[i as int], key@);
            }
            if bytes_eq(self.entries[i].0.as_slice(), key) {
                found.push(self.entries[i].1.as_slice());
            }
            i += 1;
        }
        proof {
            assert(self@.take(self@.len() as int) =~= self@);
        }
        found
    }

    /// Takes out every entry under `key`; the other entries keep their order.
    pub fn remove(&mut self, key: &[u8])
        ensures
            final(self)@ == without(old(self)@, key@),
    {
        self.remove_from(0, key);
        proof {
            assert(old(self)@.take(0) =~= Seq::<(Seq<u8>, Seq<u8>)>::empty());
            assert(old(self)@.skip(0) =~= old(self)@);
            assert(Seq::<(Seq<u8>, Seq<u8>)>::empty() + without(old(self)@, key@) =~= without(
                old(self)@,
                key@,
            ));
        }
    }

    /// Sets `key` to the single value `value`: the first entry under `key`
    /// gets the value and keeps its place, every later entry under `key` is
    /// taken out; a key without entries gets one at the end.
    pub fn set(&mut self, key: &[u8], value: &[u8])
        ensures
            final(self)@ == with_single(old(self)@, key@, value@),
    {
        let mut at: usize = 0;
        while at < self.entries.len() && !bytes_eq(self.entries[at].0.as_slice(), key)
            invariant
                at <= self.entries@.len(),
                self@ == old(self)@,
                self@.len() == self.entries@.len(),
                forall|k: int| 0 <= k < at ==> (#[trigger] self@[k]).0 != key@,
            decreases self.entries@.len() - at,
        {
            at += 1;
        }
        proof {
            lemma_first_index_is(self@, key@, at as int);
        }
        if at == self.entries.len() {
            self.append(key, value);
        } else {
            self.entries[at] = (to_vec(key), to_vec(value));
            assert(self@ =~= old(self)@.take(at as int).push((key@, value@)) + old(self)@.skip(
                at + 1,
            ));
            assert(self@.take(at + 1) =~= old(self)@.take(at as int).push((key@, value@)));
            assert(self@.skip(at + 1) =~= old(self)@.skip(at + 1));
            self.remove_from(at + 1, key);
        }
    }

    /// Takes out every entry under `key` at index `start` or later.
    fn remove_from(&mut self, start: usize, key: &[u8])
        requires
            start <= old(self)@.len(),
        ensures
            final(self)@ == old(self)@.take(start as int) + without(
                old(self)@.skip(start as int),
                key@,
            ),
    {
        let ghost before = self@;
        let ghost rest = before.skip(start as int);
        let ghost mut seen: int = 0;
        let mut i: usize = start;
        proof {
            lemma_no_entries(key@);
            assert(rest.take(0) =~= Seq::<(Seq<u8>, Seq<u8>)>::empty());
            assert(self@ =~= before.take(start as int) + without(rest.take(0), key@) + rest.skip(0));
        }
        while i < self.entries.len()
            invariant
                before == old(self)@,
                rest == before.skip(start as int),
                start <= before.len(),
                0 <= seen <= rest.len(),
                self@.len() == self.entries@.len(),
                i == start + without(rest.take(seen), key@).len(),
                self@ == before.take(start as int) + without(rest.take(seen), key@) + rest.skip(seen),
            decreases rest.len() - seen,
        {
            proof {
                assert(self@[i as int] == rest.skip(seen)[0]);
                assert(seen < rest.len());
                assert(rest.take(seen + 1) =~= rest.take(seen).push(rest[seen]));
                lemma_push_entry(rest.take(seen), rest[seen], key@);
            }
            let ghost current = self@;
            if bytes_eq(self.entries[i].0.as_slice(), key) {
                self.entries.remove(i);
                proof {
                    assert(self@ =~= current.remove(i as int));
                    assert(self@ =~= before.take(start as int) + without(rest.take(seen + 1), key@)
                        + rest.skip(seen + 1));
                }
            } else {
                proof {
                    assert(self@ =~= before.take(start as int) + without(rest.take(seen + 1), key@)
                        + rest.skip(seen + 1));
                }
                i += 1;
            }
            proof {
                seen = seen + 1;
            }
        }
        proof {
            assert(i == self@.len());
            assert(rest.skip(seen).len() == 0);
            assert(rest.take(seen) =~= rest);
            assert(self@ =~= before.take(start as int) + without(rest, key@));
        }
    }
}

} // verus!
