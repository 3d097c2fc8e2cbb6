//! The guest-visible header collection: an ordered, case-insensitive
//! multimap in which appending to an existing name joins the values with
//! a comma, as the Fetch API's `Headers` class does.
//!
//! Names are folded to lower case when they enter the collection, and are
//! restricted to the token-safe byte set; values are kept as arbitrary
//! bytes and are only validated when a response is marshaled.
#![allow(unused_imports)]
use vstd::prelude::*;

verus! {

/// Error raised by the collection when a header name holds a byte outside
/// the token-safe set (the guest sees this as a thrown `TypeError`).
#[derive(Clone, Copy, Debug, PartialEq, Eq, Structural)]
pub enum HeaderError {
    InvalidName,
}

/// Lower-case folding of one ASCII byte: `A`..`Z` become `a`..`z`.
pub open spec fn spec_fold_byte(b: u8) -> u8 {
    if 65 <= b && b <= 90 {
        (b + 32) as u8
    } else {
        b
    }
}

/// Lower-case folding of a whole name.
pub open spec fn spec_fold(s: Seq<u8>) -> Seq<u8> {
    s.map_values(|b: u8| spec_fold_byte(b))
}

/// The token-safe set accepted in header names before folding:
/// letters, digits, and `- # $ % & ' * + . ^ _ ` | ~ !`.
pub open spec fn is_guest_name_byte(b: u8) -> bool {
    ||| 97 <= b && b <= 122  // a-z
    ||| 65 <= b && b <= 90  // A-Z
    ||| 48 <= b && b <= 57  // 0-9
    ||| b == 33  // !
    ||| b == 35  // #
    ||| b == 36  // $
    ||| b == 37  // %
    ||| b == 38  // &
    ||| b == 39  // '
    ||| b == 42  // *
    ||| b == 43  // +
    ||| b == 45  // -
    ||| b == 46  // .
    ||| b == 94  // ^
    ||| b == 95  // _
    ||| b == 96  // `
    ||| b == 124  // |
    ||| b == 126  // ~
}

/// A name the collection accepts: non-empty and token-safe throughout.
pub open spec fn spec_name_ok(s: Seq<u8>) -> bool {
    s.len() > 0 && (forall|i: int| 0 <= i < s.len() ==> is_guest_name_byte(#[trigger] s[i]))
}

/// Joining two values of one name: `v1`, a comma, a space, `v2`.
pub open spec fn spec_join(v1: Seq<u8>, v2: Seq<u8>) -> Seq<u8> {
    v1 + seq![44u8, 32u8] + v2
}

/// Whether some entry carries `name` (already folded).
pub open spec fn spec_has_name(es: Seq<(Seq<u8>, Seq<u8>)>, name: Seq<u8>) -> bool {
    exists|i: int| 0 <= i < es.len() && es[i].0 == name
}

/// Index of the first entry carrying `name`; meaningful only when present.
pub open spec fn spec_first_match(es: Seq<(Seq<u8>, Seq<u8>)>, name: Seq<u8>) -> int
    decreases es.len(),
{
    if es.len() == 0 {
        0
    } else if es[0].0 == name {
        0
    } else {
        1 + spec_first_match(es.drop_first(), name)
    }
}

/// The value stored under `name` (already folded), if any.
pub open spec fn spec_lookup(es: Seq<(Seq<u8>, Seq<u8>)>, name: Seq<u8>) -> Option<Seq<u8>> {
    if spec_has_name(es, name) {
        Some(es[spec_first_match(es, name)].1)
    } else {
        None
    }
}

/// What one append does: join onto the first entry of the same name, or
/// push a new entry at the end.
pub open spec fn spec_append_entry(
    es: Seq<(Seq<u8>, Seq<u8>)>,
    name: Seq<u8>,
    value: Seq<u8>,
) -> Seq<(Seq<u8>, Seq<u8>)> {
    if spec_has_name(es, name) {
        es.update(spec_first_match(es, name), (name, spec_join(es[spec_first_match(es, name)].1, value)))
    } else {
        es.push((name, value))
    }
}

/// What `set` does: replace the value in place, or push a new entry.
pub open spec fn spec_set_entry(
    es: Seq<(Seq<u8>, Seq<u8>)>,
    name: Seq<u8>,
    value: Seq<u8>,
) -> Seq<(Seq<u8>, Seq<u8>)> {
    if spec_has_name(es, name) {
        es.update(spec_first_match(es, name), (name, value))
    } else {
        es.push((name, value))
    }
}

/// What `delete` does: remove the entry of that name, if present.
pub open spec fn spec_delete_entry(es: Seq<(Seq<u8>, Seq<u8>)>, name: Seq<u8>) -> Seq<
    (Seq<u8>, Seq<u8>),
> {
    if spec_has_name(es, name) {
        es.remove(spec_first_match(es, name))
    } else {
        es
    }
}

pub proof fn lemma_first_match(es: Seq<(Seq<u8>, Seq<u8>)>, name: Seq<u8>)
    requires
        spec_has_name(es, name),
    ensures
        0 <= spec_first_match(es, name) < es.len(),
        es[spec_first_match(es, name)].0 == name,
        forall|j: int| 0 <= j < spec_first_match(es, name) ==> (#[trigger] es[j]).0 != name,
    decreases es.len(),
{
    if es[0].0 == name {
    } else {
        let i = choose|i: int| 0 <= i < es.len() && es[i].0 == name;
        assert(es.drop_first()[i - 1].0 == name);
        lemma_first_match(es.drop_first(), name);
        assert forall|j: int| 0 <= j < spec_first_match(es, name) implies (#[trigger] es[j]).0
            != name by {
            if j > 0 {
                assert(es.drop_first()[j - 1] == es[j]);
            }
        }
    }
}

/// Folding keeps a name token-safe, and folding twice changes nothing.
pub proof fn lemma_fold_keeps_name_ok(s: Seq<u8>)
    ensures
        spec_name_ok(s) ==> spec_name_ok(spec_fold(s)),
        spec_fold(spec_fold(s)) =~= spec_fold(s),
{
    assert forall|i: int| 0 <= i < spec_fold(s).len() && spec_name_ok(s) implies is_guest_name_byte(
        #[trigger] spec_fold(s)[i],
    ) by {
        assert(is_guest_name_byte(s[i]));
    }
}


/// View of a raw init list as a sequence of byte-string pairs.
pub open spec fn spec_pairs_view(pairs: Seq<(Vec<u8>, Vec<u8>)>) -> Seq<(Seq<u8>, Seq<u8>)> {
    Seq::new(pairs.len(), |i: int| (pairs[i].0@, pairs[i].1@))
}

/// The collection that appending a list of pairs builds, oldest first.
pub open spec fn spec_headers_of(pairs: Seq<(Seq<u8>, Seq<u8>)>) -> Seq<(Seq<u8>, Seq<u8>)>
    decreases pairs.len(),
{
    if pairs.len() == 0 {
        Seq::empty()
    } else {
        spec_append_entry(
            spec_headers_of(pairs.drop_last()),
            spec_fold(pairs.last().0),
            pairs.last().1,
        )
    }
}

/// Whether some pair of the list folds to `name`.
pub open spec fn spec_pairs_have(pairs: Seq<(Seq<u8>, Seq<u8>)>, name: Seq<u8>) -> bool {
    exists|k: int| 0 <= k < pairs.len() && spec_fold(pairs[k].0) == name
}

/// The folded names of the list, in order of first appearance.
pub open spec fn spec_name_order(pairs: Seq<(Seq<u8>, Seq<u8>)>) -> Seq<Seq<u8>>
    decreases pairs.len(),
{
    if pairs.len() == 0 {
        Seq::empty()
    } else {
        let prev = spec_name_order(pairs.drop_last());
        if prev.contains(spec_fold(pairs.last().0)) {
            prev
        } else {
            prev.push(spec_fold(pairs.last().0))
        }
    }
}

/// The comma-join of the values of every pair folding to `name`, oldest
/// first.
pub open spec fn spec_joined_value(pairs: Seq<(Seq<u8>, Seq<u8>)>, name: Seq<u8>) -> Seq<u8>
    decreases pairs.len(),
{
    if pairs.len() == 0 {
        Seq::empty()
    } else {
        let prev = pairs.drop_last();
        if spec_fold(pairs.last().0) == name {
            if spec_pairs_have(prev, name) {
                spec_join(spec_joined_value(prev, name), pairs.last().1)
            } else {
                pairs.last().1
            }
        } else {
            spec_joined_value(prev, name)
        }
    }
}

/// A folded name stands in the first-appearance order exactly when some
/// pair of the list folds to it.
pub proof fn lemma_name_order_contains(pairs: Seq<(Seq<u8>, Seq<u8>)>, name: Seq<u8>)
    ensures
        spec_name_order(pairs).contains(name) <==> spec_pairs_have(pairs, name),
    decreases pairs.len(),
{
    if pairs.len() == 0 {
    } else {
        let prev = pairs.drop_last();
        let n = spec_fold(pairs.last().0);
        let po = spec_name_order(prev);
        let o = spec_name_order(pairs);
        lemma_name_order_contains(prev, name);
        if o.contains(name) {
            if name == n {
                assert(spec_fold(pairs[pairs.len() - 1].0) == name);
            } else {
                let j = choose|j: int| 0 <= j < o.len() && o[j] == name;
                if !po.contains(n) {
                    assert(o =~= po.push(n));
                    assert(j < po.len());
                }
                assert(po[j] == name);
                assert(po.contains(name));
                let k = choose|k: int| 0 <= k < prev.len() && spec_fold(prev[k].0) == name;
                assert(prev[k] == pairs[k]);
                assert(spec_fold(pairs[k].0) == name);
            }
            assert(spec_pairs_have(pairs, name));
        }
        if spec_pairs_have(pairs, name) {
            let k = choose|k: int| 0 <= k < pairs.len() && spec_fold(pairs[k].0) == name;
            if spec_fold(pairs[pairs.len() - 1].0) == name {
                if po.contains(n) {
                    assert(o.contains(name));
                } else {
                    assert(o.last() == n);
                    assert(o.contains(name));
                }
            } else {
                assert(k < pairs.len() - 1);
                assert(prev[k] == pairs[k]);
                assert(spec_fold(prev[k].0) == name);
                assert(spec_pairs_have(prev, name));
                let j = choose|j: int| 0 <= j < po.len() && po[j] == name;
                if !po.contains(n) {
                    assert(o =~= po.push(n));
                }
                assert(o[j] == name);
                assert(o.contains(name));
            }
        }
    }
}

/// No folded name appears twice in the first-appearance order.
pub proof fn lemma_name_order_distinct(pairs: Seq<(Seq<u8>, Seq<u8>)>)
    ensures
        forall|i: int, j: int|
            0 <= i < j < spec_name_order(pairs).len() ==> spec_name_order(pairs)[i]
                != spec_name_order(pairs)[j],
    decreases pairs.len(),
{
    if pairs.len() == 0 {
    } else {
        let prev = pairs.drop_last();
        let n = spec_fold(pairs.last().0);
        lemma_name_order_distinct(prev);
        if !spec_name_order(prev).contains(n) {
            assert forall|i: int, j: int|
                0 <= i < j < spec_name_order(pairs).len() implies spec_name_order(pairs)[i]
                != spec_name_order(pairs)[j] by {
                if j == spec_name_order(pairs).len() - 1 {
                    if spec_name_order(prev)[i] == n {
                        assert(spec_name_order(prev).contains(n));
                    }
                }
            }
        }
    }
}

/// Determinism of the collection: appending a list of pairs yields each
/// distinct folded name once, in order of first appearance, and stores
/// under it the comma-join of all its values, oldest first.
pub proof fn lemma_append_order(pairs: Seq<(Seq<u8>, Seq<u8>)>)
    ensures
        spec_headers_of(pairs).len() == spec_name_order(pairs).len(),
        forall|i: int|
            0 <= i < spec_headers_of(pairs).len() ==> (#[trigger] spec_headers_of(pairs)[i]).0
                == spec_name_order(pairs)[i],
        forall|i: int|
            0 <= i < spec_headers_of(pairs).len() ==> (#[trigger] spec_headers_of(pairs)[i]).1
                == spec_joined_value(pairs, spec_headers_of(pairs)[i].0),
    decreases pairs.len(),
{
    if pairs.len() == 0 {
    } else {
        let prev = pairs.drop_last();
        let n = spec_fold(pairs.last().0);
        let v = pairs.last().1;
        let es_prev = spec_headers_of(prev);
        let es = spec_headers_of(pairs);
        lemma_append_order(prev);
        lemma_name_order_contains(prev, n);
        lemma_name_order_distinct(prev);
        if spec_has_name(es_prev, n) {
            let w = choose|w: int| 0 <= w < es_prev.len() && es_prev[w].0 == n;
            assert(spec_name_order(prev)[w] == n);
            assert(spec_name_order(prev).contains(n));
            assert(spec_pairs_have(prev, n));
            lemma_first_match(es_prev, n);
            let fm = spec_first_match(es_prev, n);
            assert(es =~= es_prev.update(fm, (n, spec_join(es_prev[fm].1, v))));
            assert forall|i: int| 0 <= i < es.len() implies (#[trigger] es[i]).1
                == spec_joined_value(pairs, es[i].0) by {
                if i == fm {
                    assert(es_prev[fm].1 == spec_joined_value(prev, n));
                    assert(spec_joined_value(pairs, n) == spec_join(spec_joined_value(prev, n), v));
                } else {
                    assert(es[i] == es_prev[i]);
                    assert(es_prev[i].1 == spec_joined_value(prev, es_prev[i].0));
                    if es_prev[i].0 == n {
                        assert(spec_name_order(prev)[i] == n);
                        assert(spec_name_order(prev)[fm] == n);
                    }
                    assert(es_prev[i].0 != n);
                    assert(spec_joined_value(pairs, es[i].0) == spec_joined_value(prev, es[i].0));
                }
            }
        } else {
            if spec_name_order(prev).contains(n) {
                let j = choose|j: int|
                    0 <= j < spec_name_order(prev).len() && spec_name_order(prev)[j] == n;
                assert(es_prev[j].0 == n);
                assert(spec_has_name(es_prev, n));
            }
            assert(!spec_name_order(prev).contains(n));
            assert(!spec_pairs_have(prev, n));
            assert(es =~= es_prev.push((n, v)));
            assert(spec_name_order(pairs) =~= spec_name_order(prev).push(n));
            assert forall|i: int| 0 <= i < es.len() implies (#[trigger] es[i]).1
                == spec_joined_value(pairs, es[i].0) by {
                if i < es.len() - 1 {
                    assert(es[i] == es_prev[i]);
                    if es_prev[i].0 == n {
                        assert(spec_has_name(es_prev, n));
                    }
                    assert(es_prev[i].0 != n);
                    assert(spec_joined_value(pairs, es[i].0) == spec_joined_value(prev, es[i].0));
                } else {
                    assert(es[i] == (n, v));
                    assert(spec_joined_value(pairs, n) == v);
                }
            }
        }
    }
}

/// Case-fold invariant of lookups: a stored value is read back the same
/// through any spelling that folds to the same name.
pub proof fn lemma_lookup_case_insensitive(es: Seq<(Seq<u8>, Seq<u8>)>, n1: Seq<u8>, n2: Seq<u8>)
    requires
        spec_fold(n1) =~= spec_fold(n2),
    ensures
        spec_lookup(es, spec_fold(n1)) == spec_lookup(es, spec_fold(n2)),
{
}

/// The guest header collection.  Entries stand in insertion order; each
/// name appears once, folded to lower case, with the comma-joined value.
pub struct Headers {
    pub entries: Vec<(Vec<u8>, Vec<u8>)>,
}

impl View for Headers {
    type V = Seq<(Seq<u8>, Seq<u8>)>;

    open spec fn view(&self) -> Seq<(Seq<u8>, Seq<u8>)> {
        Seq::new(self.entries@.len(), |i: int| (self.entries@[i].0@, self.entries@[i].1@))
    }
}

impl Headers {
    /// Well-formedness: every name is non-empty, token-safe, already
    /// folded, and no name repeats.
    pub open spec fn wf(&self) -> bool {
        &&& forall|i: int|
            0 <= i < self@.len() ==> spec_name_ok(#[trigger] self@[i].0) && spec_fold(self@[i].0)
                =~= self@[i].0
        &&& forall|i: int, j: int|
            0 <= i < j < self@.len() ==> (#[trigger] self@[i]).0 != (#[trigger] self@[j]).0
    }

    /// A fresh, empty collection.
    pub fn new() -> (h: Headers)
        ensures
            h@ =~= Seq::<(Seq<u8>, Seq<u8>)>::empty(),
            h.wf(),
    {
        Headers { entries: Vec::new() }
    }


    /// Builds a collection from an init list, appending pair after pair as
    /// the guest `Headers` constructor does; the first malformed name
    /// refuses the whole list.
    pub fn from_init(pairs: &Vec<(Vec<u8>, Vec<u8>)>) -> (r: Result<Headers, HeaderError>)
        ensures
            r is Ok <==> (forall|k: int|
                0 <= k < pairs@.len() ==> spec_name_ok((#[trigger] pairs@[k]).0@)),
            r matches Ok(h) ==> h.wf() && h@ =~= spec_headers_of(spec_pairs_view(pairs@)),
            r is Err ==> r == Result::<Headers, HeaderError>::Err(HeaderError::InvalidName),
    {
        let mut h = Headers::new();
        let n = pairs.len();
        let mut i: usize = 0;
        proof {
            assert(h@ =~= spec_headers_of(spec_pairs_view(pairs@.take(0))));
        }
        while i < n
            invariant
                n == pairs@.len(),
                i <= n,
                h.wf(),
                forall|k: int| 0 <= k < i ==> spec_name_ok((#[trigger] pairs@[k]).0@),
                h@ =~= spec_headers_of(spec_pairs_view(pairs@.take(i as int))),
            decreases n - i,
        {
            let r = h.append(&pairs[i].0, &pairs[i].1);
            if r.is_err() {
                proof {
                    assert(!spec_name_ok(pairs@[i as int].0@));
                }
                return Err(HeaderError::InvalidName);
            }
            proof {
                let cur = spec_pairs_view(pairs@.take(i as int + 1));
                assert(cur.drop_last() =~= spec_pairs_view(pairs@.take(i as int)));
                assert(cur.last() == (pairs@[i as int].0@, pairs@[i as int].1@));
                assert(h@ =~= spec_headers_of(cur));
            }
            i = i + 1;
        }
        proof {
            assert(pairs@.take(n as int) =~= pairs@);
        }
        Ok(h)
    }

    /// Appends a header.  An existing name has `", "` and the new value
    /// joined onto its stored value; a new name goes to the end.  A name
    /// outside the token-safe set is refused and the collection is left
    /// unchanged.
    pub fn append(&mut self, name: &Vec<u8>, value: &Vec<u8>) -> (r: Result<(), HeaderError>)
        requires
            old(self).wf(),
        ensures
            final(self).wf(),
            spec_name_ok(name@) ==> r is Ok && final(self)@ =~= spec_append_entry(
                old(self)@,
                spec_fold(name@),
                value@,
            ),
            !spec_name_ok(name@) ==> r == Result::<(), HeaderError>::Err(HeaderError::InvalidName)
                && final(self)@ =~= old(self)@,
    {
        if !name_ok(name) {
            return Err(HeaderError::InvalidName);
        }
        let folded = fold_name(name);
        proof {
            lemma_fold_keeps_name_ok(name@);
        }
        let n = self.entries.len();
        let mut i: usize = 0;
        while i < n
            invariant
                n == self.entries@.len(),
                i <= n,
                *self == *old(self),
                old(self).wf(),
                spec_name_ok(name@),
                spec_name_ok(folded@),
                spec_fold(folded@) =~= folded@,
                folded@ =~= spec_fold(name@),
                forall|j: int| 0 <= j < i ==> (#[trigger] self@[j]).0 != folded@,
            decreases n - i,
        {
            if bytes_eq(&self.entries[i].0, &folded) {
                let mut joined = clone_bytes(&self.entries[i].1);
                joined.push(44);
                joined.push(32);
                let mut k: usize = 0;
                let ghost mid = joined@;
                while k < value.len()
                    invariant
                        k <= value@.len(),
                        joined@ =~= mid + value@.take(k as int),
                    decreases value@.len() - k,
                {
                    joined.push(value[k]);
                    k = k + 1;
                }
                assert(joined@ =~= spec_join(old(self)@[i as int].1, value@));
                let folded2 = clone_bytes(&folded);
                self.entries.set(i, (folded2, joined));
                proof {
                    assert(old(self)@[i as int].0 == folded@);
                    assert(spec_has_name(old(self)@, folded@));
                    lemma_first_match(old(self)@, folded@);
                    assert(spec_first_match(old(self)@, folded@) == i as int) by {
                        let fm = spec_first_match(old(self)@, folded@);
                        if fm < i as int {
                            assert(old(self)@[fm].0 != folded@);
                        }
                        if fm > i as int {
                            assert(old(self)@[i as int].0 != folded@);
                        }
                    }
                    assert(self@ =~= spec_append_entry(old(self)@, spec_fold(name@), value@));
                    assert forall|a: int, b: int| 0 <= a < b < self@.len() implies (
                    #[trigger] self@[a]).0 != (#[trigger] self@[b]).0 by {
                        assert(old(self)@[a].0 != old(self)@[b].0);
                    }
                }
                return Ok(());
            }
            i = i + 1;
        }
        let folded3 = clone_bytes(&folded);
        let value2 = clone_bytes(value);
        self.entries.push((folded3, value2));
        proof {
            assert(!spec_has_name(old(self)@, folded@));
            assert(self@ =~= old(self)@.push((spec_fold(name@), value@)));
            assert forall|a: int, b: int| 0 <= a < b < self@.len() implies (#[trigger] self@[a]).0
                != (#[trigger] self@[b]).0 by {
                if b < self@.len() - 1 {
                    assert(old(self)@[a].0 != old(self)@[b].0);
                } else {
                    assert(self@[a].0 != folded@);
                }
            }
        }
        Ok(())
    }

    /// Replaces the value stored under a name, or inserts the pair; the
    /// position of an existing name is kept.
    pub fn set(&mut self, name: &Vec<u8>, value: &Vec<u8>) -> (r: Result<(), HeaderError>)
        requires
            old(self).wf(),
        ensures
            final(self).wf(),
            spec_name_ok(name@) ==> r is Ok && final(self)@ =~= spec_set_entry(
                old(self)@,
                spec_fold(name@),
                value@,
            ),
            !spec_name_ok(name@) ==> r == Result::<(), HeaderError>::Err(HeaderError::InvalidName)
                && final(self)@ =~= old(self)@,
    {
        if !name_ok(name) {
            return Err(HeaderError::InvalidName);
        }
        let folded = fold_name(name);
        proof {
            lemma_fold_keeps_name_ok(name@);
        }
        let n = self.entries.len();
        let mut i: usize = 0;
        while i < n
            invariant
                n == self.entries@.len(),
                i <= n,
                *self == *old(self),
                old(self).wf(),
                spec_name_ok(name@),
                spec_name_ok(folded@),
                spec_fold(folded@) =~= folded@,
                folded@ =~= spec_fold(name@),
                forall|j: int| 0 <= j < i ==> (#[trigger] self@[j]).0 != folded@,
            decreases n - i,
        {
            if bytes_eq(&self.entries[i].0, &folded) {
                let folded2 = clone_bytes(&folded);
                let value2 = clone_bytes(value);
                self.entries.set(i, (folded2, value2));
                proof {
                    assert(old(self)@[i as int].0 == folded@);
                    assert(spec_has_name(old(self)@, folded@));
                    lemma_first_match(old(self)@, folded@);
                    assert(spec_first_match(old(self)@, folded@) == i as int) by {
                        let fm = spec_first_match(old(self)@, folded@);
                        if fm < i as int {
                            assert(old(self)@[fm].0 != folded@);
                        }
                        if fm > i as int {
                            assert(old(self)@[i as int].0 != folded@);
                        }
                    }
                    assert(self@ =~= spec_set_entry(old(self)@, spec_fold(name@), value@));
                    assert forall|a: int, b: int| 0 <= a < b < self@.len() implies (
                    #[trigger] self@[a]).0 != (#[trigger] self@[b]).0 by {
                        assert(old(self)@[a].0 != old(self)@[b].0);
                    }
                }
                return Ok(());
            }
            i = i + 1;
        }
        let folded3 = clone_bytes(&folded);
        let value2 = clone_bytes(value);
        self.entries.push((folded3, value2));
        proof {
            assert(self@ =~= old(self)@.push((spec_fold(name@), value@)));
            assert forall|a: int, b: int| 0 <= a < b < self@.len() implies (#[trigger] self@[a]).0
                != (#[trigger] self@[b]).0 by {
                if b < self@.len() - 1 {
                    assert(old(self)@[a].0 != old(self)@[b].0);
                } else {
                    assert(self@[a].0 != folded@);
                }
            }
        }
        Ok(())
    }

    /// The value stored under a name, read through either spelling.
    pub fn get(&self, name: &Vec<u8>) -> (r: Option<Vec<u8>>)
        requires
            self.wf(),
        ensures
            r is Some <==> spec_lookup(self@, spec_fold(name@)) is Some,
            r matches Some(v) ==> spec_lookup(self@, spec_fold(name@)) == Some(v@),
    {
        let folded = fold_name(name);
        let n = self.entries.len();
        let mut i: usize = 0;
        while i < n
            invariant
                n == self.entries@.len(),
                folded@ =~= spec_fold(name@),
                i <= n,
                self.wf(),
                forall|j: int| 0 <= j < i ==> (#[trigger] self@[j]).0 != folded@,
            decreases n - i,
        {
            if bytes_eq(&self.entries[i].0, &folded) {
                proof {
                    assert(self@[i as int].0 == folded@);
                    assert(spec_has_name(self@, folded@));
                    lemma_first_match(self@, folded@);
                    assert(spec_first_match(self@, folded@) == i as int) by {
                        let fm = spec_first_match(self@, folded@);
                        if fm < i as int {
                            assert(self@[fm].0 != folded@);
                        }
                        if fm > i as int {
                            assert(self@[i as int].0 != folded@);
                        }
                    }
                }
                return Some(clone_bytes(&self.entries[i].1));
            }
            i = i + 1;
        }
        None
    }

    /// Whether the collection carries a name, through either spelling.
    pub fn has(&self, name: &Vec<u8>) -> (r: bool)
        requires
            self.wf(),
        ensures
            r == spec_has_name(self@, spec_fold(name@)),
    {
        let folded = fold_name(name);
        let n = self.entries.len();
        let mut i: usize = 0;
        while i < n
            invariant
                n == self.entries@.len(),
                folded@ =~= spec_fold(name@),
                i <= n,
                forall|j: int| 0 <= j < i ==> (#[trigger] self@[j]).0 != folded@,
            decreases n - i,
        {
            if bytes_eq(&self.entries[i].0, &folded) {
                proof {
                    assert(self@[i as int].0 == spec_fold(name@));
                    assert(spec_has_name(self@, spec_fold(name@)));
                }
                return true;
            }
            i = i + 1;
        }
        false
    }

    /// Removes the entry of a name, if present; other entries keep their
    /// order.  An unknown or malformed name leaves the collection as it is.
    pub fn delete(&mut self, name: &Vec<u8>)
        requires
            old(self).wf(),
        ensures
            final(self).wf(),
            final(self)@ =~= spec_delete_entry(old(self)@, spec_fold(name@)),
    {
        let folded = fold_name(name);
        let n = self.entries.len();
        let mut i: usize = 0;
        while i < n
            invariant
                n == self.entries@.len(),
                i <= n,
                *self == *old(self),
                old(self).wf(),
                folded@ =~= spec_fold(name@),
                forall|j: int| 0 <= j < i ==> (#[trigger] self@[j]).0 != folded@,
            decreases n - i,
        {
            if bytes_eq(&self.entries[i].0, &folded) {
                self.entries.remove(i);
                proof {
                    assert(old(self)@[i as int].0 == folded@);
                    assert(spec_has_name(old(self)@, folded@));
                    lemma_first_match(old(self)@, folded@);
                    assert(spec_first_match(old(self)@, folded@) == i as int) by {
                        let fm = spec_first_match(old(self)@, folded@);
                        if fm < i as int {
                            assert(old(self)@[fm].0 != folded@);
                        }
                        if fm > i as int {
                            assert(old(self)@[i as int].0 != folded@);
                        }
                    }
                    assert(self@ =~= old(self)@.remove(i as int));
                    assert forall|a: int, b: int| 0 <= a < b < self@.len() implies (
                    #[trigger] self@[a]).0 != (#[trigger] self@[b]).0 by {
                        let a0: int = if a < i as int {
                            a
                        } else {
                            a + 1
                        };
                        let b0: int = if b < i as int {
                            b
                        } else {
                            b + 1
                        };
                        assert(old(self)@[a0].0 != old(self)@[b0].0);
                    }
                }
                return ;
            }
            i = i + 1;
        }
    }

    /// The names, in insertion order.
    pub fn keys(&self) -> (r: Vec<Vec<u8>>)
        ensures
            r@.len() == self@.len(),
            forall|i: int| 0 <= i < r@.len() ==> (#[trigger] r@[i])@ == self@[i].0,
    {
        let mut out: Vec<Vec<u8>> = Vec::new();
        let n = self.entries.len();
        let mut i: usize = 0;
        while i < n
            invariant
                n == self.entries@.len(),
                i <= n,
                out@.len() == i,
                forall|j: int| 0 <= j < i ==> (#[trigger] out@[j])@ == self@[j].0,
            decreases n - i,
        {
            out.push(clone_bytes(&self.entries[i].0));
            i = i + 1;
        }
        out
    }

    /// The values, in insertion order.
    pub fn values(&self) -> (r: Vec<Vec<u8>>)
        ensures
            r@.len() == self@.len(),
            forall|i: int| 0 <= i < r@.len() ==> (#[trigger] r@[i])@ == self@[i].1,
    {
        let mut out: Vec<Vec<u8>> = Vec::new();
        let n = self.entries.len();
        let mut i: usize = 0;
        while i < n
            invariant
                n == self.entries@.len(),
                i <= n,
                out@.len() == i,
                forall|j: int| 0 <= j < i ==> (#[trigger] out@[j])@ == self@[j].1,
            decreases n - i,
        {
            out.push(clone_bytes(&self.entries[i].1));
            i = i + 1;
        }
        out
    }

    /// The pull-based `[name, value]` iterator over a snapshot of the
    /// entries, in insertion order.
    pub fn entries(&self) -> (it: HeaderEntries)
        ensures
            it.wf(),
            it.remaining() =~= self@,
    {
        let mut items: Vec<(Vec<u8>, Vec<u8>)> = Vec::new();
        let n = self.entries.len();
        let mut i: usize = 0;
        while i < n
            invariant
                n == self.entries@.len(),
                i <= n,
                items@.len() == i,
                forall|j: int|
                    0 <= j < i ==> ((#[trigger] items@[j]).0@ == self@[j].0 && items@[j].1@
                        == self@[j].1),
            decreases n - i,
        {
            let name = clone_bytes(&self.entries[i].0);
            let value = clone_bytes(&self.entries[i].1);
            items.push((name, value));
            i = i + 1;
        }
        let it = HeaderEntries { items, pos: 0 };
        proof {
            assert(it.remaining() =~= self@);
        }
        it
    }
}

/// The pull-based iterator handed out by `entries()`: each `next` call
/// yields one `[name, value]` pair until the snapshot is exhausted, as the
/// guest iterator protocol's `{done, value}` steps do.
pub struct HeaderEntries {
    pub items: Vec<(Vec<u8>, Vec<u8>)>,
    pub pos: usize,
}

impl HeaderEntries {
    /// The cursor never stands past the end of the snapshot.
    pub open spec fn wf(&self) -> bool {
        self.pos <= self.items@.len()
    }

    /// The pairs not yet handed out.
    pub open spec fn remaining(&self) -> Seq<(Seq<u8>, Seq<u8>)> {
        Seq::new(self.items@.len(), |i: int| (self.items@[i].0@, self.items@[i].1@)).skip(
            self.pos as int,
        )
    }

    /// One pull: the next pair and `done == false`, or `done == true` once
    /// the snapshot is exhausted.
    pub fn next(&mut self) -> (r: Option<(Vec<u8>, Vec<u8>)>)
        requires
            old(self).wf(),
        ensures
            final(self).wf(),
            old(self).remaining().len() == 0 ==> r is None && *final(self) == *old(self),
            old(self).remaining().len() > 0 ==> (r matches Some(p) && (p.0@, p.1@) == old(
                self,
            ).remaining()[0] && final(self).remaining() =~= old(self).remaining().drop_first()),
    {
        if self.pos < self.items.len() {
            let name = clone_bytes(&self.items[self.pos].0);
            let value = clone_bytes(&self.items[self.pos].1);
            self.pos = self.pos + 1;
            proof {
                assert((name@, value@) == old(self).remaining()[0]);
                assert(self.remaining() =~= old(self).remaining().drop_first());
            }
            Some((name, value))
        } else {
            None
        }
    }
}

/// Byte-for-byte equality of two byte strings.
pub fn bytes_eq(a: &Vec<u8>, b: &Vec<u8>) -> (r: bool)
    ensures
        r == (a@ == b@),
{
    if a.len() != b.len() {
        proof {
            assert(a@.len() != b@.len());
        }
        return false;
    }
    let n = a.len();
    let mut i: usize = 0;
    while i < n
        invariant
            n == a@.len(),
            n == b@.len(),
            i <= n,
            forall|j: int| 0 <= j < i ==> a@[j] == b@[j],
        decreases n - i,
    {
        if a[i] != b[i] {
            return false;
        }
        i = i + 1;
    }
    proof {
        assert(a@ =~= b@);
    }
    true
}

/// A fresh copy of a byte string.
pub fn clone_bytes(v: &Vec<u8>) -> (r: Vec<u8>)
    ensures
        r@ =~= v@,
{
    let mut out: Vec<u8> = Vec::new();
    let n = v.len();
    let mut i: usize = 0;
    while i < n
        invariant
            n == v@.len(),
            i <= n,
            out@ =~= v@.take(i as int),
        decreases n - i,
    {
        out.push(v[i]);
        i = i + 1;
    }
    out
}

/// A fresh copy of a list of byte-string pairs.
pub fn clone_pairs(pairs: &Vec<(Vec<u8>, Vec<u8>)>) -> (r: Vec<(Vec<u8>, Vec<u8>)>)
    ensures
        spec_pairs_view(r@) =~= spec_pairs_view(pairs@),
        r@.len() == pairs@.len(),
{
    let mut out: Vec<(Vec<u8>, Vec<u8>)> = Vec::new();
    let n = pairs.len();
    let mut i: usize = 0;
    while i < n
        invariant
            n == pairs@.len(),
            i <= n,
            out@.len() == i,
            forall|j: int|
                0 <= j < i ==> ((#[trigger] out@[j]).0@ == pairs@[j].0@ && out@[j].1@
                    == pairs@[j].1@),
        decreases n - i,
    {
        let name = clone_bytes(&pairs[i].0);
        let value = clone_bytes(&pairs[i].1);
        out.push((name, value));
        i = i + 1;
    }
    proof {
        assert(spec_pairs_view(out@) =~= spec_pairs_view(pairs@));
    }
    out
}

/// Executable lower-case folding of a name.
pub fn fold_name(name: &Vec<u8>) -> (r: Vec<u8>)
    ensures
        r@ =~= spec_fold(name@),
{
    let mut out: Vec<u8> = Vec::new();
    let n = name.len();
    let mut i: usize = 0;
    while i < n
        invariant
            n == name@.len(),
            i <= n,
            out@.len() == i,
            forall|j: int| 0 <= j < i ==> out@[j] == spec_fold_byte(name@[j]),
        decreases n - i,
    {
        let b = name[i];
        if b >= 65 && b <= 90 {
            out.push(b + 32);
        } else {
            out.push(b);
        }
        i = i + 1;
    }
    out
}

/// Executable check that a name is non-empty and token-safe.
pub fn name_ok(name: &Vec<u8>) -> (r: bool)
    ensures
        r == spec_name_ok(name@),
{
    if name.len() == 0 {
        return false;
    }
    let n = name.len();
    let mut i: usize = 0;
    while i < n
        invariant
            n == name@.len(),
            i <= n,
            forall|j: int| 0 <= j < i ==> is_guest_name_byte(#[trigger] name@[j]),
        decreases n - i,
    {
        let b = name[i];
        let ok = (b >= 97 && b <= 122) || (b >= 65 && b <= 90) || (b >= 48 && b <= 57) || b == 33
            || b == 35 || b == 36 || b == 37 || b == 38 || b == 39 || b == 42 || b == 43 || b == 45
            || b == 46 || b == 94 || b == 95 || b == 96 || b == 124 || b == 126;
        if !ok {
            return false;
        }
        i = i + 1;
    }
    true
}

} // verus!
