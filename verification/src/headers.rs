//! An ordered list of header fields, as a request or a response carries
//! them.
//!
//! Field names are compared without regard to the case of ASCII letters;
//! values are compared exactly. A name may occur more than once; a lookup
//! finds its first occurrence.

use crate::text::{eq_ignore_ascii_case, same_ignoring_ascii_case};
use vstd::prelude::*;

verus! {

/// A header list as a sequence of `(name, value)` pairs.
pub type HeaderSeq = Seq<(Seq<char>, Seq<char>)>;

/// The value of the first field of `h` that is named `name`.
pub open spec fn first_value(h: HeaderSeq, name: Seq<char>) -> Option<Seq<char>>
    decreases h.len(),
{
    if h.len() == 0 {
        None
    } else if same_ignoring_ascii_case(h[0].0, name) {
        Some(h[0].1)
    } else {
        first_value(h.drop_first(), name)
    }
}

/// The test that keeps every field but those named `name`.
pub open spec fn not_named(name: Seq<char>) -> spec_fn((Seq<char>, Seq<char>)) -> bool {
    |e: (Seq<char>, Seq<char>)| !same_ignoring_ascii_case(e.0, name)
}

/// `h` without the fields named `name`.
pub open spec fn without(h: HeaderSeq, name: Seq<char>) -> HeaderSeq {
    h.filter(not_named(name))
}

/// `h` with the single field `name: value` in place of every field of that
/// name; the new field stands last.
pub open spec fn with_field(h: HeaderSeq, name: Seq<char>, value: Seq<char>) -> HeaderSeq {
    without(h, name).push((name, value))
}

/// A lookup skips a prefix in which no field has the name.
pub proof fn lemma_first_value_skip(h: HeaderSeq, name: Seq<char>, n: int)
    requires
        0 <= n <= h.len(),
        forall|j: int| 0 <= j < n ==> !same_ignoring_ascii_case(#[trigger] h[j].0, name),
    ensures
        first_value(h, name) == first_value(h.skip(n), name),
    decreases n,
{
    if n == 0 {
        assert(h.skip(0) == h);
    } else {
        let t = h.drop_first();
        assert forall|j: int| 0 <= j < n - 1 implies !same_ignoring_ascii_case(
            #[trigger] t[j].0,
            name,
        ) by {
            assert(t[j] == h[j + 1]);
        }
        lemma_first_value_skip(t, name, n - 1);
        assert(t.skip(n - 1) == h.skip(n));
    }
}

/// A lookup finds a value exactly when some field has the name.
pub proof fn law_lookup_found(h: HeaderSeq, name: Seq<char>)
    ensures
        first_value(h, name) is Some <==> exists|i: int|
            0 <= i < h.len() && same_ignoring_ascii_case(#[trigger] h[i].0, name),
    decreases h.len(),
{
    if h.len() == 0 {
    } else if same_ignoring_ascii_case(h[0].0, name) {
    } else {
        let t = h.drop_first();
        law_lookup_found(t, name);
        if first_value(t, name) is Some {
            let i = choose|i: int|
                0 <= i < t.len() && same_ignoring_ascii_case(#[trigger] t[i].0, name);
            assert(h[i + 1] == t[i]);
        }
        if exists|i: int| 0 <= i < h.len() && same_ignoring_ascii_case(#[trigger] h[i].0, name) {
            let i = choose|i: int|
                0 <= i < h.len() && same_ignoring_ascii_case(#[trigger] h[i].0, name);
            assert(t[i - 1] == h[i]);
        }
    }
}

/// Two names that both equal a third up to case equal each other up to
/// case.
pub proof fn lemma_same_name(a: Seq<char>, b: Seq<char>, c: Seq<char>)
    requires
        same_ignoring_ascii_case(c, a),
        same_ignoring_ascii_case(c, b),
    ensures
        same_ignoring_ascii_case(a, b),
{
    assert forall|i: int| 0 <= i < a.len() implies crate::text::lower_code(#[trigger] a[i])
        == crate::text::lower_code(b[i]) by {
        assert(crate::text::lower_code(c[i]) == crate::text::lower_code(a[i]));
        assert(crate::text::lower_code(c[i]) == crate::text::lower_code(b[i]));
    }
}

/// A lookup in a list that ends with a field: the field's value where
/// nothing before it has the name and the field has it.
pub proof fn lemma_first_value_push(h: HeaderSeq, field: (Seq<char>, Seq<char>), name: Seq<char>)
    ensures
        first_value(h.push(field), name) == match first_value(h, name) {
            Some(v) => Some(v),
            None => if same_ignoring_ascii_case(field.0, name) {
                Some(field.1)
            } else {
                None
            },
        },
    decreases h.len(),
{
    if h.len() == 0 {
        assert(h.push(field).drop_first() =~= h);
        assert(h.push(field)[0] == field);
    } else {
        assert(h.push(field)[0] == h[0]);
        assert(h.push(field).drop_first() =~= h.drop_first().push(field));
        if !same_ignoring_ascii_case(h[0].0, name) {
            lemma_first_value_push(h.drop_first(), field, name);
        }
    }
}

/// Leaving out the fields named `name` leaves the lookup of any other
/// name as it was, and leaves none of that name.
pub proof fn lemma_first_value_without(h: HeaderSeq, name: Seq<char>, other: Seq<char>)
    ensures
        first_value(without(h, name), name) is None,
        !same_ignoring_ascii_case(name, other) ==> first_value(without(h, name), other)
            == first_value(h, other),
    decreases h.len(),
{
    reveal(Seq::filter);
    if h.len() == 0 {
    } else {
        let front = h.drop_last();
        let last = h.last();
        lemma_first_value_without(front, name, other);
        assert(front.push(last) =~= h);
        lemma_first_value_push(front, last, other);
        lemma_first_value_push(front, last, name);
        if not_named(name)(last) {
            assert(without(h, name) == without(front, name).push(last));
            lemma_first_value_push(without(front, name), last, other);
            lemma_first_value_push(without(front, name), last, name);
        } else {
            assert(without(h, name) == without(front, name));
            if same_ignoring_ascii_case(last.0, other) {
                lemma_same_name(name, other, last.0);
            }
        }
    }
}

/// After a field was set, a lookup of its name finds the value that was
/// set, and the lookup of any other name finds what it found before.
pub proof fn law_set_field(h: HeaderSeq, name: Seq<char>, value: Seq<char>, other: Seq<char>)
    ensures
        first_value(with_field(h, name, value), name) == Some(value),
        !same_ignoring_ascii_case(name, other) ==> first_value(with_field(h, name, value), other)
            == first_value(h, other),
{
    lemma_first_value_without(h, name, other);
    lemma_first_value_push(without(h, name), (name, value), name);
    lemma_first_value_push(without(h, name), (name, value), other);
    assert(same_ignoring_ascii_case(name, name));
}

/// One header field.
#[derive(Debug)]
pub struct Header {
    pub name: String,
    pub value: String,
}

/// An ordered list of header fields.
#[derive(Debug)]
pub struct Headers {
    pub entries: Vec<Header>,
}

impl View for Headers {
    type V = HeaderSeq;

    open spec fn view(&self) -> HeaderSeq {
        Seq::new(self.entries@.len(), |i: int| (self.entries@[i].name@, self.entries@[i].value@))
    }
}

impl Headers {
    /// An empty list.
    pub fn new() -> (h: Self)
        ensures
            h@ == HeaderSeq::empty(),
    {
        let h = Headers { entries: Vec::new() };
        assert(h@ =~= HeaderSeq::empty());
        h
    }

    /// The number of fields.
    pub fn len(&self) -> (n: usize)
        ensures
            n == self@.len(),
    {
        self.entries.len()
    }

    /// Adds a field at the end, beside any other of its name.
    pub fn append(&mut self, name: String, value: String)
        ensures
            final(self)@ == old(self)@.push((name@, value@)),
    {
        self.entries.push(Header { name, value });
        assert(self@ =~= old(self)@.push((name@, value@)));
    }

    /// The value of the first field named `name`.
    pub fn get(&self, name: &str) -> (r: Option<&String>)
        ensures
            match r {
                Some(v) => first_value(self@, name@) == Some(v@),
                None => first_value(self@, name@) is None,
            },
    {
        let mut i: usize = 0;
        while i < self.entries.len()
            invariant
                i <= self.entries.len(),
                forall|j: int| 0 <= j < i ==> !same_ignoring_ascii_case(#[trigger] self@[j].0, name@),
            decreases self.entries.len() - i,
        {
            if eq_ignore_ascii_case(self.entries[i].name.as_str(), name) {
                proof {
                    lemma_first_value_skip(self@, name@, i as int);
                    assert(self@.skip(i as int)[0] == self@[i as int]);
                }
                return Some(&self.entries[i].value);
            }
            i += 1;
        }
        proof {
            lemma_first_value_skip(self@, name@, i as int);
            assert(self@.skip(i as int).len() == 0);
        }
        None
    }

    /// Puts the single field `name: value` in place of every field of that
    /// name.
    pub fn set(&mut self, name: String, value: String)
        ensures
            final(self)@ == with_field(old(self)@, name@, value@),
    {
        let mut previous: Vec<Header> = Vec::new();
        core::mem::swap(&mut self.entries, &mut previous);
        let ghost before = old(self)@;
        let ghost keep = not_named(name@);
        proof {
            reveal(Seq::filter);
        }
        assert(self@ =~= before.take(0).filter(keep));
        for field in it: previous
            invariant
                it.seq().len() == before.len(),
                forall|j: int|
                    0 <= j < before.len() ==> before[j] == ((#[trigger] it.seq()[j]).name@, it.seq()[j].value@),
                keep == not_named(name@),
                self@ == before.take(it.index()).filter(keep),
        {
            let ghost i = it.index();
            let ghost kept = self@;
            proof {
                assert(before.take(i + 1).drop_last() =~= before.take(i));
                assert(before.take(i + 1).last() == before[i]);
                assert(before[i] == (field.name@, field.value@));
            }
            let ghost next = before.take(i + 1);
            proof {
                reveal(Seq::filter);
            }
            assert(keep(before[i]) == !same_ignoring_ascii_case(field.name@, name@));
            if !eq_ignore_ascii_case(field.name.as_str(), name.as_str()) {
                self.entries.push(field);
                assert(self@ =~= kept.push(before[i]));
                assert(next.filter(keep) == next.drop_last().filter(keep).push(next.last()));
            } else {
                assert(next.filter(keep) == next.drop_last().filter(keep));
            }
        }
        assert(before.take(before.len() as int) =~= before);
        let ghost kept = self@;
        self.entries.push(Header { name, value });
        assert(self@ =~= kept.push((name@, value@)));
    }

    /// The name of the field at position `i`.
    pub fn name_at(&self, i: usize) -> (r: &String)
        requires
            i < self@.len(),
        ensures
            r@ == self@[i as int].0,
    {
        &self.entries[i].name
    }

    /// The value of the field at position `i`.
    pub fn value_at(&self, i: usize) -> (r: &String)
        requires
            i < self@.len(),
        ensures
            r@ == self@[i as int].1,
    {
        &self.entries[i].value
    }
}

} // verus!
