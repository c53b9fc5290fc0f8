//! A map from text keys to text values that hands its entries out in key
//! order: the order of `str`, lexicographic by code point.

use vstd::prelude::*;
use crate::text::chars_of;

verus! {

/// `a` comes before `b` in the order of `str`: lexicographic by code point,
/// a proper prefix first.
pub open spec fn text_lt(a: Seq<char>, b: Seq<char>) -> bool
    decreases a.len(),
{
    if b.len() == 0 {
        false
    } else if a.len() == 0 {
        true
    } else if a[0] != b[0] {
        a[0] < b[0]
    } else {
        text_lt(a.drop_first(), b.drop_first())
    }
}

/// No text comes before itself.
pub proof fn lemma_text_lt_irreflexive(a: Seq<char>)
    ensures
        !text_lt(a, a),
    decreases a.len(),
{
    if a.len() > 0 {
        lemma_text_lt_irreflexive(a.drop_first());
    }
}

/// The order of text is transitive.
pub proof fn lemma_text_lt_transitive(a: Seq<char>, b: Seq<char>, c: Seq<char>)
    requires
        text_lt(a, b),
        text_lt(b, c),
    ensures
        text_lt(a, c),
    decreases a.len(),
{
    if a.len() > 0 && a[0] == b[0] && b[0] == c[0] {
        lemma_text_lt_transitive(a.drop_first(), b.drop_first(), c.drop_first());
    }
}

/// Of two different texts, one comes before the other.
pub proof fn lemma_text_lt_total(a: Seq<char>, b: Seq<char>)
    ensures
        a == b || text_lt(a, b) || text_lt(b, a),
    decreases a.len(),
{
    if a.len() > 0 && b.len() > 0 && a[0] == b[0] {
        lemma_text_lt_total(a.drop_first(), b.drop_first());
        if a.drop_first() == b.drop_first() {
            assert forall|i: int| 0 <= i < a.len() implies a[i] == b[i] by {
                if i > 0 {
                    assert(a[i] == a.drop_first()[i - 1]);
                    assert(b[i] == b.drop_first()[i - 1]);
                }
            }
            assert(a =~= b);
        }
    } else if a.len() == 0 && b.len() == 0 {
        assert(a =~= b);
    }
}

/// Of two texts, at most one comes before the other.
pub proof fn lemma_text_lt_asymmetric(a: Seq<char>, b: Seq<char>)
    requires
        text_lt(a, b),
    ensures
        !text_lt(b, a),
{
    if text_lt(b, a) {
        lemma_text_lt_transitive(a, b, a);
        lemma_text_lt_irreflexive(a);
    }
}

/// Whether `a` comes before `b` in the order of `str`.
pub fn text_less(a: &str, b: &str) -> (r: bool)
    ensures
        r == text_lt(a@, b@),
{
    let x = chars_of(a);
    let y = chars_of(b);
    let mut i: usize = 0;
    assert(x@.skip(0) == x@ && y@.skip(0) == y@);
    while i < x.len() && i < y.len() && x[i] == y[i]
        invariant
            i <= x@.len(),
            i <= y@.len(),
            x@ == a@,
            y@ == b@,
            text_lt(a@, b@) == text_lt(x@.skip(i as int), y@.skip(i as int)),
        decreases x.len() - i,
    {
        assert(x@.skip(i as int).drop_first() == x@.skip(i + 1));
        assert(y@.skip(i as int).drop_first() == y@.skip(i + 1));
        i = i + 1;
    }
    if i == y.len() {
        false
    } else if i == x.len() {
        true
    } else {
        assert(x@.skip(i as int)[0] == x@[i as int]);
        assert(y@.skip(i as int)[0] == y@[i as int]);
        x[i] < y[i]
    }
}

/// The keys of the entries strictly increase.
pub open spec fn keys_increasing(s: Seq<(Seq<char>, Seq<char>)>) -> bool {
    forall|i: int, j: int| 0 <= i < j < s.len() ==> text_lt(#[trigger] s[i].0, #[trigger] s[j].0)
}

/// The entries after setting `key` to `value`: the entry of the key is
/// replaced, or a new entry goes where the key order puts it.
pub open spec fn sorted_insert(s: Seq<(Seq<char>, Seq<char>)>, key: Seq<char>, value: Seq<char>) -> Seq<
    (Seq<char>, Seq<char>),
>
    decreases s.len(),
{
    if s.len() == 0 {
        seq![(key, value)]
    } else if s[0].0 == key {
        seq![(key, value)] + s.drop_first()
    } else if text_lt(key, s[0].0) {
        seq![(key, value)] + s
    } else {
        seq![s[0]] + sorted_insert(s.drop_first(), key, value)
    }
}

/// The value of a key among entries, if it has one.
pub open spec fn entry_value(s: Seq<(Seq<char>, Seq<char>)>, key: Seq<char>) -> Option<Seq<char>>
    decreases s.len(),
{
    if s.len() == 0 {
        None
    } else if s[0].0 == key {
        Some(s[0].1)
    } else {
        entry_value(s.drop_first(), key)
    }
}

/// Where the insertion lands: before the first key that does not come
/// before the new key, replacing it when it is the new key.
proof fn lemma_sorted_insert_at(
    s: Seq<(Seq<char>, Seq<char>)>,
    key: Seq<char>,
    value: Seq<char>,
    p: int,
)
    requires
        0 <= p <= s.len(),
        forall|j: int| 0 <= j < p ==> text_lt(#[trigger] s[j].0, key),
        p < s.len() ==> !text_lt(s[p].0, key),
    ensures
        p < s.len() && s[p].0 == key ==> sorted_insert(s, key, value) == s.take(p) + seq![
            (key, value),
        ] + s.skip(p + 1),
        !(p < s.len() && s[p].0 == key) ==> sorted_insert(s, key, value) == s.take(p) + seq![
            (key, value),
        ] + s.skip(p),
    decreases p,
{
    if p == 0 {
        assert(s.take(0) + seq![(key, value)] + s.skip(0) == seq![(key, value)] + s);
        if s.len() > 0 {
            assert(s.take(0) + seq![(key, value)] + s.skip(1) == seq![(key, value)] + s.drop_first());
            if s[0].0 != key {
                lemma_text_lt_total(s[0].0, key);
            }
        }
    } else {
        let t = s.drop_first();
        assert(text_lt(s[0].0, key));
        lemma_text_lt_irreflexive(key);
        lemma_text_lt_asymmetric(s[0].0, key);
        assert forall|j: int| 0 <= j < p - 1 implies text_lt(#[trigger] t[j].0, key) by {
            assert(t[j] == s[j + 1]);
        }
        lemma_sorted_insert_at(t, key, value, p - 1);
        if p < s.len() && s[p].0 == key {
            assert(seq![s[0]] + (t.take(p - 1) + seq![(key, value)] + t.skip(p)) == s.take(p)
                + seq![(key, value)] + s.skip(p + 1));
        } else {
            assert(seq![s[0]] + (t.take(p - 1) + seq![(key, value)] + t.skip(p - 1)) == s.take(p)
                + seq![(key, value)] + s.skip(p));
        }
    }
}

/// Inserting into entries with increasing keys keeps the keys increasing.
pub proof fn lemma_sorted_insert_increasing(
    s: Seq<(Seq<char>, Seq<char>)>,
    key: Seq<char>,
    value: Seq<char>,
)
    requires
        keys_increasing(s),
    ensures
        keys_increasing(sorted_insert(s, key, value)),
    decreases s.len(),
{
    if s.len() > 0 && s[0].0 != key && !text_lt(key, s[0].0) {
        let t = s.drop_first();
        assert(keys_increasing(t)) by {
            assert forall|i: int, j: int| 0 <= i < j < t.len() implies text_lt(
                #[trigger] t[i].0,
                #[trigger] t[j].0,
            ) by {
                assert(t[i] == s[i + 1] && t[j] == s[j + 1]);
            }
        }
        lemma_sorted_insert_increasing(t, key, value);
        lemma_text_lt_total(s[0].0, key);
        let r = sorted_insert(s, key, value);
        let u = sorted_insert(t, key, value);
        lemma_sorted_insert_keys(t, key, value);
        assert forall|i: int, j: int| 0 <= i < j < r.len() implies text_lt(
            #[trigger] r[i].0,
            #[trigger] r[j].0,
        ) by {
            if i == 0 {
                assert(r[j] == u[j - 1]);
                if u[j - 1].0 != key {
                    let m = choose|m: int| 0 <= m < t.len() && t[m].0 == u[j - 1].0;
                    assert(s[m + 1] == t[m]);
                } 
            } else {
                assert(r[i] == u[i - 1] && r[j] == u[j - 1]);
            }
        }
    } else if s.len() > 0 && s[0].0 == key {
        let r = sorted_insert(s, key, value);
        assert forall|i: int, j: int| 0 <= i < j < r.len() implies text_lt(
            #[trigger] r[i].0,
            #[trigger] r[j].0,
        ) by {
            if i == 0 {
                assert(r[j] == s[j]);
            } else {
                assert(r[i] == s[i] && r[j] == s[j]);
            }
        }
    } else if s.len() > 0 {
        let r = sorted_insert(s, key, value);
        assert forall|i: int, j: int| 0 <= i < j < r.len() implies text_lt(
            #[trigger] r[i].0,
            #[trigger] r[j].0,
        ) by {
            if i == 0 {
                assert(r[j] == s[j - 1]);
                if j > 1 {
                    lemma_text_lt_transitive(key, s[0].0, s[j - 1].0);
                }
            } else {
                assert(r[i] == s[i - 1] && r[j] == s[j - 1]);
            }
        }
    }
}

/// The keys after an insertion are the new key and the keys before it.
proof fn lemma_sorted_insert_keys(s: Seq<(Seq<char>, Seq<char>)>, key: Seq<char>, value: Seq<char>)
    ensures
        forall|i: int|
            0 <= i < sorted_insert(s, key, value).len() ==> #[trigger] sorted_insert(
                s,
                key,
                value,
            )[i].0 == key || exists|m: int| 0 <= m < s.len() && s[m].0 == sorted_insert(
                s,
                key,
                value,
            )[i].0,
    decreases s.len(),
{
    let r = sorted_insert(s, key, value);
    if s.len() == 0 {
    } else if s[0].0 == key {
        assert forall|i: int| 0 <= i < r.len() implies #[trigger] r[i].0 == key || exists|m: int|
            0 <= m < s.len() && s[m].0 == r[i].0 by {
            if i > 0 {
                assert(r[i] == s[i]);
            }
        }
    } else if text_lt(key, s[0].0) {
        assert forall|i: int| 0 <= i < r.len() implies #[trigger] r[i].0 == key || exists|m: int|
            0 <= m < s.len() && s[m].0 == r[i].0 by {
            if i > 0 {
                assert(r[i] == s[i - 1]);
            }
        }
    } else {
        let t = s.drop_first();
        let u = sorted_insert(t, key, value);
        lemma_sorted_insert_keys(t, key, value);
        assert forall|i: int| 0 <= i < r.len() implies #[trigger] r[i].0 == key || exists|m: int|
            0 <= m < s.len() && s[m].0 == r[i].0 by {
            if i == 0 {
                assert(s[0].0 == r[0].0);
            } else {
                assert(r[i] == u[i - 1]);
                if u[i - 1].0 != key {
                    let m = choose|m: int| 0 <= m < t.len() && t[m].0 == u[i - 1].0;
                    assert(s[m + 1] == t[m]);
                }
            }
        }
    }
}

/// A key reads back the value last set for it.
pub proof fn lemma_get_after_insert(s: Seq<(Seq<char>, Seq<char>)>, key: Seq<char>, value: Seq<char>)
    ensures
        entry_value(sorted_insert(s, key, value), key) == Some(value),
    decreases s.len(),
{
    let r = sorted_insert(s, key, value);
    if s.len() == 0 {
    } else if s[0].0 == key {
        assert(r[0] == (key, value));
    } else if text_lt(key, s[0].0) {
        assert(r[0] == (key, value));
    } else {
        let t = s.drop_first();
        lemma_get_after_insert(t, key, value);
        assert(r[0] == s[0]);
        assert(r.drop_first() =~= sorted_insert(t, key, value));
    }
}

/// Setting a key leaves the values of the other keys as they were.
pub proof fn lemma_insert_keeps_other_keys(
    s: Seq<(Seq<char>, Seq<char>)>,
    key: Seq<char>,
    value: Seq<char>,
    other: Seq<char>,
)
    requires
        other != key,
    ensures
        entry_value(sorted_insert(s, key, value), other) == entry_value(s, other),
    decreases s.len(),
{
    let r = sorted_insert(s, key, value);
    if s.len() == 0 {
        assert(r[0] == (key, value));
        assert(r.drop_first() =~= Seq::<(Seq<char>, Seq<char>)>::empty());
        assert(entry_value(r.drop_first(), other) == None::<Seq<char>>);
    } else if s[0].0 == key {
        assert(r[0] == (key, value));
        assert(r.drop_first() =~= s.drop_first());
        assert(entry_value(r, other) == entry_value(r.drop_first(), other));
    } else if text_lt(key, s[0].0) {
        assert(r[0] == (key, value));
        assert(r.drop_first() =~= s);
        assert(entry_value(r, other) == entry_value(r.drop_first(), other));
    } else {
        let t = s.drop_first();
        lemma_insert_keeps_other_keys(t, key, value, other);
        assert(r[0] == s[0]);
        assert(r.drop_first() =~= sorted_insert(t, key, value));
    }
}

/// The plain values of text entries.
pub open spec fn entries_view(v: Seq<(String, String)>) -> Seq<(Seq<char>, Seq<char>)> {
    v.map_values(|e: (String, String)| (e.0@, e.1@))
}

/// Text keys mapped to text values, kept in key order.
#[derive(Debug)]
pub struct TextMap {
    entries: Vec<(String, String)>,
}

impl View for TextMap {
    type V = Seq<(Seq<char>, Seq<char>)>;

    closed spec fn view(&self) -> Seq<(Seq<char>, Seq<char>)> {
        entries_view(self.entries@)
    }
}

impl TextMap {
    #[verifier::type_invariant]
    spec fn keys_in_order(&self) -> bool {
        keys_increasing(entries_view(self.entries@))
    }

    /// An empty map.
    pub fn new() -> (r: Self)
        ensures
            r@ == Seq::<(Seq<char>, Seq<char>)>::empty(),
    {
        let r = TextMap { entries: Vec::new() };
        assert(entries_view(r.entries@) =~= Seq::<(Seq<char>, Seq<char>)>::empty());
        r
    }

    /// A copy of the map.
    pub fn duplicate(&self) -> (r: Self)
        ensures
            r@ == self@,
    {
        proof {
            use_type_invariant(self);
        }
        let mut entries: Vec<(String, String)> = Vec::new();
        let mut i: usize = 0;
        while i < self.entries.len()
            invariant
                i <= self.entries@.len(),
                entries_view(entries@) == entries_view(self.entries@).take(i as int),
            decreases self.entries.len() - i,
        {
            let e = (self.entries[i].0.clone(), self.entries[i].1.clone());
            let ghost prev = entries@;
            entries.push(e);
            assert(entries_view(entries@) =~= entries_view(prev).push((e.0@, e.1@)));
            assert(entries_view(self.entries@).take(i + 1) =~= entries_view(self.entries@).take(
                i as int,
            ).push((e.0@, e.1@)));
            i = i + 1;
        }
        assert(entries_view(self.entries@).take(self.entries@.len() as int) == entries_view(
            self.entries@,
        ));
        TextMap { entries }
    }

    /// The number of entries.
    pub fn len(&self) -> (r: usize)
        ensures
            r == self@.len(),
    {
        self.entries.len()
    }

    /// The entries, in key order.
    pub fn entries(&self) -> (r: &Vec<(String, String)>)
        ensures
            entries_view(r@) == self@,
            keys_increasing(self@),
    {
        proof {
            use_type_invariant(self);
        }
        &self.entries
    }

    /// Sets the value of a key.
    pub fn insert(&mut self, key: &str, value: &str)
        ensures
            final(self)@ == sorted_insert(old(self)@, key@, value@),
    {
        proof {
            use_type_invariant(&*self);
        }
        let ghost s = self@;
        let mut p: usize = 0;
        while p < self.entries.len() && text_less(self.entries[p].0.as_str(), key)
            invariant
                s == entries_view(self.entries@),
                p <= s.len(),
                forall|j: int| 0 <= j < p ==> text_lt(#[trigger] s[j].0, key@),
            decreases self.entries.len() - p,
        {
            p = p + 1;
        }
        proof {
            lemma_sorted_insert_at(s, key@, value@, p as int);
            lemma_sorted_insert_increasing(s, key@, value@);
        }
        let entry = (key.to_owned(), value.to_owned());
        let mut entries: Vec<(String, String)> = Vec::new();
        std::mem::swap(&mut entries, &mut self.entries);
        if p < entries.len() && entries[p].0 == entry.0 {
            entries.remove(p);
        }
        let ghost before = entries@;
        entries.insert(p, entry);
        assert(entries_view(entries@) =~= sorted_insert(s, key@, value@));
        self.entries = entries;
    }

    /// The value of a key, if it has one.
    pub fn get(&self, key: &str) -> (r: Option<&String>)
        ensures
            match entry_value(self@, key@) {
                Some(v) => r matches Some(x) && x@ == v,
                None => r is None,
            },
    {
        let ghost s = self@;
        let wanted = key.to_owned();
        let mut i: usize = 0;
        assert(s.skip(0) == s);
        while i < self.entries.len()
            invariant
                s == entries_view(self.entries@),
                wanted@ == key@,
                i <= s.len(),
                entry_value(s, key@) == entry_value(s.skip(i as int), key@),
            decreases self.entries.len() - i,
        {
            assert(s.skip(i as int)[0] == s[i as int]);
            assert(s.skip(i as int).drop_first() == s.skip(i + 1));
            if self.entries[i].0 == wanted {
                return Some(&self.entries[i].1);
            }
            i = i + 1;
        }
        None
    }
}

} // verus!
