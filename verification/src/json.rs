//! A JSON document model: what the services read from request bodies and
//! keep in their configuration, held as plain values.

use vstd::prelude::*;
use vstd::arithmetic::power2::{pow2, lemma_pow2_unfold, lemma_pow2_pos, lemma_pow2_adds, lemma_pow2_strictly_increases};
use crate::text::str_eq;

verus! {

/// A JSON number, held as what the services compare it by.
///
/// `order_key` is the number's value as a double mapped onto `i64` so that
/// the integer order is the numeric order of the doubles (it stands for the
/// `f64` that `as_f64` gives). `unsigned` is the value when the number is a
/// non-negative integer that fits in `u64` (what `as_u64` gives), and
/// `signed` the value when it is an integer that fits in `i64` (`as_i64`).
#[derive(Clone, Copy, Debug, PartialEq, Eq)]
pub struct JsonNumber {
    pub order_key: i64,
    pub unsigned: Option<u64>,
    pub signed: Option<i64>,
}

/// The exponent of the highest power of two not above `n`.
pub open spec fn log2_floor(n: nat) -> nat
    decreases n,
{
    if n < 2 {
        0
    } else {
        1 + log2_floor(n / 2)
    }
}

/// `n / d` rounded to the nearest integer, ties to the even one.
pub open spec fn div_round_half_even(n: nat, d: nat) -> nat {
    let q = n / d;
    let r = n % d;
    if 2 * r > d || (2 * r == d && q % 2 == 1) {
        q + 1
    } else {
        q
    }
}

/// The order key of the double nearest to `n` (ties to even): the bit
/// pattern of that double, which for non-negative doubles orders as they do.
pub open spec fn nat_double_key(n: nat) -> int {
    if n == 0 {
        0
    } else {
        let e = log2_floor(n);
        if e <= 52 {
            (1023 + e) * pow2(52) + (n - pow2(e)) * pow2((52 - e) as nat)
        } else {
            let m = div_round_half_even(n, pow2((e - 52) as nat));
            if m == pow2(53) {
                ((1024 + e) * pow2(52)) as int
            } else {
                (1023 + e) * pow2(52) + (m - pow2(52))
            }
        }
    }
}

/// The order key of the double nearest to the integer `v`: negative doubles
/// have the negated key of their magnitude.
pub open spec fn int_double_key(v: int) -> int {
    if v >= 0 {
        nat_double_key(v as nat)
    } else {
        -nat_double_key((-v) as nat)
    }
}

proof fn lemma_log2_floor_bounds(n: nat, e: nat)
    requires
        pow2(e) <= n < pow2(e + 1),
    ensures
        log2_floor(n) == e,
    decreases e,
{
    lemma_pow2_unfold(e + 1);
    lemma_pow2_pos(e);
    if e > 0 {
        lemma_pow2_unfold(e);
        lemma_log2_floor_bounds(n / 2, (e - 1) as nat);
    } else {
        assert(pow2(0) == 1) by {
            vstd::arithmetic::power2::lemma2_to64();
        }
    }
}

/// The order key of the double nearest to `n`.
pub fn u64_double_key(n: u64) -> (k: i64)
    ensures
        k as int == nat_double_key(n as nat),
        k >= 0,
{
    if n == 0 {
        return 0;
    }
    proof {
        vstd::arithmetic::power2::lemma2_to64();
        vstd::arithmetic::power2::lemma2_to64_rest();
    }
    let mut e: u64 = 0;
    let mut p: u64 = 1;
    while p <= n / 2
        invariant
            1 <= p <= n,
            p as nat == pow2(e as nat),
            e < 64,
            pow2(64) == 0x1_0000_0000_0000_0000,
        decreases n - p,
    {
        proof {
            lemma_pow2_unfold((e + 1) as nat);
            if e + 1 > 64 {
                lemma_pow2_strictly_increases(64, (e + 1) as nat);
            }
        }
        p = p * 2;
        e = e + 1;
    }
    proof {
        lemma_pow2_unfold((e + 1) as nat);
        lemma_log2_floor_bounds(n as nat, e as nat);
    }
    let two52: u64 = 0x10_0000_0000_0000;
    if e <= 52 {
        let mut scale: u64 = 1;
        let mut k: u64 = 0;
        while k < 52 - e
            invariant
                k <= 52 - e,
                scale as nat == pow2(k as nat),
                e <= 52,
                pow2(52) == 0x10_0000_0000_0000,
            decreases 52 - e - k,
        {
            proof {
                lemma_pow2_unfold((k + 1) as nat);
                if k + 1 < 52 {
                    lemma_pow2_strictly_increases((k + 1) as nat, 52);
                }
            }
            scale = scale * 2;
            k = k + 1;
        }
        proof {
            lemma_pow2_adds(e as nat, (52 - e) as nat);
            assert(p * scale == two52);
            lemma_pow2_pos(k as nat);
            assert((n - p) * scale < two52) by (nonlinear_arith)
                requires
                    n < 2 * p,
                    p * scale == two52,
                    p <= n,
                    scale >= 1,
            {
            }
        }
        let r = (1023 + e) * two52 + (n - p) * scale;
        r as i64
    } else {
        let mut d: u64 = 1;
        let mut k: u64 = 0;
        while k < e - 52
            invariant
                k <= e - 52,
                52 < e < 64,
                d as nat == pow2(k as nat),
                pow2(11) == 2048,
            decreases e - 52 - k,
        {
            proof {
                lemma_pow2_unfold((k + 1) as nat);
                if k + 1 < 11 {
                    lemma_pow2_strictly_increases((k + 1) as nat, 11);
                }
            }
            d = d * 2;
            k = k + 1;
        }
        let q = n / d;
        let r = n % d;
        proof {
            lemma_pow2_adds(52, (e - 52) as nat);
            assert(p == two52 * d);
            assert(q < two52 * 2) by (nonlinear_arith)
                requires
                    n < 2 * p,
                    p == two52 * d,
                    q == n / d,
                    d >= 1,
            {
            }
            assert(q >= two52) by (nonlinear_arith)
                requires
                    n >= p,
                    p == two52 * d,
                    q == n / d,
                    d >= 1,
            {
            }
        }
        let m = if 2 * r > d || (2 * r == d && q % 2 == 1) {
            q + 1
        } else {
            q
        };
        if m == 2 * two52 {
            ((1024 + e) * two52) as i64
        } else {
            ((1023 + e) * two52 + (m - two52)) as i64
        }
    }
}

/// The order key of the double nearest to `v`.
pub fn i64_double_key(v: i64) -> (k: i64)
    ensures
        k as int == int_double_key(v as int),
{
    if v >= 0 {
        u64_double_key(v as u64)
    } else {
        let magnitude: u64 = if v == i64::MIN {
            0x8000_0000_0000_0000
        } else {
            (-v) as u64
        };
        let k = u64_double_key(magnitude);
        -k
    }
}

/// A JSON value as the services read it: scalars are held as plain
/// values, an array of strings as the list of its texts, and any other
/// array or object nested inside a document as its JSON text (the services
/// only store and hand those on).
#[derive(Debug)]
pub enum JsonValue {
    Null,
    Bool(bool),
    Number(JsonNumber),
    Str(String),
    Texts(TextList),
    Nested(String),
}

/// A JSON array of strings, held as a list.
#[derive(Debug)]
pub enum TextList {
    End,
    Item(String, Box<TextList>),
}

impl TextList {
    /// The texts of the list, in order.
    pub open spec fn texts(self) -> Seq<Seq<char>>
        decreases self,
    {
        match self {
            TextList::End => Seq::empty(),
            TextList::Item(s, rest) => seq![s@] + rest.texts(),
        }
    }

    /// Whether the list holds the text `t`.
    pub fn contains(&self, t: &str) -> (r: bool)
        ensures
            r == self.texts().contains(t@),
        decreases self,
    {
        match self {
            TextList::End => false,
            TextList::Item(s, rest) => {
                let ghost all = self.texts();
                assert(all == seq![s@] + rest.texts());
                assert(all[0] == s@);
                if str_eq(s.as_str(), t) {
                    true
                } else {
                    let later = rest.contains(t);
                    proof {
                        if later {
                            let k = choose|k: int| 0 <= k < rest.texts().len() && rest.texts()[k] == t@;
                            assert(all[k + 1] == t@);
                        }
                        if all.contains(t@) {
                            let k = choose|k: int| 0 <= k < all.len() && all[k] == t@;
                            assert(k != 0);
                            assert(rest.texts()[k - 1] == t@);
                        }
                    }
                    later
                }
            },
        }
    }

    /// Whether two lists hold the same texts in the same order.
    pub fn same_texts(&self, other: &TextList) -> (r: bool)
        ensures
            r == (self.texts() == other.texts()),
        decreases self,
    {
        match (self, other) {
            (TextList::End, TextList::End) => true,
            (TextList::Item(s, rest), TextList::Item(t, more)) => {
                let ghost a = self.texts();
                let ghost b = other.texts();
                assert(a[0] == s@ && b[0] == t@);
                assert(a.drop_first() =~= rest.texts());
                assert(b.drop_first() =~= more.texts());
                if str_eq(s.as_str(), t.as_str()) {
                    let r = rest.same_texts(more);
                    proof {
                        if r {
                            assert(a =~= b);
                        }
                    }
                    r
                } else {
                    false
                }
            },
            (TextList::End, TextList::Item(t, more)) => {
                assert(other.texts().len() >= 1);
                false
            },
            (TextList::Item(s, rest), TextList::End) => {
                assert(self.texts().len() >= 1);
                false
            },
        }
    }
}

/// A copy of a list of texts.
fn copy_texts(l: &TextList) -> (r: TextList)
    ensures
        r == *l,
    decreases l,
{
    match l {
        TextList::End => TextList::End,
        TextList::Item(s, rest) => TextList::Item(s.clone(), Box::new(copy_texts(rest))),
    }
}

impl Clone for TextList {
    fn clone(&self) -> (r: Self)
        ensures
            r == *self,
    {
        copy_texts(self)
    }
}

/// A JSON document: an object with its entries, or any other value.
#[derive(Debug)]
pub enum JsonDocument {
    Object(Vec<(String, JsonValue)>),
    Other(JsonValue),
}

impl Clone for JsonValue {
    fn clone(&self) -> (r: Self)
        ensures
            r == *self,
    {
        match self {
            JsonValue::Null => JsonValue::Null,
            JsonValue::Bool(b) => JsonValue::Bool(*b),
            JsonValue::Number(n) => JsonValue::Number(*n),
            JsonValue::Str(s) => JsonValue::Str(s.clone()),
            JsonValue::Texts(l) => JsonValue::Texts(copy_texts(l)),
            JsonValue::Nested(s) => JsonValue::Nested(s.clone()),
        }
    }
}

/// Entries of a JSON object with their keys taken by their characters.
pub open spec fn entries_view(entries: Seq<(String, JsonValue)>) -> Seq<(Seq<char>, JsonValue)> {
    entries.map_values(|e: (String, JsonValue)| (e.0@, e.1))
}

/// The value stored under `key` in object entries, as a lookup in a JSON
/// object gives it (the first entry with that key).
pub open spec fn entries_get(entries: Seq<(Seq<char>, JsonValue)>, key: Seq<char>) -> Option<JsonValue>
    decreases entries.len(),
{
    if entries.len() == 0 {
        None
    } else if entries[0].0 == key {
        Some(entries[0].1)
    } else {
        entries_get(entries.drop_first(), key)
    }
}

/// The entries of an object after `key` is set to `value`: an entry with
/// that key has its value replaced, otherwise the entry is added at the end.
pub open spec fn entries_insert(
    entries: Seq<(Seq<char>, JsonValue)>,
    key: Seq<char>,
    value: JsonValue,
) -> Seq<(Seq<char>, JsonValue)>
    decreases entries.len(),
{
    if entries.len() == 0 {
        seq![(key, value)]
    } else if entries[0].0 == key {
        seq![(key, value)] + entries.drop_first()
    } else {
        seq![entries[0]] + entries_insert(entries.drop_first(), key, value)
    }
}

/// Optional object entries with their keys taken by their characters.
pub open spec fn opt_entries(d: Option<Vec<(String, JsonValue)>>) -> Option<Seq<(Seq<char>, JsonValue)>> {
    match d {
        Some(v) => Some(entries_view(v@)),
        None => None,
    }
}

/// The JSON number of an unsigned integer.
pub open spec fn u64_number(v: u64) -> JsonNumber {
    JsonNumber {
        order_key: nat_double_key(v as nat) as i64,
        unsigned: Some(v),
        signed: if v <= i64::MAX as u64 {
            Some(v as i64)
        } else {
            None
        },
    }
}

/// The JSON number of a signed integer.
pub open spec fn i64_number(v: i64) -> JsonNumber {
    JsonNumber {
        order_key: int_double_key(v as int) as i64,
        unsigned: if v >= 0 {
            Some(v as u64)
        } else {
            None
        },
        signed: Some(v),
    }
}

impl JsonValue {
    /// Whether the value is `null`.
    pub open spec fn spec_is_null(self) -> bool {
        self is Null
    }

    /// The characters of a string value.
    pub open spec fn spec_as_str(self) -> Option<Seq<char>> {
        match self {
            JsonValue::Str(s) => Some(s@),
            _ => None,
        }
    }

    /// The order key of a number value.
    pub open spec fn spec_number_key(self) -> Option<i64> {
        match self {
            JsonValue::Number(n) => Some(n.order_key),
            _ => None,
        }
    }

    /// The unsigned value of a number that is a non-negative integer.
    pub open spec fn spec_as_u64(self) -> Option<u64> {
        match self {
            JsonValue::Number(n) => n.unsigned,
            _ => None,
        }
    }

    /// The texts of an array of strings.
    pub open spec fn spec_as_texts(self) -> Option<Seq<Seq<char>>> {
        match self {
            JsonValue::Texts(l) => Some(l.texts()),
            _ => None,
        }
    }

    /// Whether two values are the same JSON value: numbers by their value,
    /// strings and nested texts by their characters, arrays of strings by
    /// their texts.
    pub open spec fn spec_same(self, other: JsonValue) -> bool {
        match (self, other) {
            (JsonValue::Null, JsonValue::Null) => true,
            (JsonValue::Bool(a), JsonValue::Bool(b)) => a == b,
            (JsonValue::Number(a), JsonValue::Number(b)) => a.order_key == b.order_key,
            (JsonValue::Str(a), JsonValue::Str(b)) => a@ == b@,
            (JsonValue::Texts(a), JsonValue::Texts(b)) => a.texts() == b.texts(),
            (JsonValue::Nested(a), JsonValue::Nested(b)) => a@ == b@,
            _ => false,
        }
    }

    /// The list held by an array of strings.
    pub fn as_texts(&self) -> (r: Option<&TextList>)
        ensures
            r matches Some(l) ==> self.spec_as_texts() == Some(l.texts()),
            r is None ==> self.spec_as_texts() is None,
    {
        match self {
            JsonValue::Texts(l) => Some(l),
            _ => None,
        }
    }

    /// Whether two values are the same JSON value.
    pub fn same(&self, other: &JsonValue) -> (r: bool)
        ensures
            r == self.spec_same(*other),
    {
        match (self, other) {
            (JsonValue::Null, JsonValue::Null) => true,
            (JsonValue::Bool(a), JsonValue::Bool(b)) => *a == *b,
            (JsonValue::Number(a), JsonValue::Number(b)) => a.order_key == b.order_key,
            (JsonValue::Str(a), JsonValue::Str(b)) => str_eq(a.as_str(), b.as_str()),
            (JsonValue::Texts(a), JsonValue::Texts(b)) => a.same_texts(b),
            (JsonValue::Nested(a), JsonValue::Nested(b)) => str_eq(a.as_str(), b.as_str()),
            _ => false,
        }
    }

    /// Whether the value is `null`.
    pub fn is_null(&self) -> (r: bool)
        ensures
            r == self.spec_is_null(),
    {
        match self {
            JsonValue::Null => true,
            _ => false,
        }
    }

    /// The string held by a string value.
    pub fn as_str(&self) -> (r: Option<&str>)
        ensures
            r matches Some(s) ==> self.spec_as_str() == Some(s@),
            r is None ==> self.spec_as_str() is None,
    {
        match self {
            JsonValue::Str(s) => Some(s.as_str()),
            _ => None,
        }
    }

    /// The order key of a number value.
    pub fn number_key(&self) -> (r: Option<i64>)
        ensures
            r == self.spec_number_key(),
    {
        match self {
            JsonValue::Number(n) => Some(n.order_key),
            _ => None,
        }
    }

    /// The value of a number that is a non-negative integer fitting `u64`.
    pub fn as_u64(&self) -> (r: Option<u64>)
        ensures
            r == self.spec_as_u64(),
    {
        match self {
            JsonValue::Number(n) => n.unsigned,
            _ => None,
        }
    }

    /// The number value of an unsigned integer.
    pub fn from_u64(v: u64) -> (r: JsonValue)
        ensures
            r == JsonValue::Number(u64_number(v)),
    {
        let signed = if v <= i64::MAX as u64 {
            Some(v as i64)
        } else {
            None
        };
        JsonValue::Number(JsonNumber { order_key: u64_double_key(v), unsigned: Some(v), signed })
    }

    /// The number value of a signed integer.
    pub fn from_i64(v: i64) -> (r: JsonValue)
        ensures
            r == JsonValue::Number(i64_number(v)),
    {
        let unsigned = if v >= 0 {
            Some(v as u64)
        } else {
            None
        };
        JsonValue::Number(JsonNumber { order_key: i64_double_key(v), unsigned, signed: Some(v) })
    }

    /// A string value.
    pub fn from_str(s: &str) -> (r: JsonValue)
        ensures
            r is Str,
            r->Str_0@ == s@,
    {
        JsonValue::Str(s.to_owned())
    }
}

impl JsonDocument {
    /// The member `key` of an object; `None` for any other document.
    pub open spec fn spec_get(self, key: Seq<char>) -> Option<JsonValue> {
        match self {
            JsonDocument::Object(entries) => entries_get(entries_view(entries@), key),
            _ => None,
        }
    }

    /// Looks up the member `key` of an object.
    pub fn get(&self, key: &str) -> (r: Option<&JsonValue>)
        ensures
            r matches Some(v) ==> self.spec_get(key@) == Some(*v),
            r is None ==> self.spec_get(key@) is None,
    {
        match self {
            JsonDocument::Object(entries) => entries_lookup(entries, key),
            _ => None,
        }
    }
}

/// The value stored under `key` in a list of object entries.
pub fn entries_lookup<'a>(entries: &'a Vec<(String, JsonValue)>, key: &str) -> (r: Option<&'a JsonValue>)
    ensures
        r matches Some(v) ==> entries_get(entries_view(entries@), key@) == Some(*v),
        r is None ==> entries_get(entries_view(entries@), key@) is None,
{
    let ghost ev = entries_view(entries@);
    let mut i: usize = 0;
    assert(ev.skip(0) =~= ev);
    while i < entries.len()
        invariant
            i <= entries.len(),
            ev == entries_view(entries@),
            entries_get(ev, key@) == entries_get(ev.skip(i as int), key@),
        decreases entries.len() - i,
    {
        assert(ev.skip(i as int)[0] == ev[i as int]);
        assert(ev.skip(i as int).drop_first() =~= ev.skip(i + 1));
        if str_eq(entries[i].0.as_str(), key) {
            return Some(&entries[i].1);
        }
        i = i + 1;
    }
    None
}

/// Sets `key` to `value` in a list of object entries.
pub fn entries_set(entries: &mut Vec<(String, JsonValue)>, key: &str, value: JsonValue)
    ensures
        entries_view(final(entries)@) == entries_insert(entries_view(old(entries)@), key@, value),
{
    let ghost original = entries_view(entries@);
    let mut i: usize = 0;
    while i < entries.len()
        invariant
            i <= entries.len(),
            entries_view(entries@) == original,
            original == entries_view(old(entries)@),
            forall|j: int| 0 <= j < i ==> (#[trigger] original[j]).0 != key@,
        decreases entries.len() - i,
    {
        if str_eq(entries[i].0.as_str(), key) {
            let k = entries[i].0.clone();
            entries.set(i, (k, value));
            proof {
                lemma_entries_insert_at(original, key@, value, i as int);
                assert(entries_view(entries@) =~= original.update(i as int, (key@, value)));
            }
            return;
        }
        i = i + 1;
    }
    entries.push((key.to_owned(), value));
    proof {
        lemma_entries_insert_absent(original, key@, value);
        assert(entries_view(entries@) =~= original.push((key@, value)));
    }
}

/// Setting a key that is present replaces the value of its first entry.
pub proof fn lemma_entries_insert_at(
    entries: Seq<(Seq<char>, JsonValue)>,
    key: Seq<char>,
    value: JsonValue,
    i: int,
)
    requires
        0 <= i < entries.len(),
        entries[i].0 == key,
        forall|j: int| 0 <= j < i ==> (#[trigger] entries[j]).0 != key,
    ensures
        entries_insert(entries, key, value) == entries.update(i, (key, value)),
    decreases entries.len(),
{
    if i == 0 {
        assert(seq![(key, value)] + entries.drop_first() =~= entries.update(0, (key, value)));
    } else {
        lemma_entries_insert_at(entries.drop_first(), key, value, i - 1);
        assert(seq![entries[0]] + entries.drop_first().update(i - 1, (key, value)) =~= entries.update(
            i,
            (key, value),
        ));
    }
}

/// Setting a key that is absent appends an entry.
pub proof fn lemma_entries_insert_absent(
    entries: Seq<(Seq<char>, JsonValue)>,
    key: Seq<char>,
    value: JsonValue,
)
    requires
        forall|j: int| 0 <= j < entries.len() ==> (#[trigger] entries[j]).0 != key,
    ensures
        entries_insert(entries, key, value) == entries.push((key, value)),
    decreases entries.len(),
{
    if entries.len() > 0 {
        lemma_entries_insert_absent(entries.drop_first(), key, value);
        assert(seq![entries[0]] + entries.drop_first().push((key, value)) =~= entries.push(
            (key, value),
        ));
    } else {
        assert(seq![(key, value)] =~= entries.push((key, value)));
    }
}

/// After setting `key`, looking it up gives the value set, and every other
/// key keeps its value.
pub proof fn lemma_entries_get_insert(
    entries: Seq<(Seq<char>, JsonValue)>,
    key: Seq<char>,
    value: JsonValue,
    other: Seq<char>,
)
    ensures
        entries_get(entries_insert(entries, key, value), key) == Some(value),
        other != key ==> entries_get(entries_insert(entries, key, value), other) == entries_get(
            entries,
            other,
        ),
    decreases entries.len(),
{
    if entries.len() > 0 {
        lemma_entries_get_insert(entries.drop_first(), key, value, other);
        let ins = entries_insert(entries, key, value);
        if entries[0].0 == key {
            let t = seq![(key, value)] + entries.drop_first();
            assert(ins == t);
            assert(t[0] == (key, value));
            assert(t.drop_first() =~= entries.drop_first());
            if other != key {
                assert(entries_get(t, other) == entries_get(t.drop_first(), other));
                assert(entries_get(entries, other) == entries_get(entries.drop_first(), other));
            }
        } else {
            let t = seq![entries[0]] + entries_insert(entries.drop_first(), key, value);
            assert(ins == t);
            assert(t[0] == entries[0]);
            assert(t.drop_first() =~= entries_insert(entries.drop_first(), key, value));
            if other != key {
                if entries[0].0 == other {
                    assert(entries_get(t, other) == Some(entries[0].1));
                    assert(entries_get(entries, other) == Some(entries[0].1));
                } else {
                    assert(entries_get(t, other) == entries_get(t.drop_first(), other));
                    assert(entries_get(entries, other) == entries_get(entries.drop_first(), other));
                }
            }
        }
    } else {
        let t = seq![(key, value)];
        assert(t.drop_first() =~= Seq::<(Seq<char>, JsonValue)>::empty());
        assert(entries_get(t.drop_first(), other) is None);
        assert(entries =~= Seq::<(Seq<char>, JsonValue)>::empty());
    }
}

} // verus!
