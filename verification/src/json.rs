//! A JSON document as the character-limit checks read it.

use vstd::prelude::*;

verus! {

/// A JSON value. Numbers keep their textual form. Object members are held
/// in the order in which they are given here, which is the order in which the
/// checks visit them; a value converted from a parsed `serde_json` map has
/// its members in that map's order, sorted by key, and with distinct keys.
/// Where keys repeat, lookups by key take the first member of that name.
#[derive(Debug)]
pub enum JsonValue {
    Null,
    Bool(bool),
    Number(String),
    Str(String),
    Array(Vec<JsonValue>),
    Object(Vec<(String, JsonValue)>),
}

/// The number of characters (Unicode scalar values) over every string
/// value in `v`, at any depth. Object keys do not count.
pub open spec fn char_total(v: JsonValue) -> nat
    decreases v, 0nat,
{
    match v {
        JsonValue::Str(s) => s@.len(),
        JsonValue::Array(items) => items_total(items@, 0),
        JsonValue::Object(entries) => entries_total(entries@, 0),
        _ => 0,
    }
}

/// The character total of `items[i..]`.
pub open spec fn items_total(items: Seq<JsonValue>, i: int) -> nat
    decreases items, items.len() - i,
{
    if 0 <= i < items.len() {
        char_total(items[i]) + items_total(items, i + 1)
    } else {
        0
    }
}

/// The character total of the member values of `entries[i..]`.
pub open spec fn entries_total(entries: Seq<(String, JsonValue)>, i: int) -> nat
    decreases entries, entries.len() - i,
{
    if 0 <= i < entries.len() {
        char_total(entries[i].1) + entries_total(entries, i + 1)
    } else {
        0
    }
}


/// The sum of a sequence of integers.
pub open spec fn sum_of(s: Seq<int>) -> int
    decreases s.len(),
{
    if s.len() == 0 {
        0
    } else {
        sum_of(s.drop_last()) + s.last()
    }
}

proof fn lemma_sum_front(s: Seq<int>)
    requires
        s.len() > 0,
    ensures
        sum_of(s) == s[0] + sum_of(s.subrange(1, s.len() as int)),
    decreases s.len(),
{
    let t = s.subrange(1, s.len() as int);
    if s.len() > 1 {
        lemma_sum_front(s.drop_last());
        assert(t.drop_last() =~= s.drop_last().subrange(1, s.len() - 1));
        assert(t.last() == s.last());
        assert(s.drop_last()[0] == s[0]);
        assert(sum_of(t) == sum_of(t.drop_last()) + t.last());
    } else {
        assert(t =~= Seq::<int>::empty());
        assert(s.drop_last() =~= Seq::<int>::empty());
    }
}

proof fn lemma_items_sum(items: Seq<JsonValue>, i: int)
    requires
        0 <= i <= items.len(),
    ensures
        items_total(items, i) == sum_of(
            items.map_values(|x: JsonValue| char_total(x) as int).subrange(i, items.len() as int),
        ),
    decreases items.len() - i,
{
    let m = items.map_values(|x: JsonValue| char_total(x) as int);
    if i < items.len() {
        lemma_items_sum(items, i + 1);
        lemma_sum_front(m.subrange(i, items.len() as int));
        assert(m.subrange(i, items.len() as int).subrange(1, items.len() - i) =~= m.subrange(
            i + 1,
            items.len() as int,
        ));
    } else {
        assert(m.subrange(i, items.len() as int) =~= Seq::<int>::empty());
    }
}

proof fn lemma_entries_sum(entries: Seq<(String, JsonValue)>, i: int)
    requires
        0 <= i <= entries.len(),
    ensures
        entries_total(entries, i) == sum_of(
            entries.map_values(|e: (String, JsonValue)| char_total(e.1) as int).subrange(
                i,
                entries.len() as int,
            ),
        ),
    decreases entries.len() - i,
{
    let m = entries.map_values(|e: (String, JsonValue)| char_total(e.1) as int);
    if i < entries.len() {
        lemma_entries_sum(entries, i + 1);
        lemma_sum_front(m.subrange(i, entries.len() as int));
        assert(m.subrange(i, entries.len() as int).subrange(1, entries.len() - i) =~= m.subrange(
            i + 1,
            entries.len() as int,
        ));
    } else {
        assert(m.subrange(i, entries.len() as int) =~= Seq::<int>::empty());
    }
}

/// Law: the character total of a string is its length in characters, of
/// any other scalar zero, and of an array or an object the sum of the
/// totals of all its items or member values, whatever their kind; so every
/// string at any depth counts in full, and only strings count.
pub proof fn lemma_char_total_structure(v: JsonValue)
    ensures
        match v {
            JsonValue::Str(s) => char_total(v) == s@.len(),
            JsonValue::Array(items) => char_total(v) == sum_of(
                items@.map_values(|x: JsonValue| char_total(x) as int),
            ),
            JsonValue::Object(entries) => char_total(v) == sum_of(
                entries@.map_values(|e: (String, JsonValue)| char_total(e.1) as int),
            ),
            _ => char_total(v) == 0,
        },
{
    match v {
        JsonValue::Array(items) => {
            lemma_items_sum(items@, 0);
            let m = items@.map_values(|x: JsonValue| char_total(x) as int);
            assert(m.subrange(0, items@.len() as int) =~= m);
        },
        JsonValue::Object(entries) => {
            lemma_entries_sum(entries@, 0);
            let m = entries@.map_values(|e: (String, JsonValue)| char_total(e.1) as int);
            assert(m.subrange(0, entries@.len() as int) =~= m);
        },
        _ => {},
    }
}

} // verus!
