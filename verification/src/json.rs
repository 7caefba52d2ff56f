//! A JSON document tree.

use vstd::prelude::*;
use crate::text::str_eq;

verus! {

/// A JSON value. Object entries keep the order in which they were written;
/// where a key occurs more than once, the last entry with that key counts.
#[derive(Debug, PartialEq, Eq)]
pub enum Json {
    Null,
    Bool(bool),
    /// A number, held as its literal text.
    Number(String),
    String(String),
    Array(Vec<Json>),
    Object(Vec<(String, Json)>),
}

/// The mathematical value of a [`Json`] tree.
pub enum JsonView {
    Null,
    Bool(bool),
    Number(Seq<char>),
    String(Seq<char>),
    Array(Seq<JsonView>),
    Object(Seq<(Seq<char>, JsonView)>),
}

impl View for Json {
    type V = JsonView;

    open spec fn view(&self) -> JsonView
        decreases self,
    {
        match self {
            Json::Null => JsonView::Null,
            Json::Bool(b) => JsonView::Bool(*b),
            Json::Number(n) => JsonView::Number(n@),
            Json::String(s) => JsonView::String(s@),
            Json::Array(items) => JsonView::Array(
                Seq::new(
                    items.len() as nat,
                    |i: int|
                        if 0 <= i < items.len() {
                            items[i]@
                        } else {
                            JsonView::Null
                        },
                ),
            ),
            Json::Object(entries) => JsonView::Object(
                Seq::new(
                    entries.len() as nat,
                    |i: int|
                        (
                            entries[i].0@,
                            if 0 <= i < entries.len() {
                                entries[i].1@
                            } else {
                                JsonView::Null
                            },
                        ),
                ),
            ),
        }
    }
}

impl Clone for Json {
    #[verifier::loop_isolation(false)]
    fn clone(&self) -> (r: Json)
        ensures
            r@ == self@,
        decreases self,
    {
        match self {
            Json::Null => Json::Null,
            Json::Bool(b) => Json::Bool(*b),
            Json::Number(n) => Json::Number(n.clone()),
            Json::String(s) => Json::String(s.clone()),
            Json::Array(items) => {
                let mut out: Vec<Json> = Vec::new();
                let mut i: usize = 0;
                while i < items.len()
                    invariant
                        i <= items.len(),
                        out.len() == i,
                        forall|j: int| 0 <= j < i ==> out[j]@ == items[j]@,
                    decreases items.len() - i,
                {
                    out.push(items[i].clone());
                    i += 1;
                }
                let r = Json::Array(out);
                assert(r@ == self@) by {
                    assert(r@->Array_0 =~= self@->Array_0);
                }
                r
            },
            Json::Object(entries) => {
                let mut out: Vec<(String, Json)> = Vec::new();
                let mut i: usize = 0;
                while i < entries.len()
                    invariant
                        i <= entries.len(),
                        out.len() == i,
                        forall|j: int|
                            0 <= j < i ==> out[j].0@ == entries[j].0@ && out[j].1@ == entries[j].1@,
                    decreases entries.len() - i,
                {
                    out.push((entries[i].0.clone(), entries[i].1.clone()));
                    i += 1;
                }
                let r = Json::Object(out);
                assert(r@ == self@) by {
                    assert(r@->Object_0 =~= self@->Object_0);
                }
                r
            },
        }
    }
}

/// The keys of a list of entries, in order.
pub open spec fn keys_of<V>(entries: Seq<(Seq<char>, V)>) -> Seq<Seq<char>> {
    Seq::new(entries.len(), |i: int| entries[i].0)
}

/// Index of the last entry whose key is `key`.
pub open spec fn key_index<V>(entries: Seq<(Seq<char>, V)>, key: Seq<char>) -> Option<int>
    decreases entries.len(),
{
    if entries.len() == 0 {
        None
    } else if entries.last().0 == key {
        Some(entries.len() - 1)
    } else {
        key_index(entries.drop_last(), key)
    }
}

/// The value that `entries` gives to `key`: that of the last entry with that key.
pub open spec fn lookup<V>(entries: Seq<(Seq<char>, V)>, key: Seq<char>) -> Option<V> {
    match key_index(entries, key) {
        Some(i) => Some(entries[i].1),
        None => None,
    }
}

/// `entries` with `key` set to `value`: in place where the key is present,
/// as a new last entry where it is not.
pub open spec fn with_entry<V>(entries: Seq<(Seq<char>, V)>, key: Seq<char>, value: V) -> Seq<
    (Seq<char>, V),
> {
    match key_index(entries, key) {
        Some(i) => entries.update(i, (key, value)),
        None => entries.push((key, value)),
    }
}

/// `base` with every entry of `more` set in turn.
pub open spec fn with_entries<V>(base: Seq<(Seq<char>, V)>, more: Seq<(Seq<char>, V)>) -> Seq<
    (Seq<char>, V),
>
    decreases more.len(),
{
    if more.len() == 0 {
        base
    } else {
        with_entry(with_entries(base, more.drop_last()), more.last().0, more.last().1)
    }
}

/// The views of a list of exec entries.
pub open spec fn entries_view(entries: Seq<(String, Json)>) -> Seq<(Seq<char>, JsonView)> {
    Seq::new(entries.len(), |i: int| (entries[i].0@, entries[i].1@))
}

/// The views of a list of exec values.
pub open spec fn items_view(items: Seq<Json>) -> Seq<JsonView> {
    Seq::new(items.len(), |i: int| items[i]@)
}

impl JsonView {
    /// The member `key` of an object; `None` for other values and absent keys.
    pub open spec fn get(self, key: Seq<char>) -> Option<JsonView> {
        match self {
            JsonView::Object(entries) => lookup(entries, key),
            _ => None,
        }
    }

    /// The text of a string value.
    pub open spec fn as_str(self) -> Option<Seq<char>> {
        match self {
            JsonView::String(s) => Some(s),
            _ => None,
        }
    }

    /// The items of an array.
    pub open spec fn as_array(self) -> Option<Seq<JsonView>> {
        match self {
            JsonView::Array(items) => Some(items),
            _ => None,
        }
    }

    /// The entries of an object.
    pub open spec fn as_object(self) -> Option<Seq<(Seq<char>, JsonView)>> {
        match self {
            JsonView::Object(entries) => Some(entries),
            _ => None,
        }
    }
}

/// The index that `key_index` gives is that of the last entry with the
/// key; it gives none exactly where no entry has the key.
pub proof fn lemma_key_index_range<V>(entries: Seq<(Seq<char>, V)>, key: Seq<char>)
    ensures
        match key_index(entries, key) {
            Some(i) => 0 <= i < entries.len() && entries[i].0 == key && forall|j: int|
                i < j < entries.len() ==> entries[j].0 != key,
            None => forall|j: int| 0 <= j < entries.len() ==> entries[j].0 != key,
        },
    decreases entries.len(),
{
    if entries.len() == 0 {
    } else if entries.last().0 == key {
    } else {
        let front = entries.drop_last();
        lemma_key_index_range(front, key);
        assert(forall|j: int| 0 <= j < front.len() ==> front[j] == entries[j]);
    }
}

/// The last index at which `key` stands is the one that `key_index` gives.
pub proof fn lemma_key_index_is<V>(entries: Seq<(Seq<char>, V)>, key: Seq<char>, i: int)
    requires
        0 <= i < entries.len(),
        entries[i].0 == key,
        forall|j: int| i < j < entries.len() ==> entries[j].0 != key,
    ensures
        key_index(entries, key) == Some(i),
    decreases entries.len(),
{
    if entries.last().0 == key {
    } else {
        lemma_key_index_is(entries.drop_last(), key, i);
    }
}

/// No entry holds `key`, so `key_index` finds none.
pub proof fn lemma_key_index_none<V>(entries: Seq<(Seq<char>, V)>, key: Seq<char>)
    requires
        forall|j: int| 0 <= j < entries.len() ==> entries[j].0 != key,
    ensures
        key_index(entries, key) is None,
    decreases entries.len(),
{
    if entries.len() > 0 {
        lemma_key_index_none(entries.drop_last(), key);
    }
}

/// After `key` is set to `value`, that is what `key` gives.
pub proof fn lemma_with_entry_same<V>(entries: Seq<(Seq<char>, V)>, key: Seq<char>, value: V)
    ensures
        lookup(with_entry(entries, key, value), key) == Some(value),
        key_index(with_entry(entries, key, value), key) is Some,
{
    lemma_key_index_range(entries, key);
    let updated = with_entry(entries, key, value);
    match key_index(entries, key) {
        Some(i) => {
            lemma_key_index_is(updated, key, i);
        },
        None => {
            lemma_key_index_is(updated, key, entries.len() as int);
        },
    }
}

/// Setting `key` leaves what every other key gives unchanged.
pub proof fn lemma_with_entry_other<V>(
    entries: Seq<(Seq<char>, V)>,
    key: Seq<char>,
    value: V,
    other: Seq<char>,
)
    requires
        other != key,
    ensures
        lookup(with_entry(entries, key, value), other) == lookup(entries, other),
        key_index(with_entry(entries, key, value), other) == key_index(entries, other),
{
    lemma_key_index_range(entries, key);
    lemma_key_index_range(entries, other);
    let updated = with_entry(entries, key, value);
    match key_index(entries, other) {
        Some(i) => {
            lemma_key_index_is(updated, other, i);
        },
        None => {
            lemma_key_index_none(updated, other);
        },
    }
}

/// Every entry of a list in which `key` was set is the new entry or an
/// entry of the list before.
pub proof fn lemma_with_entry_members<V>(
    entries: Seq<(Seq<char>, V)>,
    key: Seq<char>,
    value: V,
    i: int,
)
    requires
        0 <= i < with_entry(entries, key, value).len(),
    ensures
        with_entry(entries, key, value)[i] == (key, value) || (i < entries.len() && with_entry(
            entries,
            key,
            value,
        )[i] == entries[i]),
{
    lemma_key_index_range(entries, key);
}

/// What `entries` gives to a key is the value of one of its entries.
pub proof fn lemma_lookup_member<V>(entries: Seq<(Seq<char>, V)>, key: Seq<char>)
    ensures
        lookup(entries, key) matches Some(value) ==> exists|i: int|
            0 <= i < entries.len() && #[trigger] entries[i] == (key, value),
{
    lemma_key_index_range(entries, key);
    if let Some(i) = key_index(entries, key) {
        assert(entries[i] == (key, entries[i].1));
    }
}

/// What two lists give to a key when one follows the other: what the
/// second gives, or else what the first gives.
pub proof fn lemma_lookup_concat<V>(
    first: Seq<(Seq<char>, V)>,
    second: Seq<(Seq<char>, V)>,
    key: Seq<char>,
)
    ensures
        lookup(first + second, key) == if lookup(second, key) is Some {
            lookup(second, key)
        } else {
            lookup(first, key)
        },
    decreases second.len(),
{
    if second.len() == 0 {
        assert(first + second =~= first);
    } else {
        let all = first + second;
        assert(all.drop_last() =~= first + second.drop_last());
        assert(all.last() == second.last());
        lemma_lookup_concat(first, second.drop_last(), key);
        lemma_key_index_range(second.drop_last(), key);
        lemma_key_index_range(first + second.drop_last(), key);
    }
}

/// What a list that ends in a new entry gives to a key: the new value for
/// the new key, and for another key what the list gave before.
pub proof fn lemma_lookup_push<V>(
    entries: Seq<(Seq<char>, V)>,
    entry_key: Seq<char>,
    value: V,
    key: Seq<char>,
)
    ensures
        lookup(entries.push((entry_key, value)), key) == if entry_key == key {
            Some(value)
        } else {
            lookup(entries, key)
        },
{
    let all = entries.push((entry_key, value));
    assert(all.drop_last() =~= entries);
    assert(all.last() == (entry_key, value));
    lemma_key_index_range(entries, key);
}

/// What a list of one entry gives to a key.
pub proof fn lemma_lookup_single<V>(entry_key: Seq<char>, value: V, key: Seq<char>)
    ensures
        lookup(seq![(entry_key, value)], key) == if entry_key == key {
            Some(value)
        } else {
            None
        },
        lookup(Seq::<(Seq<char>, V)>::empty(), key) is None,
{
    let single = seq![(entry_key, value)];
    assert(single.drop_last() =~= Seq::empty());
    assert(single.last() == (entry_key, value));
}

/// Index of the last entry of `entries` whose key is `key`.
pub fn find_key(entries: &Vec<(String, Json)>, key: &str) -> (r: Option<usize>)
    ensures
        match r {
            Some(i) => i < entries.len() && key_index(entries_view(entries@), key@) == Some(
                i as int,
            ),
            None => key_index(entries_view(entries@), key@) is None,
        },
{
    let mut i: usize = entries.len();
    while i > 0
        invariant
            i <= entries.len(),
            forall|j: int| i <= j < entries.len() ==> entries[j].0@ != key@,
        decreases i,
    {
        i -= 1;
        if str_eq(entries[i].0.as_str(), key) {
            proof {
                lemma_key_index_is(entries_view(entries@), key@, i as int);
            }
            return Some(i);
        }
    }
    proof {
        lemma_key_index_none(entries_view(entries@), key@);
    }
    None
}

/// The value that `entries` gives to `key`.
pub fn get_entry<'a>(entries: &'a Vec<(String, Json)>, key: &str) -> (r: Option<&'a Json>)
    ensures
        match r {
            Some(v) => lookup(entries_view(entries@), key@) == Some(v@),
            None => lookup(entries_view(entries@), key@) is None,
        },
{
    match find_key(entries, key) {
        Some(i) => Some(&entries[i].1),
        None => None,
    }
}

/// Sets `key` to `value`: in place where the key is present, as a new last
/// entry where it is not.
pub fn set_entry(entries: &mut Vec<(String, Json)>, key: String, value: Json)
    ensures
        entries_view(final(entries)@) == with_entry(entries_view(old(entries)@), key@, value@),
{
    let ghost before = entries_view(entries@);
    match find_key(entries, key.as_str()) {
        Some(i) => {
            entries.set(i, (key, value));
            assert(entries_view(entries@) =~= before.update(i as int, (key@, value@)));
        },
        None => {
            entries.push((key, value));
            assert(entries_view(entries@) =~= before.push((key@, value@)));
        },
    }
}

/// A list with the one entry that gives `value` to `key`.
pub fn single_entry(key: &str, value: Json) -> (r: Vec<(String, Json)>)
    ensures
        entries_view(r@) == seq![(key@, value@)],
{
    let mut r: Vec<(String, Json)> = Vec::new();
    r.push((key.to_string(), value));
    assert(entries_view(r@) =~= seq![(key@, value@)]);
    r
}

/// The entries of `first` followed by those of `second`.
pub fn concat_entries(first: Vec<(String, Json)>, second: Vec<(String, Json)>) -> (r: Vec<
    (String, Json),
>)
    ensures
        entries_view(r@) == entries_view(first@) + entries_view(second@),
{
    let mut r = first;
    let mut rest = second;
    r.append(&mut rest);
    assert(entries_view(r@) =~= entries_view(first@) + entries_view(second@));
    r
}

/// A copy of a list of values.
pub fn clone_items(items: &Vec<Json>) -> (r: Vec<Json>)
    ensures
        items_view(r@) == items_view(items@),
{
    let mut out: Vec<Json> = Vec::new();
    let mut i: usize = 0;
    while i < items.len()
        invariant
            i <= items.len(),
            out.len() == i,
            forall|j: int| 0 <= j < i ==> out[j]@ == items[j]@,
        decreases items.len() - i,
    {
        out.push(items[i].clone());
        i += 1;
    }
    assert(items_view(out@) =~= items_view(items@));
    out
}

/// A copy of a list of entries.
pub fn clone_entries(entries: &Vec<(String, Json)>) -> (r: Vec<(String, Json)>)
    ensures
        entries_view(r@) == entries_view(entries@),
{
    let mut out: Vec<(String, Json)> = Vec::new();
    let mut i: usize = 0;
    while i < entries.len()
        invariant
            i <= entries.len(),
            out.len() == i,
            forall|j: int| 0 <= j < i ==> out[j].0@ == entries[j].0@ && out[j].1@ == entries[j].1@,
        decreases entries.len() - i,
    {
        out.push((entries[i].0.clone(), entries[i].1.clone()));
        i += 1;
    }
    assert(entries_view(out@) =~= entries_view(entries@));
    out
}

impl Json {
    /// A string value holding the characters of `s`.
    pub fn string(s: &str) -> (r: Json)
        ensures
            r@ == JsonView::String(s@),
    {
        Json::String(s.to_string())
    }

    /// The object with the given entries.
    pub fn object(entries: Vec<(String, Json)>) -> (r: Json)
        ensures
            r@ == JsonView::Object(entries_view(entries@)),
    {
        let r = Json::Object(entries);
        assert(r@->Object_0 =~= entries_view(entries@));
        r
    }

    /// The array with the given items.
    pub fn array(items: Vec<Json>) -> (r: Json)
        ensures
            r@ == JsonView::Array(items_view(items@)),
    {
        let r = Json::Array(items);
        assert(r@->Array_0 =~= items_view(items@));
        r
    }

    /// The member `key` of an object; `None` for other values and absent keys.
    pub fn get(&self, key: &str) -> (r: Option<&Json>)
        ensures
            match r {
                Some(v) => self@.get(key@) == Some(v@),
                None => self@.get(key@) is None,
            },
    {
        match self {
            Json::Object(entries) => {
                assert(self@->Object_0 =~= entries_view(entries@));
                get_entry(entries, key)
            },
            _ => None,
        }
    }

    /// The text of a string value.
    pub fn as_str(&self) -> (r: Option<&str>)
        ensures
            match r {
                Some(s) => self@.as_str() == Some(s@),
                None => self@.as_str() is None,
            },
    {
        match self {
            Json::String(s) => Some(s.as_str()),
            _ => None,
        }
    }

    /// The items of an array.
    pub fn as_array(&self) -> (r: Option<&Vec<Json>>)
        ensures
            match r {
                Some(items) => self@.as_array() == Some(items_view(items@)),
                None => self@.as_array() is None,
            },
    {
        match self {
            Json::Array(items) => {
                assert(self@->Array_0 =~= items_view(items@));
                Some(items)
            },
            _ => None,
        }
    }

    /// The entries of an object.
    pub fn as_object(&self) -> (r: Option<&Vec<(String, Json)>>)
        ensures
            match r {
                Some(entries) => self@.as_object() == Some(entries_view(entries@)),
                None => self@.as_object() is None,
            },
    {
        match self {
            Json::Object(entries) => {
                assert(self@->Object_0 =~= entries_view(entries@));
                Some(entries)
            },
            _ => None,
        }
    }
}

} // verus!
