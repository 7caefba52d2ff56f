//! Schema preprocessing: the definitions of an interface description are
//! brought under local references, intersections of references are expanded
//! into unions, and literal discriminators become defaulted enumerations.

use vstd::prelude::*;
use crate::json::{
    clone_entries, clone_items, concat_entries, entries_view, get_entry, items_view, keys_of,
    lemma_key_index_none, lemma_lookup_concat, lemma_lookup_member, lemma_lookup_single,
    lemma_with_entry_members, lemma_with_entry_other, lemma_with_entry_same, lookup, set_entry,
    single_entry, with_entries, with_entry, Json, JsonView,
};
use crate::text::{replace, replaced, starts_with, str_eq, strings_view, to_chars, to_string};
use crate::variant::discriminator_key;

verus! {

/// The entries of the object that `value` holds under `key`; none where
/// there is no such object.
pub open spec fn object_member(value: JsonView, key: Seq<char>) -> Seq<(Seq<char>, JsonView)> {
    match value.get(key) {
        Some(JsonView::Object(entries)) => entries,
        _ => Seq::empty(),
    }
}

/// The items of the array that `value` holds under `key`; none where there
/// is no such array.
pub open spec fn array_member(value: JsonView, key: Seq<char>) -> Seq<JsonView> {
    match value.get(key) {
        Some(JsonView::Array(items)) => items,
        _ => Seq::empty(),
    }
}

/// The text of the string that `value` holds under `key`; empty where there
/// is no such string.
pub open spec fn text_member(value: JsonView, key: Seq<char>) -> Seq<char> {
    match value.get(key) {
        Some(JsonView::String(text)) => text,
        _ => Seq::empty(),
    }
}

/// The texts of the strings among `items`, in order.
pub open spec fn string_items(items: Seq<JsonView>) -> Seq<Seq<char>>
    decreases items.len(),
{
    if items.len() == 0 {
        Seq::empty()
    } else {
        match items.last() {
            JsonView::String(text) => string_items(items.drop_last()).push(text),
            _ => string_items(items.drop_last()),
        }
    }
}

/// `names` with `name` added at the end, unless it is there already.
pub open spec fn with_name(names: Seq<Seq<char>>, name: Seq<char>) -> Seq<Seq<char>> {
    if names.contains(name) {
        names
    } else {
        names.push(name)
    }
}

/// `base` with every name of `more` added in turn.
pub open spec fn with_names(base: Seq<Seq<char>>, more: Seq<Seq<char>>) -> Seq<Seq<char>>
    decreases more.len(),
{
    if more.len() == 0 {
        base
    } else {
        with_name(with_names(base, more.drop_last()), more.last())
    }
}

/// The names that a schema requires: the strings of its `required` array.
pub open spec fn required_names(schema: JsonView) -> Seq<Seq<char>> {
    string_items(array_member(schema, "required"@))
}

/// The properties of two merged alternatives: those of the first, then
/// those of the second, which replace properties of the same name.
pub open spec fn merged_properties(first: JsonView, second: JsonView) -> Seq<
    (Seq<char>, JsonView),
> {
    with_entries(
        with_entries(Seq::empty(), object_member(first, "properties"@)),
        object_member(second, "properties"@),
    )
}

/// The required names of two merged alternatives: those of the first, then
/// those of the second, each name once.
pub open spec fn merged_required(first: JsonView, second: JsonView) -> Seq<Seq<char>> {
    with_names(with_names(Seq::empty(), required_names(first)), required_names(second))
}

/// The title of two merged alternatives: the second's title followed by the
/// first's.
pub open spec fn merged_title(first: JsonView, second: JsonView) -> Seq<char> {
    text_member(second, "title"@) + text_member(first, "title"@)
}

/// The strings that stand for `names`.
pub open spec fn name_items(names: Seq<Seq<char>>) -> Seq<JsonView> {
    Seq::new(names.len(), |i: int| JsonView::String(names[i]))
}

/// `entries` under `key`, or nothing where `entries` is empty.
pub open spec fn object_entry(key: Seq<char>, entries: Seq<(Seq<char>, JsonView)>) -> Seq<
    (Seq<char>, JsonView),
> {
    if entries.len() > 0 {
        seq![(key, JsonView::Object(entries))]
    } else {
        Seq::empty()
    }
}

/// `names` under `key`, or nothing where `names` is empty.
pub open spec fn names_entry(key: Seq<char>, names: Seq<Seq<char>>) -> Seq<(Seq<char>, JsonView)> {
    if names.len() > 0 {
        seq![(key, JsonView::Array(name_items(names)))]
    } else {
        Seq::empty()
    }
}

/// `text` under `key`, or nothing where `text` is empty.
pub open spec fn text_entry(key: Seq<char>, text: Seq<char>) -> Seq<(Seq<char>, JsonView)> {
    if text.len() > 0 {
        seq![(key, JsonView::String(text))]
    } else {
        Seq::empty()
    }
}

/// The alternative that satisfies both `first` and `second`: an object
/// schema with the properties and required names of both, titled by both.
/// `None` unless both are objects.
pub open spec fn merged(first: JsonView, second: JsonView) -> Option<JsonView> {
    if first is Object && second is Object {
        Some(
            JsonView::Object(
                object_entry("properties"@, merged_properties(first, second)) + names_entry(
                    "required"@,
                    merged_required(first, second),
                ) + text_entry("title"@, merged_title(first, second)) + seq![
                    ("type"@, JsonView::String("object"@)),
                ],
            ),
        )
    } else {
        None
    }
}

/// The entries of the object under `key`, where there is one.
fn member_entries<'a>(value: &'a Json, key: &str) -> (r: Option<&'a Vec<(String, Json)>>)
    ensures
        match r {
            Some(entries) => entries_view(entries@) == object_member(value@, key@)
                && value@.get(key@) is Some && value@.get(key@)->0 is Object,
            None => object_member(value@, key@) == Seq::<(Seq<char>, JsonView)>::empty()
                && !(value@.get(key@) is Some && value@.get(key@)->0 is Object),
        },
{
    match value.get(key) {
        Some(member) => member.as_object(),
        None => None,
    }
}

/// The items of the array under `key`, where there is one.
fn member_items<'a>(value: &'a Json, key: &str) -> (r: Option<&'a Vec<Json>>)
    ensures
        match r {
            Some(items) => items_view(items@) == array_member(value@, key@) && value@.get(key@)
                == Some(JsonView::Array(items_view(items@))),
            None => array_member(value@, key@) == Seq::<JsonView>::empty() && !(value@.get(key@)
                is Some && value@.get(key@)->0 is Array),
        },
{
    match value.get(key) {
        Some(member) => member.as_array(),
        None => None,
    }
}

/// Sets every entry of `more` in `entries`, in turn.
fn set_entries(entries: &mut Vec<(String, Json)>, more: &Vec<(String, Json)>)
    ensures
        entries_view(final(entries)@) == with_entries(
            entries_view(old(entries)@),
            entries_view(more@),
        ),
{
    let ghost base = entries_view(entries@);
    let mut i: usize = 0;
    assert(entries_view(more@).take(0) =~= Seq::empty());
    while i < more.len()
        invariant
            i <= more.len(),
            entries_view(entries@) == with_entries(base, entries_view(more@).take(i as int)),
        decreases more.len() - i,
    {
        let ghost before = entries_view(more@).take(i as int);
        let ghost after = entries_view(more@).take(i + 1);
        assert(after.drop_last() =~= before);
        assert(after.last() == (more[i as int].0@, more[i as int].1@));
        set_entry(entries, more[i].0.clone(), more[i].1.clone());
        i += 1;
    }
    assert(entries_view(more@).take(more.len() as int) =~= entries_view(more@));
}

/// Whether `name` is among `names`.
fn has_name(names: &Vec<String>, name: &str) -> (r: bool)
    ensures
        r == strings_view(names@).contains(name@),
{
    let mut i: usize = 0;
    while i < names.len()
        invariant
            i <= names.len(),
            forall|j: int| 0 <= j < i ==> strings_view(names@)[j] != name@,
        decreases names.len() - i,
    {
        if str_eq(names[i].as_str(), name) {
            assert(strings_view(names@)[i as int] == name@);
            return true;
        }
        i += 1;
    }
    false
}

/// Adds the strings among `items` to `names`, each name once.
fn add_names(names: &mut Vec<String>, items: &Vec<Json>)
    ensures
        strings_view(final(names)@) == with_names(
            strings_view(old(names)@),
            string_items(items_view(items@)),
        ),
{
    let ghost base = strings_view(names@);
    let mut i: usize = 0;
    assert(items_view(items@).take(0) =~= Seq::empty());
    while i < items.len()
        invariant
            i <= items.len(),
            strings_view(names@) == with_names(
                base,
                string_items(items_view(items@).take(i as int)),
            ),
        decreases items.len() - i,
    {
        let ghost before = items_view(items@).take(i as int);
        let ghost after = items_view(items@).take(i + 1);
        assert(after.drop_last() =~= before);
        assert(after.last() == items[i as int]@);
        match items[i].as_str() {
            Some(text) => {
                let ghost seen = string_items(before);
                assert(string_items(after) == seen.push(text@));
                assert(seen.push(text@).drop_last() =~= seen);
                if !has_name(names, text) {
                    let ghost old_names = strings_view(names@);
                    names.push(text.to_string());
                    assert(strings_view(names@) =~= old_names.push(text@));
                }
            },
            None => {
                assert(string_items(after) == string_items(before));
            },
        }
        i += 1;
    }
    assert(items_view(items@).take(items.len() as int) =~= items_view(items@));
}

/// The strings that stand for `names`.
fn names_to_json(names: &Vec<String>) -> (r: Vec<Json>)
    ensures
        items_view(r@) == name_items(strings_view(names@)),
{
    let mut out: Vec<Json> = Vec::new();
    let mut i: usize = 0;
    while i < names.len()
        invariant
            i <= names.len(),
            out.len() == i,
            forall|j: int| 0 <= j < i ==> out[j]@ == JsonView::String(names[j]@),
        decreases names.len() - i,
    {
        out.push(Json::String(names[i].clone()));
        i += 1;
    }
    assert(items_view(out@) =~= name_items(strings_view(names@)));
    out
}

/// The text of the string under `key`; empty where there is none.
fn member_text<'a>(value: &'a Json, key: &str) -> (r: &'a str)
    ensures
        r@ == text_member(value@, key@),
{
    let found = match value.get(key) {
        Some(member) => member.as_str(),
        None => None,
    };
    match found {
        Some(text) => text,
        None => {
            proof {
                reveal_strlit("");
            }
            ""
        },
    }
}

/// Merges two alternatives into the alternative that satisfies both.
pub fn merge_variant_properties(a: &Json, b: &Json) -> (r: Option<Json>)
    ensures
        match r {
            Some(m) => merged(a@, b@) == Some(m@),
            None => merged(a@, b@) is None,
        },
{
    if a.as_object().is_none() || b.as_object().is_none() {
        return None;
    }
    let mut props: Vec<(String, Json)> = Vec::new();
    assert(entries_view(props@) =~= Seq::empty());
    match member_entries(a, "properties") {
        Some(entries) => set_entries(&mut props, entries),
        None => {},
    }
    match member_entries(b, "properties") {
        Some(entries) => set_entries(&mut props, entries),
        None => {},
    }
    assert(entries_view(props@) == merged_properties(a@, b@));
    let mut required: Vec<String> = Vec::new();
    assert(strings_view(required@) =~= Seq::empty());
    let ghost no_items = Seq::<JsonView>::empty();
    assert(string_items(no_items) =~= Seq::empty());
    match member_items(a, "required") {
        Some(items) => add_names(&mut required, items),
        None => {},
    }
    match member_items(b, "required") {
        Some(items) => add_names(&mut required, items),
        None => {},
    }
    assert(strings_view(required@) == merged_required(a@, b@));
    let mut title: Vec<char> = Vec::new();
    crate::text::append_str(&mut title, member_text(b, "title"));
    crate::text::append_str(&mut title, member_text(a, "title"));
    assert(title@ =~= merged_title(a@, b@));

    let mut result: Vec<(String, Json)> = Vec::new();
    assert(entries_view(result@) =~= Seq::empty());
    if props.len() > 0 {
        result = concat_entries(result, single_entry("properties", Json::object(props)));
    }
    assert(entries_view(result@) =~= object_entry("properties"@, merged_properties(a@, b@)));
    let ghost with_properties = entries_view(result@);
    if required.len() > 0 {
        result =
        concat_entries(result, single_entry("required", Json::array(names_to_json(&required))));
    }
    assert(entries_view(result@) =~= with_properties + names_entry(
        "required"@,
        merged_required(a@, b@),
    ));
    let ghost with_required = entries_view(result@);
    if title.len() > 0 {
        result =
        concat_entries(result, single_entry("title", Json::String(crate::text::to_string(&title))));
    }
    assert(entries_view(result@) =~= with_required + text_entry("title"@, merged_title(a@, b@)));
    result = concat_entries(result, single_entry("type", Json::string("object")));
    Some(Json::object(result))
}

/// The prefix of a reference to a definition of the same document.
pub open spec fn definitions_prefix() -> Seq<char> {
    "#/definitions/"@
}

/// The target of a reference: the string that `item` holds under `$ref`.
pub open spec fn reference_of(item: JsonView) -> Option<Seq<char>> {
    match item.get("$ref"@) {
        Some(JsonView::String(target)) => Some(target),
        _ => None,
    }
}

/// The name of the definition that a local reference points to.
pub open spec fn definition_name(reference: Seq<char>) -> Option<Seq<char>> {
    if definitions_prefix().is_prefix_of(reference) {
        Some(reference.skip(definitions_prefix().len() as int))
    } else {
        None
    }
}

/// The alternatives that a definition stands for: those of its `oneOf`, or
/// the definition itself where it has none.
pub open spec fn alternatives_of(target: JsonView) -> Seq<JsonView> {
    match target.get("oneOf"@) {
        Some(JsonView::Array(alternatives)) => alternatives,
        _ => seq![target],
    }
}

/// The alternatives of the definition that `item` refers to. `None` where
/// `item` is no local reference or names no definition.
pub open spec fn variant_group(item: JsonView, definitions: Seq<(Seq<char>, JsonView)>) -> Option<
    Seq<JsonView>,
> {
    match reference_of(item) {
        Some(reference) => match definition_name(reference) {
            Some(name) => match lookup(definitions, name) {
                Some(target) => Some(alternatives_of(target)),
                None => None,
            },
            None => None,
        },
        None => None,
    }
}

/// Whether every item is a reference to a definition.
pub open spec fn all_resolved(
    items: Seq<JsonView>,
    definitions: Seq<(Seq<char>, JsonView)>,
) -> bool {
    forall|i: int|
        0 <= i < items.len() ==> (#[trigger] variant_group(items[i], definitions)) is Some
}

/// Each alternative of `combined` merged with `variant`, in order; pairs
/// that do not merge are left out.
pub open spec fn merged_with(combined: Seq<JsonView>, variant: JsonView) -> Seq<JsonView>
    decreases combined.len(),
{
    if combined.len() == 0 {
        Seq::empty()
    } else {
        match merged(combined.last(), variant) {
            Some(m) => merged_with(combined.drop_last(), variant).push(m),
            None => merged_with(combined.drop_last(), variant),
        }
    }
}

/// The alternatives of `combined` merged with those of `group`: for each
/// alternative of `group` in turn, every alternative of `combined`.
pub open spec fn product_step(combined: Seq<JsonView>, group: Seq<JsonView>) -> Seq<JsonView>
    decreases group.len(),
{
    if group.len() == 0 {
        Seq::empty()
    } else {
        product_step(combined, group.drop_last()) + merged_with(combined, group.last())
    }
}

/// The product of the variant groups of the first `count` references,
/// taken left to right from a single empty object.
pub open spec fn product(
    items: Seq<JsonView>,
    definitions: Seq<(Seq<char>, JsonView)>,
    count: int,
) -> Seq<JsonView>
    decreases count,
{
    if count <= 0 {
        seq![JsonView::Object(Seq::empty())]
    } else {
        match variant_group(items[count - 1], definitions) {
            Some(group) => product_step(product(items, definitions, count - 1), group),
            None => Seq::empty(),
        }
    }
}

/// The entry that keeps the title of an expanded definition.
pub open spec fn kept_title(schema: JsonView) -> Seq<(Seq<char>, JsonView)> {
    match schema.get("title"@) {
        Some(title) => seq![("title"@, title)],
        None => Seq::empty(),
    }
}

/// The union that replaces a definition whose `allOf` holds two or more
/// references to definitions, and nothing else: a `oneOf` of the product of
/// the referenced alternatives, with the definition's title. `None` for any
/// other schema.
pub open spec fn expansion(schema: JsonView, definitions: Seq<(Seq<char>, JsonView)>) -> Option<
    JsonView,
> {
    match schema.get("allOf"@) {
        Some(JsonView::Array(items)) => if items.len() >= 2 && all_resolved(items, definitions) {
            Some(
                JsonView::Object(
                    seq![
                        (
                            "oneOf"@,
                            JsonView::Array(product(items, definitions, items.len() as int)),
                        ),
                    ] + kept_title(schema),
                ),
            )
        } else {
            None
        },
        _ => None,
    }
}

/// The alternatives of the definition that `item` refers to.
fn resolve_group(item: &Json, definitions: &Vec<(String, Json)>) -> (r: Option<Vec<Json>>)
    ensures
        match r {
            Some(group) => variant_group(item@, entries_view(definitions@)) == Some(
                items_view(group@),
            ),
            None => variant_group(item@, entries_view(definitions@)) is None,
        },
{
    let reference = match item.get("$ref") {
        Some(target) => match target.as_str() {
            Some(text) => to_chars(text),
            None => {
                return None;
            },
        },
        None => {
            return None;
        },
    };
    let prefix = to_chars("#/definitions/");
    if !starts_with(&reference, &prefix) {
        return None;
    }
    let name = to_string(&crate::text::slice(&reference, prefix.len(), reference.len()));
    match get_entry(definitions, name.as_str()) {
        Some(target) => {
            match member_items(target, "oneOf") {
                Some(alternatives) => Some(clone_items(alternatives)),
                None => {
                    let mut group: Vec<Json> = Vec::new();
                    group.push(target.clone());
                    assert(items_view(group@) =~= seq![target@]);
                    Some(group)
                },
            }
        },
        None => None,
    }
}

/// The alternatives of `combined` merged with those of `group`.
fn merge_groups(combined: &Vec<Json>, group: &Vec<Json>) -> (r: Vec<Json>)
    ensures
        items_view(r@) == product_step(items_view(combined@), items_view(group@)),
{
    let mut out: Vec<Json> = Vec::new();
    let ghost all = items_view(combined@);
    let mut j: usize = 0;
    assert(items_view(group@).take(0) =~= Seq::empty());
    assert(items_view(out@) =~= Seq::empty());
    while j < group.len()
        invariant
            j <= group.len(),
            all == items_view(combined@),
            items_view(out@) == product_step(all, items_view(group@).take(j as int)),
        decreases group.len() - j,
    {
        let ghost done = items_view(out@);
        let ghost before = items_view(group@).take(j as int);
        let ghost after = items_view(group@).take(j + 1);
        assert(after.drop_last() =~= before);
        assert(after.last() == group[j as int]@);
        let mut i: usize = 0;
        assert(all.take(0) =~= Seq::empty());
        assert(done + Seq::<JsonView>::empty() =~= done);
        while i < combined.len()
            invariant
                i <= combined.len(),
                j < group.len(),
                all == items_view(combined@),
                items_view(out@) == done + merged_with(all.take(i as int), group[j as int]@),
            decreases combined.len() - i,
        {
            let ghost seen = all.take(i as int);
            let ghost next = all.take(i + 1);
            assert(next.drop_last() =~= seen);
            assert(next.last() == combined[i as int]@);
            let ghost so_far = items_view(out@);
            match merge_variant_properties(&combined[i], &group[j]) {
                Some(m) => {
                    out.push(m);
                    assert(items_view(out@) =~= so_far.push(m@));
                    assert(done + merged_with(seen, group[j as int]@).push(m@) =~= (done
                        + merged_with(seen, group[j as int]@)).push(m@));
                },
                None => {},
            }
            i += 1;
        }
        assert(all.take(combined.len() as int) =~= all);
        j += 1;
    }
    assert(items_view(group@).take(group.len() as int) =~= items_view(group@));
    out
}

/// Expands a definition whose `allOf` holds nothing but references to
/// definitions, at least two of them, into a `oneOf` of the product of the
/// referenced alternatives. Any other schema gives `None`.
pub fn try_expand_allof(schema: &Json, definitions: &Vec<(String, Json)>) -> (r: Option<Json>)
    ensures
        match r {
            Some(expanded) => expansion(schema@, entries_view(definitions@)) == Some(expanded@),
            None => expansion(schema@, entries_view(definitions@)) is None,
        },
{
    let items = match member_items(schema, "allOf") {
        Some(items) => items,
        None => {
            return None;
        },
    };
    if items.len() < 2 {
        return None;
    }
    let ghost defs = entries_view(definitions@);
    let ghost refs = items_view(items@);
    let mut combined: Vec<Json> = Vec::new();
    combined.push(Json::object(Vec::new()));
    assert(items_view(combined@) =~= seq![JsonView::Object(Seq::empty())]) by {
        assert(entries_view(Seq::<(String, Json)>::empty()) =~= Seq::empty());
    }
    let mut i: usize = 0;
    while i < items.len()
        invariant
            i <= items.len(),
            defs == entries_view(definitions@),
            refs == items_view(items@),
            schema@.get("allOf"@) == Some(JsonView::Array(refs)),
            items_view(combined@) == product(refs, defs, i as int),
            forall|k: int| 0 <= k < i ==> (#[trigger] variant_group(refs[k], defs)) is Some,
        decreases items.len() - i,
    {
        match resolve_group(&items[i], definitions) {
            Some(group) => {
                combined = merge_groups(&combined, &group);
            },
            None => {
                assert(variant_group(refs[i as int], defs) is None);
                return None;
            },
        }
        i += 1;
    }
    let mut result = single_entry("oneOf", Json::array(combined));
    match schema.get("title") {
        Some(title) => {
            result = concat_entries(result, single_entry("title", title.clone()));
        },
        None => {
            assert(entries_view(result@) + Seq::<(Seq<char>, JsonView)>::empty() =~= entries_view(
                result@,
            ));
        },
    }
    Some(Json::object(result))
}

/// The strings that stand for a list of names are those names.
pub proof fn lemma_string_items_of_names(names: Seq<Seq<char>>)
    ensures
        string_items(name_items(names)) == names,
    decreases names.len(),
{
    if names.len() == 0 {
        assert(string_items(name_items(names)) =~= names);
    } else {
        let items = name_items(names);
        assert(items.drop_last() =~= name_items(names.drop_last()));
        lemma_string_items_of_names(names.drop_last());
        assert(string_items(items) =~= names);
    }
}

/// Adding names one by one keeps every name and adds no other.
pub proof fn lemma_with_names_set(base: Seq<Seq<char>>, more: Seq<Seq<char>>)
    ensures
        with_names(base, more).to_set() == base.to_set().union(more.to_set()),
        base.no_duplicates() ==> with_names(base, more).no_duplicates(),
    decreases more.len(),
{
    if more.len() == 0 {
        assert(with_names(base, more).to_set() =~= base.to_set().union(more.to_set()));
    } else {
        let front = more.drop_last();
        let name = more.last();
        lemma_with_names_set(base, front);
        let so_far = with_names(base, front);
        let all = with_name(so_far, name);
        assert forall|n: Seq<char>| all.to_set().contains(n) <==> base.to_set().union(
            more.to_set(),
        ).contains(n) by {
            if all.contains(n) {
                let i = choose|i: int| 0 <= i < all.len() && all[i] == n;
                if i < so_far.len() {
                    assert(so_far.contains(n));
                    assert(so_far.to_set().contains(n));
                    if front.to_set().contains(n) {
                        let k = choose|k: int| 0 <= k < front.len() && front[k] == n;
                        assert(more[k] == n);
                    }
                } else {
                    assert(n == name);
                    assert(more[more.len() - 1] == n);
                }
            }
            if base.contains(n) {
                assert(so_far.to_set().contains(n));
                let i = choose|i: int| 0 <= i < so_far.len() && so_far[i] == n;
                assert(all[i] == n);
            }
            if more.contains(n) {
                let k = choose|k: int| 0 <= k < more.len() && more[k] == n;
                if k < front.len() {
                    assert(front[k] == n);
                    assert(front.to_set().contains(n));
                    assert(so_far.to_set().contains(n));
                    let i = choose|i: int| 0 <= i < so_far.len() && so_far[i] == n;
                    assert(all[i] == n);
                } else {
                    if so_far.contains(n) {
                        let i = choose|i: int| 0 <= i < so_far.len() && so_far[i] == n;
                        assert(all[i] == n);
                    } else {
                        assert(all[so_far.len() as int] == n);
                    }
                }
            }
        }
        assert(all.to_set() =~= base.to_set().union(more.to_set()));
    }
}

/// What a merged alternative holds: the merged properties, each required
/// name once, the combined title, and the type `object`.
pub proof fn lemma_merged_members(first: JsonView, second: JsonView)
    requires
        first is Object,
        second is Object,
    ensures
        merged(first, second) is Some,
        merged(first, second)->0 is Object,
        object_member(merged(first, second)->0, "properties"@) == merged_properties(
            first,
            second,
        ),
        required_names(merged(first, second)->0) == merged_required(first, second),
        text_member(merged(first, second)->0, "title"@) == merged_title(first, second),
        merged(first, second)->0.get("type"@) == Some(JsonView::String("object"@)),
{
    reveal_strlit("properties");
    reveal_strlit("required");
    reveal_strlit("title");
    reveal_strlit("type");
    assert("properties"@.len() == 10);
    assert("required"@.len() == 8);
    assert("title"@.len() == 5);
    assert("type"@.len() == 4);
    let properties = object_entry("properties"@, merged_properties(first, second));
    let required = names_entry("required"@, merged_required(first, second));
    let title = text_entry("title"@, merged_title(first, second));
    let kind = seq![("type"@, JsonView::String("object"@))];
    let keys = seq!["properties"@, "required"@, "title"@, "type"@];
    assert forall|k: int| 0 <= k < keys.len() implies {
        let key = #[trigger] keys[k];
        &&& lookup(properties, key) == if key == "properties"@ && properties.len() > 0 {
            Some(JsonView::Object(merged_properties(first, second)))
        } else {
            None
        }
        &&& lookup(required, key) == if key == "required"@ && required.len() > 0 {
            Some(JsonView::Array(name_items(merged_required(first, second))))
        } else {
            None
        }
        &&& lookup(title, key) == if key == "title"@ && title.len() > 0 {
            Some(JsonView::String(merged_title(first, second)))
        } else {
            None
        }
        &&& lookup(kind, key) == if key == "type"@ {
            Some(JsonView::String("object"@))
        } else {
            None
        }
    } by {
        let key = keys[k];
        lemma_lookup_single("properties"@, JsonView::Object(merged_properties(first, second)), key);
        lemma_lookup_single(
            "required"@,
            JsonView::Array(name_items(merged_required(first, second))),
            key,
        );
        lemma_lookup_single("title"@, JsonView::String(merged_title(first, second)), key);
        lemma_lookup_single("type"@, JsonView::String("object"@), key);
    }
    assert forall|k: int| 0 <= k < keys.len() implies {
        let key = #[trigger] keys[k];
        lookup(properties + required + title + kind, key) == if lookup(kind, key) is Some {
            lookup(kind, key)
        } else if lookup(title, key) is Some {
            lookup(title, key)
        } else if lookup(required, key) is Some {
            lookup(required, key)
        } else {
            lookup(properties, key)
        }
    } by {
        let key = keys[k];
        lemma_lookup_concat(properties + required + title, kind, key);
        lemma_lookup_concat(properties + required, title, key);
        lemma_lookup_concat(properties, required, key);
    }
    assert(keys[0] == "properties"@);
    assert(keys[1] == "required"@);
    assert(keys[2] == "title"@);
    assert(keys[3] == "type"@);
    lemma_string_items_of_names(merged_required(first, second));
    assert(string_items(Seq::<JsonView>::empty()) =~= Seq::<Seq<char>>::empty());
}

/// Whether every alternative is an object schema.
pub open spec fn all_objects(alternatives: Seq<JsonView>) -> bool {
    forall|i: int| 0 <= i < alternatives.len() ==> (#[trigger] alternatives[i]) is Object
}

/// Merging object alternatives with an object leaves none out.
pub proof fn lemma_merged_with_objects(combined: Seq<JsonView>, variant: JsonView)
    requires
        all_objects(combined),
        variant is Object,
    ensures
        merged_with(combined, variant).len() == combined.len(),
        forall|i: int|
            0 <= i < combined.len() ==> merged(combined[i], variant) == Some(
                #[trigger] merged_with(combined, variant)[i],
            ),
        all_objects(merged_with(combined, variant)),
    decreases combined.len(),
{
    if combined.len() > 0 {
        let front = combined.drop_last();
        assert(all_objects(front)) by {
            assert forall|i: int| 0 <= i < front.len() implies (#[trigger] front[i]) is Object by {
                assert(front[i] == combined[i]);
            }
        }
        lemma_merged_with_objects(front, variant);
        assert(combined.last() is Object);
        assert forall|i: int| 0 <= i < combined.len() implies merged(combined[i], variant)
            == Some(#[trigger] merged_with(combined, variant)[i]) by {
            if i < front.len() {
                assert(front[i] == combined[i]);
                assert(merged_with(combined, variant)[i] == merged_with(front, variant)[i]);
            }
        }
        assert forall|i: int| 0 <= i < merged_with(combined, variant).len() implies (
        #[trigger] merged_with(combined, variant)[i]) is Object by {
            assert(merged(combined[i], variant) == Some(merged_with(combined, variant)[i]));
        }
    }
}

/// Where `j * m + i` lies among `n` rows of `m` places.
proof fn lemma_row_index(m: int, n: int, i: int, j: int)
    requires
        0 <= i < m,
        0 <= j < n,
    ensures
        0 <= j * m + i < m * n,
        m * (n - 1) + m == m * n,
        j < n - 1 ==> j * m + i < m * (n - 1),
        j == n - 1 ==> j * m + i == m * (n - 1) + i,
{
    assert(0 <= j * m + i < m * n) by (nonlinear_arith)
        requires
            0 <= i < m,
            0 <= j < n,
    ;
    assert(m * (n - 1) + m == m * n) by (nonlinear_arith);
    if j < n - 1 {
        assert(j * m + i < m * (n - 1)) by (nonlinear_arith)
            requires
                0 <= i < m,
                0 <= j < n - 1,
        ;
    } else {
        assert(j * m + i == m * (n - 1) + i) by (nonlinear_arith)
            requires
                j == n - 1,
        ;
    }
}

/// The product of `m` object alternatives with a group of `n` object
/// alternatives has exactly `m * n` alternatives: for the `j`-th of the
/// group and the `i`-th of the others, the one at `j * m + i` is the two
/// merged.
pub proof fn lemma_product_step_objects(combined: Seq<JsonView>, group: Seq<JsonView>)
    requires
        all_objects(combined),
        all_objects(group),
    ensures
        product_step(combined, group).len() == combined.len() * group.len(),
        forall|i: int, j: int|
            0 <= i < combined.len() && 0 <= j < group.len() ==> 0 <= j * combined.len() + i
                < product_step(combined, group).len() && #[trigger] merged(combined[i], group[j])
                == Some(product_step(combined, group)[j * combined.len() + i]),
        all_objects(product_step(combined, group)),
    decreases group.len(),
{
    let m = combined.len() as int;
    let n = group.len() as int;
    if n == 0 {
        assert(m * 0 == 0) by (nonlinear_arith);
    } else {
        let front = group.drop_last();
        assert(all_objects(front)) by {
            assert forall|j: int| 0 <= j < front.len() implies (#[trigger] front[j]) is Object by {
                assert(front[j] == group[j]);
            }
        }
        lemma_product_step_objects(combined, front);
        assert(group.last() is Object);
        lemma_merged_with_objects(combined, group.last());
        let before = product_step(combined, front);
        let added = merged_with(combined, group.last());
        let all = product_step(combined, group);
        assert(all == before + added);
        assert(before.len() == m * (n - 1));
        assert(added.len() == m);
        assert(m * (n - 1) + m == m * n) by (nonlinear_arith);
        assert(all.len() == m * n);
        assert forall|i: int, j: int| 0 <= i < m && 0 <= j < n implies 0 <= j * m + i < all.len()
            && #[trigger] merged(combined[i], group[j]) == Some(all[j * m + i]) by {
            lemma_row_index(m, n, i, j);
            let k = j * m + i;
            if j < n - 1 {
                assert(front[j] == group[j]);
                assert(merged(combined[i], front[j]) == Some(before[k]));
                assert(all[k] == before[k]);
            } else {
                assert(merged(combined[i], group.last()) == Some(added[i]));
                assert(all[k] == added[k - before.len()]);
            }
        }
        assert forall|k: int| 0 <= k < all.len() implies (#[trigger] all[k]) is Object by {
            if k < before.len() {
                assert(before[k] is Object);
            } else {
                assert(added[k - before.len()] is Object);
            }
        }
    }
}

/// The names that a schema requires, as a set.
pub open spec fn required_set(schema: JsonView) -> Set<Seq<char>> {
    required_names(schema).to_set()
}

/// Intersecting two references whose targets have `m` and `n` object
/// alternatives gives a union of exactly `m * n` alternatives. For the
/// `i`-th alternative of the first and the `j`-th of the second, the
/// alternative at `j * m + i` is an object schema that requires the names
/// that either of the two requires, and is titled by the second's title
/// followed by the first's.
pub proof fn lemma_expansion_of_two_references(
    schema: JsonView,
    definitions: Seq<(Seq<char>, JsonView)>,
    first: Seq<JsonView>,
    second: Seq<JsonView>,
)
    requires
        schema.get("allOf"@) matches Some(JsonView::Array(items)) && items.len() == 2
            && variant_group(items[0], definitions) == Some(first) && variant_group(
            items[1],
            definitions,
        ) == Some(second),
        all_objects(first),
        all_objects(second),
    ensures
        expansion(schema, definitions) matches Some(union) && union.get("oneOf"@) matches Some(
            JsonView::Array(variants),
        ) && {
            &&& variants.len() == first.len() * second.len()
            &&& forall|i: int, j: int|
                0 <= i < first.len() && 0 <= j < second.len() ==> 0 <= #[trigger] (j
                    * first.len() + i) < variants.len()
            &&& forall|i: int, j: int|
                0 <= i < first.len() && 0 <= j < second.len() ==> {
                    let variant = #[trigger] variants[j * first.len() + i];
                    &&& required_set(variant) == required_set(first[i]).union(
                        required_set(second[j]),
                    )
                    &&& text_member(variant, "title"@) == text_member(second[j], "title"@)
                        + text_member(first[i], "title"@)
                    &&& variant.get("type"@) == Some(JsonView::String("object"@))
                }
        },
{
    let items = schema.get("allOf"@)->0->Array_0;
    let start = seq![JsonView::Object(Seq::empty())];
    let empty = JsonView::Object(Seq::empty());
    assert(product(items, definitions, 0) == start);
    assert(product(items, definitions, 1) == product_step(start, first));
    assert(product(items, definitions, 2) == product_step(product_step(start, first), second));
    assert(all_resolved(items, definitions));
    assert(all_objects(start));
    lemma_product_step_objects(start, first);
    let singles = product_step(start, first);
    lemma_product_step_objects(singles, second);
    let variants = product_step(singles, second);
    let m = first.len() as int;
    assert(singles.len() == m) by (nonlinear_arith)
        requires
            singles.len() == 1 * m,
    ;
    // The members of the union.
    reveal_strlit("oneOf");
    reveal_strlit("title");
    assert("oneOf"@.len() == 5);
    assert("title"@[0] == 't');
    assert("oneOf"@[0] == 'o');
    let union_entries = seq![("oneOf"@, JsonView::Array(variants))] + kept_title(schema);
    lemma_lookup_concat(seq![("oneOf"@, JsonView::Array(variants))], kept_title(schema), "oneOf"@);
    lemma_lookup_single("oneOf"@, JsonView::Array(variants), "oneOf"@);
    match schema.get("title"@) {
        Some(title) => {
            lemma_lookup_single("title"@, title, "oneOf"@);
        },
        None => {
            lemma_lookup_single("title"@, JsonView::Null, "oneOf"@);
        },
    }
    assert forall|i: int, j: int| 0 <= i < first.len() && 0 <= j < second.len() implies 0
        <= #[trigger] (j * first.len() + i) < variants.len() by {
        assert(merged(singles[i], second[j]) == Some(variants[j * singles.len() + i]));
    }
    assert forall|i: int, j: int| 0 <= i < first.len() && 0 <= j < second.len() implies {
        let variant = #[trigger] variants[j * first.len() + i];
        &&& required_set(variant) == required_set(first[i]).union(required_set(second[j]))
        &&& text_member(variant, "title"@) == text_member(second[j], "title"@) + text_member(
            first[i],
            "title"@,
        )
        &&& variant.get("type"@) == Some(JsonView::String("object"@))
    } by {
        // The first step merges each alternative of the first group with the empty object.
        assert(merged(start[0], first[i]) == Some(singles[i * 1 + 0]));
        assert(i * 1 + 0 == i);
        let single = singles[i];
        lemma_merged_members(empty, first[i]);
        lemma_lookup_single("required"@, JsonView::Null, "required"@);
        lemma_lookup_single("title"@, JsonView::Null, "title"@);
        assert(string_items(Seq::<JsonView>::empty()) =~= Seq::<Seq<char>>::empty());
        assert(required_names(empty) =~= Seq::<Seq<char>>::empty());
        assert(text_member(empty, "title"@) =~= Seq::<char>::empty());
        assert(merged_title(empty, first[i]) =~= text_member(first[i], "title"@));
        lemma_with_names_set(Seq::empty(), required_names(empty));
        lemma_with_names_set(
            with_names(Seq::empty(), required_names(empty)),
            required_names(first[i]),
        );
        assert(required_set(single) =~= required_set(first[i]));
        // The second step merges it with each alternative of the second group.
        assert(merged(singles[i], second[j]) == Some(variants[j * singles.len() + i]));
        let variant = variants[j * first.len() + i];
        lemma_merged_members(single, second[j]);
        lemma_with_names_set(Seq::empty(), required_names(single));
        lemma_with_names_set(
            with_names(Seq::empty(), required_names(single)),
            required_names(second[j]),
        );
        assert(required_set(variant) =~= required_set(first[i]).union(required_set(second[j])));
    }
}

/// `definitions` with the definition under `key` expanded, where it is an
/// intersection of references.
pub open spec fn expand_key(definitions: Seq<(Seq<char>, JsonView)>, key: Seq<char>) -> Seq<
    (Seq<char>, JsonView),
> {
    match lookup(definitions, key) {
        Some(definition) => match expansion(definition, definitions) {
            Some(union) => with_entry(definitions, key, union),
            None => definitions,
        },
        None => definitions,
    }
}

/// `definitions` with the definitions under `keys` expanded one after the
/// other, each against the definitions as the earlier steps left them.
pub open spec fn expand_keys(
    definitions: Seq<(Seq<char>, JsonView)>,
    keys: Seq<Seq<char>>,
) -> Seq<(Seq<char>, JsonView)>
    decreases keys.len(),
{
    if keys.len() == 0 {
        definitions
    } else {
        expand_key(expand_keys(definitions, keys.drop_last()), keys.last())
    }
}

/// The entries of an object with every value expanded.
pub open spec fn expanded_entries(entries: Seq<(Seq<char>, JsonView)>) -> Seq<
    (Seq<char>, JsonView),
>
    decreases entries,
{
    Seq::new(
        entries.len(),
        |i: int|
            (
                entries[i].0,
                if 0 <= i < entries.len() {
                    expanded(entries[i].1)
                } else {
                    JsonView::Null
                },
            ),
    )
}

/// The schema with every intersection of references expanded: in each
/// object, first the values of all its entries, then the definitions that
/// it holds under `definitions`, in the order of their keys. Arrays and
/// their items are left as they are.
pub open spec fn expanded(schema: JsonView) -> JsonView
    decreases schema,
{
    match schema {
        JsonView::Object(entries) => {
            let inner = expanded_entries(entries);
            match lookup(inner, "definitions"@) {
                Some(JsonView::Object(definitions)) => JsonView::Object(
                    with_entry(
                        inner,
                        "definitions"@,
                        JsonView::Object(expand_keys(definitions, keys_of(definitions))),
                    ),
                ),
                _ => JsonView::Object(inner),
            }
        },
        _ => schema,
    }
}

/// Expands every definition that is an intersection of references, in the
/// order of the keys.
fn expand_definitions(definitions: &mut Vec<(String, Json)>)
    ensures
        entries_view(final(definitions)@) == expand_keys(
            entries_view(old(definitions)@),
            keys_of(entries_view(old(definitions)@)),
        ),
{
    let ghost start = entries_view(definitions@);
    let ghost all_keys = keys_of(start);
    let mut keys: Vec<String> = Vec::new();
    let mut k: usize = 0;
    while k < definitions.len()
        invariant
            k <= definitions.len(),
            keys.len() == k,
            forall|j: int| 0 <= j < k ==> keys[j]@ == definitions[j].0@,
        decreases definitions.len() - k,
    {
        keys.push(definitions[k].0.clone());
        k += 1;
    }
    assert(strings_view(keys@) =~= all_keys);
    let mut i: usize = 0;
    assert(all_keys.take(0) =~= Seq::empty());
    while i < keys.len()
        invariant
            i <= keys.len(),
            strings_view(keys@) == all_keys,
            entries_view(definitions@) == expand_keys(start, all_keys.take(i as int)),
        decreases keys.len() - i,
    {
        let ghost before = all_keys.take(i as int);
        let ghost after = all_keys.take(i + 1);
        assert(after.drop_last() =~= before);
        assert(after.last() == keys[i as int]@);
        let union = match get_entry(definitions, keys[i].as_str()) {
            Some(definition) => try_expand_allof(definition, definitions),
            None => None,
        };
        match union {
            Some(value) => set_entry(definitions, keys[i].clone(), value),
            None => {},
        }
        i += 1;
    }
    assert(all_keys.take(keys.len() as int) =~= all_keys);
}

/// A copy of the schema with every intersection of references expanded.
#[verifier::loop_isolation(false)]
fn expand(schema: &Json) -> (r: Json)
    ensures
        r@ == expanded(schema@),
    decreases schema,
{
    match schema {
        Json::Object(entries) => {
            assert(schema@->Object_0 =~= entries_view(entries@));
            let mut inner: Vec<(String, Json)> = Vec::new();
            let mut i: usize = 0;
            while i < entries.len()
                invariant
                    i <= entries.len(),
                    inner.len() == i,
                    forall|j: int|
                        0 <= j < i ==> inner[j].0@ == entries[j].0@ && inner[j].1@ == expanded(
                            entries[j].1@,
                        ),
                decreases entries.len() - i,
            {
                inner.push((entries[i].0.clone(), expand(&entries[i].1)));
                i += 1;
            }
            assert(entries_view(inner@) =~= expanded_entries(entries_view(entries@)));
            let found = match get_entry(&inner, "definitions") {
                Some(member) => match member.as_object() {
                    Some(definitions) => Some(clone_entries(definitions)),
                    None => None,
                },
                None => None,
            };
            match found {
                Some(copy) => {
                    let mut definitions = copy;
                    expand_definitions(&mut definitions);
                    set_entry(&mut inner, "definitions".to_string(), Json::object(definitions));
                },
                None => {},
            }
            Json::object(inner)
        },
        _ => schema.clone(),
    }
}

/// Expands every definition that is an intersection of two or more
/// references into the union of the merged alternatives.
pub fn expand_allof_refs(schema: &mut Json)
    ensures
        final(schema)@ == expanded(old(schema)@),
{
    let result = expand(schema);
    *schema = result;
}

/// The schema of a string that can only be `literal`, and is `literal`
/// where it is left out.
pub open spec fn defaulted_enum(literal: JsonView) -> JsonView {
    JsonView::Object(
        seq![
            ("type"@, JsonView::String("string"@)),
            ("enum"@, JsonView::Array(seq![literal])),
            ("default"@, literal),
        ],
    )
}

/// The literal that an object schema fixes its discriminator to: the
/// `const` of the property named by the discriminator key.
pub open spec fn discriminator_literal(entries: Seq<(Seq<char>, JsonView)>) -> Option<JsonView> {
    match lookup(entries, "properties"@) {
        Some(JsonView::Object(properties)) => match lookup(properties, discriminator_key()) {
            Some(JsonView::Object(property)) => lookup(property, "const"@),
            _ => None,
        },
        _ => None,
    }
}

/// The items that are not the string `text`.
pub open spec fn without_text(items: Seq<JsonView>, text: Seq<char>) -> Seq<JsonView>
    decreases items.len(),
{
    if items.len() == 0 {
        Seq::empty()
    } else if items.last() == JsonView::String(text) {
        without_text(items.drop_last(), text)
    } else {
        without_text(items.drop_last(), text).push(items.last())
    }
}

/// The entries of an object schema with a literal discriminator turned into
/// a defaulted enumeration: the discriminator property becomes
/// `defaulted_enum` of its literal, and the discriminator key leaves the
/// `required` array. Entries without a literal discriminator stay as they are.
pub open spec fn with_defaulted_discriminator(entries: Seq<(Seq<char>, JsonView)>) -> Seq<
    (Seq<char>, JsonView),
> {
    match discriminator_literal(entries) {
        Some(literal) => {
            let properties = object_member(JsonView::Object(entries), "properties"@);
            let rewritten = with_entry(
                entries,
                "properties"@,
                JsonView::Object(
                    with_entry(properties, discriminator_key(), defaulted_enum(literal)),
                ),
            );
            match lookup(rewritten, "required"@) {
                Some(JsonView::Array(required)) => with_entry(
                    rewritten,
                    "required"@,
                    JsonView::Array(without_text(required, discriminator_key())),
                ),
                _ => rewritten,
            }
        },
        None => entries,
    }
}

/// The entries of an object with every value normalized.
pub open spec fn normalized_entries(entries: Seq<(Seq<char>, JsonView)>) -> Seq<
    (Seq<char>, JsonView),
>
    decreases entries,
{
    Seq::new(
        entries.len(),
        |i: int|
            (
                entries[i].0,
                if 0 <= i < entries.len() {
                    normalized(entries[i].1)
                } else {
                    JsonView::Null
                },
            ),
    )
}

/// The items of an array, each normalized.
pub open spec fn normalized_items(items: Seq<JsonView>) -> Seq<JsonView>
    decreases items,
{
    Seq::new(
        items.len(),
        |i: int|
            if 0 <= i < items.len() {
                normalized(items[i])
            } else {
                JsonView::Null
            },
    )
}

/// The schema with every literal discriminator turned into a defaulted
/// enumeration, in every object at any depth.
pub open spec fn normalized(schema: JsonView) -> JsonView
    decreases schema,
{
    match schema {
        JsonView::Object(entries) => JsonView::Object(
            with_defaulted_discriminator(normalized_entries(entries)),
        ),
        JsonView::Array(items) => JsonView::Array(normalized_items(items)),
        _ => schema,
    }
}

/// The items that are not the string `text`.
fn retain_other_than(items: &Vec<Json>, text: &str) -> (r: Vec<Json>)
    ensures
        items_view(r@) == without_text(items_view(items@), text@),
{
    let mut out: Vec<Json> = Vec::new();
    let mut i: usize = 0;
    assert(items_view(items@).take(0) =~= Seq::empty());
    assert(items_view(out@) =~= Seq::empty());
    while i < items.len()
        invariant
            i <= items.len(),
            items_view(out@) == without_text(items_view(items@).take(i as int), text@),
        decreases items.len() - i,
    {
        let ghost before = items_view(items@).take(i as int);
        let ghost after = items_view(items@).take(i + 1);
        assert(after.drop_last() =~= before);
        assert(after.last() == items[i as int]@);
        let is_text = match items[i].as_str() {
            Some(found) => str_eq(found, text),
            None => false,
        };
        if !is_text {
            let ghost kept = items_view(out@);
            out.push(items[i].clone());
            assert(items_view(out@) =~= kept.push(items[i as int]@));
        }
        i += 1;
    }
    assert(items_view(items@).take(items.len() as int) =~= items_view(items@));
    out
}

/// The schema of a string that can only be `literal`.
fn defaulted_enum_of(literal: &Json) -> (r: Json)
    ensures
        r@ == defaulted_enum(literal@),
{
    let mut only: Vec<Json> = Vec::new();
    only.push(literal.clone());
    assert(items_view(only@) =~= seq![literal@]);
    let entries = concat_entries(
        concat_entries(
            single_entry("type", Json::string("string")),
            single_entry("enum", Json::array(only)),
        ),
        single_entry("default", literal.clone()),
    );
    assert(entries_view(entries@) =~= defaulted_enum(literal@)->Object_0);
    Json::object(entries)
}

/// Turns the literal discriminator of an object schema, if it has one, into
/// a defaulted enumeration.
fn default_discriminator(entries: &mut Vec<(String, Json)>)
    ensures
        entries_view(final(entries)@) == with_defaulted_discriminator(entries_view(old(entries)@)),
{
    let ghost start = entries_view(entries@);
    let found = match get_entry(entries, "properties") {
        Some(member) => match member.as_object() {
            Some(properties) => match get_entry(properties, "request_type") {
                Some(property) => match property.as_object() {
                    Some(constraints) => match get_entry(constraints, "const") {
                        Some(literal) => Some((clone_entries(properties), literal.clone())),
                        None => None,
                    },
                    None => None,
                },
                None => None,
            },
            None => None,
        },
        None => None,
    };
    match found {
        Some((copy, literal)) => {
            assert(discriminator_literal(start) == Some(literal@));
            let mut properties = copy;
            set_entry(&mut properties, "request_type".to_string(), defaulted_enum_of(&literal));
            set_entry(entries, "properties".to_string(), Json::object(properties));
            let required = match get_entry(entries, "required") {
                Some(member) => match member.as_array() {
                    Some(items) => Some(retain_other_than(items, "request_type")),
                    None => None,
                },
                None => None,
            };
            match required {
                Some(items) => set_entry(entries, "required".to_string(), Json::array(items)),
                None => {},
            }
        },
        None => {
            assert(discriminator_literal(start) is None);
        },
    }
}

/// A copy of the schema with every literal discriminator turned into a
/// defaulted enumeration.
#[verifier::loop_isolation(false)]
fn normalize(schema: &Json) -> (r: Json)
    ensures
        r@ == normalized(schema@),
    decreases schema,
{
    match schema {
        Json::Object(entries) => {
            assert(schema@->Object_0 =~= entries_view(entries@));
            let mut inner: Vec<(String, Json)> = Vec::new();
            let mut i: usize = 0;
            while i < entries.len()
                invariant
                    i <= entries.len(),
                    inner.len() == i,
                    forall|j: int|
                        0 <= j < i ==> inner[j].0@ == entries[j].0@ && inner[j].1@ == normalized(
                            entries[j].1@,
                        ),
                decreases entries.len() - i,
            {
                inner.push((entries[i].0.clone(), normalize(&entries[i].1)));
                i += 1;
            }
            assert(entries_view(inner@) =~= normalized_entries(entries_view(entries@)));
            default_discriminator(&mut inner);
            Json::object(inner)
        },
        Json::Array(items) => {
            assert(schema@->Array_0 =~= items_view(items@));
            let mut inner: Vec<Json> = Vec::new();
            let mut i: usize = 0;
            while i < items.len()
                invariant
                    i <= items.len(),
                    inner.len() == i,
                    forall|j: int| 0 <= j < i ==> inner[j]@ == normalized(items[j]@),
                decreases items.len() - i,
            {
                inner.push(normalize(&items[i]));
                i += 1;
            }
            assert(items_view(inner@) =~= normalized_items(items_view(items@)));
            Json::array(inner)
        },
        _ => schema.clone(),
    }
}

/// Turns every literal discriminator into a defaulted enumeration: in each
/// object schema whose property named by the discriminator key carries a
/// `const`, that property becomes a string with the one value and default,
/// and the key leaves the `required` array.
pub fn convert_const_to_defaulted_enum(schema: &mut Json)
    ensures
        final(schema)@ == normalized(old(schema)@),
{
    let result = normalize(schema);
    *schema = result;
}

/// Whether no object of the schema, at any depth, has a literal discriminator.
pub open spec fn is_normal(schema: JsonView) -> bool
    decreases schema,
{
    match schema {
        JsonView::Object(entries) => discriminator_literal(entries) is None && forall|i: int|
            0 <= i < entries.len() ==> is_normal(#[trigger] entries[i].1),
        JsonView::Array(items) => forall|i: int|
            0 <= i < items.len() ==> is_normal(#[trigger] items[i]),
        _ => true,
    }
}

/// A schema without literal discriminators is left as it is.
pub proof fn lemma_normal_is_fixed(schema: JsonView)
    requires
        is_normal(schema),
    ensures
        normalized(schema) == schema,
    decreases schema,
{
    match schema {
        JsonView::Object(entries) => {
            assert forall|i: int| 0 <= i < entries.len() implies normalized_entries(entries)[i]
                == entries[i] by {
                assert(is_normal(entries[i].1));
                lemma_normal_is_fixed(entries[i].1);
            }
            assert(normalized_entries(entries) =~= entries);
        },
        JsonView::Array(items) => {
            assert forall|i: int| 0 <= i < items.len() implies normalized_items(items)[i]
                == items[i] by {
                assert(is_normal(items[i]));
                lemma_normal_is_fixed(items[i]);
            }
            assert(normalized_items(items) =~= items);
        },
        _ => {},
    }
}

/// What is left of a list of items without literal discriminators has none.
proof fn lemma_without_text_normal(items: Seq<JsonView>, text: Seq<char>)
    requires
        forall|i: int| 0 <= i < items.len() ==> is_normal(#[trigger] items[i]),
    ensures
        forall|i: int|
            0 <= i < without_text(items, text).len() ==> is_normal(
                #[trigger] without_text(items, text)[i],
            ),
    decreases items.len(),
{
    if items.len() > 0 {
        let front = items.drop_last();
        assert forall|i: int| 0 <= i < front.len() implies is_normal(#[trigger] front[i]) by {
            assert(front[i] == items[i]);
        }
        lemma_without_text_normal(front, text);
        let kept = without_text(front, text);
        assert(is_normal(items[items.len() - 1]));
        assert forall|i: int| 0 <= i < without_text(items, text).len() implies is_normal(
            #[trigger] without_text(items, text)[i],
        ) by {
            if i < kept.len() {
                assert(is_normal(kept[i]));
            }
        }
    }
}

/// The names of the keys that the rewriting reads and writes are all different.
proof fn lemma_keys_differ()
    ensures
        "properties"@ != "request_type"@,
        "properties"@ != "required"@,
        "const"@ != "type"@,
        "const"@ != "enum"@,
        "const"@ != "default"@,
        "properties"@ != "type"@,
        "properties"@ != "enum"@,
        "properties"@ != "default"@,
{
    reveal_strlit("properties");
    reveal_strlit("request_type");
    reveal_strlit("required");
    reveal_strlit("const");
    reveal_strlit("type");
    reveal_strlit("enum");
    reveal_strlit("default");
    assert("properties"@.len() == 10);
    assert("request_type"@.len() == 12);
    assert("required"@.len() == 8);
    assert("const"@.len() == 5);
    assert("type"@.len() == 4);
    assert("enum"@.len() == 4);
    assert("default"@.len() == 7);
}

/// A defaulted enumeration of a literal without literal discriminators has none.
proof fn lemma_defaulted_enum_normal(literal: JsonView)
    requires
        is_normal(literal),
    ensures
        is_normal(defaulted_enum(literal)),
{
    lemma_keys_differ();
    let entries = defaulted_enum(literal)->Object_0;
    lemma_key_index_none(entries, "properties"@);
    assert(discriminator_literal(entries) is None);
    let only = seq![literal];
    assert forall|i: int| 0 <= i < only.len() implies is_normal(#[trigger] only[i]) by {}
    assert(is_normal(JsonView::Array(only)));
    assert forall|i: int| 0 <= i < entries.len() implies is_normal(#[trigger] entries[i].1) by {}
}

/// Turning the literal discriminator of an object into a defaulted
/// enumeration leaves no literal discriminator, where the object's values
/// had none.
proof fn lemma_defaulted_discriminator_normal(entries: Seq<(Seq<char>, JsonView)>)
    requires
        forall|i: int| 0 <= i < entries.len() ==> is_normal(#[trigger] entries[i].1),
    ensures
        is_normal(JsonView::Object(with_defaulted_discriminator(entries))),
{
    lemma_keys_differ();
    match discriminator_literal(entries) {
        None => {},
        Some(literal) => {
            let properties = lookup(entries, "properties"@)->0->Object_0;
            lemma_lookup_member(entries, "properties"@);
            let at = choose|i: int|
                0 <= i < entries.len() && #[trigger] entries[i] == (
                    "properties"@,
                    JsonView::Object(properties),
                );
            assert(is_normal(entries[at].1));
            let property = lookup(properties, discriminator_key())->0->Object_0;
            lemma_lookup_member(properties, discriminator_key());
            let at_property = choose|i: int|
                0 <= i < properties.len() && #[trigger] properties[i] == (
                    discriminator_key(),
                    JsonView::Object(property),
                );
            assert(is_normal(properties[at_property].1));
            lemma_lookup_member(property, "const"@);
            let at_literal = choose|i: int|
                0 <= i < property.len() && #[trigger] property[i] == ("const"@, literal);
            assert(is_normal(property[at_literal].1));
            lemma_defaulted_enum_normal(literal);
            let replacement = defaulted_enum(literal);
            let new_properties = with_entry(properties, discriminator_key(), replacement);
            // The rewritten properties have no literal discriminator of their own.
            lemma_with_entry_other(properties, discriminator_key(), replacement, "properties"@);
            assert(discriminator_literal(new_properties) == discriminator_literal(properties));
            assert forall|i: int| 0 <= i < new_properties.len() implies is_normal(
                #[trigger] new_properties[i].1,
            ) by {
                lemma_with_entry_members(properties, discriminator_key(), replacement, i);
                if new_properties[i] != (discriminator_key(), replacement) {
                    assert(is_normal(properties[i].1));
                }
            }
            assert(is_normal(JsonView::Object(new_properties)));
            let rewritten = with_entry(entries, "properties"@, JsonView::Object(new_properties));
            assert forall|i: int| 0 <= i < rewritten.len() implies is_normal(
                #[trigger] rewritten[i].1,
            ) by {
                lemma_with_entry_members(
                    entries,
                    "properties"@,
                    JsonView::Object(new_properties),
                    i,
                );
                if rewritten[i] != ("properties"@, JsonView::Object(new_properties)) {
                    assert(is_normal(entries[i].1));
                }
            }
            lemma_with_entry_same(entries, "properties"@, JsonView::Object(new_properties));
            lemma_with_entry_same(properties, discriminator_key(), replacement);
            lemma_key_index_none(replacement->Object_0, "const"@);
            assert(discriminator_literal(rewritten) is None);
            match lookup(rewritten, "required"@) {
                Some(JsonView::Array(required)) => {
                    lemma_lookup_member(rewritten, "required"@);
                    let at_required = choose|i: int|
                        0 <= i < rewritten.len() && #[trigger] rewritten[i] == (
                            "required"@,
                            JsonView::Array(required),
                        );
                    assert(is_normal(rewritten[at_required].1));
                    lemma_without_text_normal(required, discriminator_key());
                    let filtered = JsonView::Array(without_text(required, discriminator_key()));
                    let last = with_entry(rewritten, "required"@, filtered);
                    lemma_with_entry_other(rewritten, "required"@, filtered, "properties"@);
                    assert(discriminator_literal(last) is None);
                    assert forall|i: int| 0 <= i < last.len() implies is_normal(
                        #[trigger] last[i].1,
                    ) by {
                        lemma_with_entry_members(rewritten, "required"@, filtered, i);
                        if last[i] != ("required"@, filtered) {
                            assert(is_normal(rewritten[i].1));
                        }
                    }
                },
                _ => {},
            }
        },
    }
}

/// A normalized schema has no literal discriminator left.
pub proof fn lemma_normalized_is_normal(schema: JsonView)
    ensures
        is_normal(normalized(schema)),
    decreases schema,
{
    match schema {
        JsonView::Object(entries) => {
            let inner = normalized_entries(entries);
            assert forall|i: int| 0 <= i < inner.len() implies is_normal(#[trigger] inner[i].1) by {
                lemma_normalized_is_normal(entries[i].1);
            }
            lemma_defaulted_discriminator_normal(inner);
        },
        JsonView::Array(items) => {
            let inner = normalized_items(items);
            assert forall|i: int| 0 <= i < inner.len() implies is_normal(#[trigger] inner[i]) by {
                lemma_normalized_is_normal(items[i]);
            }
        },
        _ => {},
    }
}

/// Normalizing is idempotent: a second pass over a normalized schema changes
/// nothing.
pub proof fn lemma_normalized_idempotent(schema: JsonView)
    ensures
        normalized(normalized(schema)) == normalized(schema),
{
    lemma_normalized_is_normal(schema);
    lemma_normal_is_fixed(normalized(schema));
}

/// Why an interface description holds no schemas.
#[derive(Clone, Copy, Debug, PartialEq, Eq, Structural)]
pub enum LoadError {
    /// The document has no `components` section.
    MissingComponents,
    /// The `components` section has no `schemas`.
    MissingSchemas,
}

impl LoadError {
    /// The path of the section that is missing.
    pub open spec fn spec_path(self) -> Seq<char> {
        match self {
            LoadError::MissingComponents => "components"@,
            LoadError::MissingSchemas => "components.schemas"@,
        }
    }

    /// The path of the section that is missing.
    pub fn path(&self) -> (r: &'static str)
        ensures
            r@ == self.spec_path(),
    {
        match self {
            LoadError::MissingComponents => "components",
            LoadError::MissingSchemas => "components.schemas",
        }
    }
}

/// `text` with every reference into the schemas of an interface description
/// turned into a reference to a local definition.
pub open spec fn relocated_text(text: Seq<char>) -> Seq<char> {
    replaced(text, "#/components/schemas/"@, "#/definitions/"@)
}

/// The entries of an object with keys and values relocated.
pub open spec fn relocated_entries(entries: Seq<(Seq<char>, JsonView)>) -> Seq<
    (Seq<char>, JsonView),
>
    decreases entries,
{
    Seq::new(
        entries.len(),
        |i: int|
            (
                relocated_text(entries[i].0),
                if 0 <= i < entries.len() {
                    relocated(entries[i].1)
                } else {
                    JsonView::Null
                },
            ),
    )
}

/// The items of an array, each relocated.
pub open spec fn relocated_items(items: Seq<JsonView>) -> Seq<JsonView>
    decreases items,
{
    Seq::new(
        items.len(),
        |i: int|
            if 0 <= i < items.len() {
                relocated(items[i])
            } else {
                JsonView::Null
            },
    )
}

/// The value with every string and every key relocated, at any depth.
pub open spec fn relocated(value: JsonView) -> JsonView
    decreases value,
{
    match value {
        JsonView::String(text) => JsonView::String(relocated_text(text)),
        JsonView::Array(items) => JsonView::Array(relocated_items(items)),
        JsonView::Object(entries) => JsonView::Object(relocated_entries(entries)),
        _ => value,
    }
}

/// The schema document that holds `schemas` as its definitions.
pub open spec fn schema_document(schemas: JsonView) -> JsonView {
    JsonView::Object(
        seq![
            ("$schema"@, JsonView::String("http://json-schema.org/draft-07/schema#"@)),
            ("definitions"@, schemas),
        ],
    )
}

/// The schema document of an interface description: its
/// `components.schemas` as definitions, with every reference relocated.
pub open spec fn loaded(document: JsonView) -> Result<JsonView, LoadError> {
    match document.get("components"@) {
        Some(components) => match components.get("schemas"@) {
            Some(schemas) => Ok(relocated(schema_document(schemas))),
            None => Err(LoadError::MissingSchemas),
        },
        None => Err(LoadError::MissingComponents),
    }
}

/// `text` with every reference relocated.
fn relocate_text(text: &str) -> (r: String)
    ensures
        r@ == relocated_text(text@),
{
    let from = to_chars("#/components/schemas/");
    let to = to_chars("#/definitions/");
    to_string(&replace(&to_chars(text), &from, &to))
}

/// A copy of the value with every string and key relocated.
#[verifier::loop_isolation(false)]
fn relocate(value: &Json) -> (r: Json)
    ensures
        r@ == relocated(value@),
    decreases value,
{
    match value {
        Json::String(text) => Json::String(relocate_text(text.as_str())),
        Json::Array(items) => {
            assert(value@->Array_0 =~= items_view(items@));
            let mut inner: Vec<Json> = Vec::new();
            let mut i: usize = 0;
            while i < items.len()
                invariant
                    i <= items.len(),
                    inner.len() == i,
                    forall|j: int| 0 <= j < i ==> inner[j]@ == relocated(items[j]@),
                decreases items.len() - i,
            {
                inner.push(relocate(&items[i]));
                i += 1;
            }
            assert(items_view(inner@) =~= relocated_items(items_view(items@)));
            Json::array(inner)
        },
        Json::Object(entries) => {
            assert(value@->Object_0 =~= entries_view(entries@));
            let mut inner: Vec<(String, Json)> = Vec::new();
            let mut i: usize = 0;
            while i < entries.len()
                invariant
                    i <= entries.len(),
                    inner.len() == i,
                    forall|j: int|
                        0 <= j < i ==> inner[j].0@ == relocated_text(entries[j].0@) && inner[j].1@
                            == relocated(entries[j].1@),
                decreases entries.len() - i,
            {
                inner.push((relocate_text(entries[i].0.as_str()), relocate(&entries[i].1)));
                i += 1;
            }
            assert(entries_view(inner@) =~= relocated_entries(entries_view(entries@)));
            Json::object(inner)
        },
        _ => value.clone(),
    }
}

/// Extracts the schemas of an interface description as the definitions of
/// a schema document, and turns every reference into them into a local one.
pub fn load_schema(document: &Json) -> (r: Result<Json, LoadError>)
    ensures
        match r {
            Ok(schema) => loaded(document@) == Ok::<JsonView, LoadError>(schema@),
            Err(e) => loaded(document@) == Err::<JsonView, LoadError>(e),
        },
{
    let components = match document.get("components") {
        Some(components) => components,
        None => {
            return Err(LoadError::MissingComponents);
        },
    };
    let schemas = match components.get("schemas") {
        Some(schemas) => schemas,
        None => {
            return Err(LoadError::MissingSchemas);
        },
    };
    let entries = concat_entries(
        single_entry("$schema", Json::string("http://json-schema.org/draft-07/schema#")),
        single_entry("definitions", schemas.clone()),
    );
    assert(entries_view(entries@) =~= schema_document(schemas@)->Object_0);
    let draft = Json::object(entries);
    Ok(relocate(&draft))
}

/// The schema that the type emitter is given for an interface description:
/// loaded, with intersections of references expanded, and then with
/// literal discriminators turned into defaulted enumerations.
pub open spec fn prepared(document: JsonView) -> Result<JsonView, LoadError> {
    match loaded(document) {
        Ok(schema) => Ok(normalized(expanded(schema))),
        Err(e) => Err(e),
    }
}

/// Prepares the schemas of an interface description for the type emitter.
pub fn prepare_schema(document: &Json) -> (r: Result<Json, LoadError>)
    ensures
        match r {
            Ok(schema) => prepared(document@) == Ok::<JsonView, LoadError>(schema@),
            Err(e) => prepared(document@) == Err::<JsonView, LoadError>(e),
        },
{
    match load_schema(document) {
        Ok(loaded) => {
            let mut schema = loaded;
            expand_allof_refs(&mut schema);
            convert_const_to_defaulted_enum(&mut schema);
            Ok(schema)
        },
        Err(e) => Err(e),
    }
}

} // verus!
