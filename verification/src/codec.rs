//! The wire form of a discriminated union: a flat object of the variant's
//! fields, followed by the discriminator with the variant's literal.
//! Decoding reads the discriminator and, where several variants share its
//! literal, tells them apart by the fields that are present.

use vstd::prelude::*;
use crate::json::{
    entries_view, get_entry, lemma_key_index_is, lemma_lookup_push, lookup, Json, JsonView,
};
use crate::text::strings_view;
use crate::variant::{
    discriminator_key, distinguishing, distinguishing_fields, group_of, in_every, indices_view,
    known_literals, lemma_group_of, literals, variants_view, variants_with_literal, FieldView,
    VariantInfo, VariantView,
};

verus! {

/// A value of a discriminated union: the index of its variant and the
/// values of that variant's fields, in declared order. A field that is left
/// out when absent may have no value.
#[derive(Clone, Debug, PartialEq, Eq)]
pub struct UnionValue {
    pub variant: usize,
    pub fields: Vec<Option<Json>>,
}

/// The mathematical value of a [`UnionValue`].
pub struct UnionValueView {
    pub variant: int,
    pub fields: Seq<Option<JsonView>>,
}

/// Why a payload does not decode.
#[derive(Clone, Debug, PartialEq, Eq)]
pub enum DecodeError {
    /// The payload has no discriminator, or one that is not a string.
    MissingDiscriminator,
    /// No variant has the payload's discriminator literal. `known` holds the
    /// literals that variants have, in lexicographic order.
    UnknownVariant { literal: String, known: Vec<String> },
    /// The payload lacks a field that the selected variant requires.
    MissingField { field: String },
}

/// The mathematical value of a [`DecodeError`].
pub enum DecodeErrorView {
    MissingDiscriminator,
    UnknownVariant { literal: Seq<char>, known: Seq<Seq<char>> },
    MissingField { field: Seq<char> },
}

/// The views of a list of optional values.
pub open spec fn values_view(values: Seq<Option<Json>>) -> Seq<Option<JsonView>> {
    Seq::new(
        values.len(),
        |i: int|
            match values[i] {
                Some(value) => Some(value@),
                None => None,
            },
    )
}

impl View for UnionValue {
    type V = UnionValueView;

    open spec fn view(&self) -> UnionValueView {
        UnionValueView { variant: self.variant as int, fields: values_view(self.fields@) }
    }
}

impl View for DecodeError {
    type V = DecodeErrorView;

    open spec fn view(&self) -> DecodeErrorView {
        match self {
            DecodeError::MissingDiscriminator => DecodeErrorView::MissingDiscriminator,
            DecodeError::UnknownVariant { literal, known } => DecodeErrorView::UnknownVariant {
                literal: literal@,
                known: strings_view(known@),
            },
            DecodeError::MissingField { field } => DecodeErrorView::MissingField { field: field@ },
        }
    }
}

/// Whether `values` are values for the fields of `variant`: one for each
/// field, absent only where the field is left out when absent.
pub open spec fn fits(variant: VariantView, values: Seq<Option<JsonView>>) -> bool {
    values.len() == variant.fields.len() && forall|i: int|
        0 <= i < values.len() ==> (#[trigger] values[i]) is Some
            || variant.fields[i].omit_when_absent()
}

/// The entries for the fields that have a value, in declared order.
pub open spec fn field_entries(fields: Seq<FieldView>, values: Seq<Option<JsonView>>) -> Seq<
    (Seq<char>, JsonView),
>
    decreases fields.len(),
{
    if fields.len() == 0 || values.len() != fields.len() {
        Seq::empty()
    } else {
        match values.last() {
            Some(value) => field_entries(fields.drop_last(), values.drop_last()).push(
                (fields.last().name, value),
            ),
            None => field_entries(fields.drop_last(), values.drop_last()),
        }
    }
}

/// The wire form of a value of `variant`: the entries of its fields, then
/// the discriminator with the variant's literal.
pub open spec fn encoded(variant: VariantView, values: Seq<Option<JsonView>>) -> Seq<
    (Seq<char>, JsonView),
> {
    field_entries(variant.fields, values).push(
        (discriminator_key(), JsonView::String(variant.literal)),
    )
}

/// Whether the payload has an entry for each of `names`.
pub open spec fn all_present(names: Seq<Seq<char>>, payload: Seq<(Seq<char>, JsonView)>) -> bool {
    forall|i: int| 0 <= i < names.len() ==> lookup(payload, #[trigger] names[i]) is Some
}

/// The position in the group of the variant that the payload selects,
/// looking from position `from` on: the first variant whose distinguishing
/// fields are all present, or the last variant of the group.
pub open spec fn chosen_position(
    variants: Seq<VariantView>,
    group: Seq<int>,
    payload: Seq<(Seq<char>, JsonView)>,
    from: int,
) -> int
    decreases group.len() - from,
{
    if from >= group.len() - 1 {
        group.len() - 1
    } else if all_present(distinguishing(variants, group, variants[group[from]].fields), payload) {
        from
    } else {
        chosen_position(variants, group, payload, from + 1)
    }
}

/// The index of the variant that a payload with the discriminator `literal`
/// selects. `None` where no variant has that literal.
pub open spec fn selected(
    variants: Seq<VariantView>,
    literal: Seq<char>,
    payload: Seq<(Seq<char>, JsonView)>,
) -> Option<int> {
    let group = group_of(variants, literal);
    if group.len() == 0 {
        None
    } else {
        Some(group[chosen_position(variants, group, payload, 0)])
    }
}

/// The first of `fields`, in declared order, that the payload must have and
/// lacks.
pub open spec fn first_missing(
    fields: Seq<FieldView>,
    payload: Seq<(Seq<char>, JsonView)>,
) -> Option<Seq<char>>
    decreases fields.len(),
{
    if fields.len() == 0 {
        None
    } else if !fields[0].omit_when_absent() && lookup(payload, fields[0].name) is None {
        Some(fields[0].name)
    } else {
        first_missing(fields.drop_first(), payload)
    }
}

/// What the payload holds for each of `fields`.
pub open spec fn extracted(fields: Seq<FieldView>, payload: Seq<(Seq<char>, JsonView)>) -> Seq<
    Option<JsonView>,
> {
    Seq::new(fields.len(), |i: int| lookup(payload, fields[i].name))
}

/// The literal of the payload's discriminator, where it has one that is a
/// string.
pub open spec fn discriminator_of(payload: Seq<(Seq<char>, JsonView)>) -> Option<Seq<char>> {
    match lookup(payload, discriminator_key()) {
        Some(JsonView::String(literal)) => Some(literal),
        _ => None,
    }
}

/// The value that a payload stands for, or why it stands for none.
pub open spec fn decoded(variants: Seq<VariantView>, payload: Seq<(Seq<char>, JsonView)>) -> Result<
    UnionValueView,
    DecodeErrorView,
> {
    match discriminator_of(payload) {
        None => Err(DecodeErrorView::MissingDiscriminator),
        Some(literal) => match selected(variants, literal, payload) {
            None => Err(DecodeErrorView::UnknownVariant { literal, known: literals(variants) }),
            Some(index) => match first_missing(variants[index].fields, payload) {
                Some(field) => Err(DecodeErrorView::MissingField { field }),
                None => Ok(
                    UnionValueView {
                        variant: index,
                        fields: extracted(variants[index].fields, payload),
                    },
                ),
            },
        },
    }
}

/// The discriminator is the last entry of every wire form, and it is what
/// the wire form gives for the discriminator key, whatever the fields are
/// called and hold.
pub proof fn lemma_discriminator_injected(variant: VariantView, values: Seq<Option<JsonView>>)
    ensures
        encoded(variant, values).last() == (discriminator_key(), JsonView::String(variant.literal)),
        lookup(encoded(variant, values), discriminator_key()) == Some(
            JsonView::String(variant.literal),
        ),
        discriminator_of(encoded(variant, values)) == Some(variant.literal),
{
    let wire = encoded(variant, values);
    lemma_key_index_is(wire, discriminator_key(), wire.len() - 1);
}

/// Whether the fields of the variant have names of their own: no two
/// fields share a name, and none is called like the discriminator.
pub open spec fn distinct_names(variant: VariantView) -> bool {
    &&& forall|i: int, j: int|
        0 <= i < j < variant.fields.len() ==> variant.fields[i].name != variant.fields[j].name
    &&& forall|i: int|
        0 <= i < variant.fields.len() ==> (#[trigger] variant.fields[i]).name != discriminator_key()
}

/// The entries of the fields give nothing for a name that no field has.
proof fn lemma_field_entries_other(
    fields: Seq<FieldView>,
    values: Seq<Option<JsonView>>,
    name: Seq<char>,
)
    requires
        fields.len() == values.len(),
        forall|i: int| 0 <= i < fields.len() ==> (#[trigger] fields[i]).name != name,
    ensures
        lookup(field_entries(fields, values), name) is None,
    decreases fields.len(),
{
    if fields.len() > 0 {
        let front = fields.drop_last();
        assert forall|i: int| 0 <= i < front.len() implies (#[trigger] front[i]).name != name by {
            assert(front[i] == fields[i]);
        }
        lemma_field_entries_other(front, values.drop_last(), name);
        assert(fields[fields.len() - 1].name != name);
        if let Some(value) = values.last() {
            lemma_lookup_push(
                field_entries(front, values.drop_last()),
                fields.last().name,
                value,
                name,
            );
        }
    }
}

/// The entries of the fields give each field its value, where no two
/// fields share a name.
proof fn lemma_field_entries_value(
    fields: Seq<FieldView>,
    values: Seq<Option<JsonView>>,
    i: int,
)
    requires
        fields.len() == values.len(),
        0 <= i < fields.len(),
        forall|a: int, b: int| 0 <= a < b < fields.len() ==> fields[a].name != fields[b].name,
    ensures
        lookup(field_entries(fields, values), fields[i].name) == values[i],
    decreases fields.len(),
{
    let front = fields.drop_last();
    let front_values = values.drop_last();
    let inner = field_entries(front, front_values);
    assert forall|a: int, b: int| 0 <= a < b < front.len() implies front[a].name
        != front[b].name by {
        assert(front[a] == fields[a] && front[b] == fields[b]);
    }
    if let Some(value) = values.last() {
        lemma_lookup_push(inner, fields.last().name, value, fields[i].name);
    }
    if i == fields.len() - 1 {
        assert forall|k: int| 0 <= k < front.len() implies (#[trigger] front[k]).name
            != fields[i].name by {
            assert(front[k] == fields[k]);
        }
        lemma_field_entries_other(front, front_values, fields[i].name);
    } else {
        lemma_field_entries_value(front, front_values, i);
        assert(front[i] == fields[i]);
        assert(front_values[i] == values[i]);
        assert(fields.last().name != fields[i].name);
    }
}

/// Nothing is missing where the payload has every field that must be there.
proof fn lemma_nothing_missing(fields: Seq<FieldView>, payload: Seq<(Seq<char>, JsonView)>)
    requires
        forall|i: int|
            0 <= i < fields.len() ==> (#[trigger] fields[i]).omit_when_absent() || lookup(
                payload,
                fields[i].name,
            ) is Some,
    ensures
        first_missing(fields, payload) is None,
    decreases fields.len(),
{
    if fields.len() > 0 {
        let rest = fields.drop_first();
        assert forall|i: int| 0 <= i < rest.len() implies (#[trigger] rest[i]).omit_when_absent()
            || lookup(payload, rest[i].name) is Some by {
            assert(rest[i] == fields[i + 1]);
        }
        lemma_nothing_missing(rest, payload);
        assert(fields[0].omit_when_absent() || lookup(payload, fields[0].name) is Some);
    }
}

/// What the wire form of a value gives for each field of its variant is
/// the field's value, where the fields have names of their own.
pub proof fn lemma_encoded_fields(variant: VariantView, values: Seq<Option<JsonView>>)
    requires
        distinct_names(variant),
        values.len() == variant.fields.len(),
    ensures
        extracted(variant.fields, encoded(variant, values)) == values,
{
    let inner = field_entries(variant.fields, values);
    let wire = encoded(variant, values);
    assert forall|i: int| 0 <= i < variant.fields.len() implies lookup(
        wire,
        variant.fields[i].name,
    ) == values[i] by {
        lemma_field_entries_value(variant.fields, values, i);
        assert(variant.fields[i].name != discriminator_key());
        lemma_lookup_push(
            inner,
            discriminator_key(),
            JsonView::String(variant.literal),
            variant.fields[i].name,
        );
    }
    assert(extracted(variant.fields, wire) =~= values);
}

/// Decoding the wire form of a value gives the value back, where the
/// payload selects the value's variant: the variant is the same, and the
/// fields come back as they were, absent ones included.
pub proof fn lemma_round_trip(variants: Seq<VariantView>, index: int, values: Seq<Option<JsonView>>)
    requires
        0 <= index < variants.len(),
        distinct_names(variants[index]),
        fits(variants[index], values),
        selected(variants, variants[index].literal, encoded(variants[index], values)) == Some(
            index,
        ),
    ensures
        decoded(variants, encoded(variants[index], values)) == Ok::<
            UnionValueView,
            DecodeErrorView,
        >(UnionValueView { variant: index, fields: values }),
{
    let variant = variants[index];
    let wire = encoded(variant, values);
    lemma_discriminator_injected(variant, values);
    lemma_encoded_fields(variant, values);
    assert forall|i: int| 0 <= i < variant.fields.len() implies (
    #[trigger] variant.fields[i]).omit_when_absent() || lookup(wire, variant.fields[i].name)
        is Some by {
        assert(extracted(variant.fields, wire)[i] == values[i]);
        assert(values[i] is Some || variant.fields[i].omit_when_absent());
    }
    lemma_nothing_missing(variant.fields, wire);
}

/// Where the payload of a value selects another variant than the value's
/// own, decoding does not give the value back.
pub proof fn lemma_round_trip_needs_selection(
    variants: Seq<VariantView>,
    index: int,
    values: Seq<Option<JsonView>>,
)
    requires
        0 <= index < variants.len(),
        selected(variants, variants[index].literal, encoded(variants[index], values)) != Some(
            index,
        ),
    ensures
        decoded(variants, encoded(variants[index], values)) != Ok::<
            UnionValueView,
            DecodeErrorView,
        >(UnionValueView { variant: index, fields: values }),
{
    lemma_discriminator_injected(variants[index], values);
}

/// A payload selects the variant at a position of its group where it has
/// all distinguishing fields of that variant, or the variant is the last of
/// the group, and where each earlier variant of the group has a
/// distinguishing field that the payload lacks.
pub proof fn lemma_selected_at(
    variants: Seq<VariantView>,
    literal: Seq<char>,
    payload: Seq<(Seq<char>, JsonView)>,
    at: int,
)
    requires
        0 <= at < group_of(variants, literal).len(),
        at == group_of(variants, literal).len() - 1 || all_present(
            distinguishing(
                variants,
                group_of(variants, literal),
                variants[group_of(variants, literal)[at]].fields,
            ),
            payload,
        ),
        forall|p: int|
            0 <= p < at ==> !all_present(
                distinguishing(
                    variants,
                    group_of(variants, literal),
                    variants[#[trigger] group_of(variants, literal)[p]].fields,
                ),
                payload,
            ),
    ensures
        selected(variants, literal, payload) == Some(group_of(variants, literal)[at]),
{
    let group = group_of(variants, literal);
    lemma_chosen_from(variants, group, payload, at, 0);
}

/// Looking from an earlier position on leads to the position that is
/// selected, where no position in between is.
proof fn lemma_chosen_from(
    variants: Seq<VariantView>,
    group: Seq<int>,
    payload: Seq<(Seq<char>, JsonView)>,
    at: int,
    from: int,
)
    requires
        0 <= from <= at < group.len(),
        at == group.len() - 1 || all_present(
            distinguishing(variants, group, variants[group[at]].fields),
            payload,
        ),
        forall|p: int|
            from <= p < at ==> !all_present(
                distinguishing(variants, group, variants[#[trigger] group[p]].fields),
                payload,
            ),
    ensures
        chosen_position(variants, group, payload, from) == at,
    decreases at - from,
{
    if from < at {
        let names = distinguishing(variants, group, variants[group[from]].fields);
        assert(!all_present(names, payload));
        lemma_chosen_from(variants, group, payload, at, from + 1);
    }
}

/// Whether the variant at position `at` of the group requires each of its
/// distinguishing fields: none of them is left out when absent.
pub open spec fn requires_distinguishing(
    variants: Seq<VariantView>,
    group: Seq<int>,
    at: int,
) -> bool {
    let fields = variants[group[at]].fields;
    forall|i: int|
        0 <= i < fields.len() && !in_every(variants, group, (#[trigger] fields[i]).name)
            ==> !fields[i].omit_when_absent()
}

/// Whether the variant at position `earlier` of the group has a
/// distinguishing field that the variant at position `later` lacks, and
/// that is not called like the discriminator.
pub open spec fn set_apart(
    variants: Seq<VariantView>,
    group: Seq<int>,
    earlier: int,
    later: int,
) -> bool {
    let fields = variants[group[earlier]].fields;
    exists|i: int|
        0 <= i < fields.len() && !in_every(variants, group, (#[trigger] fields[i]).name)
            && !variants[group[later]].has_field(fields[i].name) && fields[i].name
            != discriminator_key()
}

/// Whether the variants that share `literal` can be told apart whatever
/// their fields hold: each of them but the last requires all its
/// distinguishing fields, and each of them is set apart from every later
/// variant of the literal.
pub open spec fn separable(variants: Seq<VariantView>, literal: Seq<char>) -> bool {
    let group = group_of(variants, literal);
    &&& forall|p: int|
        0 <= p < group.len() - 1 ==> #[trigger] requires_distinguishing(variants, group, p)
    &&& forall|q: int, p: int|
        0 <= q < p < group.len() ==> #[trigger] set_apart(variants, group, q, p)
}

/// Whether the variant at position `at` of the group requires each of its
/// distinguishing fields.
fn distinguishing_required(variants: &Vec<VariantInfo>, group: &Vec<usize>, at: usize) -> (r: bool)
    requires
        at < group.len(),
        forall|p: int| 0 <= p < group.len() ==> (#[trigger] group[p]) < variants.len(),
    ensures
        r == requires_distinguishing(variants_view(variants@), indices_view(group@), at as int),
{
    let ghost all = variants_view(variants@);
    let ghost positions = indices_view(group@);
    assert(positions[at as int] == group[at as int]);
    let variant = &variants[group[at]];
    let ghost fields = all[positions[at as int]].fields;
    let mut i: usize = 0;
    while i < variant.fields.len()
        invariant
            i <= variant.fields.len(),
            all == variants_view(variants@),
            positions == indices_view(group@),
            fields == variant@.fields,
            fields == all[positions[at as int]].fields,
            forall|p: int| 0 <= p < group.len() ==> (#[trigger] group[p]) < variants.len(),
            forall|j: int|
                0 <= j < i && !in_every(all, positions, (#[trigger] fields[j]).name)
                    ==> !fields[j].omit_when_absent(),
        decreases variant.fields.len() - i,
    {
        assert(fields[i as int] == variant.fields[i as int]@);
        if variant.fields[i].omits_when_absent() && !crate::variant::every_variant_has(
            variants,
            group,
            variant.fields[i].name.as_str(),
        ) {
            return false;
        }
        i += 1;
    }
    true
}

/// Whether the variant at position `earlier` of the group is set apart from
/// the variant at position `later`.
fn is_set_apart(
    variants: &Vec<VariantInfo>,
    group: &Vec<usize>,
    earlier: usize,
    later: usize,
) -> (r: bool)
    requires
        earlier < group.len(),
        later < group.len(),
        forall|p: int| 0 <= p < group.len() ==> (#[trigger] group[p]) < variants.len(),
    ensures
        r == set_apart(
            variants_view(variants@),
            indices_view(group@),
            earlier as int,
            later as int,
        ),
{
    let ghost all = variants_view(variants@);
    let ghost positions = indices_view(group@);
    assert(positions[earlier as int] == group[earlier as int]);
    assert(positions[later as int] == group[later as int]);
    let variant = &variants[group[earlier]];
    let other = &variants[group[later]];
    let ghost fields = all[positions[earlier as int]].fields;
    let mut i: usize = 0;
    while i < variant.fields.len()
        invariant
            i <= variant.fields.len(),
            all == variants_view(variants@),
            positions == indices_view(group@),
            fields == variant@.fields,
            fields == all[positions[earlier as int]].fields,
            other@ == all[positions[later as int]],
            forall|p: int| 0 <= p < group.len() ==> (#[trigger] group[p]) < variants.len(),
            forall|j: int|
                0 <= j < i ==> !(!in_every(all, positions, (#[trigger] fields[j]).name)
                    && !other@.has_field(fields[j].name) && fields[j].name != discriminator_key()),
        decreases variant.fields.len() - i,
    {
        assert(fields[i as int] == variant.fields[i as int]@);
        let name = variant.fields[i].name.as_str();
        if !crate::variant::every_variant_has(variants, group, name) && !other.has_field(name)
            && !crate::text::str_eq(name, "request_type") {
            return true;
        }
        i += 1;
    }
    false
}

/// Whether the variants that share `literal` can be told apart whatever
/// their fields hold.
pub fn literal_is_separable(variants: &Vec<VariantInfo>, literal: &str) -> (r: bool)
    ensures
        r == separable(variants_view(variants@), literal@),
{
    let group = variants_with_literal(variants, literal);
    let ghost all = variants_view(variants@);
    let ghost positions = indices_view(group@);
    let mut p: usize = 0;
    while p < group.len()
        invariant
            p <= group.len(),
            all == variants_view(variants@),
            positions == indices_view(group@),
            positions == group_of(all, literal@),
            forall|k: int| 0 <= k < group.len() ==> (#[trigger] group[k]) < variants.len(),
            forall|k: int|
                0 <= k < p && k < group.len() - 1 ==> #[trigger] requires_distinguishing(
                    all,
                    positions,
                    k,
                ),
            forall|q: int, k: int| 0 <= q < k < p ==> #[trigger] set_apart(all, positions, q, k),
        decreases group.len() - p,
    {
        if p < group.len() - 1 && !distinguishing_required(variants, &group, p) {
            return false;
        }
        let mut q: usize = 0;
        while q < p
            invariant
                q <= p < group.len(),
                all == variants_view(variants@),
                positions == indices_view(group@),
                positions == group_of(all, literal@),
                forall|k: int| 0 <= k < group.len() ==> (#[trigger] group[k]) < variants.len(),
                forall|j: int| 0 <= j < q ==> #[trigger] set_apart(all, positions, j, p as int),
            ensures
                q == p,
            decreases p - q,
        {
            if !is_set_apart(variants, &group, q, p) {
                return false;
            }
            q += 1;
        }
        p += 1;
    }
    true
}

/// The first literal, in lexicographic order, whose variants cannot be told
/// apart whatever their fields hold; `None` where the variants of every
/// literal can. A union without such a literal gives every value back from
/// its wire form.
pub fn find_conflict(variants: &Vec<VariantInfo>) -> (r: Option<String>)
    ensures
        match r {
            Some(literal) => !separable(variants_view(variants@), literal@) && exists|i: int|
                0 <= i < literals(variants_view(variants@)).len() && #[trigger] literals(
                    variants_view(variants@),
                )[i] == literal@ && forall|j: int|
                    0 <= j < i ==> separable(
                        variants_view(variants@),
                        #[trigger] literals(variants_view(variants@))[j],
                    ),
            None => forall|k: int|
                0 <= k < variants.len() ==> separable(
                    variants_view(variants@),
                    (#[trigger] variants_view(variants@)[k]).literal,
                ),
        },
{
    let known = known_literals(variants);
    let ghost all = variants_view(variants@);
    let ghost sorted = strings_view(known@);
    let mut i: usize = 0;
    while i < known.len()
        invariant
            i <= known.len(),
            all == variants_view(variants@),
            sorted == strings_view(known@),
            sorted == literals(all),
            forall|j: int| 0 <= j < i ==> separable(all, #[trigger] sorted[j]),
        decreases known.len() - i,
    {
        assert(sorted[i as int] == known[i as int]@);
        if !literal_is_separable(variants, known[i].as_str()) {
            assert(literals(all)[i as int] == known[i as int]@);
            return Some(known[i].clone());
        }
        i += 1;
    }
    proof {
        crate::variant::lemma_literals(all);
        assert forall|k: int| 0 <= k < variants.len() implies separable(
            all,
            (#[trigger] all[k]).literal,
        ) by {
            assert(sorted.contains(all[k].literal));
            let j = choose|j: int| 0 <= j < sorted.len() && sorted[j] == all[k].literal;
            assert(separable(all, sorted[j]));
        }
    }
    None
}

/// Among variants that can be told apart, the wire form of a value selects
/// the value's own variant.
pub proof fn lemma_separable_selects(
    variants: Seq<VariantView>,
    index: int,
    values: Seq<Option<JsonView>>,
)
    requires
        0 <= index < variants.len(),
        distinct_names(variants[index]),
        fits(variants[index], values),
        separable(variants, variants[index].literal),
    ensures
        selected(variants, variants[index].literal, encoded(variants[index], values)) == Some(
            index,
        ),
{
    let variant = variants[index];
    let literal = variant.literal;
    let group = group_of(variants, literal);
    let wire = encoded(variant, values);
    lemma_group_of(variants, literal);
    assert(group.contains(index));
    let at = choose|p: int| 0 <= p < group.len() && group[p] == index;
    lemma_encoded_fields(variant, values);
    // The value's own distinguishing fields are all there, unless it is the last variant.
    if at < group.len() - 1 {
        let names = distinguishing(variants, group, variant.fields);
        lemma_distinguishing(variants, group, variant.fields);
        assert forall|k: int| 0 <= k < names.len() implies lookup(wire, #[trigger] names[k])
            is Some by {
            let i = choose|i: int|
                0 <= i < variant.fields.len() && (#[trigger] variant.fields[i]).name == names[k];
            assert(!in_every(variants, group, variant.fields[i].name));
            assert(requires_distinguishing(variants, group, at));
            assert(!variants[group[at]].fields[i].omit_when_absent());
            assert(extracted(variant.fields, wire)[i] == values[i]);
            assert(values[i] is Some);
        }
    }
    // Each earlier variant has a distinguishing field that is not there.
    assert forall|q: int| 0 <= q < at implies !all_present(
        distinguishing(variants, group, variants[#[trigger] group[q]].fields),
        wire,
    ) by {
        let earlier = variants[group[q]];
        let names = distinguishing(variants, group, earlier.fields);
        lemma_distinguishing(variants, group, earlier.fields);
        assert(set_apart(variants, group, q, at));
        let i = choose|i: int|
            0 <= i < earlier.fields.len() && !in_every(
                variants,
                group,
                (#[trigger] earlier.fields[i]).name,
            ) && !variants[group[at]].has_field(earlier.fields[i].name) && earlier.fields[i].name
                != discriminator_key();
        let name = earlier.fields[i].name;
        assert(names.contains(name));
        let k = choose|k: int| 0 <= k < names.len() && names[k] == name;
        assert forall|j: int| 0 <= j < variant.fields.len() implies (
        #[trigger] variant.fields[j]).name != name by {
            if variant.fields[j].name == name {
                assert(variant.has_field(name));
            }
        }
        lemma_field_entries_other(variant.fields, values, name);
        lemma_lookup_push(
            field_entries(variant.fields, values),
            discriminator_key(),
            JsonView::String(literal),
            name,
        );
        assert(lookup(wire, names[k]) is None);
    }
    lemma_selected_at(variants, literal, wire, at);
}

/// A value of a union whose variants can be told apart always comes back
/// from its wire form.
pub proof fn lemma_round_trip_separable(
    variants: Seq<VariantView>,
    index: int,
    values: Seq<Option<JsonView>>,
)
    requires
        0 <= index < variants.len(),
        distinct_names(variants[index]),
        fits(variants[index], values),
        separable(variants, variants[index].literal),
    ensures
        decoded(variants, encoded(variants[index], values)) == Ok::<
            UnionValueView,
            DecodeErrorView,
        >(UnionValueView { variant: index, fields: values }),
{
    lemma_separable_selects(variants, index, values);
    lemma_round_trip(variants, index, values);
}

/// The one variant of a literal that no other variant shares is selected by
/// every payload with that literal.
pub proof fn lemma_unshared_literal_selects(
    variants: Seq<VariantView>,
    index: int,
    payload: Seq<(Seq<char>, JsonView)>,
)
    requires
        0 <= index < variants.len(),
        forall|k: int|
            0 <= k < variants.len() && k != index ==> (#[trigger] variants[k]).literal
                != variants[index].literal,
    ensures
        group_of(variants, variants[index].literal) == seq![index],
        selected(variants, variants[index].literal, payload) == Some(index),
{
    let literal = variants[index].literal;
    let group = group_of(variants, literal);
    lemma_group_of(variants, literal);
    assert(group.contains(index));
    assert forall|p: int| 0 <= p < group.len() implies group[p] == index by {
        assert(variants[group[p]].literal == literal);
    }
    if group.len() > 1 {
        assert(group[0] < group[1]);
    }
    assert(group =~= seq![index]);
}

/// A value of a variant whose literal no other variant shares always comes
/// back from its wire form.
pub proof fn lemma_round_trip_unshared(
    variants: Seq<VariantView>,
    index: int,
    values: Seq<Option<JsonView>>,
)
    requires
        0 <= index < variants.len(),
        distinct_names(variants[index]),
        fits(variants[index], values),
        forall|k: int|
            0 <= k < variants.len() && k != index ==> (#[trigger] variants[k]).literal
                != variants[index].literal,
    ensures
        decoded(variants, encoded(variants[index], values)) == Ok::<
            UnionValueView,
            DecodeErrorView,
        >(UnionValueView { variant: index, fields: values }),
{
    lemma_unshared_literal_selects(variants, index, encoded(variants[index], values));
    lemma_round_trip(variants, index, values);
}

/// The distinguishing names of some fields are names of those fields that
/// not every variant of the group has.
pub proof fn lemma_distinguishing(
    variants: Seq<VariantView>,
    group: Seq<int>,
    fields: Seq<FieldView>,
)
    ensures
        forall|i: int|
            0 <= i < distinguishing(variants, group, fields).len() ==> !in_every(
                variants,
                group,
                #[trigger] distinguishing(variants, group, fields)[i],
            ) && exists|k: int|
                0 <= k < fields.len() && (#[trigger] fields[k]).name == distinguishing(
                    variants,
                    group,
                    fields,
                )[i],
        forall|k: int|
            0 <= k < fields.len() && !in_every(variants, group, (#[trigger] fields[k]).name)
                ==> distinguishing(variants, group, fields).contains(fields[k].name),
    decreases fields.len(),
{
    if fields.len() > 0 {
        let front = fields.drop_last();
        lemma_distinguishing(variants, group, front);
        let inner = distinguishing(variants, group, front);
        let names = distinguishing(variants, group, fields);
        assert forall|i: int| 0 <= i < names.len() implies !in_every(
            variants,
            group,
            #[trigger] names[i],
        ) && exists|k: int| 0 <= k < fields.len() && (#[trigger] fields[k]).name == names[i] by {
            if i < inner.len() {
                assert(names[i] == inner[i]);
                let k = choose|k: int|
                    0 <= k < front.len() && (#[trigger] front[k]).name == inner[i];
                assert(fields[k].name == names[i]);
            } else {
                assert(fields[fields.len() - 1].name == names[i]);
            }
        }
        assert forall|k: int|
            0 <= k < fields.len() && !in_every(
                variants,
                group,
                (#[trigger] fields[k]).name,
            ) implies names.contains(fields[k].name) by {
            if k < front.len() {
                assert(front[k] == fields[k]);
                assert(inner.contains(front[k].name));
                let i = choose|i: int| 0 <= i < inner.len() && inner[i] == front[k].name;
                assert(names[i] == fields[k].name);
            } else {
                assert(names[names.len() - 1] == fields[k].name);
            }
        }
    }
}

/// Two variants that share a discriminator literal, and share it with no
/// other variant, are told apart by their distinguishing fields, which the
/// two never have in common: a payload with all distinguishing fields of
/// the first selects the first; a payload that lacks one of them selects
/// the second. Where such a payload decodes at all, it decodes to a value
/// of the variant that it selects.
pub proof fn lemma_siblings_told_apart(
    variants: Seq<VariantView>,
    first: int,
    second: int,
    payload: Seq<(Seq<char>, JsonView)>,
)
    requires
        0 <= first < second < variants.len(),
        variants[first].literal == variants[second].literal,
        forall|k: int|
            0 <= k < variants.len() && k != first && k != second ==> (
            #[trigger] variants[k]).literal != variants[first].literal,
    ensures
        group_of(variants, variants[first].literal) == seq![first, second],
        ({
            let group = seq![first, second];
            let of_first = distinguishing(variants, group, variants[first].fields);
            let of_second = distinguishing(variants, group, variants[second].fields);
            &&& forall|i: int, j: int|
                0 <= i < of_first.len() && 0 <= j < of_second.len() ==> of_first[i]
                    != of_second[j]
            &&& all_present(of_first, payload) ==> selected(
                variants,
                variants[first].literal,
                payload,
            ) == Some(first)
            &&& !all_present(of_first, payload) ==> selected(
                variants,
                variants[first].literal,
                payload,
            ) == Some(second)
            &&& discriminator_of(payload) == Some(variants[first].literal) ==> (decoded(
                variants,
                payload,
            ) matches Ok(value) ==> value.variant == if all_present(of_first, payload) {
                first
            } else {
                second
            })
        }),
{
    let literal = variants[first].literal;
    let group = group_of(variants, literal);
    lemma_group_of(variants, literal);
    assert(group.contains(first));
    assert(group.contains(second));
    let at_first = choose|p: int| 0 <= p < group.len() && group[p] == first;
    let at_second = choose|p: int| 0 <= p < group.len() && group[p] == second;
    assert forall|p: int| 0 <= p < group.len() implies group[p] == first || group[p]
        == second by {
        assert(variants[group[p]].literal == literal);
    }
    assert(at_first < at_second) by {
        if at_second < at_first {
            assert(group[at_second] < group[at_first]);
        }
    }
    assert(group.len() == 2 && at_first == 0 && at_second == 1) by {
        if at_first > 0 {
            assert(group[0] < group[at_first]);
        }
        if at_second > 1 {
            assert(group[at_first] < group[1]);
            assert(group[1] < group[at_second]);
        }
        if group.len() > 2 {
            assert(group[1] < group[2]);
        }
    }
    assert(group =~= seq![first, second]);
    let of_first = distinguishing(variants, group, variants[first].fields);
    let of_second = distinguishing(variants, group, variants[second].fields);
    lemma_distinguishing(variants, group, variants[first].fields);
    lemma_distinguishing(variants, group, variants[second].fields);
    assert forall|i: int, j: int|
        0 <= i < of_first.len() && 0 <= j < of_second.len() implies of_first[i]
        != of_second[j] by {
        if of_first[i] == of_second[j] {
            let name = of_first[i];
            assert(!in_every(variants, group, of_first[i]));
            assert(!in_every(variants, group, of_second[j]));
            assert(variants[first].has_field(name));
            assert(variants[second].has_field(name));
            assert forall|p: int| 0 <= p < group.len() implies variants[#[trigger] group[p]]
                .has_field(name) by {}
        }
    }
    assert(chosen_position(variants, group, payload, 1) == 1);
}

/// Encodes a value of `variant` as a flat list of entries: each field that
/// has a value under its name, in declared order, then the discriminator
/// with the variant's literal. `None` where `values` are no values for the
/// fields of `variant`.
pub fn encode(variant: &VariantInfo, values: &Vec<Option<Json>>) -> (r: Option<
    Vec<(String, Json)>,
>)
    ensures
        r is Some <==> fits(variant@, values_view(values@)),
        r matches Some(entries) ==> entries_view(entries@) == encoded(
            variant@,
            values_view(values@),
        ) && lookup(entries_view(entries@), discriminator_key()) == Some(
            JsonView::String(variant@.literal),
        ),
{
    let ghost fields = variant@.fields;
    let ghost given = values_view(values@);
    if values.len() != variant.fields.len() {
        return None;
    }
    let mut entries: Vec<(String, Json)> = Vec::new();
    let mut i: usize = 0;
    assert(fields.take(0) =~= Seq::empty());
    assert(entries_view(entries@) =~= Seq::empty());
    while i < values.len()
        invariant
            i <= values.len(),
            values.len() == variant.fields.len(),
            fields == variant@.fields,
            given == values_view(values@),
            entries_view(entries@) == field_entries(fields.take(i as int), given.take(i as int)),
            forall|j: int|
                0 <= j < i ==> (#[trigger] given[j]) is Some || fields[j].omit_when_absent(),
        decreases values.len() - i,
    {
        assert(fields.take(i + 1).drop_last() =~= fields.take(i as int));
        assert(given.take(i + 1).drop_last() =~= given.take(i as int));
        assert(fields.take(i + 1).last() == variant.fields[i as int]@);
        assert(given.take(i + 1).last() == given[i as int]);
        match &values[i] {
            Some(value) => {
                let ghost before = entries_view(entries@);
                entries.push((variant.fields[i].name.clone(), value.clone()));
                assert(entries_view(entries@) =~= before.push(
                    (variant.fields[i as int].name@, value@),
                ));
            },
            None => {
                if !variant.fields[i].omits_when_absent() {
                    assert(given[i as int] is None);
                    return None;
                }
            },
        }
        i += 1;
    }
    assert(fields.take(values.len() as int) =~= fields);
    assert(given.take(values.len() as int) =~= given);
    let ghost before = entries_view(entries@);
    entries.push(("request_type".to_string(), Json::String(variant.request_type_const.clone())));
    assert(entries_view(entries@) =~= before.push(
        (discriminator_key(), JsonView::String(variant@.literal)),
    ));
    proof {
        lemma_discriminator_injected(variant@, given);
    }
    Some(entries)
}

/// Whether the payload has an entry for each of `names`.
fn has_all(payload: &Vec<(String, Json)>, names: &Vec<String>) -> (r: bool)
    ensures
        r == all_present(strings_view(names@), entries_view(payload@)),
{
    let mut i: usize = 0;
    while i < names.len()
        invariant
            i <= names.len(),
            forall|j: int|
                0 <= j < i ==> lookup(entries_view(payload@), #[trigger] strings_view(names@)[j])
                    is Some,
        decreases names.len() - i,
    {
        if get_entry(payload, names[i].as_str()).is_none() {
            assert(lookup(entries_view(payload@), strings_view(names@)[i as int]) is None);
            return false;
        }
        i += 1;
    }
    true
}

/// The index of the variant that the payload selects among the variants of
/// a literal: the first, in declared order, whose distinguishing fields are
/// all present, or the last. `None` where no variant has the literal.
pub fn select_variant(
    variants: &Vec<VariantInfo>,
    literal: &str,
    payload: &Vec<(String, Json)>,
) -> (r: Option<usize>)
    ensures
        match r {
            Some(index) => index < variants.len() && selected(
                variants_view(variants@),
                literal@,
                entries_view(payload@),
            ) == Some(index as int),
            None => selected(variants_view(variants@), literal@, entries_view(payload@)) is None,
        },
{
    let group = variants_with_literal(variants, literal);
    if group.len() == 0 {
        return None;
    }
    let ghost all = variants_view(variants@);
    let ghost positions = indices_view(group@);
    let ghost wire = entries_view(payload@);
    let mut at: usize = 0;
    while at < group.len() - 1
        invariant
            at <= group.len() - 1,
            group.len() > 0,
            all == variants_view(variants@),
            positions == indices_view(group@),
            positions == group_of(all, literal@),
            wire == entries_view(payload@),
            forall|p: int| 0 <= p < group.len() ==> (#[trigger] group[p]) < variants.len(),
            chosen_position(all, positions, wire, 0) == chosen_position(
                all,
                positions,
                wire,
                at as int,
            ),
        decreases group.len() - at,
    {
        assert(positions[at as int] == group[at as int]);
        let names = distinguishing_fields(variants, &group, group[at]);
        if has_all(payload, &names) {
            return Some(group[at]);
        }
        at += 1;
    }
    assert(positions[at as int] == group[at as int]);
    Some(group[at])
}

/// Decodes a flat list of entries: reads the discriminator, selects the
/// variant, and takes the value of each of its fields from the payload.
#[verifier::loop_isolation(false)]
pub fn decode(variants: &Vec<VariantInfo>, payload: &Vec<(String, Json)>) -> (r: Result<
    UnionValue,
    DecodeError,
>)
    ensures
        match r {
            Ok(value) => decoded(variants_view(variants@), entries_view(payload@)) == Ok::<
                UnionValueView,
                DecodeErrorView,
            >(value@),
            Err(error) => decoded(variants_view(variants@), entries_view(payload@)) == Err::<
                UnionValueView,
                DecodeErrorView,
            >(error@),
        },
{
    let literal = match get_entry(payload, "request_type") {
        Some(found) => match found.as_str() {
            Some(literal) => literal,
            None => {
                return Err(DecodeError::MissingDiscriminator);
            },
        },
        None => {
            return Err(DecodeError::MissingDiscriminator);
        },
    };
    let index = match select_variant(variants, literal, payload) {
        Some(index) => index,
        None => {
            return Err(
                DecodeError::UnknownVariant {
                    literal: literal.to_string(),
                    known: known_literals(variants),
                },
            );
        },
    };
    let variant = &variants[index];
    let ghost fields = variant@.fields;
    let ghost wire = entries_view(payload@);
    let mut values: Vec<Option<Json>> = Vec::new();
    let mut i: usize = 0;
    assert(fields.skip(0) =~= fields);
    while i < variant.fields.len()
        invariant
            i <= variant.fields.len(),
            fields == variant@.fields,
            wire == entries_view(payload@),
            values.len() == i,
            first_missing(fields, wire) == first_missing(fields.skip(i as int), wire),
            forall|j: int|
                0 <= j < i ==> (#[trigger] values_view(values@)[j]) == lookup(wire, fields[j].name),
        decreases variant.fields.len() - i,
    {
        assert(fields.skip(i as int)[0] == variant.fields[i as int]@);
        assert(fields.skip(i as int).drop_first() =~= fields.skip(i + 1));
        let ghost before = values_view(values@);
        match get_entry(payload, variant.fields[i].name.as_str()) {
            Some(value) => {
                values.push(Some(value.clone()));
                assert(values_view(values@) =~= before.push(Some(value@)));
            },
            None => {
                if !variant.fields[i].omits_when_absent() {
                    return Err(DecodeError::MissingField { field: variant.fields[i].name.clone() });
                }
                values.push(None);
                assert(values_view(values@) =~= before.push(None));
            },
        }
        i += 1;
    }
    assert(values_view(values@) =~= extracted(fields, wire));
    Ok(UnionValue { variant: index, fields: values })
}

} // verus!
