//! The variants of a discriminated union: their fields, the literal that
//! tells each of them apart on the wire, and the order in which variants
//! that share a literal are told apart by the fields that are present.

use vstd::prelude::*;
use crate::text::{contains, contains_text, str_eq, strings_view, to_chars};

verus! {

/// The key under which the discriminator stands, in schemas and on the wire.
pub open spec fn discriminator_key() -> Seq<char> {
    "request_type"@
}

/// A field of a variant, as declared.
#[derive(Clone, Debug, PartialEq, Eq)]
pub struct VariantField {
    pub name: String,
    /// The declared type.
    pub type_str: String,
    /// The serialization attributes declared on the field.
    pub serde_attrs: Vec<String>,
}

/// A variant of a discriminated union, without its discriminator field.
#[derive(Clone, Debug, PartialEq, Eq)]
pub struct VariantInfo {
    pub name: String,
    /// The literal that the discriminator has for this variant.
    pub request_type_const: String,
    /// The fields other than the discriminator, in declared order.
    pub fields: Vec<VariantField>,
}

/// The mathematical value of a [`VariantField`].
pub struct FieldView {
    pub name: Seq<char>,
    pub type_str: Seq<char>,
    pub serde_attrs: Seq<Seq<char>>,
}

/// The mathematical value of a [`VariantInfo`].
pub struct VariantView {
    pub name: Seq<char>,
    pub literal: Seq<char>,
    pub fields: Seq<FieldView>,
}

impl View for VariantField {
    type V = FieldView;

    open spec fn view(&self) -> FieldView {
        FieldView {
            name: self.name@,
            type_str: self.type_str@,
            serde_attrs: Seq::new(self.serde_attrs.len() as nat, |i: int| self.serde_attrs[i]@),
        }
    }
}

/// The views of a list of fields.
pub open spec fn fields_view(fields: Seq<VariantField>) -> Seq<FieldView> {
    Seq::new(fields.len(), |i: int| fields[i]@)
}

impl View for VariantInfo {
    type V = VariantView;

    open spec fn view(&self) -> VariantView {
        VariantView {
            name: self.name@,
            literal: self.request_type_const@,
            fields: fields_view(self.fields@),
        }
    }
}

/// The views of a list of variants.
pub open spec fn variants_view(variants: Seq<VariantInfo>) -> Seq<VariantView> {
    Seq::new(variants.len(), |i: int| variants[i]@)
}

/// The marker of an attribute that leaves a field out when it is absent.
pub open spec fn omission_marker() -> Seq<char> {
    "skip_serializing_if"@
}

impl FieldView {
    /// Whether the field is left out on the wire when it has no value: one
    /// of its attributes asks for that.
    pub open spec fn omit_when_absent(self) -> bool {
        exists|i: int|
            0 <= i < self.serde_attrs.len() && contains_text(
                #[trigger] self.serde_attrs[i],
                omission_marker(),
            )
    }
}

impl VariantView {
    /// Whether the variant has a field called `name`.
    pub open spec fn has_field(self, name: Seq<char>) -> bool {
        exists|i: int| 0 <= i < self.fields.len() && (#[trigger] self.fields[i]).name == name
    }
}

impl VariantField {
    /// Whether the field is left out on the wire when it has no value.
    pub fn omits_when_absent(&self) -> (r: bool)
        ensures
            r == self@.omit_when_absent(),
    {
        let marker = to_chars("skip_serializing_if");
        let mut i: usize = 0;
        while i < self.serde_attrs.len()
            invariant
                i <= self.serde_attrs.len(),
                marker@ == omission_marker(),
                forall|j: int|
                    0 <= j < i ==> !contains_text(
                        #[trigger] self@.serde_attrs[j],
                        omission_marker(),
                    ),
            decreases self.serde_attrs.len() - i,
        {
            if contains(&to_chars(self.serde_attrs[i].as_str()), &marker) {
                assert(contains_text(self@.serde_attrs[i as int], omission_marker()));
                return true;
            }
            i += 1;
        }
        false
    }
}

impl VariantInfo {
    /// Whether the variant has a field called `name`.
    pub fn has_field(&self, name: &str) -> (r: bool)
        ensures
            r == self@.has_field(name@),
    {
        let mut i: usize = 0;
        while i < self.fields.len()
            invariant
                i <= self.fields.len(),
                forall|j: int| 0 <= j < i ==> (#[trigger] self@.fields[j]).name != name@,
            decreases self.fields.len() - i,
        {
            if str_eq(self.fields[i].name.as_str(), name) {
                assert(self@.fields[i as int].name == name@);
                return true;
            }
            i += 1;
        }
        false
    }
}

/// Whether `a` comes before `b` in lexicographic order.
pub open spec fn lex_less(a: Seq<char>, b: Seq<char>) -> bool
    decreases a.len(),
{
    if b.len() == 0 {
        false
    } else if a.len() == 0 {
        true
    } else if a[0] != b[0] {
        a[0] < b[0]
    } else {
        lex_less(a.drop_first(), b.drop_first())
    }
}

/// Of two different texts, one comes before the other.
pub proof fn lemma_lex_order_total(a: Seq<char>, b: Seq<char>)
    ensures
        a == b || lex_less(a, b) || lex_less(b, a),
        !(lex_less(a, b) && lex_less(b, a)),
        a == b ==> !lex_less(a, b),
    decreases a.len(),
{
    if b.len() == 0 {
        if a.len() == 0 {
            assert(a =~= b);
        }
    } else if a.len() == 0 {
    } else if a[0] != b[0] {
    } else {
        lemma_lex_order_total(a.drop_first(), b.drop_first());
        if a.drop_first() == b.drop_first() {
            assert(a =~= seq![a[0]] + a.drop_first());
            assert(b =~= seq![b[0]] + b.drop_first());
        }
    }
}

/// Whether the texts stand in strictly increasing lexicographic order.
pub open spec fn strictly_increasing(texts: Seq<Seq<char>>) -> bool {
    forall|i: int, j: int| 0 <= i < j < texts.len() ==> lex_less(texts[i], texts[j])
}

/// The sorted texts with `text` put in its place, unless it is there already.
pub open spec fn inserted(sorted: Seq<Seq<char>>, text: Seq<char>) -> Seq<Seq<char>>
    decreases sorted.len(),
{
    if sorted.len() == 0 {
        seq![text]
    } else if sorted.last() == text {
        sorted
    } else if lex_less(sorted.last(), text) {
        sorted.push(text)
    } else {
        inserted(sorted.drop_last(), text).push(sorted.last())
    }
}

/// The literals of the variants, each once, in lexicographic order.
pub open spec fn literals(variants: Seq<VariantView>) -> Seq<Seq<char>>
    decreases variants.len(),
{
    if variants.len() == 0 {
        Seq::empty()
    } else {
        inserted(literals(variants.drop_last()), variants.last().literal)
    }
}

/// Putting a text in its place keeps the order, keeps what was there, and
/// adds the text and nothing else.
pub proof fn lemma_inserted(sorted: Seq<Seq<char>>, text: Seq<char>)
    requires
        strictly_increasing(sorted),
    ensures
        strictly_increasing(inserted(sorted, text)),
        forall|t: Seq<char>|
            #![trigger inserted(sorted, text).contains(t)]
            #![trigger sorted.contains(t)]
            inserted(sorted, text).contains(t) <==> (sorted.contains(t) || t == text),
        inserted(sorted, text).contains(text),
    decreases sorted.len(),
{
    let result = inserted(sorted, text);
    if sorted.len() == 0 {
        assert forall|t: Seq<char>| result.contains(t) <==> (sorted.contains(t) || t == text) by {
            if t == text {
                assert(result[0] == t);
            }
        }
    } else if sorted.last() == text {
        assert(sorted[sorted.len() - 1] == text);
    } else if lex_less(sorted.last(), text) {
        assert forall|i: int, j: int| 0 <= i < j < result.len() implies lex_less(
            result[i],
            result[j],
        ) by {
            if j == sorted.len() {
                if i < sorted.len() - 1 {
                    lemma_lex_less_transitive(sorted[i], sorted.last(), text);
                }
            }
        }
        assert forall|t: Seq<char>| result.contains(t) <==> (sorted.contains(t) || t == text) by {
            if t == text {
                assert(result[sorted.len() as int] == t);
            }
            if sorted.contains(t) {
                let i = choose|i: int| 0 <= i < sorted.len() && sorted[i] == t;
                assert(result[i] == t);
            }
        }
    } else {
        let front = sorted.drop_last();
        let last = sorted.last();
        assert(strictly_increasing(front)) by {
            assert forall|i: int, j: int| 0 <= i < j < front.len() implies lex_less(
                front[i],
                front[j],
            ) by {
                assert(front[i] == sorted[i] && front[j] == sorted[j]);
            }
        }
        lemma_inserted(front, text);
        lemma_lex_order_total(last, text);
        let inner = inserted(front, text);
        assert forall|i: int, j: int| 0 <= i < j < result.len() implies lex_less(
            result[i],
            result[j],
        ) by {
            if j == inner.len() {
                assert(inner.contains(inner[i]));
                if front.contains(inner[i]) {
                    let k = choose|k: int| 0 <= k < front.len() && front[k] == inner[i];
                    assert(sorted[k] == inner[i]);
                }
            } else {
                assert(result[i] == inner[i] && result[j] == inner[j]);
            }
        }
        assert forall|t: Seq<char>| result.contains(t) <==> (sorted.contains(t) || t == text) by {
            if result.contains(t) {
                let i = choose|i: int| 0 <= i < result.len() && result[i] == t;
                if i < inner.len() {
                    assert(inner.contains(t));
                    if front.contains(t) {
                        let k = choose|k: int| 0 <= k < front.len() && front[k] == t;
                        assert(sorted[k] == t);
                    }
                } else {
                    assert(sorted[sorted.len() - 1] == t);
                }
            }
            if t == text {
                assert(inner.contains(t));
                let i = choose|i: int| 0 <= i < inner.len() && inner[i] == t;
                assert(result[i] == t);
            }
            if sorted.contains(t) {
                let k = choose|k: int| 0 <= k < sorted.len() && sorted[k] == t;
                if k < front.len() {
                    assert(front[k] == t);
                    assert(front.contains(t));
                    assert(inner.contains(t));
                    let i = choose|i: int| 0 <= i < inner.len() && inner[i] == t;
                    assert(result[i] == t);
                } else {
                    assert(result[inner.len() as int] == t);
                }
            }
        }
    }
}

/// The lexicographic order is transitive.
pub proof fn lemma_lex_less_transitive(a: Seq<char>, b: Seq<char>, c: Seq<char>)
    requires
        lex_less(a, b),
        lex_less(b, c),
    ensures
        lex_less(a, c),
    decreases a.len(),
{
    if a.len() == 0 {
    } else if a[0] != b[0] {
        if b[0] == c[0] {
        }
    } else if b[0] != c[0] {
    } else {
        lemma_lex_less_transitive(a.drop_first(), b.drop_first(), c.drop_first());
    }
}

/// The literals of the variants stand in strictly increasing order, and a
/// text is among them exactly when it is the literal of a variant.
pub proof fn lemma_literals(variants: Seq<VariantView>)
    ensures
        strictly_increasing(literals(variants)),
        forall|t: Seq<char>|
            #![trigger literals(variants).contains(t)]
            literals(variants).contains(t) <==> exists|k: int|
                0 <= k < variants.len() && (#[trigger] variants[k]).literal == t,
    decreases variants.len(),
{
    if variants.len() == 0 {
    } else {
        let front = variants.drop_last();
        lemma_literals(front);
        lemma_inserted(literals(front), variants.last().literal);
        assert forall|t: Seq<char>| literals(variants).contains(t) <==> exists|k: int|
            0 <= k < variants.len() && (#[trigger] variants[k]).literal == t by {
            if literals(variants).contains(t) {
                if literals(front).contains(t) {
                    let k = choose|k: int|
                        0 <= k < front.len() && (#[trigger] front[k]).literal == t;
                    assert(variants[k].literal == t);
                } else {
                    assert(variants[variants.len() - 1].literal == t);
                }
            }
            if exists|k: int| 0 <= k < variants.len() && (#[trigger] variants[k]).literal == t {
                let k = choose|k: int|
                    0 <= k < variants.len() && (#[trigger] variants[k]).literal == t;
                if k < front.len() {
                    assert(front[k].literal == t);
                }
            }
        }
    }
}

/// Whether `a` comes before `b` in lexicographic order.
pub fn text_before(a: &Vec<char>, b: &Vec<char>) -> (r: bool)
    ensures
        r == lex_less(a@, b@),
{
    let mut i: usize = 0;
    assert(a@.skip(0) =~= a@ && b@.skip(0) =~= b@);
    while i < a.len() && i < b.len()
        invariant
            i <= a.len(),
            i <= b.len(),
            lex_less(a@, b@) == lex_less(a@.skip(i as int), b@.skip(i as int)),
        decreases a.len() - i,
    {
        if a[i] != b[i] {
            return a[i] < b[i];
        }
        assert(a@.skip(i as int).drop_first() =~= a@.skip(i + 1));
        assert(b@.skip(i as int).drop_first() =~= b@.skip(i + 1));
        i += 1;
    }
    i < b.len()
}

/// Putting a text in its place, seen from the end of the sorted texts: the
/// texts from `at` on all come after `text`.
proof fn lemma_inserted_at(sorted: Seq<Seq<char>>, text: Seq<char>, at: int)
    requires
        0 <= at <= sorted.len(),
        forall|j: int| at <= j < sorted.len() ==> sorted[j] != text && !lex_less(sorted[j], text),
    ensures
        inserted(sorted, text) == inserted(sorted.take(at), text) + sorted.skip(at),
    decreases sorted.len() - at,
{
    if at == sorted.len() {
        assert(sorted.take(at) =~= sorted);
        assert(inserted(sorted, text) + sorted.skip(at) =~= inserted(sorted, text));
    } else {
        let front = sorted.drop_last();
        lemma_inserted_at(front, text, at);
        assert(front.take(at) =~= sorted.take(at));
        assert(inserted(front, text) == inserted(sorted.take(at), text) + front.skip(at));
        assert((inserted(sorted.take(at), text) + front.skip(at)).push(sorted.last()) =~= inserted(
            sorted.take(at),
            text,
        ) + sorted.skip(at));
    }
}

/// Puts `text` in its place among the sorted texts, unless it is there already.
pub fn insert_sorted(sorted: &mut Vec<String>, text: &str)
    ensures
        strings_view(final(sorted)@) == inserted(strings_view(old(sorted)@), text@),
{
    let ghost before = strings_view(sorted@);
    let chars = to_chars(text);
    let mut at: usize = sorted.len();
    while at > 0
        invariant
            at <= sorted.len(),
            chars@ == text@,
            before == strings_view(sorted@),
            forall|j: int|
                at <= j < sorted.len() ==> before[j] != text@ && !lex_less(before[j], text@),
        ensures
            at == 0 || (before[at - 1] != text@ && lex_less(before[at - 1], text@)),
        decreases at,
    {
        let candidate = to_chars(sorted[at - 1].as_str());
        if str_eq(sorted[at - 1].as_str(), text) {
            proof {
                lemma_inserted_at(before, text@, at as int);
                assert(before.take(at as int).last() == text@);
                assert(before.take(at as int) + before.skip(at as int) =~= before);
            }
            return ;
        }
        if text_before(&candidate, &chars) {
            break ;
        }
        at -= 1;
    }
    proof {
        lemma_inserted_at(before, text@, at as int);
        let head = before.take(at as int);
        if at > 0 {
            assert(head.last() == before[at - 1]);
            assert(inserted(head, text@) == head.push(text@));
        } else {
            assert(inserted(head, text@) =~= seq![text@]);
        }
        assert(head.push(text@) + before.skip(at as int) =~= before.insert(at as int, text@));
    }
    sorted.insert(at, text.to_string());
    assert(strings_view(sorted@) =~= before.insert(at as int, text@));
}

/// The literals of the variants, each once, in lexicographic order.
pub fn known_literals(variants: &Vec<VariantInfo>) -> (r: Vec<String>)
    ensures
        strings_view(r@) == literals(variants_view(variants@)),
{
    let mut known: Vec<String> = Vec::new();
    let ghost all = variants_view(variants@);
    let mut i: usize = 0;
    assert(all.take(0) =~= Seq::empty());
    assert(strings_view(known@) =~= Seq::empty());
    while i < variants.len()
        invariant
            i <= variants.len(),
            all == variants_view(variants@),
            strings_view(known@) == literals(all.take(i as int)),
        decreases variants.len() - i,
    {
        assert(all.take(i + 1).drop_last() =~= all.take(i as int));
        assert(all.take(i + 1).last() == variants[i as int]@);
        insert_sorted(&mut known, variants[i].request_type_const.as_str());
        i += 1;
    }
    assert(all.take(variants.len() as int) =~= all);
    known
}

/// The indices of the variants whose literal is `literal`, in declared order.
pub open spec fn group_of(variants: Seq<VariantView>, literal: Seq<char>) -> Seq<int>
    decreases variants.len(),
{
    if variants.len() == 0 {
        Seq::empty()
    } else if variants.last().literal == literal {
        group_of(variants.drop_last(), literal).push(variants.len() - 1)
    } else {
        group_of(variants.drop_last(), literal)
    }
}

/// Whether every variant of the group has a field called `name`.
pub open spec fn in_every(variants: Seq<VariantView>, group: Seq<int>, name: Seq<char>) -> bool {
    forall|p: int| 0 <= p < group.len() ==> variants[#[trigger] group[p]].has_field(name)
}

/// The names of those of `fields` that not every variant of the group has,
/// in order.
pub open spec fn distinguishing(
    variants: Seq<VariantView>,
    group: Seq<int>,
    fields: Seq<FieldView>,
) -> Seq<Seq<char>>
    decreases fields.len(),
{
    if fields.len() == 0 {
        Seq::empty()
    } else if in_every(variants, group, fields.last().name) {
        distinguishing(variants, group, fields.drop_last())
    } else {
        distinguishing(variants, group, fields.drop_last()).push(fields.last().name)
    }
}

/// A group holds the indices of the variants with its literal, and no
/// others, in increasing order.
pub proof fn lemma_group_of(variants: Seq<VariantView>, literal: Seq<char>)
    ensures
        forall|p: int|
            0 <= p < group_of(variants, literal).len() ==> 0 <= (#[trigger] group_of(
                variants,
                literal,
            )[p]) < variants.len() && variants[group_of(variants, literal)[p]].literal == literal,
        forall|p: int, q: int|
            0 <= p < q < group_of(variants, literal).len() ==> group_of(variants, literal)[p]
                < group_of(variants, literal)[q],
        forall|k: int|
            0 <= k < variants.len() && (#[trigger] variants[k]).literal == literal
                ==> group_of(variants, literal).contains(k),
    decreases variants.len(),
{
    if variants.len() > 0 {
        let front = variants.drop_last();
        lemma_group_of(front, literal);
        let inner = group_of(front, literal);
        let group = group_of(variants, literal);
        assert forall|p: int| 0 <= p < group.len() implies 0 <= (#[trigger] group[p])
            < variants.len() && variants[group[p]].literal == literal by {
            if p < inner.len() {
                assert(group[p] == inner[p]);
                assert(front[inner[p]] == variants[inner[p]]);
            }
        }
        assert forall|p: int, q: int| 0 <= p < q < group.len() implies group[p] < group[q] by {
            assert(group[p] == inner[p]);
            if q < inner.len() {
                assert(group[q] == inner[q]);
            }
        }
        assert forall|k: int|
            0 <= k < variants.len() && (#[trigger] variants[k]).literal
                == literal implies group.contains(k) by {
            if k < front.len() {
                assert(front[k] == variants[k]);
                assert(inner.contains(k));
                let p = choose|p: int| 0 <= p < inner.len() && inner[p] == k;
                assert(group[p] == k);
            } else {
                assert(group[group.len() - 1] == k);
            }
        }
    }
}

/// The views of a list of indices.
pub open spec fn indices_view(indices: Seq<usize>) -> Seq<int> {
    Seq::new(indices.len(), |i: int| indices[i] as int)
}

/// The indices of the variants whose literal is `literal`, in declared order.
pub fn variants_with_literal(variants: &Vec<VariantInfo>, literal: &str) -> (r: Vec<usize>)
    ensures
        indices_view(r@) == group_of(variants_view(variants@), literal@),
        forall|p: int| 0 <= p < r.len() ==> (#[trigger] r[p]) < variants.len(),
{
    let mut group: Vec<usize> = Vec::new();
    let ghost all = variants_view(variants@);
    let mut i: usize = 0;
    assert(all.take(0) =~= Seq::empty());
    assert(indices_view(group@) =~= Seq::empty());
    while i < variants.len()
        invariant
            i <= variants.len(),
            all == variants_view(variants@),
            indices_view(group@) == group_of(all.take(i as int), literal@),
            forall|p: int| 0 <= p < group.len() ==> (#[trigger] group[p]) < variants.len(),
        decreases variants.len() - i,
    {
        assert(all.take(i + 1).drop_last() =~= all.take(i as int));
        assert(all.take(i + 1).last() == variants[i as int]@);
        if str_eq(variants[i].request_type_const.as_str(), literal) {
            let ghost before = indices_view(group@);
            group.push(i);
            assert(indices_view(group@) =~= before.push(i as int));
        }
        i += 1;
    }
    assert(all.take(variants.len() as int) =~= all);
    group
}

/// Whether every variant of the group has a field called `name`.
pub fn every_variant_has(variants: &Vec<VariantInfo>, group: &Vec<usize>, name: &str) -> (r: bool)
    requires
        forall|p: int| 0 <= p < group.len() ==> (#[trigger] group[p]) < variants.len(),
    ensures
        r == in_every(variants_view(variants@), indices_view(group@), name@),
{
    let mut p: usize = 0;
    while p < group.len()
        invariant
            p <= group.len(),
            forall|q: int| 0 <= q < group.len() ==> (#[trigger] group[q]) < variants.len(),
            forall|q: int|
                0 <= q < p ==> variants_view(variants@)[#[trigger] indices_view(
                    group@,
                )[q]].has_field(name@),
        decreases group.len() - p,
    {
        assert(indices_view(group@)[p as int] == group[p as int]);
        if !variants[group[p]].has_field(name) {
            return false;
        }
        p += 1;
    }
    true
}

/// The names of the fields of the variant at `index` that not every variant
/// of the group has, in declared order.
pub fn distinguishing_fields(variants: &Vec<VariantInfo>, group: &Vec<usize>, index: usize) -> (r:
    Vec<String>)
    requires
        index < variants.len(),
        forall|p: int| 0 <= p < group.len() ==> (#[trigger] group[p]) < variants.len(),
    ensures
        strings_view(r@) == distinguishing(
            variants_view(variants@),
            indices_view(group@),
            variants[index as int]@.fields,
        ),
{
    let mut names: Vec<String> = Vec::new();
    let variant = &variants[index];
    let ghost fields = variant@.fields;
    let mut i: usize = 0;
    assert(fields.take(0) =~= Seq::empty());
    assert(strings_view(names@) =~= Seq::empty());
    while i < variant.fields.len()
        invariant
            i <= variant.fields.len(),
            fields == variant@.fields,
            forall|p: int| 0 <= p < group.len() ==> (#[trigger] group[p]) < variants.len(),
            strings_view(names@) == distinguishing(
                variants_view(variants@),
                indices_view(group@),
                fields.take(i as int),
            ),
        decreases variant.fields.len() - i,
    {
        assert(fields.take(i + 1).drop_last() =~= fields.take(i as int));
        assert(fields.take(i + 1).last() == variant.fields[i as int]@);
        if !every_variant_has(variants, group, variant.fields[i].name.as_str()) {
            let ghost before = strings_view(names@);
            names.push(variant.fields[i].name.clone());
            assert(strings_view(names@) =~= before.push(variant.fields[i as int].name@));
        }
        i += 1;
    }
    assert(fields.take(variant.fields.len() as int) =~= fields);
    names
}

} // verus!
