//! Rewriting of emitted type source: documentation blocks that only repeat
//! the schema are dropped, and designated unions lose their discriminator
//! fields and gain an encoder and a decoder that handle the discriminator.

use vstd::prelude::*;
use crate::json::{key_index, lemma_key_index_is, lemma_key_index_none, lookup, with_entry};
use crate::text::{
    append_chars, append_str, contains, contains_text, ends_with, find, find_text, joined,
    lines_of, replace, replaced, same_text, slice, split_lines, starts_with, str_eq, strings_view,
    to_chars, to_string, trim, trim_end_matches, trimmed, views, without_trailing,
};
use crate::decimal::{decimal_text, push_decimal};
use crate::variant::{
    distinguishing, distinguishing_fields, fields_view, group_of, indices_view, known_literals,
    literals, variants_view, variants_with_literal, FieldView, VariantField, VariantInfo,
    VariantView,
};

verus! {

/// The literal of each discriminator type, by the type's name. Where a name
/// was registered more than once, the last literal counts.
#[derive(Clone, Debug, PartialEq, Eq)]
pub struct DiscriminatorMap {
    pub entries: Vec<(String, String)>,
}

impl View for DiscriminatorMap {
    type V = Seq<(Seq<char>, Seq<char>)>;

    open spec fn view(&self) -> Seq<(Seq<char>, Seq<char>)> {
        Seq::new(self.entries.len() as nat, |i: int| (self.entries[i].0@, self.entries[i].1@))
    }
}

impl DiscriminatorMap {
    /// A map without entries.
    pub fn new() -> (r: Self)
        ensures
            r@ == Seq::<(Seq<char>, Seq<char>)>::empty(),
    {
        let r = DiscriminatorMap { entries: Vec::new() };
        assert(r@ =~= Seq::empty());
        r
    }

    /// Index of the last entry for `name`.
    fn position(&self, name: &str) -> (r: Option<usize>)
        ensures
            match r {
                Some(i) => i < self.entries.len() && key_index(self@, name@) == Some(i as int),
                None => key_index(self@, name@) is None,
            },
    {
        let mut i: usize = self.entries.len();
        while i > 0
            invariant
                i <= self.entries.len(),
                forall|j: int| i <= j < self.entries.len() ==> self@[j].0 != name@,
            decreases i,
        {
            i -= 1;
            if str_eq(self.entries[i].0.as_str(), name) {
                proof {
                    lemma_key_index_is(self@, name@, i as int);
                }
                return Some(i);
            }
        }
        proof {
            lemma_key_index_none(self@, name@);
        }
        None
    }

    /// The literal registered for `name`.
    pub fn get(&self, name: &str) -> (r: Option<&String>)
        ensures
            match r {
                Some(literal) => lookup(self@, name@) == Some(literal@),
                None => lookup(self@, name@) is None,
            },
    {
        match self.position(name) {
            Some(i) => Some(&self.entries[i].1),
            None => None,
        }
    }

    /// Registers `literal` for `name`, in place of an earlier literal
    /// for that name if there is one.
    pub fn insert(&mut self, name: String, literal: String)
        ensures
            final(self)@ == with_entry(old(self)@, name@, literal@),
    {
        let ghost before = self@;
        match self.position(name.as_str()) {
            Some(i) => {
                self.entries.set(i, (name, literal));
                assert(self@ =~= before.update(i as int, (name@, literal@)));
            },
            None => {
                self.entries.push((name, literal));
                assert(self@ =~= before.push((name@, literal@)));
            },
        }
    }
}

/// The name of the discriminator type that a line declares: the line, but
/// for white space around it, is `pub enum NAME {` with a name ending in
/// `RequestType`.
pub open spec fn discriminator_type(line: Seq<char>) -> Option<Seq<char>> {
    let text = trimmed(line);
    if "pub enum "@.is_prefix_of(text) {
        let rest = text.skip("pub enum "@.len() as int);
        if " {"@.is_suffix_of(rest) {
            let name = rest.take(rest.len() - " {"@.len());
            if "RequestType"@.is_suffix_of(name) {
                Some(name)
            } else {
                None
            }
        } else {
            None
        }
    } else {
        None
    }
}

/// The wire name that a line gives: the line, but for white space around
/// it, is `#[serde(rename = "NAME")]`.
pub open spec fn wire_name(line: Seq<char>) -> Option<Seq<char>> {
    let text = trimmed(line);
    if "#[serde(rename = \""@.is_prefix_of(text) {
        let rest = text.skip("#[serde(rename = \""@.len() as int);
        if "\")]"@.is_suffix_of(rest) {
            Some(rest.take(rest.len() - "\")]"@.len()))
        } else {
            None
        }
    } else {
        None
    }
}

/// The first wire name among up to `count` lines from `from` on.
pub open spec fn first_wire_name(lines: Seq<Seq<char>>, from: int, count: int) -> Option<Seq<char>>
    decreases count,
{
    if count <= 0 || from < 0 || from >= lines.len() {
        None
    } else {
        match wire_name(lines[from]) {
            Some(name) => Some(name),
            None => first_wire_name(lines, from + 1, count - 1),
        }
    }
}

/// The discriminator map of the first `upto` lines: each discriminator type
/// with the first wire name among the four lines after its declaration.
pub open spec fn discriminator_values(lines: Seq<Seq<char>>, upto: int) -> Seq<
    (Seq<char>, Seq<char>),
>
    decreases upto,
{
    if upto <= 0 {
        Seq::empty()
    } else {
        let before = discriminator_values(lines, upto - 1);
        match discriminator_type(lines[upto - 1]) {
            Some(name) => match first_wire_name(lines, upto, 4) {
                Some(literal) => with_entry(before, name, literal),
                None => before,
            },
            None => before,
        }
    }
}

/// The discriminator map of emitted source.
pub open spec fn discriminator_map(code: Seq<char>) -> Seq<(Seq<char>, Seq<char>)> {
    discriminator_values(lines_of(code), lines_of(code).len() as int)
}

/// The name of the discriminator type that a line declares.
fn discriminator_type_of(line: &Vec<char>) -> (r: Option<Vec<char>>)
    ensures
        match r {
            Some(name) => discriminator_type(line@) == Some(name@),
            None => discriminator_type(line@) is None,
        },
{
    let text = trim(line);
    let prefix = to_chars("pub enum ");
    let suffix = to_chars(" {");
    let ending = to_chars("RequestType");
    if !starts_with(&text, &prefix) {
        return None;
    }
    let rest = slice(&text, prefix.len(), text.len());
    if !ends_with(&rest, &suffix) {
        return None;
    }
    let name = slice(&rest, 0, rest.len() - suffix.len());
    if ends_with(&name, &ending) {
        Some(name)
    } else {
        None
    }
}

/// The wire name that a line gives.
fn wire_name_of(line: &Vec<char>) -> (r: Option<Vec<char>>)
    ensures
        match r {
            Some(name) => wire_name(line@) == Some(name@),
            None => wire_name(line@) is None,
        },
{
    let text = trim(line);
    let prefix = to_chars("#[serde(rename = \"");
    let suffix = to_chars("\")]");
    if !starts_with(&text, &prefix) {
        return None;
    }
    let rest = slice(&text, prefix.len(), text.len());
    if !ends_with(&rest, &suffix) {
        return None;
    }
    Some(slice(&rest, 0, rest.len() - suffix.len()))
}

/// The discriminator map of the given lines.
fn discriminator_values_of(lines: &Vec<Vec<char>>) -> (r: DiscriminatorMap)
    ensures
        r@ == discriminator_values(views(lines@), lines.len() as int),
{
    let mut map = DiscriminatorMap::new();
    let ghost all = views(lines@);
    let mut i: usize = 0;
    while i < lines.len()
        invariant
            i <= lines.len(),
            all == views(lines@),
            map@ == discriminator_values(all, i as int),
        decreases lines.len() - i,
    {
        assert(all[i as int] == lines[i as int]@);
        match discriminator_type_of(&lines[i]) {
            Some(name) => {
                let mut j: usize = i + 1;
                let mut left: usize = 4;
                let mut found: Option<Vec<char>> = None;
                while left > 0 && j < lines.len() && found.is_none()
                    invariant
                        i < j <= lines.len(),
                        left <= 4,
                        all == views(lines@),
                        match found {
                            Some(literal) => first_wire_name(all, i + 1, 4) == Some(literal@),
                            None => first_wire_name(all, i + 1, 4) == first_wire_name(
                                all,
                                j as int,
                                left as int,
                            ),
                        },
                    decreases left,
                {
                    assert(all[j as int] == lines[j as int]@);
                    found = wire_name_of(&lines[j]);
                    j += 1;
                    left -= 1;
                }
                match found {
                    Some(literal) => map.insert(to_string(&name), to_string(&literal)),
                    None => {},
                }
            },
            None => {},
        }
        i += 1;
    }
    map
}

/// Collects the literal of every discriminator type that the emitted source
/// declares: for each `pub enum` whose name ends in `RequestType`, the wire
/// name given within the four lines after the declaration.
pub fn extract_request_type_values(code: &str) -> (r: DiscriminatorMap)
    ensures
        r@ == discriminator_map(code@),
{
    let lines = split_lines(&to_chars(code));
    discriminator_values_of(&lines)
}

/// Whether a line opens a documentation block that repeats the schema.
pub open spec fn opens_schema_block(line: Seq<char>) -> bool {
    let text = trimmed(line);
    "///"@.is_prefix_of(text) && contains_text(text, "<details>"@) && contains_text(
        text,
        "JSON schema"@,
    )
}

/// Whether a line closes a documentation block.
pub open spec fn closes_block(line: Seq<char>) -> bool {
    let text = trimmed(line);
    "///"@.is_prefix_of(text) && contains_text(text, "</details>"@)
}

/// Whether a line is nothing but a code fence.
pub open spec fn is_fence(line: Seq<char>) -> bool {
    let text = trimmed(line);
    text == "/// ```"@ || text == "///```"@ || text == "```"@
}

/// What is kept of the first `upto` lines, and whether the last of them
/// lies inside a schema block. Lines of schema blocks are dropped, opening
/// and closing lines included; code fences are marked `ignore`.
pub open spec fn kept_lines(lines: Seq<Seq<char>>, upto: int) -> (Seq<Seq<char>>, bool)
    decreases upto,
{
    if upto <= 0 {
        (Seq::empty(), false)
    } else {
        let (kept, inside) = kept_lines(lines, upto - 1);
        let line = lines[upto - 1];
        if opens_schema_block(line) {
            (kept, true)
        } else if inside {
            (kept, !closes_block(line))
        } else if is_fence(line) {
            (kept.push(replaced(line, "```"@, "```ignore"@)), false)
        } else {
            (kept.push(line), false)
        }
    }
}

/// The emitted source without its schema blocks and with its code fences
/// marked `ignore`.
pub open spec fn without_schema_docs(code: Seq<char>) -> Seq<char> {
    joined(kept_lines(lines_of(code), lines_of(code).len() as int).0)
}

/// Whether `line`, but for white space around it, is `text`.
fn is_line(line: &Vec<char>, text: &str) -> (r: bool)
    ensures
        r == (trimmed(line@) == text@),
{
    same_text(&trim(line), &to_chars(text))
}

/// Drops the documentation blocks that repeat the schema, and marks code
/// fences `ignore`.
pub fn strip_json_schema_docs(code: &str) -> (r: String)
    ensures
        r@ == without_schema_docs(code@),
{
    let lines = split_lines(&to_chars(code));
    let ghost all = views(lines@);
    let doc = to_chars("///");
    let opening = to_chars("<details>");
    let subject = to_chars("JSON schema");
    let closing = to_chars("</details>");
    let fence = to_chars("```");
    let ignored = to_chars("```ignore");
    let mut kept: Vec<Vec<char>> = Vec::new();
    let mut inside = false;
    let mut i: usize = 0;
    assert(views(kept@) =~= Seq::empty());
    while i < lines.len()
        invariant
            i <= lines.len(),
            all == views(lines@),
            doc@ == "///"@,
            opening@ == "<details>"@,
            subject@ == "JSON schema"@,
            closing@ == "</details>"@,
            fence@ == "```"@,
            ignored@ == "```ignore"@,
            kept_lines(all, i as int) == (views(kept@), inside),
        decreases lines.len() - i,
    {
        assert(all[i as int] == lines[i as int]@);
        let line = &lines[i];
        let text = trim(line);
        let ghost before = views(kept@);
        if starts_with(&text, &doc) && contains(&text, &opening) && contains(&text, &subject) {
            inside = true;
        } else if inside {
            if starts_with(&text, &doc) && contains(&text, &closing) {
                inside = false;
            }
        } else if is_line(line, "/// ```") || is_line(line, "///```") || is_line(line, "```") {
            let marked = replace(line, &fence, &ignored);
            kept.push(marked);
            assert(views(kept@) =~= before.push(marked@));
        } else {
            kept.push(line.clone());
            assert(views(kept@) =~= before.push(line@));
        }
        i += 1;
    }
    to_string(&crate::text::join_lines(&kept))
}

/// A serialization attribute that begins on one line and may run over the
/// following lines: the line after its last line, and its text, the lines
/// joined by single spaces without the white space around them. `text`
/// holds the lines before line `at`.
pub open spec fn attribute_rest(lines: Seq<Seq<char>>, end: int, at: int, text: Seq<char>) -> (
    int,
    Seq<char>,
)
    decreases end - at,
{
    if at < 0 || at >= end {
        (end, text)
    } else {
        let more = text + seq![' '] + trimmed(lines[at]);
        if ")]"@.is_suffix_of(trimmed(lines[at])) {
            (at + 1, more)
        } else {
            attribute_rest(lines, end, at + 1, more)
        }
    }
}

/// The serialization attribute that begins on line `at`: the line after its
/// last line, and its text. The attribute ends with the first line that
/// ends in `)]`, or with the last line before `end`.
pub open spec fn attribute(lines: Seq<Seq<char>>, end: int, at: int) -> (int, Seq<char>) {
    let text = trimmed(lines[at]);
    if ")]"@.is_suffix_of(text) {
        (at + 1, text)
    } else {
        attribute_rest(lines, end, at + 1, text)
    }
}

/// The fields of a variant's body.
pub struct ParsedFields {
    /// The line after the body.
    pub next: int,
    /// The fields other than the discriminator, in declared order.
    pub fields: Seq<FieldView>,
    /// The literal of the discriminator field, if the body has one.
    pub literal: Option<Seq<char>>,
}

/// The fields of the variant body that runs from line `at` to the first
/// line that is `},` or `}`, or to `end`. A line that begins with
/// `#[serde(` starts an attribute of the field that follows. Any other line
/// with `: ` in it is a field: its name before, its type after, without
/// trailing commas. A field whose type is in the discriminator map is the
/// discriminator: it is left out and its literal recorded. `fields`,
/// `literal` and `pending` hold what the lines before `at` gave.
pub open spec fn parse_fields(
    lines: Seq<Seq<char>>,
    map: Seq<(Seq<char>, Seq<char>)>,
    end: int,
    at: int,
    fields: Seq<FieldView>,
    literal: Option<Seq<char>>,
    pending: Seq<Seq<char>>,
) -> ParsedFields
    decreases end - at,
    via parse_fields_decreases
{
    if at < 0 || at >= end {
        ParsedFields { next: at, fields, literal }
    } else {
        let text = trimmed(lines[at]);
        if text == "},"@ || text == "}"@ {
            ParsedFields { next: at + 1, fields, literal }
        } else if "#[serde("@.is_prefix_of(text) {
            let (next, attr) = attribute(lines, end, at);
            parse_fields(lines, map, end, next, fields, literal, pending.push(attr))
        } else {
            match find_text(text, ": "@) {
                Some(colon) => {
                    let name = text.take(colon);
                    let declared = without_trailing(text.skip(colon + ": "@.len()), ',');
                    match lookup(map, declared) {
                        Some(value) => parse_fields(
                            lines,
                            map,
                            end,
                            at + 1,
                            fields,
                            Some(value),
                            Seq::empty(),
                        ),
                        None => parse_fields(
                            lines,
                            map,
                            end,
                            at + 1,
                            fields.push(
                                FieldView { name, type_str: declared, serde_attrs: pending },
                            ),
                            literal,
                            Seq::empty(),
                        ),
                    }
                },
                None => parse_fields(lines, map, end, at + 1, fields, literal, pending),
            }
        }
    }
}

/// An attribute ends after the line that it begins on, and not after `end`.
pub proof fn lemma_attribute_rest_bounds(
    lines: Seq<Seq<char>>,
    end: int,
    at: int,
    text: Seq<char>,
)
    requires
        0 <= at <= end,
    ensures
        at <= attribute_rest(lines, end, at, text).0 <= end,
    decreases end - at,
{
    if at < end && !")]"@.is_suffix_of(trimmed(lines[at])) {
        lemma_attribute_rest_bounds(lines, end, at + 1, text + seq![' '] + trimmed(lines[at]));
    }
}

#[via_fn]
proof fn parse_fields_decreases(
    lines: Seq<Seq<char>>,
    map: Seq<(Seq<char>, Seq<char>)>,
    end: int,
    at: int,
    fields: Seq<FieldView>,
    literal: Option<Seq<char>>,
    pending: Seq<Seq<char>>,
) {
    if 0 <= at < end {
        lemma_attribute_rest_bounds(lines, end, at + 1, trimmed(lines[at]));
    }
}

/// A variant's body ends after the line that it begins on, and not after `end`.
pub proof fn lemma_parse_fields_bounds(
    lines: Seq<Seq<char>>,
    map: Seq<(Seq<char>, Seq<char>)>,
    end: int,
    at: int,
    fields: Seq<FieldView>,
    literal: Option<Seq<char>>,
    pending: Seq<Seq<char>>,
)
    requires
        0 <= at <= end,
    ensures
        at <= parse_fields(lines, map, end, at, fields, literal, pending).next <= end,
    decreases end - at,
{
    if at < end {
        let text = trimmed(lines[at]);
        if text == "},"@ || text == "}"@ {
        } else if "#[serde("@.is_prefix_of(text) {
            lemma_attribute_rest_bounds(lines, end, at + 1, text);
            let (next, attr) = attribute(lines, end, at);
            lemma_parse_fields_bounds(lines, map, end, next, fields, literal, pending.push(attr));
        } else {
            match find_text(text, ": "@) {
                Some(colon) => {
                    let name = text.take(colon);
                    let declared = without_trailing(text.skip(colon + ": "@.len()), ',');
                    match lookup(map, declared) {
                        Some(value) => lemma_parse_fields_bounds(
                            lines,
                            map,
                            end,
                            at + 1,
                            fields,
                            Some(value),
                            Seq::empty(),
                        ),
                        None => lemma_parse_fields_bounds(
                            lines,
                            map,
                            end,
                            at + 1,
                            fields.push(
                                FieldView { name, type_str: declared, serde_attrs: pending },
                            ),
                            literal,
                            Seq::empty(),
                        ),
                    }
                },
                None => lemma_parse_fields_bounds(
                    lines,
                    map,
                    end,
                    at + 1,
                    fields,
                    literal,
                    pending,
                ),
            }
        }
    }
}

/// The variants declared from line `at` up to line `end`, after those of
/// `variants`. Documentation, attributes and empty lines between variants
/// are passed over. A line that ends in ` {` begins a variant, named by
/// what stands before; a variant without a discriminator field is left out.
pub open spec fn parse_variants(
    lines: Seq<Seq<char>>,
    map: Seq<(Seq<char>, Seq<char>)>,
    end: int,
    at: int,
    variants: Seq<VariantView>,
) -> Seq<VariantView>
    decreases end - at,
    via parse_variants_decreases
{
    if at < 0 || at >= end {
        variants
    } else {
        let text = trimmed(lines[at]);
        if "///"@.is_prefix_of(text) || "#["@.is_prefix_of(text) || text.len() == 0 {
            parse_variants(lines, map, end, at + 1, variants)
        } else if " {"@.is_suffix_of(text) {
            let body = parse_fields(lines, map, end, at + 1, Seq::empty(), None, Seq::empty());
            parse_variants(
                lines,
                map,
                end,
                body.next,
                match body.literal {
                    Some(literal) => variants.push(
                        VariantView {
                            name: text.take(text.len() - " {"@.len()),
                            literal,
                            fields: body.fields,
                        },
                    ),
                    None => variants,
                },
            )
        } else {
            parse_variants(lines, map, end, at + 1, variants)
        }
    }
}

#[via_fn]
proof fn parse_variants_decreases(
    lines: Seq<Seq<char>>,
    map: Seq<(Seq<char>, Seq<char>)>,
    end: int,
    at: int,
    variants: Seq<VariantView>,
) {
    if 0 <= at < end {
        lemma_parse_fields_bounds(lines, map, end, at + 1, Seq::empty(), None, Seq::empty());
    }
}

/// The variants of the discriminated family that are declared between the
/// lines `start` and `end`.
pub open spec fn variants_between(
    lines: Seq<Seq<char>>,
    map: Seq<(Seq<char>, Seq<char>)>,
    start: int,
    end: int,
) -> Seq<VariantView> {
    parse_variants(lines, map, end, start, Seq::empty())
}

/// The serialization attribute that begins on line `at`.
#[verifier::loop_isolation(false)]
fn read_attribute(lines: &Vec<Vec<char>>, end: usize, at: usize) -> (r: (usize, Vec<char>))
    requires
        at < end <= lines.len(),
    ensures
        (r.0 as int, r.1@) == attribute(views(lines@), end as int, at as int),
        at < r.0 <= end,
{
    let ghost all = views(lines@);
    let closing = to_chars(")]");
    let mut text = trim(&lines[at]);
    assert(all[at as int] == lines[at as int]@);
    if ends_with(&text, &closing) {
        return (at + 1, text);
    }
    let ghost first = text@;
    let mut j: usize = at + 1;
    while j < end
        invariant
            at < j <= end <= lines.len(),
            all == views(lines@),
            closing@ == ")]"@,
            attribute_rest(all, end as int, at + 1, first) == attribute_rest(
                all,
                end as int,
                j as int,
                text@,
            ),
        decreases end - j,
    {
        assert(all[j as int] == lines[j as int]@);
        let part = trim(&lines[j]);
        let ghost before = text@;
        text.push(' ');
        append_chars(&mut text, &part);
        assert(text@ =~= before + seq![' '] + part@);
        j += 1;
        if ends_with(&part, &closing) {
            return (j, text);
        }
    }
    (end, text)
}

/// The fields of the variant body that begins on line `start`.
#[verifier::loop_isolation(false)]
fn parse_variant_fields(
    lines: &Vec<Vec<char>>,
    end: usize,
    start: usize,
    map: &DiscriminatorMap,
) -> (r: (usize, Vec<VariantField>, Option<String>))
    requires
        start <= end <= lines.len(),
    ensures
        ({
            let body = parse_fields(
                views(lines@),
                map@,
                end as int,
                start as int,
                Seq::empty(),
                None,
                Seq::empty(),
            );
            &&& r.0 == body.next
            &&& fields_view(r.1@) == body.fields
            &&& match r.2 {
                Some(literal) => body.literal == Some(literal@),
                None => body.literal is None,
            }
        }),
        start <= r.0 <= end,
{
    let ghost all = views(lines@);
    let ghost whole = parse_fields(
        all,
        map@,
        end as int,
        start as int,
        Seq::empty(),
        None,
        Seq::empty(),
    );
    let attribute_start = to_chars("#[serde(");
    let separator = to_chars(": ");
    let mut fields: Vec<VariantField> = Vec::new();
    let mut literal: Option<String> = None;
    let mut pending: Vec<String> = Vec::new();
    let mut i: usize = start;
    assert(fields_view(fields@) =~= Seq::empty());
    assert(strings_view(pending@) =~= Seq::empty());
    while i < end
        invariant
            start <= i <= end <= lines.len(),
            all == views(lines@),
            attribute_start@ == "#[serde("@,
            separator@ == ": "@,
            whole == parse_fields(
                all,
                map@,
                end as int,
                i as int,
                fields_view(fields@),
                match literal {
                    Some(value) => Some(value@),
                    None => None,
                },
                strings_view(pending@),
            ),
        decreases end - i,
    {
        assert(all[i as int] == lines[i as int]@);
        let text = trim(&lines[i]);
        if is_line(&lines[i], "},") || is_line(&lines[i], "}") {
            return (i + 1, fields, literal);
        }
        if starts_with(&text, &attribute_start) {
            let (next, attr) = read_attribute(lines, end, i);
            let ghost before = strings_view(pending@);
            pending.push(to_string(&attr));
            assert(strings_view(pending@) =~= before.push(attr@));
            i = next;
            continue ;
        }
        match find(&text, &separator) {
            Some(colon) => {
                let name = slice(&text, 0, colon);
                let declared = trim_end_matches(
                    &slice(&text, colon + separator.len(), text.len()),
                    ',',
                );
                let declared_text = to_string(&declared);
                match map.get(declared_text.as_str()) {
                    Some(value) => {
                        literal = Some(value.clone());
                        pending = Vec::new();
                        assert(strings_view(pending@) =~= Seq::empty());
                    },
                    None => {
                        let ghost before = fields_view(fields@);
                        let ghost attrs = strings_view(pending@);
                        let field = VariantField {
                            name: to_string(&name),
                            type_str: declared_text,
                            serde_attrs: pending,
                        };
                        assert(field@.serde_attrs =~= attrs);
                        fields.push(field);
                        assert(fields_view(fields@) =~= before.push(
                            FieldView { name: name@, type_str: declared@, serde_attrs: attrs },
                        ));
                        pending = Vec::new();
                        assert(strings_view(pending@) =~= Seq::empty());
                    },
                }
            },
            None => {},
        }
        i += 1;
    }
    (i, fields, literal)
}

/// Parses the variants of a union from the lines `start` to `end` of its
/// declaration: each with its fields in declared order, without the
/// discriminator field, whose literal is recorded instead. Variants without
/// a discriminator field are left out.
pub fn parse_enum_variants(
    lines: &Vec<Vec<char>>,
    start: usize,
    end: usize,
    request_type_values: &DiscriminatorMap,
) -> (r: Vec<VariantInfo>)
    requires
        end <= lines.len(),
    ensures
        variants_view(r@) == variants_between(
            views(lines@),
            request_type_values@,
            start as int,
            end as int,
        ),
{
    let ghost all = views(lines@);
    let ghost map = request_type_values@;
    let doc = to_chars("///");
    let attribute_start = to_chars("#[");
    let opening = to_chars(" {");
    let mut variants: Vec<VariantInfo> = Vec::new();
    let mut i: usize = start;
    assert(variants_view(variants@) =~= Seq::empty());
    if start >= end {
        return variants;
    }
    while i < end
        invariant
            i <= end <= lines.len(),
            all == views(lines@),
            map == request_type_values@,
            doc@ == "///"@,
            attribute_start@ == "#["@,
            opening@ == " {"@,
            variants_between(all, map, start as int, end as int) == parse_variants(
                all,
                map,
                end as int,
                i as int,
                variants_view(variants@),
            ),
        decreases end - i,
    {
        assert(all[i as int] == lines[i as int]@);
        let text = trim(&lines[i]);
        if starts_with(&text, &doc) || starts_with(&text, &attribute_start) || text.len() == 0 {
            i += 1;
        } else if ends_with(&text, &opening) {
            let name = slice(&text, 0, text.len() - opening.len());
            let (next, fields, literal) = parse_variant_fields(
                lines,
                end,
                i + 1,
                request_type_values,
            );
            match literal {
                Some(value) => {
                    let ghost before = variants_view(variants@);
                    let ghost parsed = fields_view(fields@);
                    let variant = VariantInfo {
                        name: to_string(&name),
                        request_type_const: value,
                        fields,
                    };
                    variants.push(variant);
                    assert(variants_view(variants@) =~= before.push(
                        VariantView { name: name@, literal: value@, fields: parsed },
                    ));
                },
                None => {},
            }
            i = next;
        } else {
            i += 1;
        }
    }
    variants
}

/// The statement that writes a field.
pub open spec fn always_written(field: FieldView) -> Seq<char> {
    "            map.serialize_entry(\""@
        + field.name
        + "\", "@
        + field.name
        + ")?;\n"@
}

/// Appends the statement that writes a field.
fn write_always_written(out: &mut Vec<char>, field: &VariantField)
    ensures
        final(out)@ == old(out)@ + always_written(field@),
{
    let ghost start = out@;
    append_str(out, "            map.serialize_entry(\"");
    append_str(out, field.name.as_str());
    append_str(out, "\", ");
    append_str(out, field.name.as_str());
    append_str(out, ")?;\n");
    assert(out@ =~= start + always_written(field@));
}

/// The statement that writes a field only when it has a value.
pub open spec fn written_when_present(field: FieldView) -> Seq<char> {
    "            if "@
        + field.name
        + ".is_some() {\n"@
        + "                map.serialize_entry(\""@
        + field.name
        + "\", "@
        + field.name
        + ")?;\n"@
        + "            }\n"@
}

/// Appends the statement that writes a field only when it has a value.
fn write_written_when_present(out: &mut Vec<char>, field: &VariantField)
    ensures
        final(out)@ == old(out)@ + written_when_present(field@),
{
    let ghost start = out@;
    append_str(out, "            if ");
    append_str(out, field.name.as_str());
    append_str(out, ".is_some() {\n");
    append_str(out, "                map.serialize_entry(\"");
    append_str(out, field.name.as_str());
    append_str(out, "\", ");
    append_str(out, field.name.as_str());
    append_str(out, ")?;\n");
    append_str(out, "            }\n");
    assert(out@ =~= start + written_when_present(field@));
}

/// The arm of the encoder for one variant: it binds the fields, writes them in
/// declared order into a map sized for them and the discriminator, and writes
/// the discriminator with the variant's literal last.
pub open spec fn serialize_arm(enum_name: Seq<char>, variant: VariantView) -> Seq<char> {
    "            "@
        + enum_name
        + "::"@
        + variant.name
        + " { "@
        + field_names(variant.fields)
        + " } => {\n"@
        + "                let mut map = serializer"@
        + ".serialize_map(::std::option::Option::Some("@
        + decimal_text(variant.fields.len() + 1)
        + "))?;\n"@
        + serialize_fields(variant.fields)
        + "            map.serialize_entry(\"request_type\", \""@
        + variant.literal
        + "\")?;\n"@
        + "                map.end()\n"@
        + "            }\n"@
}

/// Appends the arm of the encoder for one variant: it binds the fields, writes
/// them in declared order into a map sized for them and the discriminator, and
/// writes the discriminator with the variant's literal last.
fn write_serialize_arm(out: &mut Vec<char>, enum_name: &str, variant: &VariantInfo)
    ensures
        final(out)@ == old(out)@ + serialize_arm(enum_name@, variant@),
{
    let ghost start = out@;
    append_str(out, "            ");
    append_str(out, enum_name);
    append_str(out, "::");
    append_str(out, variant.name.as_str());
    append_str(out, " { ");
    write_field_names(out, &variant.fields);
    append_str(out, " } => {\n");
    append_str(out, "                let mut map = serializer");
    append_str(out, ".serialize_map(::std::option::Option::Some(");
    push_decimal(out, variant.fields.len() as u128 + 1);
    append_str(out, "))?;\n");
    write_serialize_fields(out, &variant.fields);
    append_str(out, "            map.serialize_entry(\"request_type\", \"");
    append_str(out, variant.request_type_const.as_str());
    append_str(out, "\")?;\n");
    append_str(out, "                map.end()\n");
    append_str(out, "            }\n");
    assert(out@ =~= start + serialize_arm(enum_name@, variant@));
}

/// The encoder of a union: one arm for each variant, in declared order.
pub open spec fn serialize_impl(enum_name: Seq<char>, variants: Seq<VariantView>) -> Seq<char> {
    "impl ::serde::Serialize for "@
        + enum_name
        + " {\n"@
        + "    fn serialize<S>(&self, serializer: S) -> "@
        + "::std::result::Result<S::Ok, S::Error>\n"@
        + "    where\n"@
        + "        S: ::serde::Serializer,\n"@
        + "    {\n"@
        + "        use ::serde::ser::SerializeMap;\n"@
        + "        match self {\n"@
        + serialize_arms(enum_name, variants)
        + "        }\n"@
        + "    }\n"@
        + "}"@
}

/// Appends the encoder of a union: one arm for each variant, in declared order.
fn write_serialize_impl(out: &mut Vec<char>, enum_name: &str, variants: &Vec<VariantInfo>)
    ensures
        final(out)@ == old(out)@ + serialize_impl(enum_name@, variants_view(variants@)),
{
    let ghost start = out@;
    append_str(out, "impl ::serde::Serialize for ");
    append_str(out, enum_name);
    append_str(out, " {\n");
    append_str(out, "    fn serialize<S>(&self, serializer: S) -> ");
    append_str(out, "::std::result::Result<S::Ok, S::Error>\n");
    append_str(out, "    where\n");
    append_str(out, "        S: ::serde::Serializer,\n");
    append_str(out, "    {\n");
    append_str(out, "        use ::serde::ser::SerializeMap;\n");
    append_str(out, "        match self {\n");
    write_serialize_arms(out, enum_name, variants);
    append_str(out, "        }\n");
    append_str(out, "    }\n");
    append_str(out, "}");
    assert(out@ =~= start + serialize_impl(enum_name@, variants_view(variants@)));
}

/// The statement that reads a field that may be absent.
pub open spec fn optional_extraction(field: FieldView) -> Seq<char> {
    "                    let "@
        + field.name
        + " = map.get(\""@
        + field.name
        + "\").cloned().map(serde_json::from_value).transpose()"@
        + ".map_err(::serde::de::Error::custom)?;\n"@
}

/// Appends the statement that reads a field that may be absent.
fn write_optional_extraction(out: &mut Vec<char>, field: &VariantField)
    ensures
        final(out)@ == old(out)@ + optional_extraction(field@),
{
    let ghost start = out@;
    append_str(out, "                    let ");
    append_str(out, field.name.as_str());
    append_str(out, " = map.get(\"");
    append_str(out, field.name.as_str());
    append_str(out, "\").cloned().map(serde_json::from_value).transpose()");
    append_str(out, ".map_err(::serde::de::Error::custom)?;\n");
    assert(out@ =~= start + optional_extraction(field@));
}

/// The statement that reads a field that must be there, and fails with the
/// field's name where it is not.
pub open spec fn required_extraction(field: FieldView) -> Seq<char> {
    "                    let "@
        + field.name
        + " = map.get(\""@
        + field.name
        + "\").cloned().ok_or_else(|| ::serde::de::Error::missing_field(\""@
        + field.name
        + "\")).and_then(|v| serde_json::from_value(v)"@
        + ".map_err(::serde::de::Error::custom))?;\n"@
}

/// Appends the statement that reads a field that must be there, and fails with
/// the field's name where it is not.
fn write_required_extraction(out: &mut Vec<char>, field: &VariantField)
    ensures
        final(out)@ == old(out)@ + required_extraction(field@),
{
    let ghost start = out@;
    append_str(out, "                    let ");
    append_str(out, field.name.as_str());
    append_str(out, " = map.get(\"");
    append_str(out, field.name.as_str());
    append_str(out, "\").cloned().ok_or_else(|| ::serde::de::Error::missing_field(\"");
    append_str(out, field.name.as_str());
    append_str(out, "\")).and_then(|v| serde_json::from_value(v)");
    append_str(out, ".map_err(::serde::de::Error::custom))?;\n");
    assert(out@ =~= start + required_extraction(field@));
}

/// The test that the payload has a field.
pub open spec fn presence_test(name: Seq<char>) -> Seq<char> {
    "map.contains_key(\""@
        + name
        + "\")"@
}

/// Appends the test that the payload has a field.
fn write_presence_test(out: &mut Vec<char>, name: &str)
    ensures
        final(out)@ == old(out)@ + presence_test(name@),
{
    let ghost start = out@;
    append_str(out, "map.contains_key(\"");
    append_str(out, name);
    append_str(out, "\")");
    assert(out@ =~= start + presence_test(name@));
}

/// The expression that builds a variant from its fields.
pub open spec fn construction(enum_name: Seq<char>, variant: VariantView) -> Seq<char> {
    "Ok("@
        + enum_name
        + "::"@
        + variant.name
        + " { "@
        + field_names(variant.fields)
        + " })\n"@
}

/// Appends the expression that builds a variant from its fields.
fn write_construction(out: &mut Vec<char>, enum_name: &str, variant: &VariantInfo)
    ensures
        final(out)@ == old(out)@ + construction(enum_name@, variant@),
{
    let ghost start = out@;
    append_str(out, "Ok(");
    append_str(out, enum_name);
    append_str(out, "::");
    append_str(out, variant.name.as_str());
    append_str(out, " { ");
    write_field_names(out, &variant.fields);
    append_str(out, " })\n");
    assert(out@ =~= start + construction(enum_name@, variant@));
}

/// The arm of the decoder for a literal that one variant has: it reads the
/// variant's fields.
pub open spec fn single_arm(enum_name: Seq<char>, variant: VariantView) -> Seq<char> {
    "                \""@
        + variant.literal
        + "\" => {\n"@
        + field_extractions(variant.fields)
        + "                    "@
        + construction(enum_name, variant)
        + "                }\n"@
}

/// Appends the arm of the decoder for a literal that one variant has: it reads
/// the variant's fields.
fn write_single_arm(out: &mut Vec<char>, enum_name: &str, variant: &VariantInfo)
    ensures
        final(out)@ == old(out)@ + single_arm(enum_name@, variant@),
{
    let ghost start = out@;
    append_str(out, "                \"");
    append_str(out, variant.request_type_const.as_str());
    append_str(out, "\" => {\n");
    write_field_extractions(out, &variant.fields);
    append_str(out, "                    ");
    write_construction(out, enum_name, variant);
    append_str(out, "                }\n");
    assert(out@ =~= start + single_arm(enum_name@, variant@));
}

/// The branch for the first variant of a literal that several variants share.
pub open spec fn first_branch(
    enum_name: Seq<char>,
    variant: VariantView,
    condition: Seq<char>,
) -> Seq<char> {
    "                    if "@
        + condition
        + " {\n"@
        + field_extractions(variant.fields)
        + "                        "@
        + construction(enum_name, variant)
}

/// Appends the branch for the first variant of a literal that several variants
/// share.
fn write_first_branch(
    out: &mut Vec<char>,
    enum_name: &str,
    variant: &VariantInfo,
    condition: &Vec<char>,
)
    ensures
        final(out)@ == old(out)@ + first_branch(enum_name@, variant@, condition@),
{
    let ghost start = out@;
    append_str(out, "                    if ");
    append_chars(out, condition);
    append_str(out, " {\n");
    write_field_extractions(out, &variant.fields);
    append_str(out, "                        ");
    write_construction(out, enum_name, variant);
    assert(out@ =~= start + first_branch(enum_name@, variant@, condition@));
}

/// The branch for a variant that is neither the first nor the last of its
/// literal.
pub open spec fn middle_branch(
    enum_name: Seq<char>,
    variant: VariantView,
    condition: Seq<char>,
) -> Seq<char> {
    "                    } else if "@
        + condition
        + " {\n"@
        + field_extractions(variant.fields)
        + "                        "@
        + construction(enum_name, variant)
}

/// Appends the branch for a variant that is neither the first nor the last of
/// its literal.
fn write_middle_branch(
    out: &mut Vec<char>,
    enum_name: &str,
    variant: &VariantInfo,
    condition: &Vec<char>,
)
    ensures
        final(out)@ == old(out)@ + middle_branch(enum_name@, variant@, condition@),
{
    let ghost start = out@;
    append_str(out, "                    } else if ");
    append_chars(out, condition);
    append_str(out, " {\n");
    write_field_extractions(out, &variant.fields);
    append_str(out, "                        ");
    write_construction(out, enum_name, variant);
    assert(out@ =~= start + middle_branch(enum_name@, variant@, condition@));
}

/// The branch for the last variant of a literal that several variants share: it
/// is taken where no earlier branch is.
pub open spec fn last_branch(enum_name: Seq<char>, variant: VariantView) -> Seq<char> {
    "                    } else {\n"@
        + field_extractions(variant.fields)
        + "                        "@
        + construction(enum_name, variant)
        + "                    }\n"@
}

/// Appends the branch for the last variant of a literal that several variants
/// share: it is taken where no earlier branch is.
fn write_last_branch(out: &mut Vec<char>, enum_name: &str, variant: &VariantInfo)
    ensures
        final(out)@ == old(out)@ + last_branch(enum_name@, variant@),
{
    let ghost start = out@;
    append_str(out, "                    } else {\n");
    write_field_extractions(out, &variant.fields);
    append_str(out, "                        ");
    write_construction(out, enum_name, variant);
    append_str(out, "                    }\n");
    assert(out@ =~= start + last_branch(enum_name@, variant@));
}

/// The arm of the decoder for a literal that several variants share.
pub open spec fn shared_arm(literal: Seq<char>, branches: Seq<char>) -> Seq<char> {
    "                \""@
        + literal
        + "\" => {\n"@
        + branches
        + "                }\n"@
}

/// Appends the arm of the decoder for a literal that several variants share.
fn write_shared_arm(out: &mut Vec<char>, literal: &str, branches: &Vec<char>)
    ensures
        final(out)@ == old(out)@ + shared_arm(literal@, branches@),
{
    let ghost start = out@;
    append_str(out, "                \"");
    append_str(out, literal);
    append_str(out, "\" => {\n");
    append_chars(out, branches);
    append_str(out, "                }\n");
    assert(out@ =~= start + shared_arm(literal@, branches@));
}

/// A literal between double quotes.
pub open spec fn quoted(literal: Seq<char>) -> Seq<char> {
    "\""@
        + literal
        + "\""@
}

/// Appends a literal between double quotes.
fn write_quoted(out: &mut Vec<char>, literal: &str)
    ensures
        final(out)@ == old(out)@ + quoted(literal@),
{
    let ghost start = out@;
    append_str(out, "\"");
    append_str(out, literal);
    append_str(out, "\"");
    assert(out@ =~= start + quoted(literal@));
}

/// The decoder of a union around the arms for its literals: it reads the
/// payload as a map, fails where the discriminator is missing, dispatches on
/// its literal, and fails with the literal and the known literals where no arm
/// is for it.
pub open spec fn deserialize_frame(
    enum_name: Seq<char>,
    arms: Seq<char>,
    known: Seq<char>,
) -> Seq<char> {
    "impl<'de> ::serde::Deserialize<'de> for "@
        + enum_name
        + " {\n"@
        + "    fn deserialize<D>(deserializer: D) -> ::std::result::Result<Self, "@
        + "D::Error>\n"@
        + "    where\n"@
        + "        D: ::serde::Deserializer<'de>,\n"@
        + "    {\n"@
        + "        let map: serde_json::Map<::std::string::String, "@
        + "serde_json::Value> =\n"@
        + "            serde_json::Map::deserialize(deserializer)?;\n"@
        + "\n"@
        + "        let request_type = map\n"@
        + "            .get(\"request_type\")\n"@
        + "            .and_then(|v| v.as_str())\n"@
        + "            .ok_or_else(|| "@
        + "::serde::de::Error::missing_field(\"request_type\"))?;\n"@
        + "\n"@
        + "        match request_type {\n"@
        + arms
        + "                other => Err(::serde::de::Error::unknown_variant(\n"@
        + "                    other,\n"@
        + "                    &["@
        + known
        + "],\n"@
        + "                )),\n"@
        + "        }\n"@
        + "    }\n"@
        + "}"@
}

/// Appends the decoder of a union around the arms for its literals: it reads
/// the payload as a map, fails where the discriminator is missing, dispatches
/// on its literal, and fails with the literal and the known literals where no
/// arm is for it.
fn write_deserialize_frame(
    out: &mut Vec<char>,
    enum_name: &str,
    arms: &Vec<char>,
    known: &Vec<char>,
)
    ensures
        final(out)@ == old(out)@ + deserialize_frame(enum_name@, arms@, known@),
{
    let ghost start = out@;
    append_str(out, "impl<'de> ::serde::Deserialize<'de> for ");
    append_str(out, enum_name);
    append_str(out, " {\n");
    append_str(out, "    fn deserialize<D>(deserializer: D) -> ::std::result::Result<Self, ");
    append_str(out, "D::Error>\n");
    append_str(out, "    where\n");
    append_str(out, "        D: ::serde::Deserializer<'de>,\n");
    append_str(out, "    {\n");
    append_str(out, "        let map: serde_json::Map<::std::string::String, ");
    append_str(out, "serde_json::Value> =\n");
    append_str(out, "            serde_json::Map::deserialize(deserializer)?;\n");
    append_str(out, "\n");
    append_str(out, "        let request_type = map\n");
    append_str(out, "            .get(\"request_type\")\n");
    append_str(out, "            .and_then(|v| v.as_str())\n");
    append_str(out, "            .ok_or_else(|| ");
    append_str(out, "::serde::de::Error::missing_field(\"request_type\"))?;\n");
    append_str(out, "\n");
    append_str(out, "        match request_type {\n");
    append_chars(out, arms);
    append_str(out, "                other => Err(::serde::de::Error::unknown_variant(\n");
    append_str(out, "                    other,\n");
    append_str(out, "                    &[");
    append_chars(out, known);
    append_str(out, "],\n");
    append_str(out, "                )),\n");
    append_str(out, "        }\n");
    append_str(out, "    }\n");
    append_str(out, "}");
    assert(out@ =~= start + deserialize_frame(enum_name@, arms@, known@));
}

/// The line that opens a variant's declaration.
pub open spec fn variant_opening(variant: VariantView) -> Seq<char> {
    "    "@
        + variant.name
        + " {"@
}

/// Appends the line that opens a variant's declaration.
fn write_variant_opening(out: &mut Vec<char>, variant: &VariantInfo)
    ensures
        final(out)@ == old(out)@ + variant_opening(variant@),
{
    let ghost start = out@;
    append_str(out, "    ");
    append_str(out, variant.name.as_str());
    append_str(out, " {");
    assert(out@ =~= start + variant_opening(variant@));
}

/// The line that declares a field.
pub open spec fn field_declaration(field: FieldView) -> Seq<char> {
    "        "@
        + field.name
        + ": "@
        + field.type_str
        + ","@
}

/// Appends the line that declares a field.
fn write_field_declaration(out: &mut Vec<char>, field: &VariantField)
    ensures
        final(out)@ == old(out)@ + field_declaration(field@),
{
    let ghost start = out@;
    append_str(out, "        ");
    append_str(out, field.name.as_str());
    append_str(out, ": ");
    append_str(out, field.type_str.as_str());
    append_str(out, ",");
    assert(out@ =~= start + field_declaration(field@));
}

/// The line that opens the declaration of a union.
pub open spec fn enum_header(enum_name: Seq<char>) -> Seq<char> {
    "pub enum "@
        + enum_name
        + " {"@
}

/// Appends the line that opens the declaration of a union.
fn write_enum_header(out: &mut Vec<char>, enum_name: &str)
    ensures
        final(out)@ == old(out)@ + enum_header(enum_name@),
{
    let ghost start = out@;
    append_str(out, "pub enum ");
    append_str(out, enum_name);
    append_str(out, " {");
    assert(out@ =~= start + enum_header(enum_name@));
}

/// The names of the fields, separated by commas.
pub open spec fn field_names(fields: Seq<FieldView>) -> Seq<char>
    decreases fields.len(),
{
    if fields.len() == 0 {
        Seq::empty()
    } else if fields.len() == 1 {
        fields[0].name
    } else {
        field_names(fields.drop_last()) + ", "@ + fields.last().name
    }
}

/// The names of the fields, separated by commas.
fn write_field_names(out: &mut Vec<char>, fields: &Vec<VariantField>)
    ensures
        final(out)@ == old(out)@ + field_names(fields_view(fields@)),
{
    let ghost start = out@;
    let ghost all = fields_view(fields@);
    let mut i: usize = 0;
    assert(all.take(0) =~= Seq::empty());
    assert(out@ =~= start + field_names(all.take(0)));
    while i < fields.len()
        invariant
            i <= fields.len(),
            all == fields_view(fields@),
            out@ == start + field_names(all.take(i as int)),
        decreases fields.len() - i,
    {
        let ghost before = all.take(i as int);
        let ghost after = all.take(i + 1);
        assert(after.drop_last() =~= before);
        assert(after.last() == fields[i as int]@);
        if i > 0 {
            append_str(out, ", ");
        }
        append_str(out, fields[i].name.as_str());
        assert(out@ =~= start + field_names(after));
        i += 1;
    }
    assert(all.take(fields.len() as int) =~= all);
}

/// The statement that writes a field: always, or only when it has a value
/// where the field is left out when absent.
pub open spec fn serialize_field(field: FieldView) -> Seq<char> {
    if field.omit_when_absent() {
        written_when_present(field)
    } else {
        always_written(field)
    }
}

/// The statements that write the fields, in declared order.
pub open spec fn serialize_fields(fields: Seq<FieldView>) -> Seq<char>
    decreases fields.len(),
{
    if fields.len() == 0 {
        Seq::empty()
    } else {
        serialize_fields(fields.drop_last()) + serialize_field(fields.last())
    }
}

/// The statements that write the fields, in declared order.
fn write_serialize_fields(out: &mut Vec<char>, fields: &Vec<VariantField>)
    ensures
        final(out)@ == old(out)@ + serialize_fields(fields_view(fields@)),
{
    let ghost start = out@;
    let ghost all = fields_view(fields@);
    let mut i: usize = 0;
    assert(all.take(0) =~= Seq::empty());
    assert(out@ =~= start + serialize_fields(all.take(0)));
    while i < fields.len()
        invariant
            i <= fields.len(),
            all == fields_view(fields@),
            out@ == start + serialize_fields(all.take(i as int)),
        decreases fields.len() - i,
    {
        let ghost after = all.take(i + 1);
        assert(after.drop_last() =~= all.take(i as int));
        assert(after.last() == fields[i as int]@);
        if fields[i].omits_when_absent() {
            write_written_when_present(out, &fields[i]);
        } else {
            write_always_written(out, &fields[i]);
        }
        assert(out@ =~= start + serialize_fields(after));
        i += 1;
    }
    assert(all.take(fields.len() as int) =~= all);
}

/// The arms of the encoder, one for each variant, in declared order.
pub open spec fn serialize_arms(enum_name: Seq<char>, variants: Seq<VariantView>) -> Seq<char>
    decreases variants.len(),
{
    if variants.len() == 0 {
        Seq::empty()
    } else {
        serialize_arms(enum_name, variants.drop_last()) + serialize_arm(enum_name, variants.last())
    }
}

/// The arms of the encoder, one for each variant, in declared order.
fn write_serialize_arms(out: &mut Vec<char>, enum_name: &str, variants: &Vec<VariantInfo>)
    ensures
        final(out)@ == old(out)@ + serialize_arms(enum_name@, variants_view(variants@)),
{
    let ghost start = out@;
    let ghost all = variants_view(variants@);
    let mut i: usize = 0;
    assert(all.take(0) =~= Seq::empty());
    assert(out@ =~= start + serialize_arms(enum_name@, all.take(0)));
    while i < variants.len()
        invariant
            i <= variants.len(),
            all == variants_view(variants@),
            out@ == start + serialize_arms(enum_name@, all.take(i as int)),
        decreases variants.len() - i,
    {
        let ghost after = all.take(i + 1);
        assert(after.drop_last() =~= all.take(i as int));
        assert(after.last() == variants[i as int]@);
        write_serialize_arm(out, enum_name, &variants[i]);
        assert(out@ =~= start + serialize_arms(enum_name@, after));
        i += 1;
    }
    assert(all.take(variants.len() as int) =~= all);
}

/// The statement that reads a field from the payload: a field that is left
/// out when absent may be missing, any other must be there.
pub open spec fn field_extraction(field: FieldView) -> Seq<char> {
    if field.omit_when_absent() {
        optional_extraction(field)
    } else {
        required_extraction(field)
    }
}

/// The statements that read the fields, in declared order.
pub open spec fn field_extractions(fields: Seq<FieldView>) -> Seq<char>
    decreases fields.len(),
{
    if fields.len() == 0 {
        Seq::empty()
    } else {
        field_extractions(fields.drop_last()) + field_extraction(fields.last())
    }
}

/// The statements that read the fields, in declared order.
fn write_field_extractions(out: &mut Vec<char>, fields: &Vec<VariantField>)
    ensures
        final(out)@ == old(out)@ + field_extractions(fields_view(fields@)),
{
    let ghost start = out@;
    let ghost all = fields_view(fields@);
    let mut i: usize = 0;
    assert(all.take(0) =~= Seq::empty());
    assert(out@ =~= start + field_extractions(all.take(0)));
    while i < fields.len()
        invariant
            i <= fields.len(),
            all == fields_view(fields@),
            out@ == start + field_extractions(all.take(i as int)),
        decreases fields.len() - i,
    {
        let ghost after = all.take(i + 1);
        assert(after.drop_last() =~= all.take(i as int));
        assert(after.last() == fields[i as int]@);
        if fields[i].omits_when_absent() {
            write_optional_extraction(out, &fields[i]);
        } else {
            write_required_extraction(out, &fields[i]);
        }
        assert(out@ =~= start + field_extractions(after));
        i += 1;
    }
    assert(all.take(fields.len() as int) =~= all);
}

/// The tests that the payload has each of the fields, joined by `&&`.
pub open spec fn presence_tests(names: Seq<Seq<char>>) -> Seq<char>
    decreases names.len(),
{
    if names.len() == 0 {
        Seq::empty()
    } else if names.len() == 1 {
        presence_test(names[0])
    } else {
        presence_tests(names.drop_last()) + " && "@ + presence_test(names.last())
    }
}

/// The condition under which a variant is selected: its distinguishing
/// fields are all present; `true` where it has none.
pub open spec fn selection_condition(names: Seq<Seq<char>>) -> Seq<char> {
    if names.len() == 0 {
        "true"@
    } else {
        presence_tests(names)
    }
}

/// The condition under which a variant with the given distinguishing
/// fields is selected.
fn selection_condition_of(names: &Vec<String>) -> (r: Vec<char>)
    ensures
        r@ == selection_condition(strings_view(names@)),
{
    let mut out: Vec<char> = Vec::new();
    if names.len() == 0 {
        append_str(&mut out, "true");
        assert(out@ =~= "true"@);
        return out;
    }
    let ghost all = strings_view(names@);
    let mut i: usize = 0;
    assert(all.take(0) =~= Seq::empty());
    assert(out@ =~= presence_tests(all.take(0)));
    while i < names.len()
        invariant
            i <= names.len(),
            all == strings_view(names@),
            out@ == presence_tests(all.take(i as int)),
        decreases names.len() - i,
    {
        let ghost before = out@;
        let ghost after = all.take(i + 1);
        assert(after.drop_last() =~= all.take(i as int));
        assert(after.last() == names[i as int]@);
        if i > 0 {
            append_str(&mut out, " && ");
        }
        write_presence_test(&mut out, names[i].as_str());
        assert(out@ =~= presence_tests(after));
        i += 1;
    }
    assert(all.take(names.len() as int) =~= all);
    out
}

/// The branch of the decoder for the variant at position `at` of a group of
/// variants that share a literal: the first is tested for its
/// distinguishing fields, the last is taken without a test, the others are
/// tested in turn.
pub open spec fn branch(
    enum_name: Seq<char>,
    variants: Seq<VariantView>,
    group: Seq<int>,
    at: int,
) -> Seq<char> {
    let variant = variants[group[at]];
    let condition = selection_condition(distinguishing(variants, group, variant.fields));
    if at == 0 {
        first_branch(enum_name, variant, condition)
    } else if at == group.len() - 1 {
        last_branch(enum_name, variant)
    } else {
        middle_branch(enum_name, variant, condition)
    }
}

/// The branches for the first `upto` variants of a group, in declared order.
pub open spec fn branches(
    enum_name: Seq<char>,
    variants: Seq<VariantView>,
    group: Seq<int>,
    upto: int,
) -> Seq<char>
    decreases upto,
{
    if upto <= 0 {
        Seq::empty()
    } else {
        branches(enum_name, variants, group, upto - 1) + branch(
            enum_name,
            variants,
            group,
            upto - 1,
        )
    }
}

/// The arm of the decoder for a literal: the one variant that has it, or
/// the branches that tell apart the variants that share it.
pub open spec fn literal_arm(
    enum_name: Seq<char>,
    variants: Seq<VariantView>,
    literal: Seq<char>,
) -> Seq<char> {
    let group = group_of(variants, literal);
    if group.len() == 1 {
        single_arm(enum_name, variants[group[0]])
    } else {
        shared_arm(literal, branches(enum_name, variants, group, group.len() as int))
    }
}

/// The arms of the decoder for the given literals, in order.
pub open spec fn literal_arms(
    enum_name: Seq<char>,
    variants: Seq<VariantView>,
    known: Seq<Seq<char>>,
) -> Seq<char>
    decreases known.len(),
{
    if known.len() == 0 {
        Seq::empty()
    } else {
        literal_arms(enum_name, variants, known.drop_last()) + literal_arm(
            enum_name,
            variants,
            known.last(),
        )
    }
}

/// The literals between double quotes, separated by commas.
pub open spec fn quoted_list(known: Seq<Seq<char>>) -> Seq<char>
    decreases known.len(),
{
    if known.len() == 0 {
        Seq::empty()
    } else if known.len() == 1 {
        quoted(known[0])
    } else {
        quoted_list(known.drop_last()) + ", "@ + quoted(known.last())
    }
}

/// The decoder of a union: an arm for each literal that a variant has, in
/// lexicographic order of the literals, and the list of those literals for
/// the failure on any other.
pub open spec fn deserialize_impl(enum_name: Seq<char>, variants: Seq<VariantView>) -> Seq<char> {
    deserialize_frame(
        enum_name,
        literal_arms(enum_name, variants, literals(variants)),
        quoted_list(literals(variants)),
    )
}

/// The arm of the decoder for a literal.
fn write_literal_arm(
    out: &mut Vec<char>,
    enum_name: &str,
    variants: &Vec<VariantInfo>,
    literal: &str,
)
    ensures
        final(out)@ == old(out)@ + literal_arm(enum_name@, variants_view(variants@), literal@),
{
    let ghost start = out@;
    let ghost all = variants_view(variants@);
    let group = variants_with_literal(variants, literal);
    let ghost positions = indices_view(group@);
    if group.len() == 1 {
        assert(positions[0] == group[0]);
        write_single_arm(out, enum_name, &variants[group[0]]);
        return ;
    }
    let mut inner: Vec<char> = Vec::new();
    let mut at: usize = 0;
    assert(inner@ =~= branches(enum_name@, all, positions, 0));
    while at < group.len()
        invariant
            at <= group.len(),
            all == variants_view(variants@),
            positions == indices_view(group@),
            forall|p: int| 0 <= p < group.len() ==> (#[trigger] group[p]) < variants.len(),
            inner@ == branches(enum_name@, all, positions, at as int),
        decreases group.len() - at,
    {
        assert(positions[at as int] == group[at as int]);
        let ghost before = inner@;
        let variant = &variants[group[at]];
        if at == 0 {
            let names = distinguishing_fields(variants, &group, group[at]);
            write_first_branch(&mut inner, enum_name, variant, &selection_condition_of(&names));
        } else if at == group.len() - 1 {
            write_last_branch(&mut inner, enum_name, variant);
        } else {
            let names = distinguishing_fields(variants, &group, group[at]);
            write_middle_branch(&mut inner, enum_name, variant, &selection_condition_of(&names));
        }
        assert(inner@ == before + branch(enum_name@, all, positions, at as int));
        at += 1;
    }
    write_shared_arm(out, literal, &inner);
}

/// Generates the encoder of a union: for each variant, the remaining fields
/// are written as one flat map in declared order, a field that is left out
/// when absent only where it has a value, and the discriminator with the
/// variant's literal is written last.
pub fn generate_serialize_impl(enum_name: &str, variants: &Vec<VariantInfo>) -> (r: String)
    ensures
        r@ == serialize_impl(enum_name@, variants_view(variants@)),
{
    let mut out: Vec<char> = Vec::new();
    write_serialize_impl(&mut out, enum_name, variants);
    assert(out@ =~= serialize_impl(enum_name@, variants_view(variants@)));
    to_string(&out)
}

/// Generates the statements that take the fields of a variant from the
/// payload: a required field fails the decoding where it is absent, a field
/// that is left out when absent decodes to no value.
pub fn generate_field_extractions(fields: &Vec<VariantField>, _enum_name: &str) -> (r: String)
    ensures
        r@ == field_extractions(fields_view(fields@)),
{
    let mut out: Vec<char> = Vec::new();
    write_field_extractions(&mut out, fields);
    assert(out@ =~= field_extractions(fields_view(fields@)));
    to_string(&out)
}

/// Generates the decoder of a union: the payload is read as a flat map, the
/// discriminator must be present, and its literal selects the variant.
/// Variants that share a literal are tried in declared order: the first
/// whose distinguishing fields are all present is taken, and the last
/// without a test. The arms and the list of known literals follow the
/// lexicographic order of the literals.
pub fn generate_deserialize_impl(enum_name: &str, variants: &Vec<VariantInfo>) -> (r: String)
    ensures
        r@ == deserialize_impl(enum_name@, variants_view(variants@)),
{
    let known = known_literals(variants);
    let ghost all = variants_view(variants@);
    let ghost sorted = strings_view(known@);
    let mut arms: Vec<char> = Vec::new();
    let mut list: Vec<char> = Vec::new();
    let mut i: usize = 0;
    assert(sorted.take(0) =~= Seq::empty());
    assert(arms@ =~= literal_arms(enum_name@, all, sorted.take(0)));
    assert(list@ =~= quoted_list(sorted.take(0)));
    while i < known.len()
        invariant
            i <= known.len(),
            all == variants_view(variants@),
            sorted == strings_view(known@),
            arms@ == literal_arms(enum_name@, all, sorted.take(i as int)),
            list@ == quoted_list(sorted.take(i as int)),
        decreases known.len() - i,
    {
        let ghost after = sorted.take(i + 1);
        assert(after.drop_last() =~= sorted.take(i as int));
        assert(after.last() == known[i as int]@);
        write_literal_arm(&mut arms, enum_name, variants, known[i].as_str());
        if i > 0 {
            append_str(&mut list, ", ");
        }
        write_quoted(&mut list, known[i].as_str());
        assert(list@ =~= quoted_list(after));
        i += 1;
    }
    assert(sorted.take(known.len() as int) =~= sorted);
    let mut out: Vec<char> = Vec::new();
    write_deserialize_frame(&mut out, enum_name, &arms, &list);
    assert(out@ =~= deserialize_impl(enum_name@, all));
    to_string(&out)
}

/// The first line from `from` on that, but for white space around it, is `text`.
pub open spec fn find_line(lines: Seq<Seq<char>>, text: Seq<char>, from: int) -> Option<int>
    decreases lines.len() - from,
{
    if from < 0 || from >= lines.len() {
        None
    } else if trimmed(lines[from]) == text {
        Some(from)
    } else {
        find_line(lines, text, from + 1)
    }
}

/// The line with the derive attribute of the declaration that begins on
/// line `at`: the nearest line above that begins with `#[derive(`, with
/// nothing but empty lines, comments and attributes in between.
pub open spec fn derive_above(lines: Seq<Seq<char>>, at: int) -> Option<int>
    decreases at,
{
    if at <= 0 || at > lines.len() {
        None
    } else {
        let text = trimmed(lines[at - 1]);
        if "#[derive("@.is_prefix_of(text) {
            Some(at - 1)
        } else if text.len() > 0 && !"///"@.is_prefix_of(text) && !"#["@.is_prefix_of(text)
            && !"//"@.is_prefix_of(text) {
            None
        } else {
            derive_above(lines, at - 1)
        }
    }
}

/// The brace depth after the characters of `line` from `from` on, starting
/// at `depth`, and whether a closing brace brought the depth to zero; the
/// count stops there.
pub open spec fn scan_braces(line: Seq<char>, from: int, depth: int) -> (int, bool)
    decreases line.len() - from,
{
    if from < 0 || from >= line.len() {
        (depth, false)
    } else if line[from] == '{' {
        scan_braces(line, from + 1, depth + 1)
    } else if line[from] == '}' {
        if depth - 1 == 0 {
            (0, true)
        } else {
            scan_braces(line, from + 1, depth - 1)
        }
    } else {
        scan_braces(line, from + 1, depth)
    }
}

/// The line that closes the declaration that opens on line `start`: the
/// line on which a closing brace brings the brace depth back to zero.
/// `found` is the last such line before line `at`, and `depth` the depth
/// before it. Where the declaration is not closed, the result is `start`.
pub open spec fn closing_line(
    lines: Seq<Seq<char>>,
    start: int,
    at: int,
    depth: int,
    found: int,
) -> int
    decreases lines.len() - at,
{
    if at < 0 || at >= lines.len() {
        found
    } else {
        let (after, closed) = scan_braces(lines[at], 0, depth);
        let last = if closed {
            at
        } else {
            found
        };
        if after == 0 && at > start {
            last
        } else {
            closing_line(lines, start, at + 1, after, last)
        }
    }
}

/// A derive attribute without the derivation of the encoder and the decoder.
pub open spec fn without_codec_derives(line: Seq<char>) -> Seq<char> {
    replaced(
        replaced(
            replaced(
                replaced(
                    replaced(
                        replaced(
                            replaced(
                                line,
                                "::serde::Deserialize, ::serde::Serialize, "@,
                                Seq::empty(),
                            ),
                            "::serde::Deserialize, "@,
                            Seq::empty(),
                        ),
                        ", ::serde::Deserialize"@,
                        Seq::empty(),
                    ),
                    "::serde::Serialize, "@,
                    Seq::empty(),
                ),
                ", ::serde::Serialize"@,
                Seq::empty(),
            ),
            "::serde::Serialize"@,
            Seq::empty(),
        ),
        "::serde::Deserialize"@,
        Seq::empty(),
    )
}

/// The lines from `from` up to `to` without the marker of an untagged union.
pub open spec fn tagged_lines(lines: Seq<Seq<char>>, from: int, to: int) -> Seq<Seq<char>>
    decreases to - from,
{
    if from >= to {
        Seq::empty()
    } else if trimmed(lines[to - 1]) == "#[serde(untagged)]"@ {
        tagged_lines(lines, from, to - 1)
    } else {
        tagged_lines(lines, from, to - 1).push(lines[to - 1])
    }
}

/// The lines that declare the fields.
pub open spec fn field_declarations(fields: Seq<FieldView>) -> Seq<Seq<char>>
    decreases fields.len(),
{
    if fields.len() == 0 {
        Seq::empty()
    } else {
        field_declarations(fields.drop_last()).push(field_declaration(fields.last()))
    }
}

/// The lines that declare a variant with its remaining fields.
pub open spec fn variant_declaration(variant: VariantView) -> Seq<Seq<char>> {
    (seq![variant_opening(variant)] + field_declarations(variant.fields)).push("    },"@)
}

/// The lines that declare the variants.
pub open spec fn variant_declarations(variants: Seq<VariantView>) -> Seq<Seq<char>>
    decreases variants.len(),
{
    if variants.len() == 0 {
        Seq::empty()
    } else {
        variant_declarations(variants.drop_last()) + variant_declaration(variants.last())
    }
}

/// The lines of the source with the declaration of a union rewritten: what
/// stands before the derive attribute; the attribute without the derived
/// encoder and decoder; the lines down to the opening of the declaration,
/// without the marker of an untagged union; the variants without their
/// discriminator fields and attributes; the closing brace; the generated
/// encoder and decoder; and what stands after the declaration.
pub open spec fn rebuilt_lines(
    lines: Seq<Seq<char>>,
    derive: int,
    start: int,
    end: int,
    enum_name: Seq<char>,
    variants: Seq<VariantView>,
) -> Seq<Seq<char>> {
    lines.take(derive).push(without_codec_derives(lines[derive])) + tagged_lines(
        lines,
        derive + 1,
        start + 1,
    ) + variant_declarations(variants) + seq![
        "}"@,
        Seq::empty(),
        serialize_impl(enum_name, variants),
        Seq::empty(),
        deserialize_impl(enum_name, variants),
    ] + lines.skip(end + 1)
}

/// The source with the union `enum_name` rewritten. `None` where the source
/// does not declare it, where no derive attribute stands above the
/// declaration, or where none of its variants has a discriminator field.
pub open spec fn rewritten(
    code: Seq<char>,
    enum_name: Seq<char>,
    map: Seq<(Seq<char>, Seq<char>)>,
) -> Option<Seq<char>> {
    let lines = lines_of(code);
    match find_line(lines, enum_header(enum_name), 0) {
        None => None,
        Some(start) => match derive_above(lines, start) {
            None => None,
            Some(derive) => {
                let end = closing_line(lines, start, start, 0, start);
                let variants = variants_between(lines, map, start + 1, end);
                if variants.len() == 0 {
                    None
                } else {
                    Some(joined(rebuilt_lines(lines, derive, start, end, enum_name, variants)))
                }
            },
        },
    }
}

/// The number of characters in the lines.
pub open spec fn total_len(lines: Seq<Seq<char>>) -> nat
    decreases lines.len(),
{
    if lines.len() == 0 {
        0
    } else {
        total_len(lines.drop_last()) + lines.last().len()
    }
}

/// The first lines hold no more characters than all of them.
pub proof fn lemma_total_len_take(lines: Seq<Seq<char>>, count: int)
    requires
        0 <= count <= lines.len(),
    ensures
        total_len(lines.take(count)) <= total_len(lines),
        count < lines.len() ==> total_len(lines.take(count + 1)) == total_len(lines.take(count))
            + lines[count].len(),
    decreases lines.len(),
{
    if count == lines.len() {
        assert(lines.take(count) =~= lines);
    } else {
        assert(lines.take(count + 1).drop_last() =~= lines.take(count));
        assert(lines.drop_last().take(count) =~= lines.take(count));
        lemma_total_len_take(lines.drop_last(), count);
    }
}

/// The lines of a text hold no more characters than the text.
pub proof fn lemma_lines_total_len(text: Seq<char>)
    ensures
        total_len(lines_of(text)) <= text.len(),
    decreases text.len(),
{
    if text.len() > 0 {
        crate::text::lemma_first_line_len_bounds(text);
        let n = crate::text::first_line_len(text);
        if n == text.len() {
            let only = seq![text];
            assert(only.drop_last() =~= Seq::<Seq<char>>::empty());
            assert(only.last() == text);
            assert(total_len(only.drop_last()) == 0);
        } else {
            let rest = lines_of(text.skip(n + 1));
            let first = crate::text::without_carriage_return(text.take(n));
            lemma_lines_total_len(text.skip(n + 1));
            lemma_total_len_prepend(first, rest);
            assert(first.len() <= n);
            assert(text.skip(n + 1).len() == text.len() - n - 1);
        }
    }
}

/// A line before other lines adds its characters to theirs.
proof fn lemma_total_len_prepend(first: Seq<char>, rest: Seq<Seq<char>>)
    ensures
        total_len(seq![first] + rest) == first.len() + total_len(rest),
    decreases rest.len(),
{
    let all = seq![first] + rest;
    if rest.len() == 0 {
        assert(all.drop_last() =~= Seq::<Seq<char>>::empty());
        assert(all.last() == first);
        assert(total_len(all.drop_last()) == 0);
    } else {
        assert(all.drop_last() =~= seq![first] + rest.drop_last());
        assert(all.last() == rest.last());
        lemma_total_len_prepend(first, rest.drop_last());
    }
}

/// The first line that, but for white space around it, is `text`.
fn find_line_of(lines: &Vec<Vec<char>>, text: &Vec<char>) -> (r: Option<usize>)
    ensures
        match r {
            Some(i) => i < lines.len() && find_line(views(lines@), text@, 0) == Some(i as int),
            None => find_line(views(lines@), text@, 0) is None,
        },
{
    let ghost all = views(lines@);
    let mut i: usize = 0;
    while i < lines.len()
        invariant
            i <= lines.len(),
            all == views(lines@),
            find_line(all, text@, 0) == find_line(all, text@, i as int),
        decreases lines.len() - i,
    {
        assert(all[i as int] == lines[i as int]@);
        if same_text(&trim(&lines[i]), text) {
            return Some(i);
        }
        i += 1;
    }
    None
}

/// The line with the derive attribute of the declaration on line `start`.
fn derive_line_of(lines: &Vec<Vec<char>>, start: usize) -> (r: Option<usize>)
    requires
        start <= lines.len(),
    ensures
        match r {
            Some(i) => i < start && derive_above(views(lines@), start as int) == Some(i as int),
            None => derive_above(views(lines@), start as int) is None,
        },
{
    let ghost all = views(lines@);
    let derive = to_chars("#[derive(");
    let doc = to_chars("///");
    let attribute_start = to_chars("#[");
    let comment = to_chars("//");
    let mut at: usize = start;
    while at > 0
        invariant
            at <= start <= lines.len(),
            all == views(lines@),
            derive@ == "#[derive("@,
            doc@ == "///"@,
            attribute_start@ == "#["@,
            comment@ == "//"@,
            derive_above(all, start as int) == derive_above(all, at as int),
        decreases at,
    {
        assert(all[at - 1] == lines[at - 1]@);
        let text = trim(&lines[at - 1]);
        if starts_with(&text, &derive) {
            return Some(at - 1);
        }
        if text.len() > 0 && !starts_with(&text, &doc) && !starts_with(&text, &attribute_start)
            && !starts_with(&text, &comment) {
            return None;
        }
        at -= 1;
    }
    None
}

/// The brace depth after `line`, starting at `depth`, and whether a closing
/// brace brought it to zero.
fn scan_line_braces(line: &Vec<char>, depth: i128) -> (r: (i128, bool))
    requires
        -(usize::MAX as int) <= depth - line.len(),
        depth + line.len() <= usize::MAX as int,
    ensures
        (r.0 as int, r.1) == scan_braces(line@, 0, depth as int),
        depth - line.len() <= r.0 <= depth + line.len(),
{
    let mut now: i128 = depth;
    let mut k: usize = 0;
    while k < line.len()
        invariant
            k <= line.len(),
            -(usize::MAX as int) <= depth - line.len(),
            depth + line.len() <= usize::MAX as int,
            depth - k <= now <= depth + k,
            scan_braces(line@, 0, depth as int) == scan_braces(line@, k as int, now as int),
        decreases line.len() - k,
    {
        if line[k] == '{' {
            now += 1;
        } else if line[k] == '}' {
            now -= 1;
            if now == 0 {
                return (0, true);
            }
        }
        k += 1;
    }
    (now, false)
}

/// The line that closes the declaration that opens on line `start`.
fn closing_line_of(lines: &Vec<Vec<char>>, start: usize) -> (r: usize)
    requires
        start < lines.len(),
        total_len(views(lines@)) <= usize::MAX,
    ensures
        r == closing_line(views(lines@), start as int, start as int, 0, start as int),
        start <= r < lines.len(),
{
    let ghost all = views(lines@);
    let mut depth: i128 = 0;
    let mut found: usize = start;
    let mut i: usize = start;
    proof {
        lemma_total_len_take(all, start as int);
    }
    while i < lines.len()
        invariant
            start <= i <= lines.len(),
            start <= found < lines.len(),
            all == views(lines@),
            total_len(all) <= usize::MAX,
            -total_len(all.take(i as int)) <= depth <= total_len(all.take(i as int)),
            closing_line(all, start as int, start as int, 0, start as int) == closing_line(
                all,
                start as int,
                i as int,
                depth as int,
                found as int,
            ),
        decreases lines.len() - i,
    {
        assert(all[i as int] == lines[i as int]@);
        proof {
            lemma_total_len_take(all, i as int);
            lemma_total_len_take(all, i + 1);
        }
        let (after, closed) = scan_line_braces(&lines[i], depth);
        if closed {
            found = i;
        }
        if after == 0 && i > start {
            return found;
        }
        depth = after;
        i += 1;
    }
    found
}

/// The lines of a derive attribute without the derived encoder and decoder.
fn strip_codec_derives(line: &Vec<char>) -> (r: Vec<char>)
    ensures
        r@ == without_codec_derives(line@),
{
    let nothing: Vec<char> = Vec::new();
    assert(nothing@ =~= Seq::<char>::empty());
    let a = replace(line, &to_chars("::serde::Deserialize, ::serde::Serialize, "), &nothing);
    let b = replace(&a, &to_chars("::serde::Deserialize, "), &nothing);
    let c = replace(&b, &to_chars(", ::serde::Deserialize"), &nothing);
    let d = replace(&c, &to_chars("::serde::Serialize, "), &nothing);
    let e = replace(&d, &to_chars(", ::serde::Serialize"), &nothing);
    let f = replace(&e, &to_chars("::serde::Serialize"), &nothing);
    replace(&f, &to_chars("::serde::Deserialize"), &nothing)
}

/// Appends the lines that declare the variants.
fn push_variant_declarations(out: &mut Vec<Vec<char>>, variants: &Vec<VariantInfo>)
    ensures
        views(final(out)@) == views(old(out)@) + variant_declarations(variants_view(variants@)),
{
    let ghost start = views(out@);
    let ghost all = variants_view(variants@);
    let mut i: usize = 0;
    assert(all.take(0) =~= Seq::empty());
    assert(views(out@) =~= start + variant_declarations(all.take(0)));
    while i < variants.len()
        invariant
            i <= variants.len(),
            all == variants_view(variants@),
            views(out@) == start + variant_declarations(all.take(i as int)),
        decreases variants.len() - i,
    {
        let ghost done = views(out@);
        let ghost after = all.take(i + 1);
        assert(after.drop_last() =~= all.take(i as int));
        assert(after.last() == variants[i as int]@);
        let variant = &variants[i];
        let ghost fields = fields_view(variant.fields@);
        let mut opening: Vec<char> = Vec::new();
        write_variant_opening(&mut opening, variant);
        assert(opening@ =~= variant_opening(variant@));
        out.push(opening);
        assert(views(out@) =~= done + seq![variant_opening(variant@)]);
        let mut k: usize = 0;
        assert(fields.take(0) =~= Seq::empty());
        assert(views(out@) =~= done + (seq![variant_opening(variant@)] + field_declarations(
            fields.take(0),
        )));
        while k < variant.fields.len()
            invariant
                k <= variant.fields.len(),
                fields == fields_view(variant.fields@),
                views(out@) == done + (seq![variant_opening(variant@)] + field_declarations(
                    fields.take(k as int),
                )),
            decreases variant.fields.len() - k,
        {
            let ghost so_far = views(out@);
            assert(fields.take(k + 1).drop_last() =~= fields.take(k as int));
            assert(fields.take(k + 1).last() == variant.fields[k as int]@);
            let mut line: Vec<char> = Vec::new();
            write_field_declaration(&mut line, &variant.fields[k]);
            assert(line@ =~= field_declaration(variant.fields[k as int]@));
            out.push(line);
            assert(views(out@) =~= so_far.push(field_declaration(variant.fields[k as int]@)));
            assert(views(out@) =~= done + (seq![variant_opening(variant@)] + field_declarations(
                fields.take(k + 1),
            )));
            k += 1;
        }
        assert(fields.take(variant.fields.len() as int) =~= fields);
        let ghost so_far = views(out@);
        out.push(to_chars("    },"));
        assert(views(out@) =~= so_far.push("    },"@));
        assert(views(out@) =~= done + variant_declaration(variant@));
        assert(views(out@) =~= start + variant_declarations(after));
        i += 1;
    }
    assert(all.take(variants.len() as int) =~= all);
}

/// Appends the lines from `from` up to `to`, but for those that `keep`
/// leaves out.
fn push_lines(out: &mut Vec<Vec<char>>, lines: &Vec<Vec<char>>, from: usize, to: usize)
    requires
        from <= to <= lines.len(),
    ensures
        views(final(out)@) == views(old(out)@) + views(lines@).subrange(from as int, to as int),
{
    let ghost start = views(out@);
    let ghost all = views(lines@);
    let mut i: usize = from;
    assert(views(out@) =~= start + all.subrange(from as int, from as int));
    while i < to
        invariant
            from <= i <= to <= lines.len(),
            all == views(lines@),
            views(out@) == start + all.subrange(from as int, i as int),
        decreases to - i,
    {
        let ghost before = views(out@);
        out.push(lines[i].clone());
        assert(views(out@) =~= before.push(lines[i as int]@));
        assert(views(out@) =~= start + all.subrange(from as int, i + 1));
        i += 1;
    }
}

/// Appends the lines from `from` up to `to` without the marker of an
/// untagged union.
fn push_tagged_lines(out: &mut Vec<Vec<char>>, lines: &Vec<Vec<char>>, from: usize, to: usize)
    requires
        from <= to <= lines.len(),
    ensures
        views(final(out)@) == views(old(out)@) + tagged_lines(
            views(lines@),
            from as int,
            to as int,
        ),
{
    let ghost start = views(out@);
    let ghost all = views(lines@);
    let mut i: usize = from;
    assert(views(out@) =~= start + tagged_lines(all, from as int, from as int));
    while i < to
        invariant
            from <= i <= to <= lines.len(),
            all == views(lines@),
            views(out@) == start + tagged_lines(all, from as int, i as int),
        decreases to - i,
    {
        assert(all[i as int] == lines[i as int]@);
        if !is_line(&lines[i], "#[serde(untagged)]") {
            let ghost before = views(out@);
            out.push(lines[i].clone());
            assert(views(out@) =~= before.push(lines[i as int]@));
            assert(views(out@) =~= start + tagged_lines(all, from as int, i + 1));
        }
        i += 1;
    }
}

/// Rewrites the declaration of the union `enum_name` in emitted source: the
/// discriminator fields leave its variants, with every attribute of the
/// fields; the derived encoder and decoder and the marker of an untagged
/// union leave its attributes; and a generated encoder and decoder follow
/// the declaration. `None`, and nothing rewritten, where the source does not
/// declare the union, where no derive attribute stands above the
/// declaration, or where none of its variants has a discriminator field.
pub fn process_enum_request_type(
    code: &str,
    enum_name: &str,
    request_type_values: &DiscriminatorMap,
) -> (r: Option<String>)
    ensures
        match r {
            Some(text) => rewritten(code@, enum_name@, request_type_values@) == Some(text@),
            None => rewritten(code@, enum_name@, request_type_values@) is None,
        },
{
    let chars = to_chars(code);
    let lines = split_lines(&chars);
    let ghost all = views(lines@);
    proof {
        lemma_lines_total_len(chars@);
        assert(total_len(all) <= chars.len());
    }
    let mut header: Vec<char> = Vec::new();
    write_enum_header(&mut header, enum_name);
    assert(header@ =~= enum_header(enum_name@));
    let start = match find_line_of(&lines, &header) {
        Some(start) => start,
        None => {
            return None;
        },
    };
    let derive = match derive_line_of(&lines, start) {
        Some(derive) => derive,
        None => {
            return None;
        },
    };
    let end = closing_line_of(&lines, start);
    let variants = parse_enum_variants(&lines, start + 1, end, request_type_values);
    if variants.len() == 0 {
        return None;
    }
    let ghost parsed = variants_view(variants@);
    let mut out: Vec<Vec<char>> = Vec::new();
    assert(views(out@) =~= Seq::empty());
    push_lines(&mut out, &lines, 0, derive);
    assert(all.subrange(0, derive as int) =~= all.take(derive as int));
    let ghost kept = views(out@);
    out.push(strip_codec_derives(&lines[derive]));
    assert(all[derive as int] == lines[derive as int]@);
    assert(views(out@) =~= all.take(derive as int).push(without_codec_derives(all[derive as int])));
    push_tagged_lines(&mut out, &lines, derive + 1, start + 1);
    push_variant_declarations(&mut out, &variants);
    let ghost declared = views(out@);
    out.push(to_chars("}"));
    out.push(Vec::new());
    out.push(to_chars(generate_serialize_impl(enum_name, &variants).as_str()));
    out.push(Vec::new());
    out.push(to_chars(generate_deserialize_impl(enum_name, &variants).as_str()));
    assert(views(out@) =~= declared + seq![
        "}"@,
        Seq::empty(),
        serialize_impl(enum_name@, parsed),
        Seq::empty(),
        deserialize_impl(enum_name@, parsed),
    ]);
    push_lines(&mut out, &lines, end + 1, lines.len());
    assert(all.subrange(end + 1, lines.len() as int) =~= all.skip(end + 1));
    Some(to_string(&crate::text::join_lines(&out)))
}

/// The emitted source with the designated unions rewritten, `RpcQueryRequest`
/// first and then `QueryRequest`, each as far as the source declares it with
/// discriminator fields. The discriminator map is that of the source as given.
pub open spec fn elided(code: Seq<char>) -> Seq<char> {
    let map = discriminator_map(code);
    let first = match rewritten(code, "RpcQueryRequest"@, map) {
        Some(text) => text,
        None => code,
    };
    match rewritten(first, "QueryRequest"@, map) {
        Some(text) => text,
        None => first,
    }
}

/// Removes the discriminator fields from the variants of the designated
/// unions and gives each of them an encoder that writes the discriminator
/// and a decoder that reads it. A union that the source does not declare
/// with discriminator fields is left as it is.
pub fn elide_const_request_type_fields(code: &str) -> (r: String)
    ensures
        r@ == elided(code@),
{
    let request_type_values = extract_request_type_values(code);
    let first = match process_enum_request_type(code, "RpcQueryRequest", &request_type_values) {
        Some(text) => text,
        None => code.to_string(),
    };
    match process_enum_request_type(first.as_str(), "QueryRequest", &request_type_values) {
        Some(text) => text,
        None => first,
    }
}

} // verus!
