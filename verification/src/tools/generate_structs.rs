//! A generator of syntax tree definitions: from the names of node types and
//! their fields to the source text of a base trait, a visitor trait, and one
//! struct with its `accept` for each node type.

use vstd::prelude::*;
use vstd::string::*;

use crate::text::{chars_of, spells};

verus! {

/// `c` is white space.
pub open spec fn is_space(c: char) -> bool {
    let n = c as int;
    (0x09 <= n <= 0x0D) || n == 0x20 || n == 0x85 || n == 0xA0 || n == 0x1680 || (0x2000 <= n
        <= 0x200A) || n == 0x2028 || n == 0x2029 || n == 0x202F || n == 0x205F || n == 0x3000
}

/// The first position at or after `from` whose character is white space if
/// `blank` is false, or is not if `blank` is true; the length of `text` if
/// there is none.
pub open spec fn span_end(text: Seq<char>, from: int, blank: bool) -> int
    decreases text.len() - from,
{
    if 0 <= from < text.len() && is_space(text[from]) == blank {
        span_end(text, from + 1, blank)
    } else {
        from
    }
}

/// The first position at or after `from` where a comma and a space stand;
/// the length of `text` if there is none.
pub open spec fn separator(text: Seq<char>, from: int) -> int
    decreases text.len() - from,
{
    if from < 0 || from + 1 >= text.len() {
        text.len() as int
    } else if text[from] == ',' && text[from + 1] == ' ' {
        from
    } else {
        separator(text, from + 1)
    }
}

/// The type and the name that a field is written with: its first two words.
/// A text of fewer than two words is no field.
pub open spec fn field_of(text: Seq<char>) -> Option<(Seq<char>, Seq<char>)> {
    let type_start = span_end(text, 0, true);
    let type_end = span_end(text, type_start, false);
    let name_start = span_end(text, type_end, true);
    let name_end = span_end(text, name_start, false);
    if name_start >= text.len() {
        None
    } else {
        Some((text.subrange(type_start, type_end), text.subrange(name_start, name_end)))
    }
}

/// The type that a field of the written type `typ` gets: a boxed `Expr` for
/// an `Expr`, a `Literal` for an `Object`, and the written type otherwise.
pub open spec fn mapped_type(typ: Seq<char>) -> Seq<char> {
    if typ == "Expr"@ {
        "Box<Expr>"@
    } else if typ == "Object"@ {
        "Literal"@
    } else {
        typ
    }
}

/// The line that declares a field.
pub open spec fn field_line(typ: Seq<char>, name: Seq<char>) -> Seq<char> {
    "    pub "@ + name + ": "@ + mapped_type(typ) + ",\n"@
}

/// The lines that declare the fields written in `list` from position `from`
/// on, where a comma and a space stand between one field and the next; or
/// nothing, if one of them is no field.
pub open spec fn field_lines(list: Seq<char>, from: int) -> Option<Seq<char>>
    decreases list.len() - from,
{
    if from < 0 || from > list.len() {
        None
    } else {
        let end = separator(list, from);
        match field_of(list.subrange(from, end)) {
            None => None,
            Some((typ, name)) => if end >= list.len() {
                Some(field_line(typ, name))
            } else {
                proof {
                    lemma_separator(list, from);
                }
                match field_lines(list, end + 2) {
                    None => None,
                    Some(rest) => Some(field_line(typ, name) + rest),
                }
            },
        }
    }
}

/// The lower-case form of `text`, as `str::to_lowercase` gives it.
pub uninterp spec fn lowercased(text: Seq<char>) -> Seq<char>;

/// The name of the visitor's operation for the node type `class_name`.
pub open spec fn visit_name(base_name: Seq<char>, class_name: Seq<char>) -> Seq<char> {
    "visit_"@ + lowercased(class_name) + "_"@ + lowercased(base_name)
}

/// The declaration of the visitor's operation for the node type
/// `class_name`.
pub open spec fn visitor_line(base_name: Seq<char>, class_name: Seq<char>) -> Seq<char> {
    "    fn "@ + visit_name(base_name, class_name) + "(&mut self, expr: &"@ + class_name
        + ") -> R;\n"@
}

/// The declarations of the visitor's operations for the first `n` node
/// types.
pub open spec fn visitor_lines(
    base_name: Seq<char>,
    types: Seq<(Seq<char>, Seq<char>)>,
    n: int,
) -> Seq<char>
    decreases n,
{
    if n <= 0 {
        Seq::empty()
    } else {
        visitor_lines(base_name, types, n - 1) + visitor_line(base_name, types[n - 1].0)
    }
}

/// The base trait and the visitor trait.
pub open spec fn traits_source(base_name: Seq<char>, types: Seq<(Seq<char>, Seq<char>)>) -> Seq<
    char,
> {
    "pub trait "@ + base_name + " {\n"@ + "    fn accept<R>(&self, visitor: &mut dyn "@ + base_name
        + "Visitor<R>) -> R;\n"@ + "}\n\n"@ + "pub trait "@ + base_name + "Visitor<R> {\n"@
        + visitor_lines(base_name, types, types.len() as int) + "}\n\n"@
}

/// The struct of the node type `class_name` with the fields written in
/// `field_list`, and its `accept`; or nothing, if one of the fields is no
/// field.
pub open spec fn type_source(
    base_name: Seq<char>,
    class_name: Seq<char>,
    field_list: Seq<char>,
) -> Option<Seq<char>> {
    match field_lines(field_list, 0) {
        None => None,
        Some(fields) => Some(
            "#[derive(Debug, Clone)]\n"@ + "pub struct "@ + class_name + " {\n"@ + fields
                + "}\n\n"@ + "impl "@ + base_name + " for "@ + class_name + " {\n"@
                + "    fn accept<R>(&self, visitor: &mut dyn "@ + base_name
                + "Visitor<R>) -> R {\n"@ + "        visitor."@ + visit_name(
                base_name,
                class_name,
            ) + "(self)\n"@ + "    }\n"@ + "}\n\n"@,
        ),
    }
}

/// The structs of the first `n` node types, in order; or nothing, if one of
/// their fields is no field.
pub open spec fn types_source(
    base_name: Seq<char>,
    types: Seq<(Seq<char>, Seq<char>)>,
    n: int,
) -> Option<Seq<char>>
    decreases n,
{
    if n <= 0 {
        Some(Seq::empty())
    } else {
        match (types_source(base_name, types, n - 1), type_source(
            base_name,
            types[n - 1].0,
            types[n - 1].1,
        )) {
            (Some(before), Some(last)) => Some(before + last),
            _ => None,
        }
    }
}

/// The whole source text: the two traits, then the structs.
pub open spec fn ast_source(base_name: Seq<char>, types: Seq<(Seq<char>, Seq<char>)>) -> Option<
    Seq<char>,
> {
    match types_source(base_name, types, types.len() as int) {
        None => None,
        Some(structs) => Some(traits_source(base_name, types) + structs),
    }
}

/// The views of the names and field lists of node types.
pub open spec fn type_views(types: Seq<(&str, &str)>) -> Seq<(Seq<char>, Seq<char>)> {
    types.map_values(|t: (&str, &str)| (t.0@, t.1@))
}

/// A separator lies at or after the position where it is sought, and within
/// the text.
pub proof fn lemma_separator(text: Seq<char>, from: int)
    requires
        0 <= from <= text.len(),
    ensures
        from <= separator(text, from) <= text.len(),
        separator(text, from) < text.len() ==> separator(text, from) + 2 <= text.len(),
    decreases text.len() - from,
{
    if from + 1 < text.len() && !(text[from] == ',' && text[from + 1] == ' ') {
        lemma_separator(text, from + 1);
    }
}

/// A span ends at or after the position where it begins, and within the
/// text.
pub proof fn lemma_span_end(text: Seq<char>, from: int, blank: bool)
    requires
        0 <= from <= text.len(),
    ensures
        from <= span_end(text, from, blank) <= text.len(),
    decreases text.len() - from,
{
    if from < text.len() && is_space(text[from]) == blank {
        lemma_span_end(text, from + 1, blank);
    }
}

/// Tells whether `c` is white space.
fn is_whitespace(c: char) -> (r: bool)
    ensures
        r == is_space(c),
{
    let n: u32 = c as u32;
    (0x09 <= n && n <= 0x0D) || n == 0x20 || n == 0x85 || n == 0xA0 || n == 0x1680 || (0x2000 <= n
        && n <= 0x200A) || n == 0x2028 || n == 0x2029 || n == 0x202F || n == 0x205F || n == 0x3000
}

/// The end of the span that begins at `from`.
fn span(chars: &Vec<char>, from: usize, end: usize, blank: bool) -> (r: usize)
    requires
        from <= end <= chars.len(),
    ensures
        r == span_end(chars@.take(end as int), from as int, blank),
        from <= r <= end,
{
    let ghost text = chars@.take(end as int);
    let mut at: usize = from;
    while at < end && is_whitespace(chars[at]) == blank
        invariant
            from <= at <= end <= chars.len(),
            text == chars@.take(end as int),
            span_end(text, at as int, blank) == span_end(text, from as int, blank),
        decreases end - at,
    {
        at = at + 1;
    }
    at
}

/// `std::str::to_lowercase`. Believed, not proved: the result is the
/// lower-case form of the text, which `lowercased` names.
#[verifier::external_body]
fn lowercase(text: &str) -> (lower: String)
    ensures
        lower@ == lowercased(text@),
{
    text.to_lowercase()
}

/// The type that a field of the written type `typ` gets.
fn map_type(typ: &str) -> (mapped: &str)
    ensures
        mapped@ == mapped_type(typ@),
{
    let chars = chars_of(typ);
    assert(chars@.subrange(0, chars@.len() as int) =~= typ@);
    if spells(&chars, 0, chars.len(), "Expr") {
        "Box<Expr>"
    } else if spells(&chars, 0, chars.len(), "Object") {
        "Literal"
    } else {
        typ
    }
}

/// The name of the visitor's operation for the node type `class_name`.
fn visit_method(base_name: &str, class_name: &str) -> (name: String)
    ensures
        name@ == visit_name(base_name@, class_name@),
{
    let mut name = String::from_str("visit_");
    name.append(lowercase(class_name).as_str());
    name.append("_");
    name.append(lowercase(base_name).as_str());
    name
}

/// The lines that declare the fields written in `field_list`.
fn define_fields(field_list: &str) -> (lines: Option<String>)
    ensures
        match lines {
            Some(text) => field_lines(field_list@, 0) == Some(text@),
            None => field_lines(field_list@, 0) is None,
        },
{
    let chars = chars_of(field_list);
    let ghost list = field_list@;
    let mut text = String::new();
    let mut from: usize = 0;
    loop
        invariant
            chars@ == list,
            list == field_list@,
            from <= chars.len(),
            match field_lines(list, from as int) {
                Some(rest) => field_lines(list, 0) == Some(text@ + rest),
                None => field_lines(list, 0) is None,
            },
        decreases chars.len() - from,
    {
        proof {
            lemma_separator(list, from as int);
        }
        let mut end: usize = from;
        while chars.len() - end >= 2 && !(chars[end] == ',' && chars[end + 1] == ' ')
            invariant
                from <= end <= chars.len(),
                chars@ == list,
                separator(list, end as int) == separator(list, from as int),
            decreases chars.len() - end,
        {
            end = end + 1;
        }
        if chars.len() - end < 2 {
            end = chars.len();
        }
        assert(end == separator(list, from as int));
        let ghost field = list.subrange(from as int, end as int);
        assert(chars@.take(end as int).subrange(from as int, end as int) =~= field);
        let type_start = span(&chars, from, end, true);
        let type_end = span(&chars, type_start, end, false);
        let name_start = span(&chars, type_end, end, true);
        let name_end = span(&chars, name_start, end, false);
        proof {
            lemma_span_shift(chars@.take(end as int), from as int, from as int, true);
            lemma_span_shift(chars@.take(end as int), from as int, type_start as int, false);
            lemma_span_shift(chars@.take(end as int), from as int, type_end as int, true);
            lemma_span_shift(chars@.take(end as int), from as int, name_start as int, false);
            assert(chars@.take(end as int).skip(from as int) =~= field);
        }
        if name_start >= end {
            return None;
        }
        let typ = field_list.substring_char(type_start, type_end);
        let name = field_list.substring_char(name_start, name_end);
        proof {
            assert(typ@ =~= field.subrange(type_start - from, type_end - from));
            assert(name@ =~= field.subrange(name_start - from, name_end - from));
        }
        let ghost before = text@;
        text.append("    pub ");
        text.append(name);
        text.append(": ");
        text.append(map_type(typ));
        text.append(",\n");
        assert(text@ =~= before + field_line(typ@, name@));
        if end >= chars.len() {
            assert(before + field_line(typ@, name@) =~= text@);
            return Some(text);
        }
        proof {
            match field_lines(list, end + 2) {
                Some(rest) => {
                    assert(text@ + rest =~= before + (field_line(typ@, name@) + rest));
                },
                None => {},
            }
        }
        from = end + 2;
    }
}

/// A span of a text that begins at `skipped` within it is the span of what
/// is left of the text after `skipped` characters, moved by `skipped`.
proof fn lemma_span_shift(text: Seq<char>, skipped: int, from: int, blank: bool)
    requires
        0 <= skipped <= from <= text.len(),
    ensures
        span_end(text, from, blank) == span_end(text.skip(skipped), from - skipped, blank)
            + skipped,
    decreases text.len() - from,
{
    if from < text.len() && is_space(text[from]) == blank {
        lemma_span_shift(text, skipped, from + 1, blank);
    }
}

/// Adds to `text` the struct of the node type `class_name` and its `accept`,
/// and tells whether every field written in `field_list` is a field.
fn define_type(text: &mut String, base_name: &str, class_name: &str, field_list: &str) -> (r: bool)
    ensures
        match type_source(base_name@, class_name@, field_list@) {
            Some(source) => r && final(text)@ == old(text)@ + source,
            None => !r,
        },
{
    let fields = match define_fields(field_list) {
        Some(fields) => fields,
        None => {
            return false;
        },
    };
    text.append("#[derive(Debug, Clone)]\n");
    text.append("pub struct ");
    text.append(class_name);
    text.append(" {\n");
    text.append(fields.as_str());
    text.append("}\n\n");
    text.append("impl ");
    text.append(base_name);
    text.append(" for ");
    text.append(class_name);
    text.append(" {\n");
    text.append("    fn accept<R>(&self, visitor: &mut dyn ");
    text.append(base_name);
    text.append("Visitor<R>) -> R {\n");
    text.append("        visitor.");
    text.append(visit_method(base_name, class_name).as_str());
    text.append("(self)\n");
    text.append("    }\n");
    text.append("}\n\n");
    assert(text@ =~= old(text)@ + type_source(base_name@, class_name@, field_list@)->Some_0);
    true
}

/// The source text of a syntax tree: a base trait `base_name`, a visitor
/// trait with one operation for each of `types`, and for each of them a
/// struct with its fields and its `accept`. Each of `types` is the name of a
/// node type and the list of its fields, each written as a type and a name,
/// with a comma and a space between one field and the next.
///
/// It gives nothing if a field lacks its type or its name.
pub fn define_ast(base_name: &str, types: &[(&str, &str)]) -> (source: Option<String>)
    ensures
        match source {
            Some(text) => ast_source(base_name@, type_views(types@)) == Some(text@),
            None => ast_source(base_name@, type_views(types@)) is None,
        },
{
    let ghost views = type_views(types@);
    let mut text = String::from_str("pub trait ");
    text.append(base_name);
    text.append(" {\n");
    text.append("    fn accept<R>(&self, visitor: &mut dyn ");
    text.append(base_name);
    text.append("Visitor<R>) -> R;\n");
    text.append("}\n\n");
    text.append("pub trait ");
    text.append(base_name);
    text.append("Visitor<R> {\n");
    let ghost head = text@;
    let mut i: usize = 0;
    while i < types.len()
        invariant
            i <= types.len(),
            views == type_views(types@),
            text@ == head + visitor_lines(base_name@, views, i as int),
        decreases types.len() - i,
    {
        let class_name = types[i].0;
        let ghost before = text@;
        text.append("    fn ");
        text.append(visit_method(base_name, class_name).as_str());
        text.append("(&mut self, expr: &");
        text.append(class_name);
        text.append(") -> R;\n");
        assert(views[i as int].0 == class_name@);
        assert(text@ =~= head + visitor_lines(base_name@, views, i + 1));
        i = i + 1;
    }
    text.append("}\n\n");
    assert(text@ =~= traits_source(base_name@, views));
    let mut j: usize = 0;
    while j < types.len()
        invariant
            j <= types.len(),
            views == type_views(types@),
            match types_source(base_name@, views, j as int) {
                Some(structs) => text@ == traits_source(base_name@, views) + structs,
                None => false,
            },
        decreases types.len() - j,
    {
        assert(views[j as int] == (types@[j as int].0@, types@[j as int].1@));
        let ghost before = types_source(base_name@, views, j as int)->Some_0;
        if !define_type(&mut text, base_name, types[j].0, types[j].1) {
            proof {
                lemma_types_source_fails(base_name@, views, j + 1, types.len() as int);
            }
            return None;
        }
        proof {
            let last = type_source(base_name@, views[j as int].0, views[j as int].1)->Some_0;
            assert(text@ =~= traits_source(base_name@, views) + (before + last));
        }
        j = j + 1;
    }
    Some(text)
}

/// Once the structs of the first node types cannot be given, those of more
/// node types cannot either.
proof fn lemma_types_source_fails(
    base_name: Seq<char>,
    types: Seq<(Seq<char>, Seq<char>)>,
    n: int,
    more: int,
)
    requires
        n <= more,
        types_source(base_name, types, n) is None,
    ensures
        types_source(base_name, types, more) is None,
    decreases more - n,
{
    if n < more {
        lemma_types_source_fails(base_name, types, n, more - 1);
    }
}

} // verus!
