//! Pretty-printing of JSON trees.
//!
//! The output format is pinned exactly by the spec functions here: two-space
//! indentation, `": "` between a key and its value, one element per line,
//! empty arrays and objects printed as `[]` and `{}`, keys in stored order,
//! and strings escaped with `\"`, `\\`, the short control escapes `\b`,
//! `\f`, `\n`, `\r`, `\t`, and `\u00` plus two lowercase hex digits for the
//! remaining control characters.

use vstd::prelude::*;
use vstd::string::StrSliceExecFns;
use vstd::string::StringExecFns;

use crate::json::arr_view;
use crate::json::entries_view;
use crate::json::lemma_arr_view;
use crate::json::lemma_entries_view;
use crate::json::JsonValue;
use crate::json::JsonView;

verus! {

broadcast use lemma_arr_view, lemma_entries_view;

/// Relies on std's `String::push`: appends exactly the one character.
pub assume_specification[ String::push ](s: &mut String, c: char)
    ensures
        final(s)@ == old(s)@.push(c),
;

/// Two spaces for every level of nesting.
pub open spec fn spec_indent(depth: nat) -> Seq<char>
    decreases depth,
{
    if depth == 0 {
        Seq::empty()
    } else {
        spec_indent((depth - 1) as nat) + "  "@
    }
}

/// The lowercase hexadecimal digit for a value below sixteen.
pub open spec fn spec_hex_digit(n: nat) -> char {
    "0123456789abcdef"@[n as int]
}

/// How one character is written inside a JSON string literal.
pub open spec fn spec_escape_char(c: char) -> Seq<char> {
    if c == '"' {
        "\\\""@
    } else if c == '\\' {
        "\\\\"@
    } else if c == '\u{8}' {
        "\\b"@
    } else if c == '\u{c}' {
        "\\f"@
    } else if c == '\n' {
        "\\n"@
    } else if c == '\r' {
        "\\r"@
    } else if c == '\t' {
        "\\t"@
    } else if (c as u32) < 0x20 {
        "\\u00"@.push(spec_hex_digit(((c as u32) / 16) as nat)).push(
            spec_hex_digit(((c as u32) % 16) as nat),
        )
    } else {
        seq![c]
    }
}

/// The escaped form of the characters of `s` from position `from` on.
pub open spec fn spec_escaped(s: Seq<char>, from: int) -> Seq<char>
    decreases s.len() - from,
{
    if 0 <= from < s.len() {
        spec_escape_char(s[from]) + spec_escaped(s, from + 1)
    } else {
        Seq::empty()
    }
}

/// A whole JSON string literal, quotes included.
pub open spec fn spec_quoted(s: Seq<char>) -> Seq<char> {
    "\""@ + spec_escaped(s, 0) + "\""@
}

/// The pretty-printed text of a JSON value whose own line is indented to
/// `depth` levels (the first line is not indented here; the caller is at
/// that position already).
pub open spec fn spec_render(v: JsonView, depth: nat) -> Seq<char>
    decreases v, 0int,
{
    match v {
        JsonView::Null => "null"@,
        JsonView::Bool(b) => if b {
            "true"@
        } else {
            "false"@
        },
        JsonView::Num(s) => s,
        JsonView::Str(s) => spec_quoted(s),
        JsonView::Arr(items) => if items.len() == 0 {
            "[]"@
        } else {
            "[\n"@ + spec_items(items, depth + 1, 0) + spec_indent(depth) + "]"@
        },
        JsonView::Obj(members) => if members.len() == 0 {
            "{}"@
        } else {
            "{\n"@ + spec_members(members, depth + 1, 0) + spec_indent(depth) + "}"@
        },
    }
}

/// The lines for an array's elements from position `from` on, each indented
/// to `depth`, separated by commas, the last one followed by a bare newline.
pub open spec fn spec_items(items: Seq<JsonView>, depth: nat, from: int) -> Seq<char>
    decreases items, items.len() - from,
{
    if 0 <= from < items.len() {
        spec_indent(depth) + spec_render(items[from], depth) + (if from == items.len() - 1 {
            "\n"@
        } else {
            ",\n"@ + spec_items(items, depth, from + 1)
        })
    } else {
        Seq::empty()
    }
}

/// The lines for an object's members from position `from` on.
pub open spec fn spec_members(members: Seq<(Seq<char>, JsonView)>, depth: nat, from: int) -> Seq<
    char,
>
    decreases members, members.len() - from,
{
    if 0 <= from < members.len() {
        spec_indent(depth) + spec_quoted(members[from].0) + ": "@ + spec_render(
            members[from].1,
            depth,
        ) + (if from == members.len() - 1 {
            "\n"@
        } else {
            ",\n"@ + spec_members(members, depth, from + 1)
        })
    } else {
        Seq::empty()
    }
}

/// The lowercase hexadecimal digit for `n`, as a character.
pub(crate) fn hex_digit_char(n: u32) -> (c: char)
    requires
        n < 16,
    ensures
        c == spec_hex_digit(n as nat),
{
    let digits = "0123456789abcdef";
    proof {
        reveal_strlit("0123456789abcdef");
    }
    digits.get_char(n as usize)
}

/// Appends the escaped form of the one character `c`.
fn append_escape_char(c: char, out: &mut String)
    ensures
        final(out)@ == old(out)@ + spec_escape_char(c),
{
    if c == '"' {
        out.append("\\\"");
    } else if c == '\\' {
        out.append("\\\\");
    } else if c == '\u{8}' {
        out.append("\\b");
    } else if c == '\u{c}' {
        out.append("\\f");
    } else if c == '\n' {
        out.append("\\n");
    } else if c == '\r' {
        out.append("\\r");
    } else if c == '\t' {
        out.append("\\t");
    } else if (c as u32) < 0x20 {
        out.append("\\u00");
        out.push(hex_digit_char((c as u32) / 16));
        out.push(hex_digit_char((c as u32) % 16));
        proof {
            assert(out@ =~= old(out)@ + spec_escape_char(c));
        }
    } else {
        out.push(c);
        proof {
            assert(out@ =~= old(out)@ + seq![c]);
        }
    }
}

/// Appends the escaped form of the characters of `s` from `from` on.
fn append_escaped_from(s: &str, from: usize, len: usize, out: &mut String)
    requires
        len == s@.len(),
        from <= len,
    ensures
        final(out)@ == old(out)@ + spec_escaped(s@, from as int),
    decreases len - from,
{
    if from < len {
        let c = s.get_char(from);
        append_escape_char(c, out);
        append_escaped_from(s, from + 1, len, out);
        proof {
            assert(out@ =~= old(out)@ + spec_escaped(s@, from as int));
        }
    }
}

/// Appends `s` as a JSON string literal, quotes included.
fn append_quoted(s: &String, out: &mut String)
    ensures
        final(out)@ == old(out)@ + spec_quoted(s@),
{
    out.append("\"");
    let len = s.as_str().unicode_len();
    append_escaped_from(s.as_str(), 0, len, out);
    out.append("\"");
    proof {
        assert(out@ =~= old(out)@ + spec_quoted(s@));
    }
}

/// The indentation string one level deeper than `indent`.
fn deeper_indent(indent: &String, depth: Ghost<nat>) -> (r: String)
    requires
        indent@ == spec_indent(depth@),
    ensures
        r@ == spec_indent(depth@ + 1),
{
    let mut r = indent.clone();
    r.append("  ");
    r
}

/// Appends the pretty-printed text of `v`, with nested lines indented below
/// `depth` levels; `indent` is the indentation for `depth` levels.
pub fn append_value(v: &JsonValue, indent: &String, depth: Ghost<nat>, out: &mut String)
    requires
        indent@ == spec_indent(depth@),
    ensures
        final(out)@ == old(out)@ + spec_render(v@, depth@),
    decreases v, 0int,
{
    match v {
        JsonValue::Null => {
            out.append("null");
        },
        JsonValue::Bool(b) => {
            if *b {
                out.append("true");
            } else {
                out.append("false");
            }
        },
        JsonValue::Num(s) => {
            out.append(s.as_str());
        },
        JsonValue::Str(s) => {
            append_quoted(s, out);
        },
        JsonValue::Arr(items) => {
            if items.len() == 0 {
                out.append("[]");
            } else {
                out.append("[\n");
                let inner = deeper_indent(indent, depth);
                append_items(items, 0, &inner, Ghost(depth@ + 1), out);
                out.append(indent.as_str());
                out.append("]");
                proof {
                    assert(out@ =~= old(out)@ + spec_render(v@, depth@));
                }
            }
        },
        JsonValue::Obj(members) => {
            if members.len() == 0 {
                out.append("{}");
            } else {
                out.append("{\n");
                let inner = deeper_indent(indent, depth);
                append_members(members, 0, &inner, Ghost(depth@ + 1), out);
                out.append(indent.as_str());
                out.append("}");
                proof {
                    assert(out@ =~= old(out)@ + spec_render(v@, depth@));
                }
            }
        },
    }
}

/// Appends the element lines of `items[from..]`, each indented to `depth`;
/// `indent` is the indentation for `depth` levels.
fn append_items(
    items: &Vec<JsonValue>,
    from: usize,
    indent: &String,
    depth: Ghost<nat>,
    out: &mut String,
)
    requires
        from < items@.len(),
        indent@ == spec_indent(depth@),
    ensures
        final(out)@ == old(out)@ + spec_items(arr_view(items@), depth@, from as int),
    decreases items@, items@.len() - from,
{
    let n = items.len();
    out.append(indent.as_str());
    append_value(&items[from], indent, depth, out);
    if from + 1 < n {
        out.append(",\n");
        append_items(items, from + 1, indent, depth, out);
    } else {
        out.append("\n");
    }
    proof {
        assert(out@ =~= old(out)@ + spec_items(arr_view(items@), depth@, from as int));
    }
}

/// Appends the member lines of `members[from..]`, each indented to `depth`;
/// `indent` is the indentation for `depth` levels.
fn append_members(
    members: &Vec<(String, JsonValue)>,
    from: usize,
    indent: &String,
    depth: Ghost<nat>,
    out: &mut String,
)
    requires
        from < members@.len(),
        indent@ == spec_indent(depth@),
    ensures
        final(out)@ == old(out)@ + spec_members(entries_view(members@), depth@, from as int),
    decreases members@, members@.len() - from,
{
    let n = members.len();
    out.append(indent.as_str());
    append_quoted(&members[from].0, out);
    out.append(": ");
    append_value(&members[from].1, indent, depth, out);
    if from + 1 < n {
        out.append(",\n");
        append_members(members, from + 1, indent, depth, out);
    } else {
        out.append("\n");
    }
    proof {
        assert(out@ =~= old(out)@ + spec_members(entries_view(members@), depth@, from as int));
    }
}

/// The pretty-printed text of a whole document whose top level is the
/// object with the given members.
pub fn render_document(entries: &Vec<(String, JsonValue)>) -> (r: String)
    ensures
        r@ == spec_render(JsonView::Obj(entries_view(entries@)), 0),
{
    let mut out = String::new();
    if entries.len() == 0 {
        out.append("{}");
    } else {
        out.append("{\n");
        let empty = String::new();
        let inner = deeper_indent(&empty, Ghost(0nat));
        append_members(entries, 0, &inner, Ghost(1nat), &mut out);
        out.append("}");
        proof {
            assert(out@ =~= spec_render(JsonView::Obj(entries_view(entries@)), 0));
        }
    }
    out
}

} // verus!
