//! Rendering of interpreter output: a JSON-like tree is flattened depth-first
//! into indented lines, and lines are rendered as plain text.
use crate::text::{decimal, decimal_string};
use vstd::prelude::*;

verus! {

/// A JSON-like value, as the interpreter's output parses to. Numbers carry
/// their canonical decimal text; objects keep their entries in order.
#[derive(Debug)]
pub enum JsonValue {
    Null,
    Bool(bool),
    Number(String),
    Str(String),
    Array(Vec<JsonValue>),
    Object(Vec<(String, JsonValue)>),
}

/// A line in the display layout.
#[derive(Debug, Clone)]
pub struct DisplayLine {
    pub indent: usize,
    pub key: Option<String>,
    pub value: String,
}

/// Mathematical model of a display line.
pub struct LineView {
    pub indent: usize,
    pub key: Option<Seq<char>>,
    pub value: Seq<char>,
}

pub open spec fn key_view(key: Option<String>) -> Option<Seq<char>> {
    match key {
        Some(k) => Some(k@),
        None => None,
    }
}

impl View for DisplayLine {
    type V = LineView;

    open spec fn view(&self) -> LineView {
        LineView { indent: self.indent, key: key_view(self.key), value: self.value@ }
    }
}

/// The views of a sequence of lines.
pub open spec fn lines_view(lines: Seq<DisplayLine>) -> Seq<LineView> {
    lines.map_values(|l: DisplayLine| l@)
}

/// The indent of a child: one more, saturating at `usize::MAX`.
pub open spec fn child_indent(indent: usize) -> usize {
    if indent < usize::MAX {
        (indent + 1) as usize
    } else {
        indent
    }
}

/// The text of a leaf value.
pub open spec fn leaf_text(v: JsonValue) -> Seq<char> {
    match v {
        JsonValue::Null => "null"@,
        JsonValue::Bool(b) => if b {
            "true"@
        } else {
            "false"@
        },
        JsonValue::Number(n) => n@,
        JsonValue::Str(s) => s@,
        _ => Seq::empty(),
    }
}

/// The synthetic key of the `i`-th array element: `[i]`.
pub open spec fn index_key(i: nat) -> Seq<char> {
    "["@ + decimal(i) + "]"@
}

/// The value of an array's parent line: `[N items]`.
pub open spec fn items_text(n: nat) -> Seq<char> {
    "["@ + decimal(n) + " items]"@
}

/// The parent line of a container, which only a keyed container has.
pub open spec fn parent_line(indent: usize, key: Option<Seq<char>>, value: Seq<char>) -> Seq<
    LineView,
> {
    match key {
        Some(k) => seq![LineView { indent, key: Some(k), value }],
        None => Seq::empty(),
    }
}

/// The depth-first flattening of `v` at `indent` under `key`.
pub open spec fn tree_lines(v: JsonValue, indent: usize, key: Option<Seq<char>>) -> Seq<LineView>
    decreases v,
{
    match v {
        JsonValue::Object(entries) => parent_line(indent, key, Seq::empty()) + entry_lines(
            entries@,
            child_indent(indent),
        ),
        JsonValue::Array(items) => parent_line(indent, key, items_text(items@.len()))
            + item_lines(items@, child_indent(indent)),
        _ => seq![LineView { indent, key, value: leaf_text(v) }],
    }
}

/// The lines of an object's entries, each keyed by its name.
pub open spec fn entry_lines(entries: Seq<(String, JsonValue)>, indent: usize) -> Seq<LineView>
    decreases entries,
{
    if entries.len() == 0 {
        Seq::empty()
    } else {
        entry_lines(entries.drop_last(), indent) + tree_lines(
            entries.last().1,
            indent,
            Some(entries.last().0@),
        )
    }
}

/// The lines of an array's elements, each keyed by `[i]`.
pub open spec fn item_lines(items: Seq<JsonValue>, indent: usize) -> Seq<LineView>
    decreases items,
{
    if items.len() == 0 {
        Seq::empty()
    } else {
        item_lines(items.drop_last(), indent) + tree_lines(
            items.last(),
            indent,
            Some(index_key((items.len() - 1) as nat)),
        )
    }
}

/// The lines of a whole value: the top level has no key and no parent line.
pub open spec fn json_lines(v: JsonValue) -> Seq<LineView> {
    tree_lines(v, 0, None)
}

proof fn lemma_lines_view_push(lines: Seq<DisplayLine>, l: DisplayLine)
    ensures
        lines_view(lines.push(l)) == lines_view(lines).push(l@),
{
    assert(lines_view(lines.push(l)) =~= lines_view(lines).push(l@));
}

fn to_key(key: Option<&str>) -> (r: Option<String>)
    ensures
        key_view(r) == match key {
            Some(k) => Some(k@),
            None => None::<Seq<char>>,
        },
{
    match key {
        Some(k) => Some(k.to_owned()),
        None => None,
    }
}

fn push_line(out: &mut Vec<DisplayLine>, line: DisplayLine)
    ensures
        lines_view(final(out)@) == lines_view(old(out)@).push(line@),
{
    proof {
        lemma_lines_view_push(out@, line);
    }
    out.push(line);
}

fn flatten(value: &JsonValue, indent: usize, key: Option<&str>, out: &mut Vec<DisplayLine>)
    ensures
        lines_view(final(out)@) == lines_view(old(out)@) + tree_lines(
            *value,
            indent,
            match key {
                Some(k) => Some(k@),
                None => None::<Seq<char>>,
            },
        ),
    decreases value,
{
    let ghost kv = match key {
        Some(k) => Some(k@),
        None => None::<Seq<char>>,
    };
    let ghost before = lines_view(out@);
    match value {
        JsonValue::Object(entries) => {
            if key.is_some() {
                push_line(out, DisplayLine { indent, key: to_key(key), value: String::new() });
            }
            let ghost base = lines_view(out@);
            assert(base =~= before + parent_line(indent, kv, Seq::empty()));
            let child = indent.saturating_add(1);
            let mut i: usize = 0;
            while i < entries.len()
                invariant
                    i <= entries@.len(),
                    *value is Object && value->Object_0 == *entries,
                    child == child_indent(indent),
                    lines_view(out@) == base + entry_lines(entries@.subrange(0, i as int), child),
                decreases entries@.len() - i,
            {
                let ghost prefix = entries@.subrange(0, i as int + 1);
                assert(prefix.drop_last() =~= entries@.subrange(0, i as int));
                proof {
                    broadcast use vstd::std_specs::vec::axiom_vec_decreases_to_view,
                        vstd::seq::axiom_seq_index_decreases;

                    assert(decreases_to!(*value => value->Object_0));
                    assert(decreases_to!(*entries => entries@));
                    assert(decreases_to!(entries@ => entries@[i as int]));
                    assert(decreases_to!(entries@[i as int] => entries@[i as int].1));
                }
                let (k, v) = &entries[i];
                flatten(v, child, Some(k.as_str()), out);
                i = i + 1;
                assert(lines_view(out@) =~= base + entry_lines(prefix, child));
            }
            assert(entries@.subrange(0, entries@.len() as int) =~= entries@);
            assert(lines_view(out@) =~= before + tree_lines(*value, indent, kv));
        },
        JsonValue::Array(items) => {
            if key.is_some() {
                let mut text = String::from_str("[");
                text.append(decimal_string(items.len()).as_str());
                text.append(" items]");
                push_line(out, DisplayLine { indent, key: to_key(key), value: text });
            }
            let ghost base = lines_view(out@);
            assert(base =~= before + parent_line(indent, kv, items_text(items@.len())));
            let child = indent.saturating_add(1);
            let mut i: usize = 0;
            while i < items.len()
                invariant
                    i <= items@.len(),
                    *value is Array && value->Array_0 == *items,
                    child == child_indent(indent),
                    lines_view(out@) == base + item_lines(items@.subrange(0, i as int), child),
                decreases items@.len() - i,
            {
                let ghost prefix = items@.subrange(0, i as int + 1);
                assert(prefix.drop_last() =~= items@.subrange(0, i as int));
                proof {
                    broadcast use vstd::std_specs::vec::axiom_vec_decreases_to_view,
                        vstd::seq::axiom_seq_index_decreases;

                    assert(decreases_to!(*value => value->Array_0));
                    assert(decreases_to!(*items => items@));
                    assert(decreases_to!(items@ => items@[i as int]));
                }
                let mut k = String::from_str("[");
                k.append(decimal_string(i).as_str());
                k.append("]");
                flatten(&items[i], child, Some(k.as_str()), out);
                i = i + 1;
                assert(lines_view(out@) =~= base + item_lines(prefix, child));
            }
            assert(items@.subrange(0, items@.len() as int) =~= items@);
            assert(lines_view(out@) =~= before + tree_lines(*value, indent, kv));
        },
        _ => {
            let text = match value {
                JsonValue::Null => String::from_str("null"),
                JsonValue::Bool(b) => if *b {
                    String::from_str("true")
                } else {
                    String::from_str("false")
                },
                JsonValue::Number(n) => n.clone(),
                JsonValue::Str(s) => s.clone(),
                _ => String::new(),
            };
            push_line(out, DisplayLine { indent, key: to_key(key), value: text });
            assert(lines_view(out@) =~= before + tree_lines(*value, indent, kv));
        },
    }
}

/// Converts a JSON value into a flat list of display lines, depth-first:
/// keyed objects and arrays get a parent line, arrays count their items,
/// array elements are keyed `[i]`, and leaves carry their text.
pub fn json_to_lines(value: &JsonValue) -> (lines: Vec<DisplayLine>)
    ensures
        lines_view(lines@) == json_lines(*value),
{
    let mut lines: Vec<DisplayLine> = Vec::new();
    assert(lines_view(lines@) =~= Seq::<LineView>::empty());
    flatten(value, 0, None, &mut lines);
    assert(lines_view(lines@) =~= json_lines(*value));
    lines
}

/// Two spaces per indent level.
pub open spec fn pad(n: nat) -> Seq<char>
    decreases n,
{
    if n == 0 {
        Seq::empty()
    } else {
        pad((n - 1) as nat) + "  "@
    }
}

/// One rendered line: `key: value`, `key:` for a parent, or just `value`.
pub open spec fn line_text(l: LineView) -> Seq<char> {
    pad(l.indent as nat) + match l.key {
        Some(k) => if l.value.len() == 0 {
            k + ":\n"@
        } else {
            k + ": "@ + l.value + "\n"@
        },
        None => l.value + "\n"@,
    }
}

/// The plain text of a sequence of lines.
pub open spec fn render(lines: Seq<LineView>) -> Seq<char>
    decreases lines.len(),
{
    if lines.len() == 0 {
        Seq::empty()
    } else {
        render(lines.drop_last()) + line_text(lines.last())
    }
}

fn padding(n: usize) -> (s: String)
    ensures
        s@ == pad(n as nat),
{
    let mut s = String::new();
    let mut i: usize = 0;
    while i < n
        invariant
            i <= n,
            s@ == pad(i as nat),
        decreases n - i,
    {
        s.append("  ");
        i = i + 1;
    }
    s
}

fn line_string(line: &DisplayLine) -> (s: String)
    ensures
        s@ == line_text(line@),
{
    let mut s = padding(line.indent);
    let ghost p = s@;
    match &line.key {
        Some(k) => {
            s.append(k.as_str());
            if line.value.as_str().is_empty() {
                s.append(":\n");
            } else {
                s.append(": ");
                s.append(line.value.as_str());
                s.append("\n");
            }
        },
        None => {
            s.append(line.value.as_str());
            s.append("\n");
        },
    }
    assert(s@ =~= line_text(line@));
    s
}

/// Renders display lines to plain text, one line each, indented by two
/// spaces per level.
pub fn render_text(lines: &[DisplayLine]) -> (text: String)
    ensures
        text@ == render(lines_view(lines@)),
{
    let mut out = String::new();
    let mut i: usize = 0;
    while i < lines.len()
        invariant
            i <= lines@.len(),
            out@ == render(lines_view(lines@.subrange(0, i as int))),
        decreases lines@.len() - i,
    {
        let ghost next = lines_view(lines@.subrange(0, i as int + 1));
        assert(next.drop_last() =~= lines_view(lines@.subrange(0, i as int)));
        let piece = line_string(&lines[i]);
        out.append(piece.as_str());
        i = i + 1;
    }
    assert(lines@.subrange(0, lines@.len() as int) =~= lines@);
    out
}

/// Rendering the lines of a value is deterministic: the text is a function
/// of the value alone, so two renderings of one value agree.
pub proof fn lemma_render_deterministic(v: JsonValue, first: Seq<char>, second: Seq<char>)
    requires
        first == render(json_lines(v)),
        second == render(json_lines(v)),
    ensures
        first == second,
{
}

} // verus!
