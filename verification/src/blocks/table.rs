//! Tables: a header row of cells and rows of cells, each cell holding
//! inline nodes in its `children`.

use vstd::prelude::*;
use crate::blocks::RenderBlock;
use crate::blocks::inline::{html_inline, typst_inline_kids, md_inline_kids, render_html_inline, render_typst_inline_kids, render_md_inline_kids};
use crate::json::{JsonValue, get, as_array, arr_or_empty, lemma_arr_decreases, arr_field, arr_field_or_empty};
use crate::plugin::{PluginEntry, PluginRegistry, PluginType};
use crate::text::{decimal, push_str, push_decimal, replace_newlines, push_replacing_newlines};

verus! {

/// Renders table nodes.
pub struct TableRenderer;

/// The cells of a row: the row itself when it is an array, else none.
pub open spec fn row_cells(row: JsonValue) -> Seq<JsonValue> {
    match row {
        JsonValue::Array(a) => a@,
        _ => Seq::empty(),
    }
}

fn row_cells_exec(row: &JsonValue) -> (r: &[JsonValue])
    ensures
        r@ == row_cells(*row),
{
    match row {
        JsonValue::Array(a) => a.as_slice(),
        _ => &[],
    }
}

// ---------------------------------------------------------------------------
// HTML
// ---------------------------------------------------------------------------

/// Each cell as `<open>` + its inline HTML + `<close>` and a line feed.
pub open spec fn html_cells(cells: Seq<JsonValue>, open: Seq<char>, close: Seq<char>) -> Seq<char>
    decreases cells.len(),
{
    if cells.len() == 0 {
        Seq::empty()
    } else {
        html_cells(cells.drop_last(), open, close) + open + html_inline(arr_or_empty(cells.last(), "children"@))
            + close
    }
}

pub open spec fn html_rows(rows: Seq<JsonValue>) -> Seq<char>
    decreases rows.len(),
{
    if rows.len() == 0 {
        Seq::empty()
    } else {
        html_rows(rows.drop_last()) + "<tr>\n"@ + html_cells(row_cells(rows.last()), "<td>"@, "</td>\n"@)
            + "</tr>\n"@
    }
}

/// `<table>`, a `<thead>` row of `<th>` cells when there are headers, and a
/// `<tbody>` of `<tr>` rows of `<td>` cells.
pub open spec fn table_html(node: JsonValue) -> Seq<char> {
    let headers = arr_or_empty(node, "headers"@);
    "<table>\n"@ + (if headers.len() > 0 {
        "<thead><tr>\n"@ + html_cells(headers, "<th>"@, "</th>\n"@) + "</tr></thead>\n"@
    } else {
        Seq::empty()
    }) + "<tbody>\n"@ + html_rows(arr_or_empty(node, "rows"@)) + "</tbody>\n"@ + "</table>\n"@
}

fn render_html_cells(cells: &[JsonValue], open: &str, close: &str, out: &mut String)
    ensures
        final(out)@ == old(out)@ + html_cells(cells@, open@, close@),
{
    let n = cells.len();
    let mut i: usize = 0;
    while i < n
        invariant
            n == cells@.len(),
            i <= n,
            out@ == old(out)@ + html_cells(cells@.take(i as int), open@, close@),
        decreases n - i,
    {
        proof {
            assert(cells@.take(i + 1).drop_last() == cells@.take(i as int));
            assert(cells@.take(i + 1).last() == cells@[i as int]);
        }
        push_str(out, open);
        render_html_inline(arr_field_or_empty(&cells[i], "children"), out);
        push_str(out, close);
        i += 1;
    }
    proof {
        assert(cells@.take(n as int) == cells@);
    }
}

pub fn render_table_html(node: &JsonValue, out: &mut String)
    ensures
        final(out)@ == old(out)@ + table_html(*node),
{
    push_str(out, "<table>\n");
    let headers = arr_field_or_empty(node, "headers");
    if headers.len() > 0 {
        push_str(out, "<thead><tr>\n");
        render_html_cells(headers, "<th>", "</th>\n", out);
        push_str(out, "</tr></thead>\n");
    }
    push_str(out, "<tbody>\n");
    let rows = arr_field_or_empty(node, "rows");
    let n = rows.len();
    let ghost start = out@;
    let mut i: usize = 0;
    while i < n
        invariant
            n == rows@.len(),
            i <= n,
            out@ == start + html_rows(rows@.take(i as int)),
        decreases n - i,
    {
        proof {
            assert(rows@.take(i + 1).drop_last() == rows@.take(i as int));
            assert(rows@.take(i + 1).last() == rows@[i as int]);
        }
        push_str(out, "<tr>\n");
        render_html_cells(row_cells_exec(&rows[i]), "<td>", "</td>\n", out);
        push_str(out, "</tr>\n");
        i += 1;
    }
    proof {
        assert(rows@.take(n as int) == rows@);
    }
    push_str(out, "</tbody>\n");
    push_str(out, "</table>\n");
}

// ---------------------------------------------------------------------------
// Typst
// ---------------------------------------------------------------------------

pub open spec fn typst_cells(cells: Seq<JsonValue>, plugins: Map<(PluginType, Seq<char>), PluginEntry>) -> Seq<char>
    decreases cells, 0nat,
{
    if cells.len() == 0 {
        Seq::empty()
    } else {
        typst_cells(cells.drop_last(), plugins) + "  ["@ + typst_inline_kids(cells.last(), plugins) + "],\n"@
    }
}

pub open spec fn typst_rows(rows: Seq<JsonValue>, plugins: Map<(PluginType, Seq<char>), PluginEntry>) -> Seq<char>
    decreases rows, 0nat,
{
    if rows.len() == 0 {
        Seq::empty()
    } else {
        typst_rows(rows.drop_last(), plugins) + match rows.last() {
            JsonValue::Array(a) => typst_cells(a@, plugins),
            _ => Seq::empty(),
        }
    }
}

/// The number of columns: the number of header cells, at least 1.
pub open spec fn typst_columns(node: JsonValue) -> nat {
    let n = arr_or_empty(node, "headers"@).len();
    if n < 1 { 1 } else { n }
}

/// `#table(` with the column count, then every header cell and every row
/// cell as `[content],`.
pub open spec fn table_typst(node: JsonValue, plugins: Map<(PluginType, Seq<char>), PluginEntry>) -> Seq<char>
    decreases node, 2nat,
{
    proof {
        lemma_arr_decreases(node, "headers"@);
        lemma_arr_decreases(node, "rows"@);
    }
    "#table(\n  columns: "@ + decimal(typst_columns(node)) + ",\n"@ + match as_array(get(node, "headers"@)) {
        Some(h) => typst_cells(h, plugins),
        None => Seq::empty(),
    } + match as_array(get(node, "rows"@)) {
        Some(r) => typst_rows(r, plugins),
        None => Seq::empty(),
    } + ")\n\n"@
}

fn render_typst_cells(cells: &[JsonValue], plugins: &PluginRegistry, out: &mut String)
    ensures
        final(out)@ == old(out)@ + typst_cells(cells@, plugins@),
    decreases cells@, 0nat,
{
    let n = cells.len();
    let mut i: usize = 0;
    while i < n
        invariant
            n == cells@.len(),
            i <= n,
            out@ == old(out)@ + typst_cells(cells@.take(i as int), plugins@),
        decreases n - i,
    {
        proof {
            assert(cells@.take(i + 1).drop_last() == cells@.take(i as int));
            assert(cells@.take(i + 1).last() == cells@[i as int]);
        }
        push_str(out, "  [");
        render_typst_inline_kids(&cells[i], plugins, out);
        push_str(out, "],\n");
        i += 1;
    }
    proof {
        assert(cells@.take(n as int) == cells@);
    }
}

fn render_typst_rows(rows: &[JsonValue], plugins: &PluginRegistry, out: &mut String)
    ensures
        final(out)@ == old(out)@ + typst_rows(rows@, plugins@),
    decreases rows@, 0nat,
{
    let n = rows.len();
    let mut i: usize = 0;
    while i < n
        invariant
            n == rows@.len(),
            i <= n,
            out@ == old(out)@ + typst_rows(rows@.take(i as int), plugins@),
        decreases n - i,
    {
        proof {
            assert(rows@.take(i + 1).drop_last() == rows@.take(i as int));
            assert(rows@.take(i + 1).last() == rows@[i as int]);
        }
        match &rows[i] {
            JsonValue::Array(a) => {
                proof {
                    assert(decreases_to!(rows@ => rows@[i as int]));
                    assert(decreases_to!(rows@[i as int] => *a));
                    assert(decreases_to!(*a => a@));
                }
                render_typst_cells(a.as_slice(), plugins, out);
            },
            _ => {},
        }
        i += 1;
    }
    proof {
        assert(rows@.take(n as int) == rows@);
    }
}

#[verifier::spinoff_prover]
#[verifier::rlimit(40)]
pub fn render_table_typst(node: &JsonValue, plugins: &PluginRegistry, out: &mut String)
    ensures
        final(out)@ == old(out)@ + table_typst(*node, plugins@),
    decreases *node, 2nat,
{
    let headers = arr_field_or_empty(node, "headers");
    let cols: usize = if headers.len() < 1 { 1 } else { headers.len() };
    push_str(out, "#table(\n  columns: ");
    push_decimal(out, cols as u64);
    push_str(out, ",\n");
    match arr_field(node, "headers") {
        Some(h) => {
            proof {
                lemma_arr_decreases(*node, "headers"@);
            }
            render_typst_cells(h, plugins, out);
        },
        None => {},
    }
    match arr_field(node, "rows") {
        Some(r) => {
            proof {
                lemma_arr_decreases(*node, "rows"@);
            }
            render_typst_rows(r, plugins, out);
        },
        None => {},
    }
    push_str(out, ")\n\n");
}

// ---------------------------------------------------------------------------
// Markdown
// ---------------------------------------------------------------------------

/// Each cell's inline Markdown, line feeds turned into spaces, followed by
/// ` | `.
pub open spec fn md_cells(cells: Seq<JsonValue>, plugins: Map<(PluginType, Seq<char>), PluginEntry>) -> Seq<char>
    decreases cells, 0nat,
{
    if cells.len() == 0 {
        Seq::empty()
    } else {
        md_cells(cells.drop_last(), plugins) + replace_newlines(md_inline_kids(cells.last(), plugins)) + " | "@
    }
}

/// Each row as `| ` and its cells on a line; a row that is not an array has
/// no cells.
pub open spec fn md_rows(rows: Seq<JsonValue>, plugins: Map<(PluginType, Seq<char>), PluginEntry>) -> Seq<char>
    decreases rows, 0nat,
{
    if rows.len() == 0 {
        Seq::empty()
    } else {
        md_rows(rows.drop_last(), plugins) + "| "@ + match rows.last() {
            JsonValue::Array(a) => md_cells(a@, plugins),
            _ => Seq::empty(),
        } + "\n"@
    }
}

/// `---|` repeated `n` times.
pub open spec fn md_divider(n: nat) -> Seq<char>
    decreases n,
{
    if n == 0 {
        Seq::empty()
    } else {
        md_divider((n - 1) as nat) + "---|"@
    }
}

/// A header row and a divider when there are headers, one line per row,
/// then a blank line.
pub open spec fn table_md(node: JsonValue, plugins: Map<(PluginType, Seq<char>), PluginEntry>) -> Seq<char>
    decreases node, 2nat,
{
    proof {
        lemma_arr_decreases(node, "headers"@);
        lemma_arr_decreases(node, "rows"@);
    }
    (match as_array(get(node, "headers"@)) {
        Some(h) => if h.len() > 0 {
            "| "@ + md_cells(h, plugins) + "\n"@ + "|"@ + md_divider(h.len()) + "\n"@
        } else {
            Seq::empty()
        },
        None => Seq::empty(),
    }) + match as_array(get(node, "rows"@)) {
        Some(r) => md_rows(r, plugins),
        None => Seq::empty(),
    } + "\n"@
}

fn render_md_cells(cells: &[JsonValue], plugins: &PluginRegistry, out: &mut String)
    ensures
        final(out)@ == old(out)@ + md_cells(cells@, plugins@),
    decreases cells@, 0nat,
{
    let n = cells.len();
    let mut i: usize = 0;
    while i < n
        invariant
            n == cells@.len(),
            i <= n,
            out@ == old(out)@ + md_cells(cells@.take(i as int), plugins@),
        decreases n - i,
    {
        proof {
            assert(cells@.take(i + 1).drop_last() == cells@.take(i as int));
            assert(cells@.take(i + 1).last() == cells@[i as int]);
        }
        let mut inner = String::new();
        render_md_inline_kids(&cells[i], plugins, &mut inner);
        push_replacing_newlines(out, inner.as_str());
        push_str(out, " | ");
        i += 1;
    }
    proof {
        assert(cells@.take(n as int) == cells@);
    }
}

fn render_md_rows(rows: &[JsonValue], plugins: &PluginRegistry, out: &mut String)
    ensures
        final(out)@ == old(out)@ + md_rows(rows@, plugins@),
    decreases rows@, 0nat,
{
    let n = rows.len();
    let mut i: usize = 0;
    while i < n
        invariant
            n == rows@.len(),
            i <= n,
            out@ == old(out)@ + md_rows(rows@.take(i as int), plugins@),
        decreases n - i,
    {
        proof {
            assert(rows@.take(i + 1).drop_last() == rows@.take(i as int));
            assert(rows@.take(i + 1).last() == rows@[i as int]);
        }
        push_str(out, "| ");
        match &rows[i] {
            JsonValue::Array(a) => {
                proof {
                    assert(decreases_to!(rows@ => rows@[i as int]));
                    assert(decreases_to!(rows@[i as int] => *a));
                    assert(decreases_to!(*a => a@));
                }
                render_md_cells(a.as_slice(), plugins, out);
            },
            _ => {},
        }
        push_str(out, "\n");
        i += 1;
    }
    proof {
        assert(rows@.take(n as int) == rows@);
    }
}

#[verifier::spinoff_prover]
#[verifier::rlimit(40)]
pub fn render_table_md(node: &JsonValue, plugins: &PluginRegistry, out: &mut String)
    ensures
        final(out)@ == old(out)@ + table_md(*node, plugins@),
    decreases *node, 2nat,
{
    match arr_field(node, "headers") {
        Some(h) => {
            if h.len() > 0 {
                proof {
                    lemma_arr_decreases(*node, "headers"@);
                }
                push_str(out, "| ");
                render_md_cells(h, plugins, out);
                push_str(out, "\n");
                push_str(out, "|");
                let ghost start = out@;
                let mut k: usize = 0;
                while k < h.len()
                    invariant
                        k <= h@.len(),
                        out@ == start + md_divider(k as nat),
                    decreases h@.len() - k,
                {
                    push_str(out, "---|");
                    k += 1;
                }
                push_str(out, "\n");
            }
        },
        None => {},
    }
    match arr_field(node, "rows") {
        Some(r) => {
            proof {
                lemma_arr_decreases(*node, "rows"@);
            }
            render_md_rows(r, plugins, out);
        },
        None => {},
    }
    push_str(out, "\n");
}

// ---------------------------------------------------------------------------
// Laws: rows and cells are rendered one by one, in order
// ---------------------------------------------------------------------------

/// The HTML of a run of cells is the HTML of its parts, one after the other.
pub proof fn lemma_html_cells_concat(a: Seq<JsonValue>, b: Seq<JsonValue>, open: Seq<char>, close: Seq<char>)
    ensures
        html_cells(a + b, open, close) == html_cells(a, open, close) + html_cells(b, open, close),
    decreases b.len(),
{
    if b.len() == 0 {
        assert(a + b =~= a);
        assert(html_cells(a, open, close) + html_cells(b, open, close) =~= html_cells(a, open, close));
    } else {
        lemma_html_cells_concat(a, b.drop_last(), open, close);
        assert((a + b).drop_last() =~= a + b.drop_last());
        assert((a + b).last() == b.last());
        let x = b.last();
        assert(html_cells(a, open, close) + html_cells(b.drop_last(), open, close) + open + html_inline(
            arr_or_empty(x, "children"@),
        ) + close =~= html_cells(a, open, close) + (html_cells(b.drop_last(), open, close) + open + html_inline(
            arr_or_empty(x, "children"@),
        ) + close));
    }
}

/// One cell in HTML: the opening tag, its inline HTML, the closing tag.
pub proof fn lemma_html_cells_one(c: JsonValue, open: Seq<char>, close: Seq<char>)
    ensures
        html_cells(seq![c], open, close) == open + html_inline(arr_or_empty(c, "children"@)) + close,
{
    reveal_with_fuel(html_cells, 2);
    assert(seq![c].drop_last() =~= Seq::<JsonValue>::empty());
    assert(seq![c].last() == c);
    assert(seq![c].len() == 1);
    assert(Seq::<char>::empty() + open + html_inline(arr_or_empty(c, "children"@)) + close =~= open + html_inline(
        arr_or_empty(c, "children"@),
    ) + close);
}

/// The HTML body rows of `a + b` are those of `a`, then those of `b`.
pub proof fn lemma_html_rows_concat(a: Seq<JsonValue>, b: Seq<JsonValue>)
    ensures
        html_rows(a + b) == html_rows(a) + html_rows(b),
    decreases b.len(),
{
    if b.len() == 0 {
        assert(a + b =~= a);
        assert(html_rows(a) + html_rows(b) =~= html_rows(a));
    } else {
        lemma_html_rows_concat(a, b.drop_last());
        assert((a + b).drop_last() =~= a + b.drop_last());
        assert((a + b).last() == b.last());
        assert(html_rows(a) + html_rows(b.drop_last()) + "<tr>\n"@ + html_cells(row_cells(b.last()), "<td>"@, "</td>\n"@)
            + "</tr>\n"@ =~= html_rows(a) + (html_rows(b.drop_last()) + "<tr>\n"@ + html_cells(
            row_cells(b.last()),
            "<td>"@,
            "</td>\n"@,
        ) + "</tr>\n"@));
    }
}

/// One row in HTML: a `<tr>` holding each of its cells as a `<td>`.
pub proof fn lemma_html_rows_one(r: JsonValue)
    ensures
        html_rows(seq![r]) == "<tr>\n"@ + html_cells(row_cells(r), "<td>"@, "</td>\n"@) + "</tr>\n"@,
{
    reveal_with_fuel(html_rows, 2);
    assert(seq![r].drop_last() =~= Seq::<JsonValue>::empty());
    assert(seq![r].last() == r);
    assert(seq![r].len() == 1);
    assert(Seq::<char>::empty() + "<tr>\n"@ + html_cells(row_cells(r), "<td>"@, "</td>\n"@) + "</tr>\n"@ =~= "<tr>\n"@
        + html_cells(row_cells(r), "<td>"@, "</td>\n"@) + "</tr>\n"@);
}

/// A table's HTML ends with its `<tbody>`: every row of `rows`, then the
/// closing tags.
pub proof fn lemma_table_html_body(node: JsonValue)
    ensures
        ({
            let tail = "<tbody>\n"@ + html_rows(arr_or_empty(node, "rows"@)) + "</tbody>\n"@ + "</table>\n"@;
            let out = table_html(node);
            out.len() >= tail.len() && out.skip(out.len() - tail.len()) == tail
        }),
{
    let headers = arr_or_empty(node, "headers"@);
    let head = "<table>\n"@ + (if headers.len() > 0 {
        "<thead><tr>\n"@ + html_cells(headers, "<th>"@, "</th>\n"@) + "</tr></thead>\n"@
    } else {
        Seq::empty()
    });
    let tail = "<tbody>\n"@ + html_rows(arr_or_empty(node, "rows"@)) + "</tbody>\n"@ + "</table>\n"@;
    assert(table_html(node) =~= head + tail);
    assert((head + tail).skip(head.len() as int) =~= tail);
}

/// The Typst of a run of cells is the Typst of its parts, one after the other.
pub proof fn lemma_typst_cells_concat(a: Seq<JsonValue>, b: Seq<JsonValue>, plugins: Map<(PluginType, Seq<char>), PluginEntry>)
    ensures
        typst_cells(a + b, plugins) == typst_cells(a, plugins) + typst_cells(b, plugins),
    decreases b.len(),
{
    if b.len() == 0 {
        assert(a + b =~= a);
        assert(typst_cells(a, plugins) + typst_cells(b, plugins) =~= typst_cells(a, plugins));
    } else {
        lemma_typst_cells_concat(a, b.drop_last(), plugins);
        assert((a + b).drop_last() =~= a + b.drop_last());
        assert((a + b).last() == b.last());
        assert(typst_cells(a, plugins) + typst_cells(b.drop_last(), plugins) + "  ["@ + typst_inline_kids(b.last(), plugins)
            + "],\n"@ =~= typst_cells(a, plugins) + (typst_cells(b.drop_last(), plugins) + "  ["@ + typst_inline_kids(
            b.last(),
            plugins,
        ) + "],\n"@));
    }
}

/// One cell in Typst: `  [content],` on a line of its own.
pub proof fn lemma_typst_cells_one(c: JsonValue, plugins: Map<(PluginType, Seq<char>), PluginEntry>)
    ensures
        typst_cells(seq![c], plugins) == "  ["@ + typst_inline_kids(c, plugins) + "],\n"@,
{
    reveal_with_fuel(typst_cells, 2);
    assert(seq![c].drop_last() =~= Seq::<JsonValue>::empty());
    assert(seq![c].last() == c);
    assert(seq![c].len() == 1);
    assert(Seq::<char>::empty() + "  ["@ + typst_inline_kids(c, plugins) + "],\n"@ =~= "  ["@ + typst_inline_kids(c, plugins)
        + "],\n"@);
}

/// The Typst cells of the rows `a + b` are those of `a`, then those of `b`.
pub proof fn lemma_typst_rows_concat(a: Seq<JsonValue>, b: Seq<JsonValue>, plugins: Map<(PluginType, Seq<char>), PluginEntry>)
    ensures
        typst_rows(a + b, plugins) == typst_rows(a, plugins) + typst_rows(b, plugins),
    decreases b.len(),
{
    if b.len() == 0 {
        assert(a + b =~= a);
        assert(typst_rows(a, plugins) + typst_rows(b, plugins) =~= typst_rows(a, plugins));
    } else {
        lemma_typst_rows_concat(a, b.drop_last(), plugins);
        assert((a + b).drop_last() =~= a + b.drop_last());
        assert((a + b).last() == b.last());
        let t = match b.last() {
            JsonValue::Array(x) => typst_cells(x@, plugins),
            _ => Seq::empty(),
        };
        assert(typst_rows(a, plugins) + typst_rows(b.drop_last(), plugins) + t =~= typst_rows(a, plugins) + (typst_rows(
            b.drop_last(),
            plugins,
        ) + t));
    }
}

/// One row in Typst: each of its cells (none when the row is not an array).
pub proof fn lemma_typst_rows_one(r: JsonValue, plugins: Map<(PluginType, Seq<char>), PluginEntry>)
    ensures
        typst_rows(seq![r], plugins) == typst_cells(row_cells(r), plugins),
{
    reveal_with_fuel(typst_rows, 2);
    assert(seq![r].drop_last() =~= Seq::<JsonValue>::empty());
    assert(seq![r].last() == r);
    assert(seq![r].len() == 1);
    assert(Seq::<char>::empty() + typst_cells(row_cells(r), plugins) =~= typst_cells(row_cells(r), plugins));
    assert(typst_cells(Seq::<JsonValue>::empty(), plugins) == Seq::<char>::empty());
}

/// A table's Typst ends with the cells of every row, then `)`.
pub proof fn lemma_table_typst_body(node: JsonValue, plugins: Map<(PluginType, Seq<char>), PluginEntry>)
    ensures
        ({
            let tail = typst_rows(arr_or_empty(node, "rows"@), plugins) + ")\n\n"@;
            let out = table_typst(node, plugins);
            out.len() >= tail.len() && out.skip(out.len() - tail.len()) == tail
        }),
{
    let head = "#table(\n  columns: "@ + decimal(typst_columns(node)) + ",\n"@ + match as_array(get(node, "headers"@)) {
        Some(h) => typst_cells(h, plugins),
        None => Seq::empty(),
    };
    let tail = typst_rows(arr_or_empty(node, "rows"@), plugins) + ")\n\n"@;
    assert(typst_rows(Seq::<JsonValue>::empty(), plugins) == Seq::<char>::empty());
    assert(table_typst(node, plugins) =~= head + tail);
    assert((head + tail).skip(head.len() as int) =~= tail);
}

/// The Markdown of a run of cells is the Markdown of its parts, one after
/// the other.
pub proof fn lemma_md_cells_concat(a: Seq<JsonValue>, b: Seq<JsonValue>, plugins: Map<(PluginType, Seq<char>), PluginEntry>)
    ensures
        md_cells(a + b, plugins) == md_cells(a, plugins) + md_cells(b, plugins),
    decreases b.len(),
{
    if b.len() == 0 {
        assert(a + b =~= a);
        assert(md_cells(a, plugins) + md_cells(b, plugins) =~= md_cells(a, plugins));
    } else {
        lemma_md_cells_concat(a, b.drop_last(), plugins);
        assert((a + b).drop_last() =~= a + b.drop_last());
        assert((a + b).last() == b.last());
        let t = replace_newlines(md_inline_kids(b.last(), plugins)) + " | "@;
        assert(md_cells(a, plugins) + md_cells(b.drop_last(), plugins) + replace_newlines(md_inline_kids(b.last(), plugins))
            + " | "@ =~= md_cells(a, plugins) + (md_cells(b.drop_last(), plugins) + t));
    }
}

/// One cell in Markdown: its content on one line, then ` | `.
pub proof fn lemma_md_cells_one(c: JsonValue, plugins: Map<(PluginType, Seq<char>), PluginEntry>)
    ensures
        md_cells(seq![c], plugins) == replace_newlines(md_inline_kids(c, plugins)) + " | "@,
{
    reveal_with_fuel(md_cells, 2);
    assert(seq![c].drop_last() =~= Seq::<JsonValue>::empty());
    assert(seq![c].last() == c);
    assert(seq![c].len() == 1);
    assert(Seq::<char>::empty() + replace_newlines(md_inline_kids(c, plugins)) + " | "@ =~= replace_newlines(
        md_inline_kids(c, plugins),
    ) + " | "@);
}

/// The Markdown lines of the rows `a + b` are those of `a`, then those of `b`.
pub proof fn lemma_md_rows_concat(a: Seq<JsonValue>, b: Seq<JsonValue>, plugins: Map<(PluginType, Seq<char>), PluginEntry>)
    ensures
        md_rows(a + b, plugins) == md_rows(a, plugins) + md_rows(b, plugins),
    decreases b.len(),
{
    if b.len() == 0 {
        assert(a + b =~= a);
        assert(md_rows(a, plugins) + md_rows(b, plugins) =~= md_rows(a, plugins));
    } else {
        lemma_md_rows_concat(a, b.drop_last(), plugins);
        assert((a + b).drop_last() =~= a + b.drop_last());
        assert((a + b).last() == b.last());
        let t = "| "@ + match b.last() {
            JsonValue::Array(x) => md_cells(x@, plugins),
            _ => Seq::empty(),
        } + "\n"@;
        assert(md_rows(a, plugins) + md_rows(b.drop_last(), plugins) + t =~= md_rows(a, plugins) + (md_rows(
            b.drop_last(),
            plugins,
        ) + t));
    }
}

/// One row in Markdown: a line `| ` with each of its cells.
pub proof fn lemma_md_rows_one(r: JsonValue, plugins: Map<(PluginType, Seq<char>), PluginEntry>)
    ensures
        md_rows(seq![r], plugins) == "| "@ + md_cells(row_cells(r), plugins) + "\n"@,
{
    reveal_with_fuel(md_rows, 2);
    assert(seq![r].drop_last() =~= Seq::<JsonValue>::empty());
    assert(seq![r].last() == r);
    assert(seq![r].len() == 1);
    assert(md_cells(Seq::<JsonValue>::empty(), plugins) == Seq::<char>::empty());
    assert(Seq::<char>::empty() + "| "@ + md_cells(row_cells(r), plugins) + "\n"@ =~= "| "@ + md_cells(
        row_cells(r),
        plugins,
    ) + "\n"@);
}

/// A table's Markdown ends with one line per row, then a blank line.
pub proof fn lemma_table_md_body(node: JsonValue, plugins: Map<(PluginType, Seq<char>), PluginEntry>)
    ensures
        ({
            let tail = md_rows(arr_or_empty(node, "rows"@), plugins) + "\n"@;
            let out = table_md(node, plugins);
            out.len() >= tail.len() && out.skip(out.len() - tail.len()) == tail
        }),
{
    let head = match as_array(get(node, "headers"@)) {
        Some(h) => if h.len() > 0 {
            "| "@ + md_cells(h, plugins) + "\n"@ + "|"@ + md_divider(h.len()) + "\n"@
        } else {
            Seq::empty()
        },
        None => Seq::empty(),
    };
    let tail = md_rows(arr_or_empty(node, "rows"@), plugins) + "\n"@;
    assert(md_rows(Seq::<JsonValue>::empty(), plugins) == Seq::<char>::empty());
    assert(table_md(node, plugins) =~= head + tail);
    assert((head + tail).skip(head.len() as int) =~= tail);
}

impl RenderBlock for TableRenderer {
    fn render_html(node: &JsonValue, plugins: &PluginRegistry, out: &mut String)
        ensures
            final(out)@ == old(out)@ + table_html(*node),
    {
        render_table_html(node, out)
    }

    fn render_typst(node: &JsonValue, plugins: &PluginRegistry, out: &mut String)
        ensures
            final(out)@ == old(out)@ + table_typst(*node, plugins@),
    {
        render_table_typst(node, plugins, out)
    }

    fn render_markdown(node: &JsonValue, plugins: &PluginRegistry, out: &mut String)
        ensures
            final(out)@ == old(out)@ + table_md(*node, plugins@),
    {
        render_table_md(node, plugins, out)
    }
}

} // verus!
