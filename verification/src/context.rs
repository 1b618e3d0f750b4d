//! The template context built from a document: its front matter (`meta`),
//! a slug, a table of contents (`toc`) and the document's nodes (`body`).

use vstd::prelude::*;
use crate::blocks::inline::slugify_text as slugify_inline;
use crate::json::{JsonValue, JsonMember, JsonNumber, JsonTree, NumberTree, get, as_array, as_str, str_or, u64_or, arr_or_empty, lemma_arr_decreases, arr_field, str_field, opt_str_field, u64_field, arr_field_or_empty, clone_value, clone_values, views_of, json_view};
use crate::text::{slugify, str_eq, push_str, is_slug, lemma_slugify_is_slug};

verus! {

/// A parsed document: its front matter and its block nodes.
pub struct SiteAsset {
    pub meta: Option<JsonValue>,
    pub ast: Vec<JsonValue>,
}

/// The front matter of an asset, as a tree when present.
pub open spec fn meta_view(meta: Option<JsonValue>) -> Option<JsonTree> {
    match meta {
        Some(m) => Some(json_view(m)),
        None => None,
    }
}

impl View for SiteAsset {
    type V = (Option<JsonTree>, Seq<JsonTree>);

    open spec fn view(&self) -> (Option<JsonTree>, Seq<JsonTree>) {
        (meta_view(self.meta), views_of(self.ast@))
    }
}

/// The plain text of inline nodes: each node's `text`, else its `src`, else
/// the text of its `children`.
pub open spec fn ctx_text(children: Seq<JsonValue>) -> Seq<char>
    decreases children, 0nat,
{
    if children.len() == 0 {
        Seq::empty()
    } else {
        ctx_text(children.drop_last()) + ctx_text_node(children.last())
    }
}

pub open spec fn ctx_text_node(child: JsonValue) -> Seq<char>
    decreases child, 1nat,
{
    proof {
        lemma_arr_decreases(child, "children"@);
    }
    match as_str(get(child, "text"@)) {
        Some(t) => t,
        None => match as_str(get(child, "src"@)) {
            Some(s) => s,
            None => match as_array(get(child, "children"@)) {
                Some(ch) => ctx_text(ch),
                None => Seq::empty(),
            },
        },
    }
}

/// Collects the plain text of inline nodes (recursively), taking math
/// sources (`src`) as text too.
pub fn collect_text(children: &[JsonValue]) -> (r: String)
    ensures
        r@ == ctx_text(children@),
    decreases children@, 0nat,
{
    let mut out = String::new();
    let n = children.len();
    let mut i: usize = 0;
    while i < n
        invariant
            n == children@.len(),
            i <= n,
            out@ == ctx_text(children@.take(i as int)),
        decreases n - i,
    {
        proof {
            assert(children@.take(i + 1).drop_last() == children@.take(i as int));
            assert(children@.take(i + 1).last() == children@[i as int]);
        }
        let part = ctx_text_one(&children[i]);
        push_str(&mut out, part.as_str());
        i += 1;
    }
    proof {
        assert(children@.take(n as int) == children@);
    }
    out
}

fn ctx_text_one(child: &JsonValue) -> (r: String)
    ensures
        r@ == ctx_text_node(*child),
    decreases *child, 1nat,
{
    match opt_str_field(child, "text") {
        Some(t) => string_of(t),
        None => match opt_str_field(child, "src") {
            Some(s) => string_of(s),
            None => match arr_field(child, "children") {
                Some(ch) => {
                    proof {
                        lemma_arr_decreases(*child, "children"@);
                    }
                    collect_text(ch)
                },
                None => String::new(),
            },
        },
    }
}

/// Converts a string to a URL-safe lowercase slug (see `slugify`).
pub fn slugify_text(s: &str) -> (r: String)
    ensures
        r@ == slugify(s@),
{
    slugify_inline(s)
}

// ---------------------------------------------------------------------------
// Table of contents
// ---------------------------------------------------------------------------

/// Whether a node is a heading.
pub open spec fn is_heading(node: JsonValue) -> bool {
    str_or(node, "t"@, ""@) == "heading"@
}

/// (level, text) of a heading node.
pub open spec fn heading_entry(node: JsonValue) -> (u64, Seq<char>) {
    (u64_or(node, "level"@, 1), ctx_text(arr_or_empty(node, "children"@)))
}

/// The (level, text) of every heading among `nodes`, in document order,
/// including headings nested in child blocks and in list items.
pub open spec fn toc_nodes(nodes: Seq<JsonValue>) -> Seq<(u64, Seq<char>)>
    decreases nodes, 0nat,
{
    if nodes.len() == 0 {
        Seq::empty()
    } else {
        toc_nodes(nodes.drop_last()) + toc_node(nodes.last())
    }
}

pub open spec fn toc_node(node: JsonValue) -> Seq<(u64, Seq<char>)>
    decreases node, 2nat,
{
    (if is_heading(node) {
        seq![heading_entry(node)]
    } else {
        Seq::empty()
    }) + toc_kids(node) + toc_items(node)
}

pub open spec fn toc_kids(node: JsonValue) -> Seq<(u64, Seq<char>)>
    decreases node, 1nat,
{
    proof {
        lemma_arr_decreases(node, "children"@);
    }
    match as_array(get(node, "children"@)) {
        Some(ch) => toc_nodes(ch),
        None => Seq::empty(),
    }
}

pub open spec fn toc_items(node: JsonValue) -> Seq<(u64, Seq<char>)>
    decreases node, 1nat,
{
    proof {
        lemma_arr_decreases(node, "items"@);
    }
    match as_array(get(node, "items"@)) {
        Some(items) => toc_item_seq(items),
        None => Seq::empty(),
    }
}

pub open spec fn toc_item_seq(items: Seq<JsonValue>) -> Seq<(u64, Seq<char>)>
    decreases items, 0nat,
{
    if items.len() == 0 {
        Seq::empty()
    } else {
        toc_item_seq(items.drop_last()) + toc_kids(items.last())
    }
}

/// A table-of-contents entry: `{ "level": …, "slug": …, "text": … }`.
pub open spec fn toc_entry_tree(e: (u64, Seq<char>)) -> JsonTree {
    JsonTree::Object(
        seq![
            ("level"@, JsonTree::Number(NumberTree::PosInt(e.0))),
            ("slug"@, JsonTree::Str(slugify(e.1))),
            ("text"@, JsonTree::Str(e.1)),
        ],
    )
}

pub open spec fn pair_views(v: Seq<(u64, String)>) -> Seq<(u64, Seq<char>)> {
    v.map_values(|p: (u64, String)| (p.0, p.1@))
}

fn string_of(s: &str) -> (r: String)
    ensures
        r@ == s@,
{
    let mut r = String::new();
    push_str(&mut r, s);
    r
}

fn collect_headings(nodes: &[JsonValue], out: &mut Vec<(u64, String)>)
    ensures
        pair_views(final(out)@) == pair_views(old(out)@) + toc_nodes(nodes@),
    decreases nodes@, 0nat,
{
    let n = nodes.len();
    let mut i: usize = 0;
    while i < n
        invariant
            n == nodes@.len(),
            i <= n,
            pair_views(out@) == pair_views(old(out)@) + toc_nodes(nodes@.take(i as int)),
        decreases n - i,
    {
        proof {
            assert(nodes@.take(i + 1).drop_last() == nodes@.take(i as int));
            assert(nodes@.take(i + 1).last() == nodes@[i as int]);
        }
        collect_node(&nodes[i], out);
        i += 1;
    }
    proof {
        assert(nodes@.take(n as int) == nodes@);
    }
}

fn collect_kids(node: &JsonValue, out: &mut Vec<(u64, String)>)
    ensures
        pair_views(final(out)@) == pair_views(old(out)@) + toc_kids(*node),
    decreases *node, 1nat,
{
    match arr_field(node, "children") {
        Some(ch) => {
            proof {
                lemma_arr_decreases(*node, "children"@);
            }
            collect_headings(ch, out);
        },
        None => {
            proof {
                assert(pair_views(out@) =~= pair_views(out@) + Seq::<(u64, Seq<char>)>::empty());
            }
        },
    }
}

fn collect_node(node: &JsonValue, out: &mut Vec<(u64, String)>)
    ensures
        pair_views(final(out)@) == pair_views(old(out)@) + toc_node(*node),
    decreases *node, 2nat,
{
    let ghost start = pair_views(out@);
    if str_eq(str_field(node, "t", ""), "heading") {
        let text = collect_text(arr_field_or_empty(node, "children"));
        let level = u64_field(node, "level", 1);
        let ghost before = out@;
        out.push((level, text));
        proof {
            assert(pair_views(out@) =~= pair_views(before).push((level, text@)));
        }
    }
    proof {
        let own = if is_heading(*node) { seq![heading_entry(*node)] } else { Seq::empty() };
        assert(pair_views(out@) =~= start + own);
    }
    collect_kids(node, out);
    match arr_field(node, "items") {
        Some(items) => {
            proof {
                lemma_arr_decreases(*node, "items"@);
            }
            collect_items(items, out);
        },
        None => {},
    }
    proof {
        let own = if is_heading(*node) { seq![heading_entry(*node)] } else { Seq::empty() };
        assert(pair_views(out@) =~= start + (own + toc_kids(*node) + toc_items(*node)));
    }
}

fn collect_items(items: &[JsonValue], out: &mut Vec<(u64, String)>)
    ensures
        pair_views(final(out)@) == pair_views(old(out)@) + toc_item_seq(items@),
    decreases items@, 0nat,
{
    let n = items.len();
    let mut i: usize = 0;
    while i < n
        invariant
            n == items@.len(),
            i <= n,
            pair_views(out@) == pair_views(old(out)@) + toc_item_seq(items@.take(i as int)),
        decreases n - i,
    {
        proof {
            assert(items@.take(i + 1).drop_last() == items@.take(i as int));
            assert(items@.take(i + 1).last() == items@[i as int]);
        }
        collect_kids(&items[i], out);
        i += 1;
    }
    proof {
        assert(items@.take(n as int) == items@);
    }
}

/// The (level, text) of every heading, in document order.
pub fn toc_headings(ast: &[JsonValue]) -> (r: Vec<(u64, String)>)
    ensures
        pair_views(r@) == toc_nodes(ast@),
{
    let mut r: Vec<(u64, String)> = Vec::new();
    proof {
        assert(pair_views(r@) =~= Seq::<(u64, Seq<char>)>::empty());
    }
    collect_headings(ast, &mut r);
    proof {
        assert(Seq::<(u64, Seq<char>)>::empty() + toc_nodes(ast@) =~= toc_nodes(ast@));
    }
    r
}

fn toc_entry(level: u64, text: &str) -> (r: JsonValue)
    ensures
        r@ == toc_entry_tree((level, text@)),
{
    let slug = slugify_text(text);
    let mut members: Vec<JsonMember> = Vec::new();
    members.push(JsonMember { key: string_of("level"), value: JsonValue::Number(JsonNumber::PosInt(level)) });
    let ghost m1 = members@;
    members.push(JsonMember { key: string_of("slug"), value: JsonValue::Str(slug) });
    let ghost m2 = members@;
    members.push(JsonMember { key: string_of("text"), value: JsonValue::Str(string_of(text)) });
    proof {
        assert(members@.drop_last() == m2);
        assert(m2.drop_last() == m1);
        assert(m1.drop_last() == Seq::<JsonMember>::empty());
        reveal_with_fuel(crate::json::members_view, 4);
        assert(crate::json::members_view(m1) =~= seq![("level"@, JsonTree::Number(NumberTree::PosInt(level)))]);
    }
    proof {
        assert(crate::json::members_view(m2) =~= seq![
            ("level"@, JsonTree::Number(NumberTree::PosInt(level))),
            ("slug"@, JsonTree::Str(slugify(text@))),
        ]);
        assert(crate::json::members_view(members@) =~= seq![
            ("level"@, JsonTree::Number(NumberTree::PosInt(level))),
            ("slug"@, JsonTree::Str(slugify(text@))),
            ("text"@, JsonTree::Str(text@)),
        ]);
    }
    let r = JsonValue::Object(members);
    proof {
        assert(r@ == toc_entry_tree((level, text@)));
    }
    r
}

/// One `{ level, slug, text }` entry per heading of `ast` (nested headings
/// included), in document order.
pub fn build_toc(ast: &[JsonValue]) -> (r: Vec<JsonValue>)
    ensures
        views_of(r@) == toc_nodes(ast@).map_values(|e: (u64, Seq<char>)| toc_entry_tree(e)),
{
    let heads = toc_headings(ast);
    let ghost want = toc_nodes(ast@).map_values(|e: (u64, Seq<char>)| toc_entry_tree(e));
    let mut r: Vec<JsonValue> = Vec::new();
    let n = heads.len();
    let mut i: usize = 0;
    while i < n
        invariant
            n == heads@.len(),
            i <= n,
            pair_views(heads@) == toc_nodes(ast@),
            want == toc_nodes(ast@).map_values(|e: (u64, Seq<char>)| toc_entry_tree(e)),
            views_of(r@) == want.take(i as int),
        decreases n - i,
    {
        let e = toc_entry(heads[i].0, heads[i].1.as_str());
        let ghost before = r@;
        r.push(e);
        proof {
            assert(r@.drop_last() == before);
            assert(pair_views(heads@)[i as int] == (heads@[i as int].0, heads@[i as int].1@));
            assert(views_of(r@) =~= want.take(i + 1));
        }
        i += 1;
    }
    proof {
        assert(want.take(n as int) =~= want);
    }
    r
}

// ---------------------------------------------------------------------------
// Slug
// ---------------------------------------------------------------------------

/// The text of the first top-level heading whose text is not empty.
pub open spec fn first_heading_text(ast: Seq<JsonValue>) -> Option<Seq<char>>
    decreases ast.len(),
{
    if ast.len() == 0 {
        None
    } else if is_heading(ast[0]) && heading_entry(ast[0]).1.len() > 0 {
        Some(heading_entry(ast[0]).1)
    } else {
        first_heading_text(ast.drop_first())
    }
}

/// The document slug: from `meta.title` when it is a string, else from the
/// first top-level heading with text, else `document`.
pub open spec fn derived_slug(meta: Option<JsonValue>, ast: Seq<JsonValue>) -> Seq<char> {
    let title = match meta {
        Some(m) => as_str(get(m, "title"@)),
        None => None,
    };
    match title {
        Some(t) => slugify(t),
        None => match first_heading_text(ast) {
            Some(t) => slugify(t),
            None => "document"@,
        },
    }
}

/// Derives the document slug (see `derived_slug`).
pub fn derive_slug(asset: &SiteAsset) -> (r: String)
    ensures
        r@ == derived_slug(asset.meta, asset.ast@),
{
    let title = match &asset.meta {
        Some(m) => opt_str_field(m, "title"),
        None => None,
    };
    if let Some(t) = title {
        return slugify_text(t);
    }
    let n = asset.ast.len();
    let mut i: usize = 0;
    proof {
        assert(asset.ast@.skip(0) == asset.ast@);
    }
    while i < n
        invariant
            n == asset.ast@.len(),
            i <= n,
            first_heading_text(asset.ast@) == first_heading_text(asset.ast@.skip(i as int)),
            match asset.meta {
                Some(m) => as_str(get(m, "title"@)) is None,
                None => true,
            },
        decreases n - i,
    {
        let node = &asset.ast[i];
        proof {
            assert(asset.ast@.skip(i as int)[0] == asset.ast@[i as int]);
            assert(asset.ast@.skip(i as int).drop_first() == asset.ast@.skip(i + 1));
        }
        if str_eq(str_field(node, "t", ""), "heading") {
            let text = collect_text(arr_field_or_empty(node, "children"));
            if text.unicode_len() > 0 {
                return slugify_text(text.as_str());
            }
        }
        i += 1;
    }
    proof {
        assert(asset.ast@.skip(n as int) =~= Seq::<JsonValue>::empty());
    }
    string_of("document")
}

// ---------------------------------------------------------------------------
// Template context
// ---------------------------------------------------------------------------

/// The view of the front matter in the context: the value, or `null`.
pub open spec fn meta_tree(meta: Option<JsonValue>) -> JsonTree {
    match meta {
        Some(m) => m@,
        None => JsonTree::Null,
    }
}

/// The context handed to templates, the same for every output kind:
/// `{ body, meta, slug, toc }`, with the document's block nodes as `body`.
pub open spec fn context_tree(meta: Option<JsonValue>, ast: Seq<JsonValue>) -> JsonTree {
    JsonTree::Object(
        seq![
            ("body"@, JsonTree::Array(views_of(ast))),
            ("meta"@, meta_tree(meta)),
            ("slug"@, JsonTree::Str(derived_slug(meta, ast))),
            ("toc"@, JsonTree::Array(toc_nodes(ast).map_values(|e: (u64, Seq<char>)| toc_entry_tree(e)))),
        ],
    )
}

/// Builds the template context for `asset` (see `context_tree`).
pub fn build_context(asset: &SiteAsset) -> (r: JsonValue)
    ensures
        r@ == context_tree(asset.meta, asset.ast@),
{
    let meta = match &asset.meta {
        Some(m) => clone_value(m),
        None => JsonValue::Null,
    };
    let slug = derive_slug(asset);
    let toc = build_toc(asset.ast.as_slice());
    let body = clone_values(asset.ast.as_slice());
    let mut members: Vec<JsonMember> = Vec::new();
    members.push(JsonMember { key: string_of("body"), value: JsonValue::Array(body) });
    let ghost m1 = members@;
    members.push(JsonMember { key: string_of("meta"), value: meta });
    let ghost m2 = members@;
    members.push(JsonMember { key: string_of("slug"), value: JsonValue::Str(slug) });
    let ghost m3 = members@;
    members.push(JsonMember { key: string_of("toc"), value: JsonValue::Array(toc) });
    let ghost body_tree = JsonTree::Array(views_of(asset.ast@));
    proof {
        assert(members@.drop_last() == m3);
        assert(m3.drop_last() == m2);
        assert(m2.drop_last() == m1);
        assert(m1.drop_last() == Seq::<JsonMember>::empty());
        reveal_with_fuel(crate::json::members_view, 5);
        assert(crate::json::members_view(m1) =~= seq![("body"@, body_tree)]);
    }
    proof {
        let toc_tree = JsonTree::Array(
            toc_nodes(asset.ast@).map_values(|e: (u64, Seq<char>)| toc_entry_tree(e)),
        );
        assert(crate::json::members_view(m2) =~= seq![("body"@, body_tree), ("meta"@, meta_tree(asset.meta))]);
        assert(crate::json::members_view(m3) =~= seq![
            ("body"@, body_tree),
            ("meta"@, meta_tree(asset.meta)),
            ("slug"@, JsonTree::Str(derived_slug(asset.meta, asset.ast@))),
        ]);
        assert(crate::json::members_view(members@) =~= seq![
            ("body"@, body_tree),
            ("meta"@, meta_tree(asset.meta)),
            ("slug"@, JsonTree::Str(derived_slug(asset.meta, asset.ast@))),
            ("toc"@, toc_tree),
        ]);
    }
    let r = JsonValue::Object(members);
    proof {
        assert(r@ == context_tree(asset.meta, asset.ast@));
    }
    r
}

/// The context's `body` is the document's block nodes, unchanged, and its
/// `meta` is the front matter (`null` without one).
pub proof fn lemma_context_body_is_ast(meta: Option<JsonValue>, ast: Seq<JsonValue>)
    ensures
        context_tree(meta, ast) matches JsonTree::Object(x) && x.len() == 4 && x[0] == ("body"@, JsonTree::Array(
            views_of(ast),
        )) && x[1] == ("meta"@, meta_tree(meta)),
{
}

/// Whether `node` is a heading whose plain text (as the table of contents
/// reads it) is not empty.
pub open spec fn is_titled_heading(node: JsonValue) -> bool {
    str_or(node, "t"@, ""@) == "heading"@ && ctx_text(arr_or_empty(node, "children"@)).len() > 0
}

proof fn lemma_first_heading_text_at(ast: Seq<JsonValue>, i: int)
    requires
        0 <= i < ast.len(),
        is_titled_heading(ast[i]),
        forall|j: int| 0 <= j < i ==> !is_titled_heading(#[trigger] ast[j]),
    ensures
        first_heading_text(ast) == Some(ctx_text(arr_or_empty(ast[i], "children"@))),
    decreases i,
{
    if i > 0 {
        assert(!is_titled_heading(ast[0]));
        let rest = ast.drop_first();
        assert forall|j: int| 0 <= j < i - 1 implies !is_titled_heading(#[trigger] rest[j]) by {
            assert(rest[j] == ast[j + 1]);
        }
        assert(rest[i - 1] == ast[i]);
        lemma_first_heading_text_at(rest, i - 1);
    }
}

proof fn lemma_first_heading_text_none(ast: Seq<JsonValue>)
    requires
        forall|j: int| 0 <= j < ast.len() ==> !is_titled_heading(#[trigger] ast[j]),
    ensures
        first_heading_text(ast) is None,
    decreases ast.len(),
{
    if ast.len() > 0 {
        assert(!is_titled_heading(ast[0]));
        let rest = ast.drop_first();
        assert forall|j: int| 0 <= j < rest.len() implies !is_titled_heading(#[trigger] rest[j]) by {
            assert(rest[j] == ast[j + 1]);
        }
        lemma_first_heading_text_none(rest);
    }
}

/// The document slug: with a string `meta.title`, the slug of the title;
/// without one, the slug of the text of the first top-level heading that has
/// text (the one at the lowest index), and `document` when there is none.
pub proof fn lemma_document_slug_source(meta: Option<JsonValue>, ast: Seq<JsonValue>, i: int)
    ensures
        (match meta {
            Some(m) => as_str(get(m, "title"@)),
            None => None,
        }) matches Some(t) ==> derived_slug(meta, ast) == slugify(t),
        (match meta {
            Some(m) => as_str(get(m, "title"@)),
            None => None,
        }) is None && 0 <= i < ast.len() && is_titled_heading(ast[i]) && (forall|j: int|
            0 <= j < i ==> !is_titled_heading(#[trigger] ast[j])) ==> derived_slug(meta, ast) == slugify(
            ctx_text(arr_or_empty(ast[i], "children"@)),
        ),
        (match meta {
            Some(m) => as_str(get(m, "title"@)),
            None => None,
        }) is None && (forall|j: int| 0 <= j < ast.len() ==> !is_titled_heading(#[trigger] ast[j]))
            ==> derived_slug(meta, ast) == "document"@,
{
    if 0 <= i < ast.len() && is_titled_heading(ast[i]) && (forall|j: int|
        0 <= j < i ==> !is_titled_heading(#[trigger] ast[j])) {
        lemma_first_heading_text_at(ast, i);
    }
    if forall|j: int| 0 <= j < ast.len() ==> !is_titled_heading(#[trigger] ast[j]) {
        lemma_first_heading_text_none(ast);
    }
}

/// The document slug is always a well-formed slug (see `is_slug`).
pub proof fn lemma_document_slug_is_slug(meta: Option<JsonValue>, ast: Seq<JsonValue>)
    ensures
        is_slug(derived_slug(meta, ast)),
{
    let title = match meta {
        Some(m) => as_str(get(m, "title"@)),
        None => None,
    };
    match title {
        Some(t) => lemma_slugify_is_slug(t),
        None => match first_heading_text(ast) {
            Some(t) => lemma_slugify_is_slug(t),
            None => {
                reveal_strlit("document");
                let d = "document"@;
                assert forall|i: int| 0 <= i < d.len() implies 'a' <= #[trigger] d[i] && d[i] <= 'z' by {}
            },
        },
    }
}

/// Each table-of-contents entry carries its heading's level and text, and
/// as `slug` the slug of that text, which is well formed.
pub proof fn lemma_toc_entry_slug(e: (u64, Seq<char>))
    ensures
        toc_entry_tree(e) matches JsonTree::Object(x) && x.len() == 3 && x[0] == ("level"@, JsonTree::Number(
            NumberTree::PosInt(e.0),
        )) && x[1] == ("slug"@, JsonTree::Str(slugify(e.1))) && x[2] == ("text"@, JsonTree::Str(e.1)),
        is_slug(slugify(e.1)),
{
    lemma_slugify_is_slug(e.1);
}

} // verus!
