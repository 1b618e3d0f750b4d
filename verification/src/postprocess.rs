//! Post-processing of a parsed asset, after parsing and before rendering.

use vstd::prelude::*;
use crate::context::SiteAsset;
use crate::error::RenderError;
use crate::json::{
    JsonValue, JsonMember, JsonTree, json_view, views_of, members_view, clone_value, get_field,
    find_key, lemma_find_key,
};
use crate::text::{str_eq, starts_with, push_str};

verus! {

/// What a post-processor sees of an asset: its front matter and its nodes.
pub type AssetView = (Option<JsonTree>, Seq<JsonTree>);

/// A step that modifies an asset in place before it is rendered.
pub trait PostProcessor {
    /// The asset that a successful `process` leaves behind; unless a
    /// processor says otherwise, the asset as it was.
    open spec fn spec_process(&self, asset: AssetView) -> AssetView {
        asset
    }

    /// The assets on which `process` is bound to succeed; unless a processor
    /// says otherwise, none.
    open spec fn spec_succeeds(&self, asset: AssetView) -> bool {
        false
    }

    /// Whether `process` may fail on `asset` with the error `e`, leaving the
    /// asset as `after`; unless a processor says otherwise, with any error
    /// and leaving any asset.
    open spec fn spec_fails(&self, asset: AssetView, e: RenderError, after: AssetView) -> bool {
        true
    }

    /// Mutates the given asset in place.
    fn process(&self, asset: &mut SiteAsset) -> (r: Result<(), RenderError>)
        ensures
            self.spec_succeeds(old(asset)@) ==> r is Ok,
            r is Ok ==> final(asset)@ == self.spec_process(old(asset)@),
            r matches Err(e) ==> self.spec_fails(old(asset)@, e, final(asset)@),
    ;
}

/// The asset after the given steps ran one after the other, each on what
/// the one before it left.
pub open spec fn pipeline_result(ps: Seq<Box<dyn PostProcessor>>, a: AssetView) -> AssetView
    decreases ps.len(),
{
    if ps.len() == 0 {
        a
    } else {
        ps.last().spec_process(pipeline_result(ps.drop_last(), a))
    }
}

/// Whether every step is bound to succeed on what the steps before it left.
pub open spec fn pipeline_succeeds(ps: Seq<Box<dyn PostProcessor>>, a: AssetView) -> bool
    decreases ps.len(),
{
    if ps.len() == 0 {
        true
    } else {
        pipeline_succeeds(ps.drop_last(), a) && ps.last().spec_succeeds(
            pipeline_result(ps.drop_last(), a),
        )
    }
}

proof fn lemma_pipeline_prefix(ps: Seq<Box<dyn PostProcessor>>, a: AssetView, i: int)
    requires
        0 <= i <= ps.len(),
        pipeline_succeeds(ps, a),
    ensures
        pipeline_succeeds(ps.take(i), a),
    decreases ps.len(),
{
    if i < ps.len() {
        lemma_pipeline_prefix(ps.drop_last(), a, i);
        assert(ps.drop_last().take(i) == ps.take(i));
    } else {
        assert(ps.take(i) == ps);
    }
}

/// An empty pipeline succeeds and leaves the asset as it was.
pub proof fn lemma_empty_pipeline(a: AssetView)
    ensures
        pipeline_succeeds(Seq::<Box<dyn PostProcessor>>::empty(), a),
        pipeline_result(Seq::<Box<dyn PostProcessor>>::empty(), a) == a,
{
}

/// Steps run in the order they were added: the last step runs on what the
/// steps before it left, and the pipeline succeeds when those steps do and
/// the last one succeeds on what they left.
pub proof fn lemma_pipeline_order(ps: Seq<Box<dyn PostProcessor>>, a: AssetView)
    requires
        ps.len() > 0,
    ensures
        pipeline_result(ps, a) == ps.last().spec_process(pipeline_result(ps.drop_last(), a)),
        pipeline_succeeds(ps, a) == (pipeline_succeeds(ps.drop_last(), a) && ps.last().spec_succeeds(
            pipeline_result(ps.drop_last(), a),
        )),
{
}

/// A sequence of post-processors, applied in the order they were added.
pub struct PostProcessPipeline {
    processors: Vec<Box<dyn PostProcessor>>,
}

impl PostProcessPipeline {
    /// The steps of the pipeline, in order.
    pub closed spec fn stages(&self) -> Seq<Box<dyn PostProcessor>> {
        self.processors@
    }

    /// An empty pipeline.
    pub fn new() -> (r: Self)
        ensures
            r.stages().len() == 0,
    {
        PostProcessPipeline { processors: Vec::new() }
    }

    /// The pipeline with one more step at its end.
    pub fn add_processor(self, processor: Box<dyn PostProcessor>) -> (r: Self)
        ensures
            r.stages() == self.stages().push(processor),
    {
        let mut processors = self.processors;
        processors.push(processor);
        PostProcessPipeline { processors }
    }

    /// Runs every step in order on the asset, stopping at the first error,
    /// which it returns. On an error, the steps before the failing one have
    /// succeeded (so it ran on what they left), it was not bound to succeed
    /// there, and the asset is what its failure left: no later step ran.
    pub fn run(&self, asset: &mut SiteAsset) -> (r: Result<(), RenderError>)
        ensures
            pipeline_succeeds(self.stages(), old(asset)@) ==> r is Ok,
            r is Ok ==> final(asset)@ == pipeline_result(self.stages(), old(asset)@),
            r matches Err(e) ==> exists|i: int|
                0 <= i < self.stages().len() && !self.stages()[i].spec_succeeds(
                    pipeline_result(self.stages().take(i), old(asset)@),
                ) && #[trigger] self.stages()[i].spec_fails(
                    pipeline_result(self.stages().take(i), old(asset)@),
                    e,
                    final(asset)@,
                ),
    {
        let ghost start = asset@;
        let ghost ps = self.processors@;
        let n = self.processors.len();
        let mut i: usize = 0;
        while i < n
            invariant
                n == ps.len(),
                ps == self.processors@,
                start == old(asset)@,
                i <= n,
                asset@ == pipeline_result(ps.take(i as int), start),
                pipeline_succeeds(ps, start) ==> pipeline_succeeds(ps.take(i as int), start),
            decreases n - i,
        {
            proof {
                assert(ps.take(i + 1).drop_last() == ps.take(i as int));
                assert(ps.take(i + 1).last() == ps[i as int]);
                if pipeline_succeeds(ps, start) {
                    lemma_pipeline_prefix(ps, start, i + 1);
                    assert(pipeline_succeeds(ps.take(i + 1), start));
                }
                assert(pipeline_succeeds(ps, start) ==> ps[i as int].spec_succeeds(
                    pipeline_result(ps.take(i as int), start),
                ));
            }
            match self.processors[i].process(asset) {
                Ok(()) => {},
                Err(e) => {
                    proof {
                        assert(ps[i as int].spec_fails(pipeline_result(ps.take(i as int), start), e, asset@));
                    }
                    return Err(e);
                },
            }
            i += 1;
        }
        proof {
            assert(ps.take(n as int) == ps);
        }
        Ok(())
    }
}

impl Default for PostProcessPipeline {
    fn default() -> (r: Self)
        ensures
            r.stages().len() == 0,
    {
        PostProcessPipeline::new()
    }
}

/// Index of the first entry with the given key, or -1.
pub open spec fn tree_find(ms: Seq<(Seq<char>, JsonTree)>, key: Seq<char>) -> int
    decreases ms.len(),
{
    if ms.len() == 0 {
        -1
    } else if tree_find(ms.drop_last(), key) >= 0 {
        tree_find(ms.drop_last(), key)
    } else if ms.last().0 == key {
        ms.len() - 1
    } else {
        -1
    }
}

/// Whether an object's `t` entry is the string `image`.
pub open spec fn is_image(ms: Seq<(Seq<char>, JsonTree)>) -> bool {
    let i = tree_find(ms, "t"@);
    0 <= i < ms.len() && ms[i].1 == JsonTree::Str("image"@)
}

/// Sources that are left alone: absolute web addresses and inline data.
pub open spec fn keeps_path(src: Seq<char>) -> bool {
    "http://"@.is_prefix_of(src) || "https://"@.is_prefix_of(src) || "data:"@.is_prefix_of(src)
}

/// A node with the prefix put before the `src` of each image in it. Images
/// are searched in `children`, `items`, `headers` and the cells of `rows`.
pub open spec fn rewrite_tree(t: JsonTree, prefix: Seq<char>) -> JsonTree
    decreases t,
{
    match t {
        JsonTree::Object(ms) => JsonTree::Object(rewrite_members(ms, is_image(ms), prefix)),
        _ => t,
    }
}

/// The entries of an object, each first entry of its key rewritten.
pub open spec fn rewrite_members(
    ms: Seq<(Seq<char>, JsonTree)>,
    img: bool,
    prefix: Seq<char>,
) -> Seq<(Seq<char>, JsonTree)>
    decreases ms,
{
    if ms.len() == 0 {
        Seq::empty()
    } else {
        let k = ms.last().0;
        let v = ms.last().1;
        proof {
            assert(decreases_to!(ms => ms.last()));
            assert(decreases_to!(ms.last() => ms.last().1));
        }
        let nv = if tree_find(ms.drop_last(), k) >= 0 {
            v
        } else {
            rewrite_field(k, v, img, prefix)
        };
        rewrite_members(ms.drop_last(), img, prefix).push((k, nv))
    }
}

/// The value of the entry `k` of an object (`img`: whether it is an image).
pub open spec fn rewrite_field(k: Seq<char>, v: JsonTree, img: bool, prefix: Seq<char>) -> JsonTree
    decreases v,
{
    match v {
        JsonTree::Str(s) => if k == "src"@ && img && !keeps_path(s) {
            JsonTree::Str(prefix + s)
        } else {
            v
        },
        JsonTree::Array(items) => if k == "children"@ || k == "items"@ || k == "headers"@ {
            JsonTree::Array(rewrite_seq(items, prefix))
        } else if k == "rows"@ {
            JsonTree::Array(rewrite_rows(items, prefix))
        } else {
            v
        },
        _ => v,
    }
}

/// Each node of a sequence rewritten.
pub open spec fn rewrite_seq(s: Seq<JsonTree>, prefix: Seq<char>) -> Seq<JsonTree>
    decreases s,
{
    if s.len() == 0 {
        Seq::empty()
    } else {
        rewrite_seq(s.drop_last(), prefix).push(rewrite_tree(s.last(), prefix))
    }
}

/// Each row that is an array has each of its cells rewritten.
pub open spec fn rewrite_rows(s: Seq<JsonTree>, prefix: Seq<char>) -> Seq<JsonTree>
    decreases s,
{
    if s.len() == 0 {
        Seq::empty()
    } else {
        let row = s.last();
        let nr = match row {
            JsonTree::Array(cells) => {
                proof {
                    assert(decreases_to!(s => s.last()));
                }
                JsonTree::Array(rewrite_seq(cells, prefix))
            },
            _ => row,
        };
        rewrite_rows(s.drop_last(), prefix).push(nr)
    }
}

proof fn lemma_rewrite_tree_empty(t: JsonTree)
    ensures
        rewrite_tree(t, Seq::empty()) == t,
    decreases t,
{
    if let JsonTree::Object(ms) = t {
        lemma_rewrite_members_empty(ms, is_image(ms));
    }
}

proof fn lemma_rewrite_members_empty(ms: Seq<(Seq<char>, JsonTree)>, img: bool)
    ensures
        rewrite_members(ms, img, Seq::empty()) == ms,
    decreases ms,
{
    if ms.len() > 0 {
        assert(decreases_to!(ms => ms.last()));
        assert(decreases_to!(ms.last() => ms.last().1));
        lemma_rewrite_members_empty(ms.drop_last(), img);
        lemma_rewrite_field_empty(ms.last().0, ms.last().1, img);
        assert(ms.drop_last().push(ms.last()) == ms);
    }
}

proof fn lemma_rewrite_field_empty(k: Seq<char>, v: JsonTree, img: bool)
    ensures
        rewrite_field(k, v, img, Seq::empty()) == v,
    decreases v,
{
    match v {
        JsonTree::Str(s) => {
            assert(Seq::<char>::empty() + s == s);
        },
        JsonTree::Array(items) => {
            lemma_rewrite_seq_empty(items);
            lemma_rewrite_rows_empty(items);
        },
        _ => {},
    }
}

proof fn lemma_rewrite_seq_empty(s: Seq<JsonTree>)
    ensures
        rewrite_seq(s, Seq::empty()) == s,
    decreases s,
{
    if s.len() > 0 {
        lemma_rewrite_seq_empty(s.drop_last());
        lemma_rewrite_tree_empty(s.last());
        assert(s.drop_last().push(s.last()) == s);
    }
}

proof fn lemma_rewrite_rows_empty(s: Seq<JsonTree>)
    ensures
        rewrite_rows(s, Seq::empty()) == s,
    decreases s,
{
    if s.len() > 0 {
        lemma_rewrite_rows_empty(s.drop_last());
        if let JsonTree::Array(cells) = s.last() {
            assert(decreases_to!(s => s.last()));
            lemma_rewrite_seq_empty(cells);
        }
        assert(s.drop_last().push(s.last()) == s);
    }
}

/// An image rewriter with an empty prefix leaves every asset as it is.
pub proof fn lemma_empty_prefix_keeps_asset(rewriter: &ImagePathRewriter, a: AssetView)
    requires
        rewriter.prefix@.len() == 0,
    ensures
        rewriter.spec_process(a) == a,
{
    assert(rewriter.prefix@ == Seq::<char>::empty());
    lemma_rewrite_seq_empty(a.1);
}

proof fn lemma_members_view(m: Seq<JsonMember>)
    ensures
        members_view(m).len() == m.len(),
        forall|i: int|
            0 <= i < m.len() ==> #[trigger] members_view(m)[i] == (m[i].key@, json_view(m[i].value)),
        forall|k: Seq<char>| #[trigger] tree_find(members_view(m), k) == find_key(m, k),
    decreases m.len(),
{
    if m.len() > 0 {
        lemma_members_view(m.drop_last());
        let mv = members_view(m);
        assert(mv.drop_last() == members_view(m.drop_last()));
        assert forall|i: int| 0 <= i < m.len() implies #[trigger] members_view(m)[i] == (
            m[i].key@,
            json_view(m[i].value),
        ) by {
            if i < m.len() - 1 {
                assert(m.drop_last()[i] == m[i]);
            }
        }
        assert forall|k: Seq<char>| #[trigger] tree_find(members_view(m), k) == find_key(m, k) by {
            assert(tree_find(members_view(m.drop_last()), k) == find_key(m.drop_last(), k));
        }
    }
}

/// Whether a member among the first `upto` has the given key.
fn key_seen(m: &[JsonMember], upto: usize, key: &str) -> (r: bool)
    requires
        upto <= m@.len(),
    ensures
        r == (find_key(m@.take(upto as int), key@) >= 0),
{
    let ghost t = m@.take(upto as int);
    proof {
        lemma_find_key(t, key@);
    }
    let mut j: usize = 0;
    while j < upto
        invariant
            upto <= m@.len(),
            t == m@.take(upto as int),
            j <= upto,
            forall|q: int| 0 <= q < j ==> m@[q].key@ != key@,
            -1 <= find_key(t, key@) < t.len(),
            find_key(t, key@) >= 0 ==> t[find_key(t, key@)].key@ == key@,
            find_key(t, key@) < 0 ==> forall|q: int| 0 <= q < t.len() ==> t[q].key@ != key@,
        decreases upto - j,
    {
        if str_eq(m[j].key.as_str(), key) {
            assert(t[j as int] == m@[j as int]);
            return true;
        }
        j += 1;
    }
    proof {
        if find_key(t, key@) >= 0 {
            assert(t[find_key(t, key@)] == m@[find_key(t, key@)]);
        }
    }
    false
}

/// Whether a source is kept as it is.
fn keeps_path_exec(src: &str) -> (r: bool)
    ensures
        r == keeps_path(src@),
{
    starts_with(src, "http://") || starts_with(src, "https://") || starts_with(src, "data:")
}

/// A copy of the node with the prefix put before the `src` of each image
/// in it.
fn rewrite_image_paths(node: &JsonValue, prefix: &str) -> (r: JsonValue)
    ensures
        r@ == rewrite_tree(node@, prefix@),
    decreases *node,
{
    match node {
        JsonValue::Object(m) => {
            let img = match get_field(node, "t") {
                Some(JsonValue::Str(s)) => str_eq(s.as_str(), "image"),
                _ => false,
            };
            proof {
                lemma_members_view(m@);
                lemma_find_key(m@, "t"@);
                assert(decreases_to!(*node => *m));
                assert(decreases_to!(*m => m@));
            }
            let members = rewrite_members_vec(m.as_slice(), img, prefix);
            JsonValue::Object(members)
        },
        _ => clone_value(node),
    }
}

fn rewrite_members_vec(m: &[JsonMember], img: bool, prefix: &str) -> (r: Vec<JsonMember>)
    ensures
        members_view(r@) == rewrite_members(members_view(m@), img, prefix@),
    decreases m@,
{
    let mut r: Vec<JsonMember> = Vec::new();
    let n = m.len();
    let mut i: usize = 0;
    while i < n
        invariant
            n == m@.len(),
            i <= n,
            members_view(r@) == rewrite_members(members_view(m@.take(i as int)), img, prefix@),
        decreases n - i,
    {
        let ghost pre = m@.take(i as int);
        proof {
            assert(m@.take(i + 1).drop_last() == pre);
            assert(m@.take(i + 1).last() == m@[i as int]);
            lemma_members_view(pre);
            let x = members_view(m@.take(i + 1));
            assert(x.drop_last() == members_view(pre));
            assert(decreases_to!(m@ => m@[i as int]));
            assert(decreases_to!(m@[i as int] => m@[i as int].value));
        }
        let seen = key_seen(m, i, m[i].key.as_str());
        let nv = if seen {
            clone_value(&m[i].value)
        } else {
            rewrite_field_value(m[i].key.as_str(), &m[i].value, img, prefix)
        };
        let ghost before = r@;
        r.push(JsonMember { key: m[i].key.clone(), value: nv });
        proof {
            assert(r@.drop_last() == before);
        }
        i += 1;
    }
    proof {
        assert(m@.take(n as int) == m@);
    }
    r
}

fn rewrite_field_value(k: &str, v: &JsonValue, img: bool, prefix: &str) -> (r: JsonValue)
    ensures
        r@ == rewrite_field(k@, v@, img, prefix@),
    decreases *v,
{
    match v {
        JsonValue::Str(s) => {
            if str_eq(k, "src") && img && !keeps_path_exec(s.as_str()) {
                let mut out = String::new();
                push_str(&mut out, prefix);
                push_str(&mut out, s.as_str());
                JsonValue::Str(out)
            } else {
                clone_value(v)
            }
        },
        JsonValue::Array(a) => {
            proof {
                assert(decreases_to!(*v => *a));
                assert(decreases_to!(*a => a@));
            }
            if str_eq(k, "children") || str_eq(k, "items") || str_eq(k, "headers") {
                JsonValue::Array(rewrite_values(a.as_slice(), prefix))
            } else if str_eq(k, "rows") {
                JsonValue::Array(rewrite_row_values(a.as_slice(), prefix))
            } else {
                clone_value(v)
            }
        },
        _ => clone_value(v),
    }
}

fn rewrite_values(s: &[JsonValue], prefix: &str) -> (r: Vec<JsonValue>)
    ensures
        views_of(r@) == rewrite_seq(views_of(s@), prefix@),
    decreases s@,
{
    let mut r: Vec<JsonValue> = Vec::new();
    let n = s.len();
    let mut i: usize = 0;
    while i < n
        invariant
            n == s@.len(),
            i <= n,
            views_of(r@) == rewrite_seq(views_of(s@.take(i as int)), prefix@),
        decreases n - i,
    {
        proof {
            assert(s@.take(i + 1).drop_last() == s@.take(i as int));
            assert(s@.take(i + 1).last() == s@[i as int]);
            let x = views_of(s@.take(i + 1));
            assert(x.drop_last() == views_of(s@.take(i as int)));
        }
        let c = rewrite_image_paths(&s[i], prefix);
        let ghost before = r@;
        r.push(c);
        proof {
            assert(r@.drop_last() == before);
        }
        i += 1;
    }
    proof {
        assert(s@.take(n as int) == s@);
    }
    r
}

fn rewrite_row_values(s: &[JsonValue], prefix: &str) -> (r: Vec<JsonValue>)
    ensures
        views_of(r@) == rewrite_rows(views_of(s@), prefix@),
    decreases s@,
{
    let mut r: Vec<JsonValue> = Vec::new();
    let n = s.len();
    let mut i: usize = 0;
    while i < n
        invariant
            n == s@.len(),
            i <= n,
            views_of(r@) == rewrite_rows(views_of(s@.take(i as int)), prefix@),
        decreases n - i,
    {
        proof {
            assert(s@.take(i + 1).drop_last() == s@.take(i as int));
            assert(s@.take(i + 1).last() == s@[i as int]);
            let x = views_of(s@.take(i + 1));
            assert(x.drop_last() == views_of(s@.take(i as int)));
        }
        let c = match &s[i] {
            JsonValue::Array(cells) => {
                proof {
                    assert(decreases_to!(s@ => s@[i as int]));
                    assert(decreases_to!(s@[i as int] => *cells));
                    assert(decreases_to!(*cells => cells@));
                }
                JsonValue::Array(rewrite_values(cells.as_slice(), prefix))
            },
            _ => clone_value(&s[i]),
        };
        proof {
            let row = json_view(s@[i as int]);
            let nr = match row {
                JsonTree::Array(cells) => JsonTree::Array(rewrite_seq(cells, prefix@)),
                _ => row,
            };
            assert(c@ == nr);
        }
        let ghost before = r@;
        r.push(c);
        proof {
            assert(r@.drop_last() == before);
        }
        i += 1;
    }
    proof {
        assert(s@.take(n as int) == s@);
    }
    r
}

/// Puts a prefix before the paths of local images.
pub struct ImagePathRewriter {
    pub prefix: String,
}

impl PostProcessor for ImagePathRewriter {
    open spec fn spec_process(&self, asset: AssetView) -> AssetView {
        (asset.0, rewrite_seq(asset.1, self.prefix@))
    }

    open spec fn spec_succeeds(&self, asset: AssetView) -> bool {
        true
    }

    open spec fn spec_fails(&self, asset: AssetView, e: RenderError, after: AssetView) -> bool {
        false
    }

    fn process(&self, asset: &mut SiteAsset) -> (r: Result<(), RenderError>) {
        let rewritten = rewrite_values(asset.ast.as_slice(), self.prefix.as_str());
        asset.ast = rewritten;
        Ok(())
    }
}

} // verus!
