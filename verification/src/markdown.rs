use vstd::prelude::*;
use crate::escape::{append_escaped, spec_escape};
use comrak::nodes::{ListType, NodeValue};
use vstd::string::StringExecFns;

verus! {

/// The closed set of markdown syntax-tree node kinds the renderer knows,
/// with each kind's literal payloads held as plain strings.
pub enum NodeKind {
    Document,
    /// The heading level.
    Heading(u8),
    Paragraph,
    /// The literal text.
    Text(String),
    SoftBreak,
    LineBreak,
    Emph,
    Strong,
    /// Whether the list is ordered, and whether it is tight.
    List(bool, bool),
    Item,
    /// The raw HTML payload.
    HtmlBlock(String),
    ThematicBreak,
    /// The destination URL and the title.
    Link(String, String),
    /// The source URL and the title.
    Image(String, String),
    /// The literal code.
    Code(String),
    /// The fence's info string and the literal code.
    CodeBlock(String, String),
    /// Any construct outside the supported set.
    Other,
}

/// One node of a parsed document: its kind and the arena indices of its
/// children, in document order.
pub struct MdNode {
    pub kind: NodeKind,
    pub children: Vec<usize>,
}

/// Mathematical model of a node kind: string payloads become `Seq<char>`.
pub enum KindV {
    Document,
    Heading(u8),
    Paragraph,
    Text(Seq<char>),
    SoftBreak,
    LineBreak,
    Emph,
    Strong,
    List(bool, bool),
    Item,
    HtmlBlock(Seq<char>),
    ThematicBreak,
    Link(Seq<char>, Seq<char>),
    Image(Seq<char>, Seq<char>),
    Code(Seq<char>),
    CodeBlock(Seq<char>, Seq<char>),
    Other,
}

/// Mathematical model of one arena node.
pub struct NodeV {
    pub kind: KindV,
    pub children: Seq<int>,
}

impl View for NodeKind {
    type V = KindV;

    open spec fn view(&self) -> KindV {
        match self {
            NodeKind::Document => KindV::Document,
            NodeKind::Heading(level) => KindV::Heading(*level),
            NodeKind::Paragraph => KindV::Paragraph,
            NodeKind::Text(t) => KindV::Text(t@),
            NodeKind::SoftBreak => KindV::SoftBreak,
            NodeKind::LineBreak => KindV::LineBreak,
            NodeKind::Emph => KindV::Emph,
            NodeKind::Strong => KindV::Strong,
            NodeKind::List(ordered, tight) => KindV::List(*ordered, *tight),
            NodeKind::Item => KindV::Item,
            NodeKind::HtmlBlock(h) => KindV::HtmlBlock(h@),
            NodeKind::ThematicBreak => KindV::ThematicBreak,
            NodeKind::Link(url, title) => KindV::Link(url@, title@),
            NodeKind::Image(url, title) => KindV::Image(url@, title@),
            NodeKind::Code(lit) => KindV::Code(lit@),
            NodeKind::CodeBlock(info, lit) => KindV::CodeBlock(info@, lit@),
            NodeKind::Other => KindV::Other,
        }
    }
}

impl View for MdNode {
    type V = NodeV;

    open spec fn view(&self) -> NodeV {
        NodeV {
            kind: self.kind@,
            children: self.children@.map_values(|c: usize| c as int),
        }
    }
}

/// The model of a whole arena of nodes.
pub open spec fn doc_view(nodes: Seq<MdNode>) -> Seq<NodeV> {
    nodes.map_values(|n: MdNode| n@)
}

/// Well-formed arena: every child index points further right in the arena
/// and stays in bounds, so the node relation is acyclic.
pub open spec fn wf_doc(doc: Seq<NodeV>) -> bool {
    forall|i: int, k: int|
        0 <= i < doc.len() && 0 <= k < doc[i].children.len() ==> i < #[trigger] doc[i].children[k]
            < doc.len()
}

/// The syntax tree that the markdown grammar assigns to a text, as an
/// arena of nodes with node 0 the document root.
pub uninterp spec fn md_ast_of(s: Seq<char>) -> Seq<NodeV>;

/// comrak's own node payload, opaque here; the two classifiers below read
/// it.
#[verifier::external_type_specification]
#[verifier::external_body]
pub struct ExNodeValue(NodeValue);

/// Relies on comrak::nodes::NodeValue: tells the block variants apart,
/// one arm each, moving their fields into the matching [`NodeKind`].
#[verifier::external_body]
fn block_kind(v: &NodeValue) -> NodeKind {
    match v {
        NodeValue::Document => NodeKind::Document,
        NodeValue::Heading(h) => NodeKind::Heading(h.level),
        NodeValue::Paragraph => NodeKind::Paragraph,
        NodeValue::List(l) => NodeKind::List(matches!(l.list_type, ListType::Ordered), l.tight),
        NodeValue::Item(_) => NodeKind::Item,
        NodeValue::HtmlBlock(b) => NodeKind::HtmlBlock(b.literal.clone()),
        NodeValue::ThematicBreak => NodeKind::ThematicBreak,
        NodeValue::CodeBlock(c) => NodeKind::CodeBlock(c.info.clone(), c.literal.clone()),
        other => inline_kind(other),
    }
}

/// Relies on comrak::nodes::NodeValue: tells the inline variants apart,
/// one arm each; any construct outside the supported set becomes `Other`.
#[verifier::external_body]
fn inline_kind(v: &NodeValue) -> NodeKind {
    match v {
        NodeValue::Text(t) => NodeKind::Text(t.to_string()),
        NodeValue::SoftBreak => NodeKind::SoftBreak,
        NodeValue::LineBreak => NodeKind::LineBreak,
        NodeValue::Emph => NodeKind::Emph,
        NodeValue::Strong => NodeKind::Strong,
        NodeValue::Link(l) => NodeKind::Link(l.url.clone(), l.title.clone()),
        NodeValue::Image(l) => NodeKind::Image(l.url.clone(), l.title.clone()),
        NodeValue::Code(c) => NodeKind::Code(c.literal.clone()),
        _ => NodeKind::Other,
    }
}

/// Relies on comrak::parse_document: parses CommonMark text into a syntax
/// tree, a pure function of the text. The body only rebuilds that tree as
/// an index arena, parents before children.
#[verifier::external_body]
pub fn parse_markdown(md: &str) -> (doc: Vec<MdNode>)
    ensures
        doc_view(doc@) == md_ast_of(md@),
        wf_doc(doc_view(doc@)),
        doc_view(doc@).len() >= 1,
        doc_view(doc@)[0].kind is Document,
{
    let arena = comrak::Arena::new();
    let root = comrak::parse_document(&arena, md, &comrak::Options::default());
    let mut nodes = vec![MdNode { kind: NodeKind::Document, children: Vec::new() }];
    let mut work: Vec<(&comrak::nodes::AstNode, usize)> = vec![(root, 0)];
    while let Some((n, idx)) = work.pop() {
        for child in n.children() {
            let cidx = nodes.len();
            nodes.push(MdNode { kind: block_kind(&child.data.borrow().value), children: Vec::new() });
            nodes[idx].children.push(cidx);
            work.push((child, cidx));
        }
    }
    nodes
}

/// The HTML fragment and diagnostic count produced by the children of node
/// `i`, starting at child position `k`. `tight` is passed through to each
/// child.
pub open spec fn spec_render_kids(doc: Seq<NodeV>, i: int, k: int, tight: bool) -> (Seq<char>, nat)
    decreases doc.len() - i, doc[i].children.len() - k,
{
    if 0 <= i < doc.len() && 0 <= k < doc[i].children.len() {
        let c = doc[i].children[k];
        let head = if i < c < doc.len() {
            spec_render_node(doc, c, tight)
        } else {
            (Seq::<char>::empty(), 0nat)
        };
        let tail = spec_render_kids(doc, i, k + 1, tight);
        (head.0 + tail.0, head.1 + tail.1)
    } else {
        (Seq::<char>::empty(), 0nat)
    }
}

/// The HTML fragment and diagnostic count produced by node `i`. `tight` is
/// true exactly when the node is directly inside an item of a tight list,
/// where a paragraph contributes its children without a `<p>` wrapper.
pub open spec fn spec_render_node(doc: Seq<NodeV>, i: int, tight: bool) -> (Seq<char>, nat)
    decreases doc.len() - i, doc[i].children.len() + 1,
{
    if 0 <= i < doc.len() {
        match doc[i].kind {
            KindV::Document => spec_render_kids(doc, i, 0, false),
            KindV::Heading(level) => if level == 1 {
                (Seq::<char>::empty(), 0nat)
            } else {
                let kids = spec_render_kids(doc, i, 0, false);
                ("<h2>"@ + kids.0 + "</h2>"@, kids.1)
            },
            KindV::Paragraph => {
                let kids = spec_render_kids(doc, i, 0, false);
                if tight {
                    kids
                } else {
                    ("<p>"@ + kids.0 + "</p>"@, kids.1)
                }
            },
            KindV::Text(t) => (spec_escape(t), 0nat),
            KindV::SoftBreak => (" "@, 0nat),
            KindV::LineBreak => ("<br />"@, 0nat),
            KindV::Emph => {
                let kids = spec_render_kids(doc, i, 0, false);
                ("<em>"@ + kids.0 + "</em>"@, kids.1)
            },
            KindV::Strong => {
                let kids = spec_render_kids(doc, i, 0, false);
                ("<strong>"@ + kids.0 + "</strong>"@, kids.1)
            },
            KindV::List(ordered, list_tight) => {
                let kids = spec_render_kids(doc, i, 0, list_tight);
                if ordered {
                    ("<ol>"@ + kids.0 + "</ol>"@, kids.1)
                } else {
                    ("<ul>"@ + kids.0 + "</ul>"@, kids.1)
                }
            },
            KindV::Item => {
                let kids = spec_render_kids(doc, i, 0, tight);
                ("<li>"@ + kids.0 + "</li>"@, kids.1)
            },
            KindV::HtmlBlock(h) => (h, 0nat),
            KindV::ThematicBreak => ("<hr />"@, 0nat),
            KindV::Link(url, title) => {
                let kids = spec_render_kids(doc, i, 0, false);
                ("<a href=\""@ + url + "\">"@ + title + kids.0 + "</a>"@, kids.1)
            },
            KindV::Image(url, title) => (
                "<img src=\""@ + url + "\" alt=\""@ + title + "\" />"@,
                0nat,
            ),
            KindV::Code(lit) => ("<code>"@ + spec_escape(lit) + "</code>"@, 0nat),
            KindV::CodeBlock(info, lit) => (
                "<pre><code class=\"language-"@ + info + "\">"@ + spec_escape(lit)
                    + "</code></pre>"@,
                0nat,
            ),
            KindV::Other => (Seq::<char>::empty(), 1nat),
        }
    } else {
        (Seq::<char>::empty(), 0nat)
    }
}

/// The HTML fragment the whole document renders to.
pub open spec fn spec_markdown_html(s: Seq<char>) -> Seq<char> {
    spec_render_node(md_ast_of(s), 0, false).0
}

/// How many unsupported nodes rendering the whole document reports.
pub open spec fn spec_markdown_diag_count(s: Seq<char>) -> nat {
    spec_render_node(md_ast_of(s), 0, false).1
}

/// The fixed message recorded for an unsupported node.
pub open spec fn spec_diag_message() -> Seq<char> {
    "unsupported markdown node"@
}

/// What the renderer guarantees of the diagnostics vector: the old entries
/// stay, and every new entry is the fixed message.
pub open spec fn diags_extended(pre: Seq<String>, post: Seq<String>, count: nat) -> bool {
    &&& post.len() == pre.len() + count
    &&& forall|j: int| 0 <= j < pre.len() ==> post[j] == pre[j]
    &&& forall|j: int| pre.len() <= j < post.len() ==> (#[trigger] post[j])@ == spec_diag_message()
}

/// Renders the children of node `i`, appending their HTML to `out` and
/// their diagnostics to `diags`.
fn render_kids(doc: &Vec<MdNode>, i: usize, tight: bool, out: &mut String, diags: &mut Vec<String>)
    requires
        wf_doc(doc_view(doc@)),
        i < doc@.len(),
    ensures
        final(out)@ == old(out)@ + spec_render_kids(doc_view(doc@), i as int, 0, tight).0,
        diags_extended(
            old(diags)@,
            final(diags)@,
            spec_render_kids(doc_view(doc@), i as int, 0, tight).1,
        ),
    decreases doc@.len() - i, 0int,
{
    let ghost dv = doc_view(doc@);
    let n = doc[i].children.len();
    proof {
        assert(dv[i as int] == doc@[i as int]@);
        assert(dv[i as int].children.len() == n);
    }
    let mut k: usize = 0;
    while k < n
        invariant
            wf_doc(dv),
            dv == doc_view(doc@),
            i < doc@.len(),
            dv[i as int] == doc@[i as int]@,
            n == doc@[i as int].children@.len(),
            n == dv[i as int].children.len(),
            k <= n,
            out@ + spec_render_kids(dv, i as int, k as int, tight).0 == old(out)@
                + spec_render_kids(dv, i as int, 0, tight).0,
            diags@.len() + spec_render_kids(dv, i as int, k as int, tight).1 == old(diags)@.len()
                + spec_render_kids(dv, i as int, 0, tight).1,
            old(diags)@.len() <= diags@.len(),
            forall|j: int| 0 <= j < old(diags)@.len() ==> diags@[j] == old(diags)@[j],
            forall|j: int|
                old(diags)@.len() <= j < diags@.len() ==> (#[trigger] diags@[j])@
                    == spec_diag_message(),
        decreases n - k,
    {
        let c = doc[i].children[k];
        proof {
            assert(dv[i as int].children[k as int] == c as int);
            assert(i < c < doc@.len());
        }
        let ghost out_before = out@;
        let ghost diags_before = diags@;
        render_node(doc, c, tight, out, diags);
        proof {
            let head = spec_render_node(dv, c as int, tight);
            let tail = spec_render_kids(dv, i as int, k + 1, tight);
            assert(spec_render_kids(dv, i as int, k as int, tight) == (
                head.0 + tail.0,
                head.1 + tail.1,
            ));
            assert(out_before + (head.0 + tail.0) =~= (out_before + head.0) + tail.0);
            assert(out@ + tail.0 =~= (out_before + head.0) + tail.0);
            assert(diags_before.len() >= old(diags)@.len());
            assert forall|j: int| 0 <= j < old(diags)@.len() implies diags@[j] == old(
                diags,
            )@[j] by {
                assert(diags@[j] == diags_before[j]);
            }
            assert forall|j: int|
                old(diags)@.len() <= j < diags@.len() implies (#[trigger] diags@[j])@
                == spec_diag_message() by {
                if j < diags_before.len() {
                    assert(diags@[j] == diags_before[j]);
                }
            }
        }
        k = k + 1;
    }
}

/// Renders node `i`, appending its HTML to `out` and its diagnostics to
/// `diags`.
fn render_node(doc: &Vec<MdNode>, i: usize, tight: bool, out: &mut String, diags: &mut Vec<String>)
    requires
        wf_doc(doc_view(doc@)),
        i < doc@.len(),
    ensures
        final(out)@ == old(out)@ + spec_render_node(doc_view(doc@), i as int, tight).0,
        diags_extended(
            old(diags)@,
            final(diags)@,
            spec_render_node(doc_view(doc@), i as int, tight).1,
        ),
    decreases doc@.len() - i, 1int,
{
    let ghost dv = doc_view(doc@);
    proof {
        assert(dv[i as int] == doc@[i as int]@);
    }
    match &doc[i].kind {
        NodeKind::Document => {
            render_kids(doc, i, false, out, diags);
        },
        NodeKind::Heading(level) => {
            if *level != 1 {
                out.append("<h2>");
                render_kids(doc, i, false, out, diags);
                out.append("</h2>");
                proof {
                    let kids = spec_render_kids(dv, i as int, 0, false);
                    assert(out@ =~= old(out)@ + ("<h2>"@ + kids.0 + "</h2>"@));
                }
            }
        },
        NodeKind::Paragraph => {
            if tight {
                render_kids(doc, i, false, out, diags);
            } else {
                out.append("<p>");
                render_kids(doc, i, false, out, diags);
                out.append("</p>");
                proof {
                    let kids = spec_render_kids(dv, i as int, 0, false);
                    assert(out@ =~= old(out)@ + ("<p>"@ + kids.0 + "</p>"@));
                }
            }
        },
        NodeKind::Text(t) => {
            append_escaped(out, t.as_str());
        },
        NodeKind::SoftBreak => {
            out.append(" ");
        },
        NodeKind::LineBreak => {
            out.append("<br />");
        },
        NodeKind::Emph => {
            out.append("<em>");
            render_kids(doc, i, false, out, diags);
            out.append("</em>");
            proof {
                let kids = spec_render_kids(dv, i as int, 0, false);
                assert(out@ =~= old(out)@ + ("<em>"@ + kids.0 + "</em>"@));
            }
        },
        NodeKind::Strong => {
            out.append("<strong>");
            render_kids(doc, i, false, out, diags);
            out.append("</strong>");
            proof {
                let kids = spec_render_kids(dv, i as int, 0, false);
                assert(out@ =~= old(out)@ + ("<strong>"@ + kids.0 + "</strong>"@));
            }
        },
        NodeKind::List(ordered, list_tight) => {
            let lt = *list_tight;
            if *ordered {
                out.append("<ol>");
                render_kids(doc, i, lt, out, diags);
                out.append("</ol>");
                proof {
                    let kids = spec_render_kids(dv, i as int, 0, lt);
                    assert(out@ =~= old(out)@ + ("<ol>"@ + kids.0 + "</ol>"@));
                }
            } else {
                out.append("<ul>");
                render_kids(doc, i, lt, out, diags);
                out.append("</ul>");
                proof {
                    let kids = spec_render_kids(dv, i as int, 0, lt);
                    assert(out@ =~= old(out)@ + ("<ul>"@ + kids.0 + "</ul>"@));
                }
            }
        },
        NodeKind::Item => {
            out.append("<li>");
            render_kids(doc, i, tight, out, diags);
            out.append("</li>");
            proof {
                let kids = spec_render_kids(dv, i as int, 0, tight);
                assert(out@ =~= old(out)@ + ("<li>"@ + kids.0 + "</li>"@));
            }
        },
        NodeKind::HtmlBlock(h) => {
            out.append(h.as_str());
        },
        NodeKind::ThematicBreak => {
            out.append("<hr />");
        },
        NodeKind::Link(url, title) => {
            out.append("<a href=\"");
            out.append(url.as_str());
            out.append("\">");
            out.append(title.as_str());
            render_kids(doc, i, false, out, diags);
            out.append("</a>");
            proof {
                let kids = spec_render_kids(dv, i as int, 0, false);
                assert(out@ =~= old(out)@ + ("<a href=\""@ + url@ + "\">"@ + title@ + kids.0
                    + "</a>"@));
            }
        },
        NodeKind::Image(url, title) => {
            out.append("<img src=\"");
            out.append(url.as_str());
            out.append("\" alt=\"");
            out.append(title.as_str());
            out.append("\" />");
            proof {
                assert(out@ =~= old(out)@ + ("<img src=\""@ + url@ + "\" alt=\""@ + title@
                    + "\" />"@));
            }
        },
        NodeKind::Code(lit) => {
            out.append("<code>");
            append_escaped(out, lit.as_str());
            out.append("</code>");
            proof {
                assert(out@ =~= old(out)@ + ("<code>"@ + spec_escape(lit@) + "</code>"@));
            }
        },
        NodeKind::CodeBlock(info, lit) => {
            out.append("<pre><code class=\"language-");
            out.append(info.as_str());
            out.append("\">");
            append_escaped(out, lit.as_str());
            out.append("</code></pre>");
            proof {
                assert(out@ =~= old(out)@ + ("<pre><code class=\"language-"@ + info@ + "\">"@
                    + spec_escape(lit@) + "</code></pre>"@));
            }
        },
        NodeKind::Other => {
            diags.push("unsupported markdown node".to_owned());
        },
    }
}

/// Parses one markdown text and renders it to an HTML fragment, together
/// with one diagnostic for each unsupported construct met on the way.
pub fn render_markdown(md: &str) -> (r: (String, Vec<String>))
    ensures
        r.0@ == spec_markdown_html(md@),
        diags_extended(Seq::empty(), r.1@, spec_markdown_diag_count(md@)),
{
    let doc = parse_markdown(md);
    let mut out = String::new();
    let mut diags: Vec<String> = Vec::new();
    proof {
        assert(doc_view(doc@).len() == doc@.len());
    }
    render_node(&doc, 0, false, &mut out, &mut diags);
    (out, diags)
}

} // verus!
