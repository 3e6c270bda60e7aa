use blog::markdown::render_markdown;

#[test]
fn heading_one_is_dropped_and_emphasis_renders() {
    let (html, diags) = render_markdown("# Title\n\nHello *world*.");
    assert!(!html.contains("<h1>"));
    assert!(!html.contains("Title"));
    assert_eq!(html, "<p>Hello <em>world</em>.</p>");
    assert!(diags.is_empty());
}

#[test]
fn tight_bullet_list_renders_bare_items() {
    let (html, _) = render_markdown("- a\n- b");
    assert_eq!(html, "<ul><li>a</li><li>b</li></ul>");
}

#[test]
fn loose_bullet_list_keeps_paragraphs() {
    let (html, _) = render_markdown("- a\n\n- b");
    assert_eq!(html, "<ul><li><p>a</p></li><li><p>b</p></li></ul>");
}

#[test]
fn ordered_list_renders_ol() {
    let (html, _) = render_markdown("1. a\n2. b");
    assert_eq!(html, "<ol><li>a</li><li>b</li></ol>");
}

#[test]
fn fenced_code_block_carries_info_string() {
    let (html, _) = render_markdown("```py\ncode\n```");
    assert_eq!(html, "<pre><code class=\"language-py\">code\n</code></pre>");
    assert!(html.contains("<pre><code class=\"language-py\">code"));
    assert!(html.contains("</code></pre>"));
}

#[test]
fn plain_text_is_html_escaped() {
    let (html, _) = render_markdown("a & b < c > d");
    assert_eq!(html, "<p>a &amp; b &lt; c &gt; d</p>");
}

#[test]
fn quotes_are_html_escaped() {
    let (html, _) = render_markdown("\"x\" and 'y'");
    assert_eq!(html, "<p>&quot;x&quot; and &#39;y&#39;</p>");
}

#[test]
fn inline_code_is_escaped_and_wrapped() {
    let (html, _) = render_markdown("`x < y`");
    assert_eq!(html, "<p><code>x &lt; y</code></p>");
}

#[test]
fn subheadings_collapse_to_h2() {
    let (html, _) = render_markdown("## Sub");
    assert_eq!(html, "<h2>Sub</h2>");
    let (html3, _) = render_markdown("### Deeper");
    assert_eq!(html3, "<h2>Deeper</h2>");
}

#[test]
fn strong_emphasis_renders() {
    let (html, _) = render_markdown("**bold**");
    assert_eq!(html, "<p><strong>bold</strong></p>");
}

#[test]
fn soft_break_becomes_space() {
    let (html, _) = render_markdown("a\nb");
    assert_eq!(html, "<p>a b</p>");
}

#[test]
fn hard_break_becomes_br() {
    let (html, _) = render_markdown("a  \nb");
    assert_eq!(html, "<p>a<br />b</p>");
}

#[test]
fn thematic_break_renders_hr() {
    let (html, _) = render_markdown("a\n\n---\n\nb");
    assert_eq!(html, "<p>a</p><hr /><p>b</p>");
}

#[test]
fn link_title_text_precedes_children() {
    let (html, _) = render_markdown("[text](https://example.test \"ttl\")");
    assert_eq!(html, "<p><a href=\"https://example.test\">ttltext</a></p>");
}

#[test]
fn link_without_title_renders_children_only() {
    let (html, _) = render_markdown("[text](u)");
    assert_eq!(html, "<p><a href=\"u\">text</a></p>");
}

#[test]
fn image_renders_self_closing_with_title_as_alt() {
    let (html, _) = render_markdown("![alt](/img.png \"ttl\")");
    assert_eq!(html, "<p><img src=\"/img.png\" alt=\"ttl\" /></p>");
}

#[test]
fn raw_html_block_passes_through() {
    let (html, _) = render_markdown("<div>\nraw\n</div>");
    assert!(html.contains("<div>"));
    assert!(html.contains("raw"));
}

#[test]
fn unsupported_node_yields_empty_output_and_diagnostic() {
    let (html, diags) = render_markdown("> quoted");
    assert_eq!(html, "");
    assert_eq!(diags.len(), 1);
    assert_eq!(diags[0], "unsupported markdown node");
}

#[test]
fn rendering_is_deterministic() {
    let md = "## T\n\nSome *text* with `code` and [l](u).\n\n- a\n- b";
    let (h1, d1) = render_markdown(md);
    let (h2, d2) = render_markdown(md);
    assert_eq!(h1, h2);
    assert_eq!(d1.len(), d2.len());
}
