//! Rendering tests over real parsed wikitext.

use parse_wiki_text::Configuration;
use wikirender::ast::{DefinitionListItem, DefinitionListItemType, ListItem, Node, TableCaption,
    TableCell, TableCellType, TableRow, TemplateParameter};
use wikirender::renderer::render;
use wikirender::store::ArticleStore;

fn conv_nodes(nodes: &[parse_wiki_text::Node]) -> Vec<Node> {
    nodes.iter().map(conv_node).collect()
}

fn conv_items(items: &[parse_wiki_text::ListItem]) -> Vec<ListItem> {
    items.iter().map(|i| ListItem { nodes: conv_nodes(&i.nodes) }).collect()
}

fn conv_def_items(items: &[parse_wiki_text::DefinitionListItem]) -> Vec<DefinitionListItem> {
    items
        .iter()
        .map(|i| DefinitionListItem {
            type_: match i.type_ {
                parse_wiki_text::DefinitionListItemType::Term => DefinitionListItemType::Term,
                parse_wiki_text::DefinitionListItemType::Details => DefinitionListItemType::Details,
            },
            nodes: conv_nodes(&i.nodes),
        })
        .collect()
}

fn conv_captions(captions: &[parse_wiki_text::TableCaption]) -> Vec<TableCaption> {
    captions
        .iter()
        .map(|c| TableCaption {
            attributes: c.attributes.as_ref().map(|a| conv_nodes(a)),
            content: conv_nodes(&c.content),
        })
        .collect()
}

fn conv_rows(rows: &[parse_wiki_text::TableRow]) -> Vec<TableRow> {
    rows.iter()
        .map(|r| TableRow {
            attributes: conv_nodes(&r.attributes),
            cells: r
                .cells
                .iter()
                .map(|c| TableCell {
                    attributes: c.attributes.as_ref().map(|a| conv_nodes(a)),
                    content: conv_nodes(&c.content),
                    type_: match c.type_ {
                        parse_wiki_text::TableCellType::Heading => TableCellType::Heading,
                        parse_wiki_text::TableCellType::Ordinary => TableCellType::Ordinary,
                    },
                })
                .collect(),
        })
        .collect()
}

fn conv_params(params: &[parse_wiki_text::Parameter]) -> Vec<TemplateParameter> {
    params
        .iter()
        .map(|p| TemplateParameter {
            name: p.name.as_ref().map(|n| conv_nodes(n)),
            value: conv_nodes(&p.value),
        })
        .collect()
}

fn conv_node(node: &parse_wiki_text::Node) -> Node {
    match node {
        parse_wiki_text::Node::Text { value, .. } => Node::Text { value: (*value).to_owned() },
        parse_wiki_text::Node::CharacterEntity { character, .. } => Node::CharacterEntity {
            character: *character,
        },
        parse_wiki_text::Node::Bold { .. } => Node::Bold,
        parse_wiki_text::Node::Italic { .. } => Node::Italic,
        parse_wiki_text::Node::BoldItalic { .. } => Node::BoldItalic,
        parse_wiki_text::Node::Link { target, text, .. } => Node::Link {
            target: (*target).to_owned(),
            text: conv_nodes(text),
        },
        parse_wiki_text::Node::ExternalLink { nodes, .. } => Node::ExternalLink {
            nodes: conv_nodes(nodes),
        },
        parse_wiki_text::Node::Category { target, ordinal, .. } => Node::Category {
            target: (*target).to_owned(),
            ordinal: conv_nodes(ordinal),
        },
        parse_wiki_text::Node::HorizontalDivider { .. } => Node::HorizontalDivider,
        parse_wiki_text::Node::OrderedList { items, .. } => Node::OrderedList {
            items: conv_items(items),
        },
        parse_wiki_text::Node::UnorderedList { items, .. } => Node::UnorderedList {
            items: conv_items(items),
        },
        parse_wiki_text::Node::DefinitionList { items, .. } => Node::DefinitionList {
            items: conv_def_items(items),
        },
        parse_wiki_text::Node::ParagraphBreak { .. } => Node::ParagraphBreak,
        parse_wiki_text::Node::Preformatted { nodes, .. } => Node::Preformatted {
            nodes: conv_nodes(nodes),
        },
        parse_wiki_text::Node::Heading { level, nodes, .. } => Node::Heading {
            level: *level,
            nodes: conv_nodes(nodes),
        },
        parse_wiki_text::Node::Table { attributes, captions, rows, .. } => Node::Table {
            attributes: conv_nodes(attributes),
            captions: conv_captions(captions),
            rows: conv_rows(rows),
        },
        parse_wiki_text::Node::Template { name, parameters, .. } => Node::Template {
            name: conv_nodes(name),
            parameters: conv_params(parameters),
        },
        parse_wiki_text::Node::Comment { .. } => Node::Comment,
        _ => Node::Other,
    }
}

fn parse_to_nodes(wikitext: &str) -> Vec<Node> {
    conv_nodes(&Configuration::default().parse(wikitext).nodes)
}

#[test]
fn test_render() {
    let store = ArticleStore::new();
    let wikitext = "text";
    let result = Configuration::default().parse(wikitext);
    assert_eq!(render(&store, &conv_nodes(&result.nodes)), "<p>text</p>");

    let wikitext = "&lt;h3&lt;";
    let result = Configuration::default().parse(wikitext);
    assert_eq!(render(&store, &conv_nodes(&result.nodes)), "<p>&lt;h3&lt;</p>");
}

#[test]
fn test_render_bold_italic() {
    let store = ArticleStore::new();
    let wikitext = "'''''aaa'''''";
    let result = Configuration::default().parse(wikitext);
    assert!(result.warnings.is_empty());
    assert_eq!(render(&store, &conv_nodes(&result.nodes)), "<p><i><b>aaa</b></i></p>");
    let wikitext = "'''''asdf''bb'''";
    let result = Configuration::default().parse(wikitext);
    assert!(result.warnings.is_empty());
    assert_eq!(render(&store, &conv_nodes(&result.nodes)), "<p><i><b>asdf</b></i><b>bb</b></p>");
    let wikitext = "'''''asdf'''bb''";
    let result = Configuration::default().parse(wikitext);
    assert!(result.warnings.is_empty());
    assert_eq!(render(&store, &conv_nodes(&result.nodes)), "<p><i><b>asdf</b>bb</i></p>");
}

#[test]
fn test_render_heading() {
    let store = ArticleStore::new();
    let wikitext = "===asdf==";
    let result = Configuration::default().parse(wikitext);
    println!("{:#?}", result.warnings);
    assert_eq!(render(&store, &conv_nodes(&result.nodes)), "<h2>=asdf</h2>\n");
    let wikitext = "==asdf===";
    let result = Configuration::default().parse(wikitext);
    assert!(result.warnings.is_empty());
    assert_eq!(render(&store, &conv_nodes(&result.nodes)), "<h2>asdf=</h2>\n");
}

#[test]
fn test_render_hr() {
    let store = ArticleStore::new();
    let wikitext = "----";
    let result = Configuration::default().parse(wikitext);
    assert!(result.warnings.is_empty());
    assert_eq!(render(&store, &conv_nodes(&result.nodes)), "<hr>\n");

    let wikitext = "aa\n----\n";
    let result = Configuration::default().parse(wikitext);
    assert!(result.warnings.is_empty());
    assert_eq!(render(&store, &conv_nodes(&result.nodes)), "<p>aa\n</p><hr>\n");
}

#[test]
fn test_render_internal_link() {
    let store = ArticleStore::new();
    let wikitext = "[[aa]]";
    let result = Configuration::default().parse(wikitext);
    assert!(result.warnings.is_empty());
    assert_eq!(
        render(&store, &conv_nodes(&result.nodes)),
        r#"<p><a class="new" href="/edit/aa">aa</a></p>"#
    );

    let wikitext = "[[aa|bb]]";
    let result = Configuration::default().parse(wikitext);
    assert!(result.warnings.is_empty());
    assert_eq!(
        render(&store, &conv_nodes(&result.nodes)),
        r#"<p><a class="new" href="/edit/aa">bb</a></p>"#
    );

    let wikitext = "[[aa|'''bb''']]";
    let result = Configuration::default().parse(wikitext);
    assert!(result.warnings.is_empty());
    assert_eq!(
        render(&store, &conv_nodes(&result.nodes)),
        r#"<p><a class="new" href="/edit/aa"><b>bb</b></a></p>"#
    );
}

#[test]
fn test_render_external_link() {
    let store = ArticleStore::new();
    let wikitext = "[http://www.google.com]";
    let result = Configuration::default().parse(wikitext);
    assert!(result.warnings.is_empty());
    assert_eq!(
        render(&store, &conv_nodes(&result.nodes)),
        r#"<p><a target="_blank" rel="nofollow noreferrer noopener" class="external autonumber" href="http://www.google.com">[1]</a></p>"#
    );
    let wikitext = "[http://www.google.com a'''aa''']";
    let result = Configuration::default().parse(wikitext);
    assert!(result.warnings.is_empty());
    assert_eq!(
        render(&store, &conv_nodes(&result.nodes)),
        r#"<p><a target="_blank" rel="nofollow noreferrer noopener" class="external text" href="http://www.google.com">a<b>aa</b></a></p>"#
    );
    let wikitext = "[http://www.google.com][http://www.google.com]";
    let result = Configuration::default().parse(wikitext);
    assert!(result.warnings.is_empty());
    assert_eq!(
        render(&store, &conv_nodes(&result.nodes)),
        r#"<p><a target="_blank" rel="nofollow noreferrer noopener" class="external autonumber" href="http://www.google.com">[1]</a><a target="_blank" rel="nofollow noreferrer noopener" class="external autonumber" href="http://www.google.com">[2]</a></p>"#
    );
}

#[test]
fn test_render_category() {
    let store = ArticleStore::new();
    let wikitext = "[[category:asdf]]";
    let result = Configuration::default().parse(wikitext);
    assert!(result.warnings.is_empty());
    assert_eq!(render(&store, &conv_nodes(&result.nodes)), "");

    let wikitext = "[[category:asdf|asfd]]";
    let result = Configuration::default().parse(wikitext);
    assert!(result.warnings.is_empty());
    assert_eq!(render(&store, &conv_nodes(&result.nodes)), "");
}

#[test]
fn test_render_list() {
    let store = ArticleStore::new();
    let wikitext = "*a\n*b\n#c\n*d\n";
    let result = Configuration::default().parse(wikitext);
    assert_eq!(
        render(&store, &conv_nodes(&result.nodes)),
        "<ul><li>a</li>\n<li>b</li></ul>\n<ol><li>c</li></ol>\n<ul><li>d</li></ul>\n"
    );
}

#[test]
fn test_render_definition_list() {
    let store = ArticleStore::new();
    let wikitext = ";asdf\n:aa";
    let result = Configuration::default().parse(wikitext);
    assert_eq!(
        render(&store, &conv_nodes(&result.nodes)),
        "<dl><dt>asdf</dt>\n<dd>aa</dd></dl>\n"
    );
}

#[test]
fn test_render_paragraph_break() {
    let store = ArticleStore::new();
    let wikitext = "asdf\n\naaa";
    let result = Configuration::default().parse(wikitext);
    assert!(result.warnings.is_empty());
    assert_eq!(render(&store, &conv_nodes(&result.nodes)), "<p>asdf</p><p>aaa</p>");

    let wikitext = "a'''b\n\nc";
    let result = Configuration::default().parse(wikitext);
    assert!(result.warnings.is_empty());
    assert_eq!(render(&store, &conv_nodes(&result.nodes)), "<p>a<b>b</b></p><p>c</p>");
}

#[test]
fn test_render_preformatted() {
    let store = ArticleStore::new();
    let wikitext = " Start each line with a space.
 Text is '''preformatted''' and
 ''markups'' '''''can''''' be done.";
    let result = Configuration::default().parse(wikitext);
    assert!(result.warnings.is_empty());
    assert_eq!(
        render(&store, &conv_nodes(&result.nodes)),
        "<pre>Start each line with a space.
Text is <b>preformatted</b> and
<i>markups</i> <i><b>can</b></i> be done.
</pre>\n"
    );
}

#[test]
fn test_render_table() {
    let store = ArticleStore::new();
    let wikitext = "{|\n|A\n|B\n|}";
    let result = Configuration::default().parse(wikitext);
    assert_eq!(
        render(&store, &conv_nodes(&result.nodes)),
        "<table>\n<tbody><tr>\n<td>A\n</td>\n<td>B\n</td></tr></tbody></table>\n",
    );

    let wikitext = "{|\n!A\n!B\n|-\n|C\n|D\n|}";
    let result = Configuration::default().parse(wikitext);
    assert_eq!(
        render(&store, &conv_nodes(&result.nodes)),
        "<table>\n<tbody><tr>\n<th>A\n</th>\n<th>B\n</th></tr>\n<tr>\n<td>C\n</td>\n<td>D\n</td></tr></tbody></table>\n",
    );

    let wikitext = "{|\n| A\nasdf\n|}";
    let result = Configuration::default().parse(wikitext);
    assert_eq!(
        render(&store, &conv_nodes(&result.nodes)),
        "<table>\n<tbody><tr>\n<td>A\n<p>asdf\n</p>\n</td></tr></tbody></table>\n",
    );

    let wikitext = "{| class=\"t\"\n|- class=\"r\"\n| class=\"c\" | content\n|}";
    let result = Configuration::default().parse(wikitext);
    assert_eq!(
        render(&store, &conv_nodes(&result.nodes)),
        "<table class=\"t\">\n<tbody><tr class=\"r\">\n<td class=\"c\">content\n</td></tr></tbody></table>\n",
    );

    // free text must never be promoted to a live attribute
    let wikitext = "{| onclick=\"alert('xss')\"\n| a\n|}";
    let result = Configuration::default().parse(wikitext);
    assert_ne!(
        render(&store, &conv_nodes(&result.nodes)),
        "<table onclick=\"alert('xss')\">\n<tbody><tr>\n<td>a\n</td></tr></tbody></table>\n",
    );

    let wikitext = "{|
|+ c1
|+ c2
|-
| content
|}";
    let result = Configuration::default().parse(wikitext);
    assert_eq!(
        render(&store, &conv_nodes(&result.nodes)),
        "<table>
<caption>c1
</caption>
<caption>c2
</caption>
<tbody><tr>
<td>content
</td></tr></tbody></table>
",
    );
}

#[test]
fn test_render_template() {
    let mut store = ArticleStore::new();
    store.add("aa\nt".to_owned(), parse_to_nodes("(template)"));
    let wikitext = "AAA{{aa\nt}}BBB";
    let result = Configuration::default().parse(wikitext);
    assert_eq!(
        render(&store, &conv_nodes(&result.nodes)),
        "<p>AAA<p>(template)</p>BBB</p>",
    );
}
