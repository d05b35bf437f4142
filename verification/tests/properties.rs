//! Scenario tests for the renderer's stated behaviour: the side channels,
//! the store branching, encoding, validation and recursion limits.

use parse_wiki_text::Configuration;
use wikirender::ast::{DefinitionListItem, DefinitionListItemType, ListItem, Node, TableCaption,
    TableCell, TableCellType, TableRow, TemplateParameter};
use wikirender::permission::effective_permission;
use wikirender::renderer::{render, render_nodes, MAX_TRANSCLUSION_DEPTH};
use wikirender::api::{ArticleCreateRequest, ArticleDeleteRequest, ArticleEditRequest,
    ArticleRenameRequest};
use wikirender::state::State;
use wikirender::store::ArticleStore;

fn conv_nodes(nodes: &[parse_wiki_text::Node]) -> Vec<Node> {
    nodes.iter().map(conv_node).collect()
}

fn conv_items(items: &[parse_wiki_text::ListItem]) -> Vec<ListItem> {
    items.iter().map(|i| ListItem { nodes: conv_nodes(&i.nodes) }).collect()
}

fn conv_def_items(items: &[parse_wiki_text::DefinitionListItem]) -> Vec<DefinitionListItem> {
    items
        .iter()
        .map(|i| DefinitionListItem {
            type_: match i.type_ {
                parse_wiki_text::DefinitionListItemType::Term => DefinitionListItemType::Term,
                parse_wiki_text::DefinitionListItemType::Details => DefinitionListItemType::Details,
            },
            nodes: conv_nodes(&i.nodes),
        })
        .collect()
}

fn conv_captions(captions: &[parse_wiki_text::TableCaption]) -> Vec<TableCaption> {
    captions
        .iter()
        .map(|c| TableCaption {
            attributes: c.attributes.as_ref().map(|a| conv_nodes(a)),
            content: conv_nodes(&c.content),
        })
        .collect()
}

fn conv_rows(rows: &[parse_wiki_text::TableRow]) -> Vec<TableRow> {
    rows.iter()
        .map(|r| TableRow {
            attributes: conv_nodes(&r.attributes),
            cells: r
                .cells
                .iter()
                .map(|c| TableCell {
                    attributes: c.attributes.as_ref().map(|a| conv_nodes(a)),
                    content: conv_nodes(&c.content),
                    type_: match c.type_ {
                        parse_wiki_text::TableCellType::Heading => TableCellType::Heading,
                        parse_wiki_text::TableCellType::Ordinary => TableCellType::Ordinary,
                    },
                })
                .collect(),
        })
        .collect()
}

fn conv_params(params: &[parse_wiki_text::Parameter]) -> Vec<TemplateParameter> {
    params
        .iter()
        .map(|p| TemplateParameter {
            name: p.name.as_ref().map(|n| conv_nodes(n)),
            value: conv_nodes(&p.value),
        })
        .collect()
}

fn conv_node(node: &parse_wiki_text::Node) -> Node {
    match node {
        parse_wiki_text::Node::Text { value, .. } => Node::Text { value: (*value).to_owned() },
        parse_wiki_text::Node::CharacterEntity { character, .. } => Node::CharacterEntity {
            character: *character,
        },
        parse_wiki_text::Node::Bold { .. } => Node::Bold,
        parse_wiki_text::Node::Italic { .. } => Node::Italic,
        parse_wiki_text::Node::BoldItalic { .. } => Node::BoldItalic,
        parse_wiki_text::Node::Link { target, text, .. } => Node::Link {
            target: (*target).to_owned(),
            text: conv_nodes(text),
        },
        parse_wiki_text::Node::ExternalLink { nodes, .. } => Node::ExternalLink {
            nodes: conv_nodes(nodes),
        },
        parse_wiki_text::Node::Category { target, ordinal, .. } => Node::Category {
            target: (*target).to_owned(),
            ordinal: conv_nodes(ordinal),
        },
        parse_wiki_text::Node::HorizontalDivider { .. } => Node::HorizontalDivider,
        parse_wiki_text::Node::OrderedList { items, .. } => Node::OrderedList {
            items: conv_items(items),
        },
        parse_wiki_text::Node::UnorderedList { items, .. } => Node::UnorderedList {
            items: conv_items(items),
        },
        parse_wiki_text::Node::DefinitionList { items, .. } => Node::DefinitionList {
            items: conv_def_items(items),
        },
        parse_wiki_text::Node::ParagraphBreak { .. } => Node::ParagraphBreak,
        parse_wiki_text::Node::Preformatted { nodes, .. } => Node::Preformatted {
            nodes: conv_nodes(nodes),
        },
        parse_wiki_text::Node::Heading { level, nodes, .. } => Node::Heading {
            level: *level,
            nodes: conv_nodes(nodes),
        },
        parse_wiki_text::Node::Table { attributes, captions, rows, .. } => Node::Table {
            attributes: conv_nodes(attributes),
            captions: conv_captions(captions),
            rows: conv_rows(rows),
        },
        parse_wiki_text::Node::Template { name, parameters, .. } => Node::Template {
            name: conv_nodes(name),
            parameters: conv_params(parameters),
        },
        parse_wiki_text::Node::Comment { .. } => Node::Comment,
        _ => Node::Other,
    }
}

fn parse_to_nodes(wikitext: &str) -> Vec<Node> {
    conv_nodes(&Configuration::default().parse(wikitext).nodes)
}

#[test]
fn empty_document_renders_to_nothing() {
    let store = ArticleStore::new();
    assert_eq!(render(&store, &parse_to_nodes("")), "");
}

#[test]
fn autonumber_counter_resets_between_renders() {
    let store = ArticleStore::new();
    let nodes = parse_to_nodes("[http://example.com]");
    let first = render(&store, &nodes);
    let second = render(&store, &nodes);
    assert!(first.contains("[1]"));
    assert_eq!(first, second);
    let two = parse_to_nodes("[http://a.example][http://b.example]");
    let html = render(&store, &two);
    assert!(html.contains(">[1]</a>"));
    assert!(html.contains(">[2]</a>"));
}

#[test]
fn internal_link_branches_on_existence() {
    let mut store = ArticleStore::new();
    let nodes = parse_to_nodes("[[aa]]");
    let missing = render(&store, &nodes);
    assert!(missing.contains("class=\"new\""));
    assert!(missing.contains("href=\"/edit/aa\""));
    store.add("aa".to_owned(), parse_to_nodes("hello"));
    let existing = render(&store, &nodes);
    assert!(!existing.contains("class=\"new\""));
    assert!(existing.contains("href=\"/wiki/aa\""));
}

#[test]
fn link_target_is_percent_encoded() {
    let store = ArticleStore::new();
    let html = render(&store, &parse_to_nodes("[[a b]]"));
    assert!(html.contains("href=\"/edit/a%20b\""));
}

#[test]
fn table_attributes_come_from_their_own_channel() {
    let store = ArticleStore::new();
    let html = render(&store, &parse_to_nodes("{| onclick=\"alert('xss')\"\n| a\n|}"));
    assert!(!html.contains("<table onclick"));
}

#[test]
fn template_found_splices_rendered_article() {
    let mut store = ArticleStore::new();
    store.add("t".to_owned(), parse_to_nodes("content"));
    let html = render(&store, &parse_to_nodes("{{t}}"));
    assert_eq!(html, "<p><p>content</p></p>");
}

#[test]
fn template_missing_leaves_placeholder() {
    let store = ArticleStore::new();
    let html = render(&store, &parse_to_nodes("{{t2}}"));
    assert_eq!(html, "<p>{t2}</p>");
}

#[test]
fn self_referential_template_terminates() {
    let mut store = ArticleStore::new();
    store.add("r".to_owned(), parse_to_nodes("{{r}}"));
    assert!(MAX_TRANSCLUSION_DEPTH > 0);
    let html = render(&store, &parse_to_nodes("{{r}}"));
    assert!(html.contains("Error"));
}

#[test]
fn category_accumulates_in_side_channel() {
    let store = ArticleStore::new();
    let mut state = State::new();
    let nodes = parse_to_nodes("[[category:foo|bar]]");
    let html = render_nodes(&nodes, &store, &mut state, MAX_TRANSCLUSION_DEPTH);
    assert_eq!(html, "");
    assert_eq!(state.categories.len(), 1);
    assert_eq!(state.categories[0].target, "category:foo");
    assert_eq!(state.categories[0].ordinal, "bar");
}

#[test]
fn internal_links_accumulate_in_side_channel() {
    let store = ArticleStore::new();
    let mut state = State::new();
    let nodes = parse_to_nodes("[[aa]] and [[bb]]");
    render_nodes(&nodes, &store, &mut state, MAX_TRANSCLUSION_DEPTH);
    assert_eq!(state.internal_links, vec!["aa".to_owned(), "bb".to_owned()]);
}

#[test]
fn character_entity_is_escaped_on_output() {
    let store = ArticleStore::new();
    let html = render(&store, &parse_to_nodes("&amp;"));
    assert_eq!(html, "<p>&amp;</p>");
}

#[test]
fn store_first_entry_shadows_later_ones() {
    let mut store = ArticleStore::new();
    store.add("t".to_owned(), parse_to_nodes("first"));
    store.add("t".to_owned(), parse_to_nodes("second"));
    let html = render(&store, &parse_to_nodes("{{t}}"));
    assert_eq!(html, "<p><p>first</p></p>");
}

#[test]
fn create_request_validation() {
    let ok = ArticleCreateRequest {
        full_title: "title".to_owned(),
        wikitext: "==AA==\nasdf".to_owned(),
        comment: "Comment!".to_owned(),
    };
    assert!(ok.validate());
    let empty_title = ArticleCreateRequest {
        full_title: String::new(),
        wikitext: String::new(),
        comment: String::new(),
    };
    assert!(!empty_title.validate());
    let long_title = ArticleCreateRequest {
        full_title: "x".repeat(301),
        wikitext: String::new(),
        comment: String::new(),
    };
    assert!(!long_title.validate());
}

#[test]
fn edit_rename_delete_request_validation() {
    let edit = ArticleEditRequest { wikitext: "w".to_owned(), comment: "c".to_owned() };
    assert!(edit.validate());
    let edit_long = ArticleEditRequest { wikitext: String::new(), comment: "c".repeat(1001) };
    assert!(!edit_long.validate());
    let rename = ArticleRenameRequest { full_title: "t".to_owned(), comment: String::new() };
    assert!(rename.validate());
    let rename_bad = ArticleRenameRequest { full_title: String::new(), comment: String::new() };
    assert!(!rename_bad.validate());
    let delete = ArticleDeleteRequest { comment: String::new() };
    assert!(delete.validate());
    let delete_bad = ArticleDeleteRequest { comment: "c".repeat(1001) };
    assert!(!delete_bad.validate());
}

#[test]
fn effective_permission_prefers_specific_setting() {
    assert_eq!(effective_permission(Some(false), true), false);
    assert_eq!(effective_permission(Some(true), false), true);
    assert_eq!(effective_permission(None, true), true);
    assert_eq!(effective_permission(None, false), false);
}

#[test]
fn heading_markers_resolve_to_shorter_side() {
    assert_eq!(wikirender::headings::render("=x="), "<h1>x</h1>");
    assert_eq!(wikirender::headings::render("======x======"), "<h6>x</h6>");
    assert_eq!(wikirender::headings::render("===a=="), "<h2>=a</h2>");
}

#[test]
fn full_title_splits_at_first_colon() {
    assert_eq!(
        wikirender::namespace::split_full_title("Test:test"),
        Some(("Test".to_owned(), "test".to_owned()))
    );
    assert_eq!(
        wikirender::namespace::split_full_title("  Talk : a:b  "),
        Some(("Talk".to_owned(), "a:b".to_owned()))
    );
    assert_eq!(wikirender::namespace::split_full_title("plain"), None);
    assert_eq!(wikirender::namespace::join_full_title("Test", "test"), "Test:test");
}

#[test]
fn autonumber_reaches_two_digits() {
    let store = ArticleStore::new();
    let mut wikitext = String::new();
    let mut i = 0;
    while i < 11 {
        wikitext.push_str("[http://example.com]");
        i += 1;
    }
    let html = render(&store, &parse_to_nodes(&wikitext));
    assert!(html.contains(">[10]</a>"));
    assert!(html.contains(">[11]</a>"));
}

#[test]
fn row_and_cell_attributes_are_validated_too() {
    let store = ArticleStore::new();
    let row = render(&store, &parse_to_nodes("{|\n|- onclick=\"alert('xss')\"\n| a\n|}"));
    assert!(!row.contains("onclick"));
    let cell = render(&store, &parse_to_nodes("{|\n| onclick=\"alert('xss')\" | a\n|}"));
    assert!(!cell.contains("onclick"));
}

#[test]
fn benign_attribute_lists_pass_validation() {
    let store = ArticleStore::new();
    let html = render(&store, &parse_to_nodes("{| class=\"t\" id=\"x\"\n| a\n|}"));
    assert!(html.contains("<table class=\"t\" id=\"x\">"));
}

#[test]
fn external_link_without_text_child_leaves_diagnostic() {
    let store = ArticleStore::new();
    let nodes = vec![Node::ExternalLink { nodes: vec![Node::Bold] }];
    let html = render(&store, &nodes);
    assert_eq!(html, "<p><code>External link does not starts with text node</code></p>");
    let empty = vec![Node::ExternalLink { nodes: Vec::new() }];
    let html = render(&store, &empty);
    assert_eq!(html, "<p><code>External link does not starts with text node</code></p>");
}
