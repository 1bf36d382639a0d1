//! The whole pipeline: document in, API groups out.

use qbittorrent_web_api_gen::md_parser::{MdContent, TokenTree, TokenTreeFactory};
use qbittorrent_web_api_gen::parser::method::Tables;
use qbittorrent_web_api_gen::parser::{parse_api_groups, ApiGroup};
use qbittorrent_web_api_gen::types::Type;
use qbittorrent_web_api_gen::ParseError;

#[test]
fn end_to_end_log_group() {
    // a group titled "Log (experimental)" with one method carrying one
    // optional boolean parameter and no return section
    let input = "# Front matter\nIgnored prose.\n# Authentication\nAll Authentication API methods are under \"auth\", e.g.: example\n# Log (experimental)\nAll Log API methods are under \"log\", e.g.: example\n## Get log\nName: `main`\n\n**Parameters:**\n\nParameter | Type | Description\n---|---|---\nnormal | bool | default: true\n";
    let groups = parse_api_groups(input).unwrap();
    assert_eq!(groups.len(), 2);
    assert_eq!(groups[0].name, "authentication");
    let log = &groups[1];
    assert_eq!(log.name, "log");
    assert_eq!(log.url, "log");
    assert_eq!(log.methods.len(), 1);
    let main = &log.methods[0];
    assert_eq!(main.name, "main");
    assert_eq!(main.url, "main");
    assert!(main.return_type.is_none());
    let params = main.parameters.as_ref().unwrap();
    assert_eq!(params.mandatory.len(), 0);
    assert_eq!(params.optional.len(), 1);
    let normal = &params.optional[0];
    assert!(matches!(normal, Type::Bool(_)));
    assert!(normal.is_optional());
    assert_eq!(normal.get_type_info().name, "normal");
}

#[test]
fn front_matter_and_versioning_are_dropped() {
    let input = "# Intro\nHello.\n# Authentication\nAll Authentication API methods are under \"auth\", e.g.: example\n# WebAPI versioning\nAll WebAPI versioning API methods are under \"version\", e.g.: example\n# Sync\nAll Sync API methods are under \"sync\", e.g.: example\n";
    let groups = parse_api_groups(input).unwrap();
    let names: Vec<&str> = groups.iter().map(|g| g.name.as_str()).collect();
    assert_eq!(names, vec!["authentication", "sync"]);
}

#[test]
fn group_without_url_sentence_is_a_structural_error() {
    let input = "# Authentication\nNo boilerplate sentence here.\n";
    let err = parse_api_groups(input).unwrap_err();
    assert_eq!(err, ParseError::MissingGroupUrl { group: "authentication".into() });
}

#[test]
fn unresolved_return_row_is_a_structural_error() {
    let input = "# Authentication\nAll Authentication API methods are under \"auth\", e.g.: example\n## M\nName: `m`\n\nThe response is a JSON object\n\nProperty | Type | Description\n---|---|---\nblob | raw | opaque data\n";
    let err = parse_api_groups(input).unwrap_err();
    assert_eq!(err, ParseError::UnresolvedReturnType { type_text: "raw".into() });
}

#[test]
fn untitled_group_node_is_a_structural_error() {
    let node = TokenTree {
        title: None,
        content: vec![MdContent::Text(
            "All Log API methods are under \"log\", e.g.: example".into(),
        )],
        children: Vec::new(),
        level: 1,
    };
    let err = ApiGroup::new(&node).unwrap_err();
    assert_eq!(err, ParseError::MissingGroupTitle);
}

#[test]
fn table_without_title_line_is_a_structural_error() {
    let input = "## M\nA | B\n---|---\nx | y\n";
    let tree = TokenTreeFactory::create(input).unwrap();
    let err = Tables::from(&tree.children[0]).unwrap_err();
    assert_eq!(err, ParseError::MissingTableTitle);
}

#[test]
fn group_description_joins_its_content() {
    let input = "# Authentication\nAll Authentication API methods are under \"auth\", e.g.: example\nSecond line.\n";
    let groups = parse_api_groups(input).unwrap();
    assert_eq!(
        groups[0].description,
        Some(
            "All Authentication API methods are under \"auth\", e.g.: example\nSecond line."
                .to_string(),
        )
    );
}

#[test]
fn group_url_requires_the_full_sentence() {
    let tree = TokenTreeFactory::create(
        "# G\nAll of the API methods are listed below, e.g. somewhere\n",
    )
    .unwrap();
    assert!(tree.children[0].get_group_url().is_none());

    let tree = TokenTreeFactory::create(
        "# G\nAll Torrent management API methods are under \"torrents\", e.g.: example\n",
    )
    .unwrap();
    assert_eq!(tree.children[0].get_group_url(), Some("torrents".to_string()));
}

#[test]
fn experimental_marker_is_stripped_from_group_names() {
    let tree = TokenTreeFactory::create("# Search plugins (experimental)\nBody.\n").unwrap();
    assert_eq!(tree.children[0].name(), Some("search_plugins".to_string()));
}
