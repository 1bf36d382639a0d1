//! Tokenizer and tree builder behavior.

use qbittorrent_web_api_gen::md_parser::{MdContent, MdToken, TokenTreeFactory};
use qbittorrent_web_api_gen::ParseError;

#[test]
fn should_remove_surrounding_asterix() {
    // given
    let input = "\n# A\n**B**\n        ".trim_matches('\n').trim();

    // when
    let tree = TokenTreeFactory::create(input).unwrap();

    // then
    let first = tree.children.first().unwrap();
    let content = first.content.first().unwrap();
    assert_eq!(*content, MdContent::Asterisk("B".into()));
}

#[test]
fn should_remove_surrounding_asterisk() {
    let input = "\n# A\n**B**\n        ".trim_matches('\n').trim();
    let tree = TokenTreeFactory::create(input).unwrap();
    let first = tree.children.first().unwrap();
    assert_eq!(first.content.len(), 1);
    match &first.content[0] {
        MdContent::Asterisk(text) => assert_eq!(text, "B"),
        other => panic!("expected an emphasis item, found {:?}", other),
    }
}

#[test]
fn lib_should_remove_surrounding_hash() {
    // given
    let input = "\n# A #\n        ".trim_matches('\n').trim();

    // when
    let tree = TokenTreeFactory::create(input).unwrap();

    // then
    assert_eq!(tree.children.first().unwrap().title, Some("A".into()));
}

#[test]
fn token_tree_factory_should_remove_surrounding_hash() {
    let tree = TokenTreeFactory::create("## B ##").unwrap();
    let first = tree.children.first().unwrap();
    assert_eq!(first.title, Some("B".into()));
    assert_eq!(first.level, 2);
}

#[test]
fn lib_single_level() {
    // given
    let input = "\n# A\nFoo\n        ".trim_matches('\n').trim();

    // when
    let tree = TokenTreeFactory::create(input).unwrap();

    // then
    assert_eq!(tree.title, None);
    let first_child = tree.children.first().unwrap();
    assert_eq!(first_child.title, Some("A".into()));
}

#[test]
fn token_tree_factory_single_level() {
    let tree = TokenTreeFactory::create("# A\nFoo").unwrap();
    assert_eq!(tree.title, None);
    assert_eq!(tree.level, 0);
    assert_eq!(tree.children.len(), 1);
    let first = tree.children.first().unwrap();
    assert_eq!(first.title, Some("A".into()));
    assert_eq!(first.content, vec![MdContent::Text("Foo".into())]);
}

#[test]
fn lib_complex() {
    // given
    let input = "\n# A\nFoo\n## B\n# C\n## D\nBar\n        ".trim_matches('\n').trim();

    // when
    let tree = TokenTreeFactory::create(input).unwrap();

    // then
    assert_eq!(tree.title, None);
    assert_eq!(tree.children.len(), 2);

    let first = tree.children.get(0).unwrap();
    assert_eq!(first.title, Some("A".into()));
    assert_eq!(first.children.len(), 1);
    assert_eq!(first.children.first().unwrap().title, Some("B".into()));

    let second = tree.children.get(1).unwrap();
    assert_eq!(second.title, Some("C".into()));
    assert_eq!(second.children.len(), 1);
    assert_eq!(second.children.first().unwrap().title, Some("D".into()));
}

#[test]
fn token_tree_factory_complex() {
    // a header closes every open node of its own or a deeper level and
    // attaches to the nearest still-open shallower one
    let tree = TokenTreeFactory::create("# A\nFoo\n## B\n# C\n## D\nBar").unwrap();
    assert_eq!(tree.children.len(), 2);
    let a = &tree.children[0];
    assert_eq!(a.title, Some("A".into()));
    assert_eq!(a.content, vec![MdContent::Text("Foo".into())]);
    assert_eq!(a.children.len(), 1);
    assert_eq!(a.children[0].title, Some("B".into()));
    assert!(a.children[0].level > a.level);
    let c = &tree.children[1];
    assert_eq!(c.title, Some("C".into()));
    let d = &c.children[0];
    assert_eq!(d.title, Some("D".into()));
    assert_eq!(d.content, vec![MdContent::Text("Bar".into())]);
    assert!(d.level > c.level);
}

#[test]
fn log() {
    let input = "# Log\n\nAll Log API methods are under \"log\", e.g.: example\n\n## Get log\n\nName: `main`\n";
    let tree = TokenTreeFactory::create(input).unwrap();
    assert_eq!(tree.children.len(), 1);
    let group = &tree.children[0];
    assert_eq!(group.title, Some("Log".into()));
    assert_eq!(group.level, 1);
    assert_eq!(group.children.len(), 1);
    let method = &group.children[0];
    assert_eq!(method.title, Some("Get log".into()));
    assert_eq!(method.level, 2);
    assert!(method.content.contains(&MdContent::Text("Name: `main`".into())));
}

#[test]
fn multi_table() {
    let input = "# T\nFirst | Col\n---|---\na | b\n\nSecond | Col\n---|---\nc | d\ne | f\n";
    let tree = TokenTreeFactory::create(input).unwrap();
    let node = &tree.children[0];
    let tables: Vec<_> = node
        .content
        .iter()
        .filter_map(|c| match c {
            MdContent::Table(t) => Some(t),
            _ => None,
        })
        .collect();
    assert_eq!(tables.len(), 2);
    assert_eq!(tables[0].rows.len(), 1);
    assert_eq!(tables[0].rows[0].columns, vec!["a".to_string(), "b".to_string()]);
    assert_eq!(tables[1].rows.len(), 2);
    assert_eq!(tables[1].rows[1].columns, vec!["e".to_string(), "f".to_string()]);
}

#[test]
fn non_table_with_pipe() {
    // a lone pipe with no spacing around it does not open a table
    let input = "# T\nword|word\n";
    let tree = TokenTreeFactory::create(input).unwrap();
    let node = &tree.children[0];
    assert_eq!(node.content[0], MdContent::Text("word|word".into()));
}

#[test]
fn table_ends_at_first_non_pipe_line() {
    // given rows R1|R2, a separator, one data row and then a plain line,
    // the table holds exactly one data row and the plain line stays text
    let input = "R1 | R2\n---|---\nX | Y\nno pipe here\n";
    let tokens = MdToken::from(input).unwrap();
    assert_eq!(tokens.len(), 2);
    match &tokens[0] {
        MdToken::Content(MdContent::Table(t)) => {
            assert_eq!(t.header.columns, vec!["R1".to_string(), "R2".to_string()]);
            assert_eq!(t.split, "---|---");
            assert_eq!(t.rows.len(), 1);
            assert_eq!(t.rows[0].columns, vec!["X".to_string(), "Y".to_string()]);
        }
        other => panic!("expected a table, found {:?}", other),
    }
    match &tokens[1] {
        MdToken::Content(MdContent::Text(t)) => assert_eq!(t, "no pipe here"),
        other => panic!("expected a text line, found {:?}", other),
    }
}

#[test]
fn table_on_last_line_is_unterminated() {
    let err = MdToken::from("intro\na | b").unwrap_err();
    assert_eq!(err, ParseError::UnterminatedTable);
}

#[test]
fn scan_budget_is_a_structural_error() {
    let input = "x\n".repeat(10_001);
    let err = TokenTreeFactory::create(&input).unwrap_err();
    assert_eq!(err, ParseError::IterationLimit);
}

#[test]
fn table_renders_back_to_its_raw_lines() {
    let input = "A | B\n---|---\nc | d\n";
    let tokens = MdToken::from(input).unwrap();
    match &tokens[0] {
        MdToken::Content(content) => {
            assert_eq!(content.inner_value_as_string(), "A | B\n---|---\nc | d");
        }
        other => panic!("expected table content, found {:?}", other),
    }
}

#[test]
fn backticks_are_stripped_from_columns() {
    let tokens = MdToken::from("`name` | `type`\n---|---\n").unwrap();
    match &tokens[0] {
        MdToken::Content(MdContent::Table(t)) => {
            assert_eq!(t.header.columns, vec!["name".to_string(), "type".to_string()]);
            assert_eq!(t.header.raw, "`name` | `type`");
        }
        other => panic!("expected a table, found {:?}", other),
    }
}

#[test]
fn empty_document_builds_an_empty_root() {
    let tree = TokenTreeFactory::create("").unwrap();
    assert_eq!(tree.title, None);
    assert_eq!(tree.level, 0);
    assert!(tree.content.is_empty());
    assert!(tree.children.is_empty());
}

#[test]
fn content_before_any_header_belongs_to_the_root() {
    let tree = TokenTreeFactory::create("plain prose
# A
").unwrap();
    assert_eq!(tree.content, vec![MdContent::Text("plain prose".into())]);
    assert_eq!(tree.children.len(), 1);
}
