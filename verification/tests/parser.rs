use leafpress::parser::{
    captures_from_raw, collect_captures, find_in_dir, find_in_dir_step, find_in_dirs, find_in_dirs_step, get_symbol,
    grammar_not_found, is_grammar_dir_name, select_language_symbol, Capture, CaptureError, IoKind, LoadError,
};
use leafpress::tree_sitter_config::{Grammar, Links, Metadata, TreeSitterConfig};

fn grammar(name: &str, path: Option<&str>) -> Grammar {
    Grammar {
        camelcase: None,
        class_name: None,
        content_regex: None,
        external_files: None,
        file_types: None,
        first_line_regex: None,
        highlights: None,
        injection_regex: None,
        injections: None,
        locals: None,
        name: name.to_string(),
        path: path.map(|p| p.to_string()),
        scope: format!("source.{name}"),
        tags: None,
        title: None,
    }
}

fn config(grammars: Vec<Grammar>) -> TreeSitterConfig {
    TreeSitterConfig {
        schema: None,
        bindings: None,
        grammars,
        metadata: Metadata {
            authors: None,
            description: None,
            license: None,
            links: Links { funding: None, repository: "https://example.org".to_string() },
            namespace: None,
            version: "0.1.0".to_string(),
        },
    }
}

#[test]
fn grammar_dir_names() {
    assert!(is_grammar_dir_name("tree-sitter-go"));
    assert!(is_grammar_dir_name("tree-sitter-"));
    assert!(!is_grammar_dir_name("tree_sitter_go"));
    assert!(!is_grammar_dir_name("go"));
    assert!(!is_grammar_dir_name("tree-sitte"));
}

#[test]
fn find_in_dir_first_match_with_path() {
    let entries = vec![
        Ok(("/g/tree-sitter-a".to_string(), config(vec![grammar("a", None)]))),
        Ok(("/g/tree-sitter-ts".to_string(), config(vec![grammar("typescript", Some("typescript")), grammar("tsx", Some("tsx"))]))),
        Ok(("/g/tree-sitter-tsx2".to_string(), config(vec![grammar("tsx", None)]))),
    ];
    let found = find_in_dir(entries, "tsx").unwrap();
    assert_eq!(found, Some("/g/tree-sitter-ts/tsx".to_string()));
}

#[test]
fn find_in_dir_without_path_and_missing() {
    let entries = vec![Ok(("/g/tree-sitter-a".to_string(), config(vec![grammar("a", None)])))];
    assert_eq!(find_in_dir(entries, "a").unwrap(), Some("/g/tree-sitter-a".to_string()));
    let entries = vec![Ok(("/g/tree-sitter-a".to_string(), config(vec![grammar("a", None)])))];
    assert_eq!(find_in_dir(entries, "b").unwrap(), None);
    assert_eq!(find_in_dir(Vec::new(), "b").unwrap(), None);
}

#[test]
fn find_in_dir_error_before_match() {
    let entries = vec![
        Ok(("/g/tree-sitter-a".to_string(), config(vec![grammar("a", None)]))),
        Err(LoadError::Io(IoKind::PermissionDenied, "unreadable".to_string())),
        Ok(("/g/tree-sitter-b".to_string(), config(vec![grammar("b", None)]))),
    ];
    match find_in_dir(entries, "b") {
        Err(LoadError::Io(kind, m)) => {
            assert_eq!(kind, IoKind::PermissionDenied);
            assert_eq!(m, "unreadable");
        }
        other => panic!("unexpected {:?}", other),
    }
    let entries = vec![
        Ok(("/g/tree-sitter-b".to_string(), config(vec![grammar("b", None)]))),
        Err(LoadError::Io(IoKind::PermissionDenied, "unreadable".to_string())),
    ];
    assert_eq!(find_in_dir(entries, "b").unwrap(), Some("/g/tree-sitter-b".to_string()));
}

#[test]
fn find_in_dirs_order_and_not_found() {
    let r = find_in_dirs(vec![Ok(None), Ok(Some("/x".to_string())), Ok(Some("/y".to_string()))], "go");
    assert_eq!(r.unwrap(), Some("/x".to_string()));
    let r = find_in_dirs(vec![Ok(None), Err(LoadError::InvalidInput("bad".to_string(), None)), Ok(Some("/y".to_string()))], "go");
    assert!(matches!(r, Err(LoadError::InvalidInput(ref m, None)) if m == "bad"));
    let r = find_in_dirs(vec![Ok(None), Ok(None)], "go");
    assert!(matches!(r, Err(LoadError::InvalidInput(ref m, Some(IoKind::NotFound))) if m == "grammar 'go' not found"));
    let r = find_in_dirs(Vec::new(), "rust");
    assert!(matches!(r, Err(LoadError::InvalidInput(ref m, Some(IoKind::NotFound))) if m == "grammar 'rust' not found"));
}

#[test]
fn language_symbol_shortest_first() {
    let names = vec![
        Some("main".to_string()),
        Some("tree_sitter_go_external_scanner_create".to_string()),
        None,
        Some("tree_sitter_go".to_string()),
        Some("tree_sitter_ab".to_string()),
        Some("xtree_sitter_".to_string()),
    ];
    assert_eq!(select_language_symbol(&names), Some("tree_sitter_go".to_string()));
    let names = vec![Some("ts_parser_new".to_string()), None];
    assert_eq!(select_language_symbol(&names), None);
    let names = vec![Some("tree_sitter_".to_string()), Some("tree_sitter_x".to_string())];
    assert_eq!(select_language_symbol(&names), Some("tree_sitter_".to_string()));
}

#[test]
fn get_symbol_rejects_non_object() {
    match get_symbol(b"this is not an object file") {
        Err(LoadError::InvalidInput(_, None)) => {}
        other => panic!("unexpected {:?}", other),
    }
}

#[test]
fn raw_captures_filtered_and_named() {
    let names = vec!["keyword".to_string(), "string".to_string()];
    let raw = [(0, 2, 0), (3, 3, 1), (4, 9, 1)];
    let caps = captures_from_raw(&raw, &names).unwrap();
    assert_eq!(
        caps,
        vec![
            Capture { start: 0, end: 2, group: "keyword".to_string() },
            Capture { start: 4, end: 9, group: "string".to_string() },
        ]
    );
    assert!(captures_from_raw(&[(0, 1, 2)], &names).is_none());
    assert_eq!(captures_from_raw(&[(5, 5, 7)], &names), Some(Vec::new()));
}

#[test]
fn go_source_captures() {
    let language: tree_sitter::Language = tree_sitter_go::LANGUAGE.into();
    let query = tree_sitter::Query::new(&language, tree_sitter_go::HIGHLIGHTS_QUERY).unwrap();
    let source = b"package main\n\nfunc main() {\n    return\n}\n";
    let caps = collect_captures(source, &language, &query).unwrap();
    assert!(!caps.is_empty());
    assert!(caps.iter().all(|c| c.start < c.end && c.end <= source.len()));
    assert!(caps.iter().any(|c| c.start == 0 && c.end == 7 && c.group.starts_with("keyword")));
    assert!(caps.iter().any(|c| &source[c.start..c.end] == b"return" && c.group.starts_with("keyword")));
}

#[test]
fn query_compilation() {
    let language: tree_sitter::Language = tree_sitter_go::LANGUAGE.into();
    assert!(leafpress::parser::compile_query(&language, "(identifier) @variable").is_ok());
    match leafpress::parser::compile_query(&language, "(no_such_node) @x") {
        Err(LoadError::InvalidInput(m, None)) => assert!(!m.is_empty()),
        other => panic!("unexpected {:?}", other.map(|_| ())),
    }
}

#[test]
fn go_captures_named_by_query() {
    let language: tree_sitter::Language = tree_sitter_go::LANGUAGE.into();
    let query = tree_sitter::Query::new(&language, "(identifier) @variable (package_identifier) @module").unwrap();
    let source = b"package main\n\nfunc f() { x := 1; _ = x }\n";
    let caps = collect_captures(source, &language, &query).unwrap();
    let named: Vec<(&[u8], &str)> = caps.iter().map(|c| (&source[c.start..c.end], c.group.as_str())).collect();
    assert_eq!(named[0], (&b"main"[..], "module"));
    assert!(named.contains(&(&b"x"[..], "variable")));
}

#[test]
fn dir_step_decides_per_entry() {
    let miss = Ok(("/g/tree-sitter-a".to_string(), config(vec![grammar("a", None)])));
    assert!(find_in_dir_step(miss, "b").is_none());
    let hit = Ok(("/g/tree-sitter-b".to_string(), config(vec![grammar("b", Some("sub")), grammar("b", None)])));
    assert!(matches!(find_in_dir_step(hit, "b"), Some(Ok(Some(ref p))) if p == "/g/tree-sitter-b/sub"));
    let err = Err(LoadError::Io(IoKind::NotADirectory, "not a directory".to_string()));
    match find_in_dir_step(err, "b") {
        Some(Err(LoadError::Io(IoKind::NotADirectory, m))) => assert_eq!(m, "not a directory"),
        other => panic!("unexpected {:?}", other),
    }
}

#[test]
fn dirs_step_stops_at_first_decision() {
    assert!(find_in_dirs_step(Ok(None)).is_none());
    assert!(matches!(find_in_dirs_step(Ok(Some("/x".to_string()))), Some(Ok(Some(ref p))) if p == "/x"));
    match find_in_dirs_step(Err(LoadError::InvalidInput("bad".to_string(), None))) {
        Some(Err(LoadError::InvalidInput(m, None))) => assert_eq!(m, "bad"),
        other => panic!("unexpected {:?}", other),
    }
}

#[test]
fn not_found_error_carries_kind() {
    match grammar_not_found("rust") {
        LoadError::InvalidInput(m, kind) => {
            assert_eq!(m, "grammar 'rust' not found");
            assert_eq!(kind, Some(IoKind::NotFound));
        }
        other => panic!("unexpected {:?}", other),
    }
}

#[test]
fn capture_error_messages() {
    assert_eq!(CaptureError::ParseFailed.message(), "failed to parse source");
}
