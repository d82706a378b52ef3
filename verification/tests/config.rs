use leafpress::config::{
    config_location, directories_value, highlights_query_path, library_symbol, parser_cache_dir, parser_directories,
    parser_library_path, ConfigError, DirectoriesValue, LibraryNameError,
};

#[test]
fn directories_from_config() {
    assert_eq!(parser_directories(&DirectoriesValue::Missing), Err(ConfigError::MissingDirectories));
    assert_eq!(parser_directories(&DirectoriesValue::NotArray), Err(ConfigError::NotAnArray));
    assert_eq!(parser_directories(&DirectoriesValue::Array(vec![])), Err(ConfigError::NoDirectories));
    assert_eq!(
        parser_directories(&DirectoriesValue::Array(vec![Some("/a".to_string()), None])),
        Err(ConfigError::NotAString)
    );
    assert_eq!(
        parser_directories(&DirectoriesValue::Array(vec![Some("/a".to_string()), Some("/b".to_string())])),
        Ok(vec!["/a".to_string(), "/b".to_string()])
    );
}

#[test]
fn config_file_location() {
    assert_eq!(config_location(Some("/etc/c.json".to_string()), Some("/x".to_string()), None), Some("/etc/c.json".to_string()));
    assert_eq!(config_location(None, Some("/x".to_string()), Some("/h".to_string())), Some("/x/tree-sitter/config.json".to_string()));
    assert_eq!(config_location(None, None, Some("/h".to_string())), Some("/h/.config/tree-sitter/config.json".to_string()));
    assert_eq!(config_location(None, None, None), None);
}

#[test]
fn cache_and_library_paths() {
    assert_eq!(parser_cache_dir(Some("/c".to_string()), Some("/h".to_string())), Some("/c/tree-sitter/lib".to_string()));
    assert_eq!(parser_cache_dir(None, Some("/h".to_string())), Some("/h/.cache/tree-sitter/lib".to_string()));
    assert_eq!(parser_cache_dir(None, None), None);
    assert_eq!(parser_library_path("/c/tree-sitter/lib", "go"), "/c/tree-sitter/lib/go.so");
    assert_eq!(highlights_query_path("/g/tree-sitter-go"), "/g/tree-sitter-go/queries/highlights.scm");
}

#[test]
fn library_symbols() {
    assert_eq!(library_symbol("go.so"), Ok("tree_sitter_go".to_string()));
    assert_eq!(library_symbol("c_sharp.so"), Ok("tree_sitter_c_sharp".to_string()));
    assert_eq!(library_symbol(".so"), Err(LibraryNameError::EmptyName));
    assert_eq!(library_symbol("go.dylib"), Err(LibraryNameError::NotSharedObject));
    assert_eq!(library_symbol("so"), Err(LibraryNameError::NotSharedObject));
}

#[test]
fn directories_from_json_text() {
    let dirs = |text: &str| parser_directories(&directories_value(text).unwrap());
    assert_eq!(dirs(r#"{"parser-directories": ["/a", "/b"]}"#), Ok(vec!["/a".to_string(), "/b".to_string()]));
    assert_eq!(dirs(r#"{"other": 1}"#), Err(ConfigError::MissingDirectories));
    assert_eq!(dirs(r#"{"parser-directories": "/a"}"#), Err(ConfigError::NotAnArray));
    assert_eq!(dirs(r#"{"parser-directories": []}"#), Err(ConfigError::NoDirectories));
    assert_eq!(dirs(r#"{"parser-directories": ["/a", 3]}"#), Err(ConfigError::NotAString));
    assert!(directories_value("{not json").is_err());
}

#[test]
fn error_messages() {
    assert_eq!(ConfigError::MissingDirectories.message(), "failed to retrieve 'parser-directories' value from config");
    assert_eq!(ConfigError::NotAnArray.message(), "\"parser-directories\" must be an array");
    assert_eq!(ConfigError::NoDirectories.message(), "\"parser-directories\" contains no directories");
    assert_eq!(ConfigError::NotAString.message(), "\"parser-directories\" must contain only strings");
    assert_eq!(LibraryNameError::NotSharedObject.message("go.dylib"), "invalid language library: go.dylib");
    assert_eq!(LibraryNameError::EmptyName.message(".so"), "invalid language library name");
}
