use weave::declaration::{scan_declarations, DependencyDeclaration};
use weave::dependency::{ResolutionError, ResolvedDependency};
use weave::registry::{Registry, RegistryEntry};
use weave::resolver::{
    cache_directory_name, fallback_entries, is_builtin_name, library_directory, DepResolver, Fetch,
};

fn builtin(name: &str) -> ResolvedDependency {
    ResolvedDependency::Builtin(name.to_string())
}

fn library(name: &str) -> ResolvedDependency {
    ResolvedDependency::Library(name.to_string())
}

fn declaration(token: &str, line: usize) -> DependencyDeclaration {
    DependencyDeclaration { raw_token: token.to_string(), line_number: line }
}

#[test]
fn test_resolve_valid_deps() {
    let resolver = DepResolver::new("");
    // One declaration to a line: the two names resolve in the order of their lines.
    let code = "<std>\n<math>\n~x=5;";
    let result = resolver.resolve(code, "test.vel");
    assert_eq!(result.unwrap(), vec![builtin("std"), builtin("math")]);
    // A line is one declaration, whatever stands between its outer brackets.
    let code = "<std> <math>\n~x=5;";
    let result = resolver.resolve(code, "test.vel");
    assert_eq!(
        result,
        Err(ResolutionError::UnknownDependency {
            file: "test.vel".to_string(),
            token: "std> <math".to_string(),
            line: 1,
        })
    );
}

#[test]
fn test_resolve_unknown_dep() {
    let resolver = DepResolver::new("");
    let code = "<std> <unknown>";
    let result = resolver.resolve(code, "test.vel");
    assert!(result.is_err());
    let error = result.unwrap_err();
    assert!(matches!(error, ResolutionError::UnknownDependency { .. }));
    assert_eq!(error.line(), Some(1));
    let message = error.message();
    assert!(message.contains("Unknown dep '"));
    assert!(message.contains("unknown"));
    assert_eq!(message, "test.vel:1: Unknown dep 'std> <unknown'");
}

#[test]
fn unknown_name_on_its_own_line_is_reported_with_its_line() {
    let resolver = DepResolver::new("");
    let result = resolver.resolve("<std>\n<unknown>", "test.vel");
    let error = result.unwrap_err();
    assert_eq!(
        error,
        ResolutionError::UnknownDependency {
            file: "test.vel".to_string(),
            token: "unknown".to_string(),
            line: 2,
        }
    );
    assert!(error.message().contains("Unknown dep 'unknown'"));
}

#[test]
fn empty_declaration_is_its_own_error() {
    let resolver = DepResolver::new("");
    let error = resolver.resolve("<>", "main.vel").unwrap_err();
    assert_eq!(
        error,
        ResolutionError::EmptyDeclaration { file: "main.vel".to_string(), line: 1 }
    );
    assert!(!matches!(error, ResolutionError::UnknownDependency { .. }));
    assert_eq!(error.message(), "main.vel:1: Empty dep");
}

#[test]
fn empty_declaration_is_reported_at_its_line() {
    let resolver = DepResolver::new("");
    let error = resolver.resolve("<std>\n\n  <  >  \n<math>", "main.vel").unwrap_err();
    assert_eq!(
        error,
        ResolutionError::EmptyDeclaration { file: "main.vel".to_string(), line: 3 }
    );
    let error = resolver.resolve("x\n<<>>", "main.vel").unwrap_err();
    assert_eq!(error.line(), Some(2));
}

#[test]
fn resolve_returns_one_entry_per_declaration_line_in_order() {
    let resolver = DepResolver::new("mylib@v2 > https://example.org/mylib.git\n");
    let code = "// header\n<io>\nlet x = 1;\n  <mylib>  \n<local:lib/foo.vel>\n\n<https://example.org/pkg.tar.gz>\n<std>\n";
    let deps = resolver.resolve(code, "src/main.vel").unwrap();
    assert_eq!(
        deps,
        vec![
            builtin("io"),
            library("mylib"),
            ResolvedDependency::Local("lib/foo.vel".to_string()),
            ResolvedDependency::RemoteArchive("https://example.org/pkg.tar.gz".to_string()),
            builtin("std"),
        ]
    );
    assert_eq!(deps.len(), scan_declarations(code).len());
}

#[test]
fn resolve_of_text_without_declarations_is_empty() {
    let resolver = DepResolver::new("");
    assert_eq!(resolver.resolve("", "a.vel"), Ok(vec![]));
    assert_eq!(resolver.resolve("let x = 1;\n< not closed\nclosed only >\n", "a.vel"), Ok(vec![]));
}

#[test]
fn first_error_ends_resolution() {
    let resolver = DepResolver::new("");
    let error = resolver.resolve("<std>\n<nope>\n<>\n<math>", "a.vel").unwrap_err();
    assert_eq!(
        error,
        ResolutionError::UnknownDependency {
            file: "a.vel".to_string(),
            token: "nope".to_string(),
            line: 2,
        }
    );
    let error = resolver.resolve("<>\n<nope>", "a.vel").unwrap_err();
    assert_eq!(error, ResolutionError::EmptyDeclaration { file: "a.vel".to_string(), line: 1 });
}

#[test]
fn scan_finds_declarations_with_line_numbers() {
    let found = scan_declarations("<std>\r\nx = 1\r\n\t< math >\t\r\n<<io>>\n<a<b>\n<");
    assert_eq!(
        found,
        vec![
            declaration("std", 1),
            declaration("math", 3),
            declaration("io", 4),
            declaration("a<b", 5),
        ]
    );
}

#[test]
fn scan_strips_every_outer_bracket() {
    assert_eq!(scan_declarations("<<< x >>>"), vec![declaration("x", 1)]);
    assert_eq!(scan_declarations("<>"), vec![declaration("", 1)]);
    assert_eq!(scan_declarations("<<>>"), vec![declaration("", 1)]);
    assert_eq!(scan_declarations("< > >"), vec![declaration(">", 1)]);
    assert_eq!(scan_declarations(">"), vec![]);
    assert_eq!(scan_declarations("<"), vec![]);
    assert_eq!(scan_declarations("\n\n<a>"), vec![declaration("a", 3)]);
}

#[test]
fn scan_keeps_characters_beyond_ascii() {
    let found = scan_declarations("\u{e9}t\u{e9} \u{1f600}\n< local:\u{4e2d}\u{6587}/\u{e9}.vel >\n<\u{1f600}>");
    assert_eq!(
        found,
        vec![declaration("local:\u{4e2d}\u{6587}/\u{e9}.vel", 2), declaration("\u{1f600}", 3)]
    );
    let resolver = DepResolver::new("");
    assert_eq!(
        resolver.classify(&found[0], "f"),
        Ok(ResolvedDependency::Local("\u{4e2d}\u{6587}/\u{e9}.vel".to_string()))
    );
}

#[test]
fn scan_trims_unicode_white_space() {
    assert_eq!(scan_declarations("\u{3000}<\u{a0}std\u{2003}>\u{85}"), vec![declaration("std", 1)]);
}

#[test]
fn classify_takes_the_first_kind_that_fits() {
    let mut registry = Registry::new();
    registry.insert(RegistryEntry::unpinned("std", "https://example.org/std.git"));
    registry.insert(RegistryEntry::unpinned("local:thing", "https://example.org/thing.git"));
    registry.insert(RegistryEntry::unpinned("pkg.tar.gz", "https://example.org/pkg.git"));
    let resolver = DepResolver::with_registry(registry);
    assert_eq!(resolver.classify(&declaration("std", 1), "f"), Ok(builtin("std")));
    assert_eq!(resolver.classify(&declaration("local:thing", 1), "f"), Ok(library("local:thing")));
    assert_eq!(resolver.classify(&declaration("pkg.tar.gz", 1), "f"), Ok(library("pkg.tar.gz")));
    assert_eq!(
        resolver.classify(&declaration("local:x.tar.gz", 1), "f"),
        Ok(ResolvedDependency::Local("x.tar.gz".to_string()))
    );
    assert_eq!(
        resolver.classify(&declaration("local:", 1), "f"),
        Ok(ResolvedDependency::Local(String::new()))
    );
    assert_eq!(
        resolver.classify(&declaration(".tar.gz", 1), "f"),
        Ok(ResolvedDependency::RemoteArchive(".tar.gz".to_string()))
    );
    assert_eq!(
        resolver.classify(&declaration("tar.gz", 7), "f"),
        Err(ResolutionError::UnknownDependency {
            file: "f".to_string(),
            token: "tar.gz".to_string(),
            line: 7,
        })
    );
    assert_eq!(
        resolver.classify(&declaration("Local:x", 7), "f"),
        Err(ResolutionError::UnknownDependency {
            file: "f".to_string(),
            token: "Local:x".to_string(),
            line: 7,
        })
    );
    assert_eq!(
        resolver.classify(&declaration("", 9), "f"),
        Err(ResolutionError::EmptyDeclaration { file: "f".to_string(), line: 9 })
    );
}

#[test]
fn builtin_names_are_std_math_io() {
    assert!(is_builtin_name(&"std".to_string()));
    assert!(is_builtin_name(&"math".to_string()));
    assert!(is_builtin_name(&"io".to_string()));
    assert!(!is_builtin_name(&"Std".to_string()));
    assert!(!is_builtin_name(&"".to_string()));
    assert!(!is_builtin_name(&"stdio".to_string()));
}

#[test]
fn plan_lists_what_to_fetch_up_to_the_first_error() {
    let resolver = DepResolver::new("mylib@v2 > https://example.org/mylib.git\n");
    let plan = resolver.plan("<std>\n<mylib>\n<crux-lib>\n<local:a.vel>\n<x.tar.gz>\n<>\n<math>", "p/main.vel");
    assert_eq!(plan.file, "p/main.vel");
    assert_eq!(
        plan.dependencies,
        vec![
            builtin("std"),
            library("mylib"),
            library("crux-lib"),
            ResolvedDependency::Local("a.vel".to_string()),
            ResolvedDependency::RemoteArchive("x.tar.gz".to_string()),
        ]
    );
    assert_eq!(
        plan.fetches,
        vec![
            Fetch::Library {
                line: 2,
                name: "mylib".to_string(),
                url: "https://example.org/mylib.git".to_string(),
                version: Some("v2".to_string()),
            },
            Fetch::Library {
                line: 3,
                name: "crux-lib".to_string(),
                url: "https://github.com/Velvet-Lang/crux-lib.git".to_string(),
                version: None,
            },
            Fetch::Local { path: "a.vel".to_string() },
            Fetch::Archive { url: "x.tar.gz".to_string() },
        ]
    );
    assert_eq!(
        plan.error,
        Some(ResolutionError::EmptyDeclaration { file: "p/main.vel".to_string(), line: 6 })
    );
}

#[test]
fn resolve_file_reports_a_file_that_cannot_be_read() {
    let resolver = DepResolver::new("");
    let result = resolver.resolve_file("gone.vel", Err("No such file or directory".to_string()));
    let error = result.unwrap_err();
    assert_eq!(
        error,
        ResolutionError::ReadFailure {
            file: "gone.vel".to_string(),
            cause: "No such file or directory".to_string(),
        }
    );
    assert_eq!(error.line(), None);
    assert_eq!(error.message(), "Failed to read gone.vel: No such file or directory");
}

#[test]
fn resolve_file_resolves_what_was_read() {
    let resolver = DepResolver::new("");
    let result = resolver.resolve_file("ok.vel", Ok("<io>\n<silk-gui>\n".to_string()));
    assert_eq!(result, Ok(vec![builtin("io"), library("silk-gui")]));
}

#[test]
fn messages_give_file_line_and_what_happened() {
    let error = ResolutionError::EmptyDeclaration { file: "a/b.vel".to_string(), line: 120 };
    assert_eq!(error.message(), "a/b.vel:120: Empty dep");
    let error = ResolutionError::UnknownDependency {
        file: "b.vel".to_string(),
        token: "what".to_string(),
        line: 9,
    };
    assert_eq!(error.message(), "b.vel:9: Unknown dep 'what'");
    let error = ResolutionError::MaterializationFailed {
        file: "c.vel".to_string(),
        line: 10,
        name: "crux-lib".to_string(),
        cause: "exit status 128".to_string(),
    };
    assert_eq!(error.message(), "c.vel:10: Failed to materialize 'crux-lib': exit status 128");
    assert_eq!(error.line(), Some(10));
    let error = ResolutionError::EmptyDeclaration { file: String::new(), line: 0 };
    assert_eq!(error.message(), ":0: Empty dep");
    let error = ResolutionError::EmptyDeclaration { file: "f".to_string(), line: usize::MAX };
    assert_eq!(error.message(), format!("f:{}: Empty dep", usize::MAX));
}

#[test]
fn cache_directory_is_weave_library() {
    assert_eq!(cache_directory_name(), "weave-library");
}

#[test]
fn library_lies_under_the_cache_directory_by_name() {
    assert_eq!(library_directory("proj/weave-library", "crux-lib"), "proj/weave-library/crux-lib");
    assert_eq!(library_directory(cache_directory_name(), "a"), "weave-library/a");
}

#[test]
fn fallback_holds_five_libraries() {
    let fallback = fallback_entries();
    let names: Vec<&str> = fallback.iter().map(|e| e.name.as_str()).collect();
    assert_eq!(names, vec!["crich-cli", "silk-gui", "crux-lib", "nestdb-lib", "aegis-lib"]);
    for entry in &fallback {
        assert_eq!(entry.version, None);
        assert_eq!(entry.source_url, format!("https://github.com/Velvet-Lang/{}.git", entry.name));
    }
}
