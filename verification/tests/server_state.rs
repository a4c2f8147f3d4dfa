use php_mago::config::{mago_config_files, project_markers, select_config, select_project_root};
use php_mago::json::JsonValue;
use php_mago::report::{Diagnostic, Position, Range, Severity};
use php_mago::server::{
    is_config_path, AnalysisOutcome, DiagnosticReport, DiagnosticStep, InitializationOptions, MagoLanguageServer,
    MagoSettings,
};

const URI: &str = "file:///project/src/a.php";
const PATH: &str = "/project/src/a.php";

fn diag(message: &str) -> Diagnostic {
    Diagnostic {
        range: Range { start: Position { line: 0, character: 0 }, end: Position { line: 0, character: 1 } },
        severity: Severity::Warning,
        code: Some("c".to_string()),
        source: "mago".to_string(),
        message: message.to_string(),
    }
}

fn analyze(server: &mut MagoLanguageServer, prev: Option<String>) -> DiagnosticStep {
    server.diagnostic(URI, Some(PATH.to_string()), prev)
}

#[test]
fn checksum_is_sha256_hex() {
    let mut s = MagoLanguageServer::new();
    let doc = s.compress_document("hello");
    assert_eq!(doc.checksum(), "2cf24dba5fb0a30e26e83b2ac5b9e29e1b161e5c1fa7425e73043362938b9824");
    assert_eq!(doc.original_size(), 5);
    assert_eq!(s.memory_usage(), doc.compressed_len());
}

#[test]
fn stored_text_reads_back() {
    let mut s = MagoLanguageServer::new();
    let text = "<?php\n// ünïcode ✓\necho 'x';\n".repeat(50);
    let doc = s.compress_document(&text);
    assert!(doc.compressed_len() < text.len());
    assert_eq!(s.decompress_document(&doc).unwrap(), text);
}

#[test]
fn memory_is_the_total_of_compressed_sizes() {
    let mut s = MagoLanguageServer::new();
    let a = "<?php\necho 'a';\n".repeat(20);
    let b = "<?php\necho 'b';\n";
    let other = "file:///project/src/b.php";
    s.did_open(URI, &a);
    s.did_open(other, b);
    let size_a = MagoLanguageServer::new().compress_document(&a).compressed_len();
    let size_b = MagoLanguageServer::new().compress_document(b).compressed_len();
    assert_eq!(s.memory_usage(), size_a + size_b);
    let c = "<?php\n";
    s.did_change(URI, Some(c));
    let size_c = MagoLanguageServer::new().compress_document(c).compressed_len();
    assert_eq!(s.memory_usage(), size_c + size_b);
    assert_eq!(s.did_close(other), Some(size_b));
    assert_eq!(s.memory_usage(), size_c);
    assert_eq!(s.did_close(URI), Some(size_c));
    assert_eq!(s.memory_usage(), 0);
}

#[test]
fn opened_text_reads_back_through_diagnostic() {
    let mut s = MagoLanguageServer::new();
    let text = "<?php\n$a = \"ü\";\n";
    s.did_open(URI, text);
    match analyze(&mut s, None) {
        DiagnosticStep::Analyze { content, .. } => assert_eq!(content, text),
        _ => panic!("expected an analysis"),
    }
}

#[test]
fn diagnostic_flow_uses_cache_until_change() {
    let mut s = MagoLanguageServer::new();
    s.did_open(URI, "<?php echo 1;");
    let version = match analyze(&mut s, None) {
        DiagnosticStep::Analyze { path, content, version_id } => {
            assert_eq!(path, PATH);
            assert_eq!(content, "<?php echo 1;");
            version_id
        },
        _ => panic!("expected an analysis"),
    };
    let outcome = AnalysisOutcome::Finished { lint: Some(vec![diag("lint")]), analyze: Some(vec![diag("analyze")]) };
    let (report, cleanup) = s.diagnostic_finish(URI, version.clone(), outcome);
    assert!(cleanup);
    assert_eq!(version, MagoLanguageServer::new().compress_document("<?php echo 1;").checksum());
    match report {
        DiagnosticReport::Full { result_id, items } => {
            assert_eq!(result_id, Some(version.clone()));
            assert_eq!(items, vec![diag("lint"), diag("analyze")]);
        },
        _ => panic!("expected a full report"),
    }
    assert_eq!(s.cached_count(), 1);
    match analyze(&mut s, Some(version.clone())) {
        DiagnosticStep::Done(DiagnosticReport::Unchanged { result_id }) => assert_eq!(result_id, version),
        _ => panic!("expected unchanged"),
    }
    match analyze(&mut s, Some("other".to_string())) {
        DiagnosticStep::Done(DiagnosticReport::Full { result_id, items }) => {
            assert_eq!(result_id, Some(version.clone()));
            assert_eq!(items.len(), 2);
        },
        _ => panic!("expected cached diagnostics"),
    }
    s.did_change(URI, Some("<?php echo 2;"));
    assert_eq!(s.cached_count(), 0);
    match analyze(&mut s, Some(version.clone())) {
        DiagnosticStep::Analyze { content, version_id, .. } => {
            assert_eq!(content, "<?php echo 2;");
            assert_ne!(version_id, version);
        },
        _ => panic!("expected a new analysis"),
    }
}

#[test]
fn failed_run_gives_empty_report_and_cleanup() {
    let mut s = MagoLanguageServer::new();
    s.did_open(URI, "<?php");
    let outcome = AnalysisOutcome::Finished { lint: Some(vec![diag("lint")]), analyze: None };
    let (report, cleanup) = s.diagnostic_finish(URI, "v".to_string(), outcome);
    assert!(cleanup);
    assert!(matches!(report, DiagnosticReport::Full { result_id: None, ref items } if items.is_empty()));
    assert_eq!(s.cached_count(), 0);
    let (report, cleanup) = s.diagnostic_finish(URI, "v".to_string(), AnalysisOutcome::TempFileFailed);
    assert!(!cleanup);
    assert!(matches!(report, DiagnosticReport::Full { result_id: None, .. }));
}

#[test]
fn finish_without_document_caches_unknown_checksum() {
    let mut s = MagoLanguageServer::new();
    let outcome = AnalysisOutcome::Finished { lint: Some(vec![]), analyze: Some(vec![]) };
    let _ = s.diagnostic_finish(URI, "v".to_string(), outcome);
    assert_eq!(s.cached_count(), 1);
    s.did_open(URI, "<?php");
    assert_eq!(s.cached_count(), 0);
}

#[test]
fn stale_cache_entry_is_dropped() {
    let mut s = MagoLanguageServer::new();
    let outcome = AnalysisOutcome::Finished { lint: Some(vec![]), analyze: Some(vec![]) };
    let _ = s.diagnostic_finish(URI, "v".to_string(), outcome);
    match analyze(&mut s, Some("v".to_string())) {
        DiagnosticStep::ReadFromDisk { path } => assert_eq!(path, PATH),
        _ => panic!("expected a disk read"),
    }
    assert_eq!(s.cached_count(), 0);
}

#[test]
fn document_not_held_is_read_from_disk() {
    let mut s = MagoLanguageServer::new();
    let path = match analyze(&mut s, None) {
        DiagnosticStep::ReadFromDisk { path } => path,
        _ => panic!("expected a disk read"),
    };
    match s.diagnostic_with_disk_content(URI, path.clone(), None) {
        DiagnosticStep::Done(DiagnosticReport::Full { result_id: None, items }) => assert!(items.is_empty()),
        _ => panic!("expected the empty report"),
    }
    assert_eq!(s.document_count(), 0);
    match s.diagnostic_with_disk_content(URI, path, Some("<?php from disk".to_string())) {
        DiagnosticStep::Analyze { content, .. } => assert_eq!(content, "<?php from disk"),
        _ => panic!("expected an analysis"),
    }
    assert_eq!(s.document_count(), 1);
    assert!(s.memory_usage() > 0);
}

#[test]
fn empty_document_or_no_path_gives_empty_report() {
    let mut s = MagoLanguageServer::new();
    s.did_open(URI, "");
    assert!(matches!(analyze(&mut s, None), DiagnosticStep::Done(DiagnosticReport::Full { result_id: None, .. })));
    assert!(matches!(
        s.diagnostic(URI, None, None),
        DiagnosticStep::Done(DiagnosticReport::Full { result_id: None, .. })
    ));
}

#[test]
fn open_then_close_restores_memory() {
    let mut s = MagoLanguageServer::new();
    s.did_open("file:///other.php", "<?php other");
    let before = s.memory_usage();
    s.did_open(URI, "<?php echo 'hello';");
    assert!(s.memory_usage() > before);
    let freed = s.did_close(URI);
    assert!(freed.is_some());
    assert_eq!(s.memory_usage(), before);
    assert_eq!(s.document_count(), 1);
    assert_eq!(s.did_close(URI), None);
}

#[test]
fn change_replaces_counted_memory() {
    let mut s = MagoLanguageServer::new();
    s.did_open(URI, "<?php a");
    s.did_change(URI, Some("<?php bb"));
    let doc_len = s.memory_usage();
    s.did_close(URI);
    assert_eq!(s.memory_usage(), 0);
    assert!(doc_len > 0);
    s.did_change(URI, None);
    assert_eq!(s.document_count(), 0);
}

#[test]
fn shutdown_forgets_everything() {
    let mut s = MagoLanguageServer::new();
    s.did_open(URI, "<?php");
    let _ = s.diagnostic_finish(URI, "v".to_string(), AnalysisOutcome::Finished { lint: Some(vec![]), analyze: Some(vec![]) });
    s.shutdown();
    assert_eq!(s.document_count(), 0);
    assert_eq!(s.cached_count(), 0);
    assert_eq!(s.memory_usage(), 0);
}

#[test]
fn mago_path_is_cached_and_cleared() {
    let mut s = MagoLanguageServer::new();
    assert_eq!(s.get_mago_path(), "mago");
    assert_eq!(s.get_mago_path(), "mago");
    s.did_change_workspace_folders();
    assert_eq!(s.get_mago_path(), "mago");
}

#[test]
fn configuration_precedence() {
    let mut s = MagoLanguageServer::new();
    let settings = JsonValue::Object(vec![
        ("mago".to_string(), JsonValue::Object(vec![("rulesets".to_string(), JsonValue::String("from-mago".to_string()))])),
    ]);
    s.did_change_configuration(&settings, Some(MagoSettings { rulesets: Some("from-mago".to_string()) }));
    assert_eq!(s.rulesets(), Some("from-mago"));
    let settings = JsonValue::Object(vec![
        ("mago".to_string(), JsonValue::Object(vec![])),
        ("rulesets".to_string(), JsonValue::String("direct".to_string())),
    ]);
    s.did_change_configuration(&settings, Some(MagoSettings { rulesets: Some("ignored".to_string()) }));
    assert_eq!(s.rulesets(), Some("direct"));
    s.did_change_configuration(&JsonValue::Null, None);
    assert_eq!(s.rulesets(), Some("direct"));
    let settings = JsonValue::Object(vec![]);
    s.did_change_configuration(&settings, Some(MagoSettings { rulesets: Some("no-mago-entry".to_string()) }));
    assert_eq!(s.rulesets(), Some("direct"));
}

#[test]
fn configuration_change_clears_cache() {
    let mut s = MagoLanguageServer::new();
    let _ = s.diagnostic_finish(URI, "v".to_string(), AnalysisOutcome::Finished { lint: Some(vec![]), analyze: Some(vec![]) });
    assert_eq!(s.cached_count(), 1);
    s.did_change_configuration(&JsonValue::Null, None);
    assert_eq!(s.cached_count(), 0);
}

#[test]
fn initialize_takes_given_rulesets() {
    let mut s = MagoLanguageServer::new();
    assert!(s.initialize(None));
    assert!(s.initialize(Some(InitializationOptions { rulesets: None })));
    assert!(s.needs_ruleset_discovery());
    assert!(!s.initialize(Some(InitializationOptions { rulesets: Some("strict".to_string()) })));
    assert_eq!(s.rulesets(), Some("strict"));
    assert!(!s.needs_ruleset_discovery());
}

#[test]
fn discovery_takes_first_existing_config() {
    let mut s = MagoLanguageServer::new();
    s.discover_rulesets(None);
    assert_eq!(s.rulesets(), None);
    s.discover_rulesets(Some(&vec![None, None, None]));
    assert_eq!(s.rulesets(), None);
    s.discover_rulesets(Some(&vec![None, Some("/p/mago.yaml".to_string()), Some("/p/mago.json".to_string())]));
    assert_eq!(s.rulesets(), Some("/p/mago.yaml"));
    assert_eq!(mago_config_files(), vec!["mago.toml", "mago.yaml", "mago.json"]);
    assert_eq!(select_config(&vec![Some("a".to_string()), Some("b".to_string())]), Some("a".to_string()));
}

#[test]
fn reporter_arguments() {
    let mut s = MagoLanguageServer::new();
    assert_eq!(
        s.mago_args("lint", PATH),
        vec!["lint", "--reporting-format", "json", "--stdin-input", PATH]
    );
    s.initialize(Some(InitializationOptions { rulesets: Some("strict".to_string()) }));
    assert_eq!(s.mago_args("analyze", PATH).len(), 5);
    s.initialize(Some(InitializationOptions { rulesets: Some("/p/mago.toml".to_string()) }));
    assert_eq!(
        s.mago_args("analyze", PATH),
        vec!["--config", "/p/mago.toml", "analyze", "--reporting-format", "json", "--stdin-input", PATH]
    );
    assert!(is_config_path("x.yaml"));
    assert!(is_config_path("x.json"));
    assert!(!is_config_path("x.toml.bak"));
    assert!(!is_config_path("toml"));
}

#[test]
fn project_root_selection() {
    let dirs = vec![("/a/b/c".to_string(), false), ("/a/b".to_string(), true), ("/a".to_string(), true)];
    assert_eq!(select_project_root(dirs, Some("/ws".to_string()), ".".to_string()), "/a/b");
    let dirs = vec![("/a/b".to_string(), false)];
    assert_eq!(select_project_root(dirs, Some("/ws".to_string()), ".".to_string()), "/ws");
    assert_eq!(select_project_root(Vec::new(), None, ".".to_string()), ".");
    assert_eq!(project_markers(), vec!["composer.json", "mago.toml", ".git"]);
}
