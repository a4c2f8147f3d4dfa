use php_mago::extension::{
    version_dir, BinaryAction, BinaryEvent, DownloadAction, DownloadEvent, MagoLspExtension, MagoLspServer,
};
use php_mago::installer;
use php_mago::json::JsonValue;
use php_mago::platform::{ArchiveKind, Architecture, Os};

#[test]
fn platform_binary_names() {
    assert_eq!(MagoLspServer::get_platform_binary_name(Os::Windows, Architecture::X8664), "mago-lsp-server-windows-x64.exe");
    assert_eq!(MagoLspServer::get_platform_binary_name(Os::Windows, Architecture::Aarch64), "mago-lsp-server-windows-arm64.exe");
    assert_eq!(MagoLspServer::get_platform_binary_name(Os::Windows, Architecture::X86), "mago-lsp-server.exe");
    assert_eq!(MagoLspServer::get_platform_binary_name(Os::Mac, Architecture::Aarch64), "mago-lsp-server-macos-arm64");
    assert_eq!(MagoLspServer::get_platform_binary_name(Os::Mac, Architecture::X8664), "mago-lsp-server-macos-x64");
    assert_eq!(MagoLspServer::get_platform_binary_name(Os::Mac, Architecture::X86), "mago-lsp-server");
    assert_eq!(MagoLspServer::get_platform_binary_name(Os::Linux, Architecture::X8664), "mago-lsp-server-linux-x64");
    assert_eq!(MagoLspServer::get_platform_binary_name(Os::Linux, Architecture::Aarch64), "mago-lsp-server-linux-arm64");
    assert_eq!(MagoLspServer::get_platform_binary_name(Os::Linux, Architecture::X86), "mago-lsp-server");
}

#[test]
fn binary_lookup_caches_found_path() {
    let mut server = MagoLspServer::new();
    match server.language_server_binary_path(Os::Linux, Architecture::X8664, BinaryEvent::Start) {
        BinaryAction::Which(name) => assert_eq!(name, "mago-lsp-server-linux-x64"),
        _ => panic!("expected a lookup"),
    }
    match server.language_server_binary_path(Os::Linux, Architecture::X8664, BinaryEvent::WhichAnswered(Some("/bin/m".to_string()))) {
        BinaryAction::Done(Ok(p)) => assert_eq!(p, "/bin/m"),
        _ => panic!("expected the path"),
    }
    match server.language_server_binary_path(Os::Linux, Architecture::X8664, BinaryEvent::Start) {
        BinaryAction::CheckCached(p) => assert_eq!(p, "/bin/m"),
        _ => panic!("expected the cached path"),
    }
    match server.language_server_binary_path(Os::Linux, Architecture::X8664, BinaryEvent::CachedChecked(false)) {
        BinaryAction::Which(_) => {},
        _ => panic!("expected a lookup"),
    }
    match server.language_server_binary_path(Os::Linux, Architecture::X8664, BinaryEvent::WhichAnswered(None)) {
        BinaryAction::Download(name) => assert_eq!(name, "mago-lsp-server-linux-x64"),
        _ => panic!("expected a download"),
    }
    match server.language_server_binary_path(Os::Linux, Architecture::X8664, BinaryEvent::Downloaded(Err("boom".to_string()))) {
        BinaryAction::Done(Err(e)) => assert_eq!(e, "boom"),
        _ => panic!("expected the error"),
    }
    assert_eq!(server.cached_binary_path, Some("/bin/m".to_string()));
}

#[test]
fn download_steps() {
    let v = "1.2.3";
    let name = "mago-lsp-server-linux-x64";
    assert_eq!(version_dir(v), "php-mago-1.2.3");
    match MagoLspServer::download_binary(v, name, Os::Linux, DownloadEvent::Start) {
        DownloadAction::CheckBinary(p) => assert_eq!(p, "php-mago-1.2.3/mago-lsp-server-linux-x64"),
        _ => panic!(),
    }
    match MagoLspServer::download_binary(v, name, Os::Linux, DownloadEvent::BinaryChecked(false)) {
        DownloadAction::Fetch { url, dir, kind } => {
            assert_eq!(url, "https://github.com/LirimSakura/zed-php-mago/releases/download/1.2.3/mago-lsp-server-linux-x64.tar.gz");
            assert_eq!(dir, "php-mago-1.2.3");
            assert_eq!(kind, ArchiveKind::GzipTar);
        },
        _ => panic!(),
    }
    match MagoLspServer::download_binary(v, "m.exe", Os::Windows, DownloadEvent::BinaryChecked(false)) {
        DownloadAction::Fetch { url, kind, .. } => {
            assert!(url.ends_with("/1.2.3/m.exe.zip"));
            assert_eq!(kind, ArchiveKind::Zip);
        },
        _ => panic!(),
    }
    match MagoLspServer::download_binary(v, name, Os::Linux, DownloadEvent::Fetched(Err("404".to_string()))) {
        DownloadAction::Done(Err(m)) => assert_eq!(
            m,
            "Failed to download binary from release: 404. Please ensure the release 1.2.3 exists with assets."
        ),
        _ => panic!(),
    }
    match MagoLspServer::download_binary(v, name, Os::Linux, DownloadEvent::Extracted(false)) {
        DownloadAction::Done(Err(m)) => {
            assert_eq!(m, "Binary not found after extraction. Expected at: php-mago-1.2.3/mago-lsp-server-linux-x64")
        },
        _ => panic!(),
    }
    match MagoLspServer::download_binary(v, name, Os::Linux, DownloadEvent::PermissionsSet(Err("denied".to_string()))) {
        DownloadAction::Done(Err(m)) => assert_eq!(m, "Failed to set binary permissions: denied"),
        _ => panic!(),
    }
    match MagoLspServer::download_binary(v, name, Os::Linux, DownloadEvent::PermissionsSet(Ok(()))) {
        DownloadAction::Done(Ok(p)) => assert_eq!(p, "php-mago-1.2.3/mago-lsp-server-linux-x64"),
        _ => panic!(),
    }
}

#[test]
fn command_dispatch() {
    let mut ext = MagoLspExtension::new();
    assert_eq!(ext.language_server_command("other"), Err("unknown language server: other".to_string()));
    assert!(ext.mago_lsp.is_none());
    assert_eq!(ext.language_server_command("mago"), Ok(()));
    assert!(ext.mago_lsp.is_some());
}

#[test]
fn initialization_options() {
    assert!(matches!(
        MagoLspExtension::language_server_initialization_options("mago", false, None, None),
        Err(ref m) if m == "mago not found."
    ));
    assert!(matches!(MagoLspExtension::language_server_initialization_options("mago", true, None, None), Ok(None)));
    let settings = JsonValue::Object(vec![("rulesets".to_string(), JsonValue::String("  ".to_string()))]);
    assert!(matches!(MagoLspExtension::language_server_initialization_options("mago", true, None, Some(settings)), Ok(None)));
    let settings = JsonValue::Object(vec![("rulesets".to_string(), JsonValue::String("strict".to_string()))]);
    match MagoLspExtension::language_server_initialization_options("mago", true, None, Some(settings)) {
        Ok(Some(JsonValue::Object(entries))) => {
            assert_eq!(entries.len(), 1);
            assert_eq!(entries[0].0, "rulesets");
            assert!(matches!(&entries[0].1, JsonValue::String(s) if s == "strict"));
        },
        _ => panic!(),
    }
    let settings = JsonValue::Object(vec![("rulesets".to_string(), JsonValue::String("strict".to_string()))]);
    match MagoLspExtension::language_server_initialization_options("mago", true, Some("/p/mago.toml".to_string()), Some(settings)) {
        Ok(Some(JsonValue::Object(entries))) => assert!(matches!(&entries[0].1, JsonValue::String(s) if s == "/p/mago.toml")),
        _ => panic!(),
    }
    assert!(MagoLspExtension::is_mago_server("mago"));
    assert!(!MagoLspExtension::is_mago_server("intelephense"));
    assert!(matches!(MagoLspExtension::language_server_initialization_options("intelephense", false, None, None), Ok(None)));
}

#[test]
fn rulesets_given_as_an_array_are_passed_on() {
    let list = JsonValue::Array(vec![JsonValue::String("a".to_string()), JsonValue::String("b".to_string())]);
    let settings = JsonValue::Object(vec![
        ("other".to_string(), JsonValue::Null),
        ("rulesets".to_string(), list),
    ]);
    match MagoLspExtension::language_server_initialization_options("mago", true, None, Some(settings)) {
        Ok(Some(JsonValue::Object(entries))) => {
            assert_eq!(entries.len(), 1);
            assert_eq!(entries[0].0, "rulesets");
            match &entries[0].1 {
                JsonValue::Array(items) => {
                    assert_eq!(items.len(), 2);
                    assert!(matches!(&items[0], JsonValue::String(s) if s == "a"));
                    assert!(matches!(&items[1], JsonValue::String(s) if s == "b"));
                },
                _ => panic!("expected the list"),
            }
        },
        _ => panic!("expected options"),
    }
    let settings = JsonValue::Object(vec![("rulesets".to_string(), JsonValue::Array(vec![]))]);
    assert!(matches!(MagoLspExtension::language_server_initialization_options("mago", true, None, Some(settings)), Ok(None)));
    let settings = JsonValue::Object(vec![("rulesets".to_string(), JsonValue::Bool(true))]);
    assert!(matches!(MagoLspExtension::language_server_initialization_options("mago", true, None, Some(settings)), Ok(None)));
}

#[test]
fn installer_names() {
    assert_eq!(installer::bin_name(Os::Windows), "mago-lsp-server.exe");
    assert_eq!(installer::bin_name(Os::Linux), "mago-lsp-server");
    let plan = installer::UpdatePlan::new(Os::Mac, Architecture::Aarch64, "0.4.0");
    assert_eq!(plan.asset_name, "mago-lsp-server-darwin-arm64.tar.gz");
    assert_eq!(plan.version_dir, "php-mago-0.4.0");
    assert_eq!(plan.binary_path, "php-mago-0.4.0/mago-lsp-server");
    assert_eq!(plan.kind, ArchiveKind::GzipTar);
    let plan = installer::UpdatePlan::new(Os::Windows, Architecture::X86, "0.4.0");
    assert_eq!(plan.asset_name, "mago-lsp-server-windows-amd64.zip");
    assert_eq!(plan.binary_path, "php-mago-0.4.0/mago-lsp-server.exe");
    let plan = installer::UpdatePlan::new(Os::Linux, Architecture::X8664, "v1");
    assert_eq!(plan.asset_name, "mago-lsp-server-linux-amd64.tar.gz");
    assert_eq!(installer::github_repo(), "LirimSakura/zed-php-mago");
}

#[test]
fn installer_helpers() {
    let names = vec!["a.zip".to_string(), "b.tar.gz".to_string(), "b.tar.gz".to_string()];
    assert_eq!(installer::find_asset(&names, "b.tar.gz"), Some(1));
    assert_eq!(installer::find_asset(&names, "c"), None);
    assert!(installer::should_remove_entry(Some("php-mago-0.3.0"), "php-mago-0.4.0"));
    assert!(!installer::should_remove_entry(Some("php-mago-0.4.0"), "php-mago-0.4.0"));
    assert!(installer::should_remove_entry(None, "php-mago-0.4.0"));
    assert_eq!(installer::no_asset_message("x.zip"), "no asset found matching \"x.zip\"");
    assert_eq!(installer::download_failed_message("e"), "failed to download file: e");
    assert_eq!(installer::list_failed_message("e"), "failed to list working directory e");
    assert_eq!(installer::entry_failed_message("e"), "failed to load directory entry e");
    let dirs = vec![(false, Some("a/m".to_string())), (true, None), (true, Some("c/m".to_string()))];
    assert_eq!(installer::check_installed(&dirs), None);
    let dirs = vec![(false, Some("a/m".to_string())), (true, Some("b/m".to_string()))];
    assert_eq!(installer::check_installed(&dirs), Some("b/m".to_string()));
}

#[test]
fn installer_lookup_order() {
    let mut ext = installer::MagoLspExtension::new();
    match ext.language_server_binary_path(Os::Linux, installer::BinaryEvent::Start) {
        installer::BinaryAction::Which(n) => assert_eq!(n, "mago-lsp-server"),
        _ => panic!(),
    }
    assert!(matches!(
        ext.language_server_binary_path(Os::Linux, installer::BinaryEvent::WhichAnswered(None)),
        installer::BinaryAction::ScanInstalled
    ));
    assert!(matches!(
        ext.language_server_binary_path(Os::Linux, installer::BinaryEvent::InstalledScanned(Some("d/m".to_string()))),
        installer::BinaryAction::UpdateThenUse(ref p) if p == "d/m"
    ));
    assert!(matches!(
        ext.language_server_binary_path(Os::Linux, installer::BinaryEvent::InstalledScanned(None)),
        installer::BinaryAction::Update
    ));
    match ext.language_server_binary_path(Os::Linux, installer::BinaryEvent::Updated(Ok("php-mago-1/m".to_string()))) {
        installer::BinaryAction::Done { result: Ok(p), status: None } => assert_eq!(p, "php-mago-1/m"),
        _ => panic!(),
    }
    match ext.language_server_binary_path(Os::Linux, installer::BinaryEvent::WhichAnswered(None)) {
        installer::BinaryAction::CheckCached(p) => assert_eq!(p, "php-mago-1/m"),
        _ => panic!(),
    }
    match ext.language_server_binary_path(Os::Linux, installer::BinaryEvent::CachedChecked(true)) {
        installer::BinaryAction::Done { result: Ok(p), status: Some(installer::Status::Idle) } => assert_eq!(p, "php-mago-1/m"),
        _ => panic!(),
    }
}

#[test]
fn update_task_installs_release() {
    let mut task = installer::UpdateTask::new(Os::Linux, Architecture::Aarch64);
    assert!(matches!(task.check_to_update(installer::UpdateEvent::Start), installer::UpdateAction::FetchRelease));
    let names = vec!["mago-lsp-server-darwin-arm64.tar.gz".to_string(), "mago-lsp-server-linux-arm64.tar.gz".to_string()];
    match task.check_to_update(installer::UpdateEvent::ReleaseFetched(Ok(("0.5.0".to_string(), names)))) {
        installer::UpdateAction::CheckBinary(p) => assert_eq!(p, "php-mago-0.5.0/mago-lsp-server"),
        _ => panic!(),
    }
    assert!(matches!(
        task.check_to_update(installer::UpdateEvent::BinaryChecked(false)),
        installer::UpdateAction::SetStatus(installer::Status::Downloading)
    ));
    match task.check_to_update(installer::UpdateEvent::StatusSet) {
        installer::UpdateAction::Download { asset, dir, kind } => {
            assert_eq!(asset, 1);
            assert_eq!(dir, "php-mago-0.5.0");
            assert_eq!(kind, ArchiveKind::GzipTar);
        }
        _ => panic!(),
    }
    match task.check_to_update(installer::UpdateEvent::Downloaded(Ok(()))) {
        installer::UpdateAction::CleanDirectory { keep } => assert_eq!(keep, "php-mago-0.5.0"),
        _ => panic!(),
    }
    match task.check_to_update(installer::UpdateEvent::Cleaned) {
        installer::UpdateAction::Done { result: Ok(p), status: Some(installer::Status::Idle) } => {
            assert_eq!(p, "php-mago-0.5.0/mago-lsp-server")
        }
        _ => panic!(),
    }
    match task.check_to_update(installer::UpdateEvent::EntryFailed("gone".to_string())) {
        installer::UpdateAction::Done { result: Err(m), status: None } => assert_eq!(m, "failed to load directory entry gone"),
        _ => panic!(),
    }
    match task.check_to_update(installer::UpdateEvent::BinaryChecked(true)) {
        installer::UpdateAction::Done { result: Ok(p), status: None } => assert_eq!(p, "php-mago-0.5.0/mago-lsp-server"),
        _ => panic!(),
    }
}

#[test]
fn update_task_reports_missing_asset() {
    let mut task = installer::UpdateTask::new(Os::Windows, Architecture::X8664);
    let _ = task.check_to_update(installer::UpdateEvent::ReleaseFetched(Ok(("1".to_string(), vec!["other.zip".to_string()]))));
    match task.check_to_update(installer::UpdateEvent::StatusSet) {
        installer::UpdateAction::Done { result: Err(m), .. } => {
            assert_eq!(m, "no asset found matching \"mago-lsp-server-windows-amd64.zip\"")
        }
        _ => panic!(),
    }
    let mut task = installer::UpdateTask::new(Os::Windows, Architecture::X8664);
    match task.check_to_update(installer::UpdateEvent::ReleaseFetched(Err("rate limited".to_string()))) {
        installer::UpdateAction::Done { result: Err(m), .. } => assert_eq!(m, "rate limited"),
        _ => panic!(),
    }
}
