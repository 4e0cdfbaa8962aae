use make_movie::lock::{
    checksum_bytes, checksum_hint, default_global_config_path, default_plugin_dir, stable_hex,
    ComponentOrigin, PluginLock, PluginLockEntry, PluginManager,
};
use make_movie::plugin::{
    PluginCategory, PluginConfig, PluginConfigEntry, PluginConfigRepository, PluginError,
    PluginManifest, PluginMetadata, PluginReference, PluginSource,
};
use make_movie::runtime::{ExportError, PluginRuntime, RuntimeError};
use make_movie::wasm::{export_result, ExportCall};

fn manifest() -> PluginManifest {
    PluginManifest {
        name: "voicevox".to_string(),
        version: "1.0.0".to_string(),
        metadata: PluginMetadata {
            display_name: "VOICEVOX".to_string(),
            category: PluginCategory::Tts,
            description: "TTS".to_string(),
        },
        source: PluginSource::Github {
            owner: "make-movie".to_string(),
            repo: "voicevox".to_string(),
            version: "1.0.0".to_string(),
        },
        component: Some("voicevox.wasm".to_string()),
    }
}

#[test]
fn manager_installs_updates_and_removes_lock_entry() {
    let manager = PluginManager::new("/tmp/mm-test/plugins", "/tmp/mm-test/mm.lock");
    let mut lock = PluginLock { plugin: vec![] };

    let dir = manager.install(&mut lock, PluginReference::named("theme"));
    assert_eq!(dir, "/tmp/mm-test/plugins/theme");
    assert_eq!(lock.plugin.len(), 1);

    let manifest_path = manager.update(&lock, &PluginReference::named("theme")).unwrap();
    assert_eq!(manifest_path, "/tmp/mm-test/plugins/theme/manifest.toml");
    lock.mark_updated("theme");
    assert_eq!(lock.plugin[0].checksum, "sha256:updated");

    manager.remove(&mut lock, &PluginReference::named("theme"));
    assert!(lock.plugin.is_empty());
}

#[test]
fn install_replaces_the_entry_of_the_same_name() {
    let manager = PluginManager::new("/plugins", "/mm.lock");
    let mut lock = PluginLock {
        plugin: vec![
            PluginLockEntry {
                name: "a".to_string(),
                version: "1".to_string(),
                checksum: "x".to_string(),
                path: "/a".to_string(),
            },
            PluginLockEntry {
                name: "theme".to_string(),
                version: "1".to_string(),
                checksum: "x".to_string(),
                path: "/old".to_string(),
            },
        ],
    };
    manager.install(&mut lock, PluginReference::named("theme"));
    assert_eq!(lock.plugin.len(), 2);
    assert_eq!(lock.plugin[0].name, "a");
    assert_eq!(lock.plugin[1].version, "local");
    assert_eq!(lock.plugin[1].checksum, "sha256:unverified");
    assert_eq!(lock.plugin[1].path, "/plugins/theme");
    assert_eq!(lock.find("theme"), Some(1));
    assert_eq!(lock.find("missing"), None);
}

#[test]
fn update_and_verify_need_a_lock_entry() {
    let manager = PluginManager::new("/plugins", "/mm.lock");
    let lock = PluginLock { plugin: vec![] };
    assert_eq!(
        manager.update(&lock, &PluginReference::named("ghost")),
        Err(PluginError::UpdateTargetMissing { name: "ghost".to_string() })
    );
    assert_eq!(
        manager.verify_target(&lock, "ghost"),
        Err(PluginError::VerifyTargetMissing { name: "ghost".to_string() })
    );
}

#[test]
fn manager_resolves_and_verifies_components() {
    let manager = PluginManager::new("/plugins", "/mm.lock");
    let resolved = manager.resolve(manifest()).unwrap();
    assert_eq!(resolved.install_dir, "/plugins/voicevox");
    assert_eq!(resolved.component_path, "/plugins/voicevox/voicevox.wasm");
    assert_eq!(resolved.checksum, checksum_hint(&manifest()));
    assert!(resolved.checksum.starts_with("sha256:"));
    assert_eq!(resolved.checksum.len(), "sha256:".len() + 16);

    let bytes = b"component";
    let entry = resolved.lock_entry(checksum_bytes(bytes));
    assert_eq!(manager.verify(&entry, &resolved, Some(bytes)), Ok(()));
    assert!(matches!(
        manager.verify(&entry, &resolved, Some(b"other")),
        Err(PluginError::ChecksumMismatch { .. })
    ));
    assert_eq!(
        manager.verify(&entry, &resolved, None),
        Err(PluginError::ComponentMissing { path: "/plugins/voicevox/voicevox.wasm".to_string() })
    );
    assert_eq!(
        resolved.component_origin(),
        Ok(ComponentOrigin::Download {
            url: "https://github.com/make-movie/voicevox/releases/download/1.0.0/voicevox.wasm"
                .to_string()
        })
    );
}

#[test]
fn checksums_are_sha256_hex() {
    assert_eq!(
        checksum_bytes(b"abc"),
        "sha256:ba7816bf8f01cfea414140de5dae2223b00361a396177a9cb410ff61f20015ad"
    );
    assert_eq!(stable_hex(b"a"), "af63dc4c8601ec8c");
}

#[test]
fn configured_plugins_are_merged_and_installed_in_order() {
    let manager = PluginManager::new("/plugins", "/project/mm.lock");
    let entry = |repo: &str, version: &str| PluginConfigEntry {
        repository: PluginConfigRepository::Github,
        name: None,
        owner: Some("make-movie".to_string()),
        repo: Some(repo.to_string()),
        version: Some(version.to_string()),
        url: None,
        path: None,
        component: None,
    };
    let global = PluginConfig { plugin: vec![entry("theme", "1.0.0"), entry("tts", "1.0.0")] };
    let project = PluginConfig { plugin: vec![entry("tts", "2.0.0"), entry("extra", "0.1.0")] };
    let (manifests, error) = manager.install_configured_plugins(&global, &project);
    assert!(error.is_none());
    let names: Vec<String> = manifests.iter().map(|m| m.name.clone()).collect();
    assert_eq!(names, vec!["theme".to_string(), "tts".to_string(), "extra".to_string()]);
    assert_eq!(manifests[1].version, "2.0.0");
    assert_eq!(manifests[0].version, "1.0.0");
    match &manifests[2].source {
        PluginSource::Github { owner, repo, version } => {
            assert_eq!(owner, "make-movie");
            assert_eq!(repo, "extra");
            assert_eq!(version, "0.1.0");
        }
        other => panic!("unexpected source: {other:?}"),
    }
}

#[test]
fn configured_local_plugin_of_the_project_overrides_the_global_one() {
    let manager = PluginManager::new("/plugins", "/project/mm.lock");
    let local = |version: &str, path: &str| PluginConfigEntry {
        repository: PluginConfigRepository::Local,
        name: Some("theme".to_string()),
        owner: None,
        repo: None,
        version: Some(version.to_string()),
        url: None,
        path: Some(path.to_string()),
        component: Some("theme.wasm".to_string()),
    };
    let global = PluginConfig { plugin: vec![local("1.0.0", "global-source")] };
    let project = PluginConfig { plugin: vec![local("2.0.0", "project-source")] };
    let (manifests, error) = manager.install_configured_plugins(&global, &project);
    assert!(error.is_none());
    assert_eq!(manifests.len(), 1);
    assert_eq!(manifests[0].version, "2.0.0");
    assert_eq!(manifests[0].component.as_deref(), Some("theme.wasm"));
    assert_eq!(
        manifests[0].source,
        PluginSource::Local { path: "project-source".to_string() }
    );
}

#[test]
fn configured_plugins_stop_at_the_first_entry_that_does_not_convert() {
    let manager = PluginManager::new("/plugins", "/project/mm.lock");
    let github = PluginConfigEntry {
        repository: PluginConfigRepository::Github,
        name: None,
        owner: Some("make-movie".to_string()),
        repo: Some("theme".to_string()),
        version: None,
        url: None,
        path: None,
        component: None,
    };
    let broken = PluginConfigEntry {
        repository: PluginConfigRepository::Url,
        name: Some("remote".to_string()),
        owner: None,
        repo: None,
        version: None,
        url: None,
        path: None,
        component: None,
    };
    let after = PluginConfigEntry { repo: Some("after".to_string()), ..github.clone() };
    let global = PluginConfig { plugin: vec![github, broken, after] };
    let project = PluginConfig { plugin: vec![] };
    let (manifests, error) = manager.install_configured_plugins(&global, &project);
    assert_eq!(manifests.len(), 1);
    assert_eq!(manifests[0].name, "theme");
    assert_eq!(error, Some(PluginError::MissingField { field: "url plugin url".to_string() }));
}

#[test]
fn default_directories_follow_the_environment() {
    assert_eq!(default_plugin_dir(Some("/xdg"), Some("/appdata"), Some("/home/u")), "/xdg/mm/plugins");
    assert_eq!(default_plugin_dir(None, None, Some("/home/u")), "/home/u/.local/share/mm/plugins");
    assert_eq!(default_plugin_dir(None, None, None), ".mm/plugins");
    assert_eq!(default_global_config_path(None, Some("/appdata"), None), "/appdata/mm/mm.toml");
    assert_eq!(default_global_config_path(None, None, Some("/home/u")), "/home/u/.config/mm/mm.toml");
    assert_eq!(default_global_config_path(None, None, None), ".config/mm/mm.toml");
}

#[test]
fn runtime_tracks_lifecycle() {
    let wat = r#"
        (module
            (func (export "initialize"))
            (func (export "shutdown"))
        )
    "#;
    let mut runtime = PluginRuntime::new();

    runtime.load(manifest(), "plugin.wasm".to_string(), wat.as_bytes()).unwrap();
    runtime.initialize_all().unwrap();
    assert!(runtime.loaded_plugins()[0].initialized);

    runtime.shutdown_all().unwrap();
    assert!(!runtime.loaded_plugins()[0].initialized);
}

#[test]
fn runtime_rejects_invalid_wasm() {
    let mut runtime = PluginRuntime::new();

    let result = runtime.load(manifest(), "plugin.wasm".to_string(), b"not wasm");

    assert!(matches!(result, Err(RuntimeError::Load { .. })));
    assert!(runtime.loaded_plugins().is_empty());
}

#[test]
fn runtime_returns_initialize_trap() {
    let wat = r#"
        (module
            (func (export "initialize")
                unreachable)
            (func (export "shutdown"))
        )
    "#;
    let mut runtime = PluginRuntime::new();
    runtime.load(manifest(), "plugin.wasm".to_string(), wat.as_bytes()).unwrap();

    let result = runtime.initialize_all();

    assert!(result.is_err());
    assert!(!runtime.loaded_plugins()[0].initialized);
}

#[test]
fn runtime_keeps_the_instance_and_names_the_trapping_export() {
    let wat = r#"
        (module
            (func (export "initialize"))
            (func (export "shutdown")
                unreachable)
        )
    "#;
    let mut runtime = PluginRuntime::new();
    runtime.load(manifest(), "plugin.wasm".to_string(), wat.as_bytes()).unwrap();
    assert!(runtime.loaded_plugins()[0].wasm.is_some());

    runtime.initialize_all().unwrap();
    assert!(runtime.loaded_plugins()[0].initialized);
    assert!(runtime.loaded_plugins()[0].wasm.is_some());

    match runtime.shutdown_all() {
        Err(RuntimeError::Shutdown { plugin, cause: ExportError::Call { export, .. } }) => {
            assert_eq!(plugin, "voicevox");
            assert_eq!(export, "shutdown");
        }
        other => panic!("unexpected result: {other:?}"),
    }
    assert!(runtime.loaded_plugins()[0].initialized);
}

#[test]
fn export_results_name_the_export_and_keep_the_cause() {
    assert_eq!(export_result("initialize", ExportCall::Missing), Ok(()));
    assert_eq!(export_result("initialize", ExportCall::Returned), Ok(()));
    assert_eq!(
        export_result("initialize", ExportCall::WrongType { cause: "type mismatch".to_string() }),
        Err(ExportError::Type { export: "initialize".to_string(), cause: "type mismatch".to_string() })
    );
    assert_eq!(
        export_result("shutdown", ExportCall::Trapped { cause: "unreachable".to_string() }),
        Err(ExportError::Call { export: "shutdown".to_string(), cause: "unreachable".to_string() })
    );
}

#[test]
fn runtime_reports_an_export_of_another_type() {
    let wat = r#"
        (module
            (func (export "initialize") (param i32))
        )
    "#;
    let mut runtime = PluginRuntime::new();
    runtime.load(manifest(), "plugin.wasm".to_string(), wat.as_bytes()).unwrap();
    match runtime.initialize_all() {
        Err(RuntimeError::Initialize { cause: ExportError::Type { export, .. }, .. }) => {
            assert_eq!(export, "initialize");
        }
        other => panic!("unexpected result: {other:?}"),
    }
    assert!(runtime.shutdown_all().is_ok());
}
