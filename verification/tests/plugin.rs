use make_movie::lock::download_url;
use make_movie::plugin::{
    merge_plugin_configs, PluginCategory, PluginConfig, PluginConfigEntry, PluginConfigRepository,
    PluginManifest, PluginMetadata, PluginSource,
};

fn manifest() -> PluginManifest {
    PluginManifest {
        name: "voicevox".to_string(),
        version: "1.0.0".to_string(),
        metadata: PluginMetadata {
            display_name: "VOICEVOX".to_string(),
            category: PluginCategory::Tts,
            description: "TTS".to_string(),
        },
        source: PluginSource::Github {
            owner: "make-movie".to_string(),
            repo: "voicevox".to_string(),
            version: "1.0.0".to_string(),
        },
        component: Some("voicevox.wasm".to_string()),
    }
}

#[test]
fn plugin_config_merge_prefers_project_entry() {
    let global = PluginConfig {
        plugin: vec![PluginConfigEntry {
            repository: PluginConfigRepository::Github,
            name: None,
            owner: Some("make-movie".to_string()),
            repo: Some("theme".to_string()),
            version: Some("1.0.0".to_string()),
            url: None,
            path: None,
            component: None,
        }],
    };
    let project = PluginConfig {
        plugin: vec![
            PluginConfigEntry {
                repository: PluginConfigRepository::Github,
                name: None,
                owner: Some("make-movie".to_string()),
                repo: Some("theme".to_string()),
                version: Some("2.0.0".to_string()),
                url: None,
                path: None,
                component: None,
            },
            PluginConfigEntry {
                repository: PluginConfigRepository::Local,
                name: Some("local-tool".to_string()),
                owner: None,
                repo: None,
                version: None,
                url: None,
                path: Some("./plugins/local-tool".to_string()),
                component: None,
            },
        ],
    };

    let merged = merge_plugin_configs(&global, &project);

    assert_eq!(merged.plugin.len(), 2);
    assert_eq!(merged.plugin[0].version.as_deref(), Some("2.0.0"));
    assert_eq!(merged.plugin[1].name.as_deref(), Some("local-tool"));
}

#[test]
fn repository_download_urls_use_release_artifact() {
    let github = manifest();
    assert_eq!(
        download_url(&github).unwrap(),
        "https://github.com/make-movie/voicevox/releases/download/1.0.0/voicevox.wasm"
    );

    let mut gitlab = manifest();
    gitlab.source = PluginSource::Gitlab {
        owner: "make-movie".to_string(),
        repo: "voicevox".to_string(),
        version: "1.0.0".to_string(),
    };
    assert_eq!(
        download_url(&gitlab).unwrap(),
        "https://gitlab.com/make-movie/voicevox/-/releases/1.0.0/downloads/voicevox.wasm"
    );
}

#[test]
fn merging_the_project_config_again_changes_nothing() {
    let entry = |repo: &str, version: &str| PluginConfigEntry {
        repository: PluginConfigRepository::Github,
        name: None,
        owner: Some("make-movie".to_string()),
        repo: Some(repo.to_string()),
        version: Some(version.to_string()),
        url: None,
        path: None,
        component: None,
    };
    let global = PluginConfig { plugin: vec![entry("theme", "1.0.0"), entry("tts", "1.0.0")] };
    let project = PluginConfig {
        plugin: vec![entry("extra", "0.1.0"), entry("tts", "2.0.0"), entry("extra", "0.2.0")],
    };
    let once = merge_plugin_configs(&global, &project);
    let twice = merge_plugin_configs(&once, &project);
    assert_eq!(once, twice);
    assert_eq!(once.plugin.len(), 3);
    assert_eq!(once.plugin[2].version.as_deref(), Some("0.2.0"));
}
