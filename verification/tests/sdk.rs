use make_movie::sdk::{
    validate_metadata_json, MmPlugin, PluginCategory, PluginMetadata, RustBasicPlugin,
};

#[derive(Default)]
struct TestPlugin;

impl MmPlugin for TestPlugin {
    fn metadata(&self) -> PluginMetadata {
        PluginMetadata::new("test", "0.1.0", PluginCategory::Utility)
    }
}

#[test]
fn plugin_returns_metadata() {
    let metadata = TestPlugin.metadata().to_json().unwrap();
    assert!(metadata.contains("\"name\":\"test\""));
    validate_metadata_json(&metadata).unwrap();
}

#[test]
fn metadata_builder_escapes_json() {
    let metadata = PluginMetadata::new("quoted", "0.1.0", PluginCategory::Template)
        .display_name("quote \" plugin")
        .description("line\nbreak")
        .to_json()
        .unwrap();

    assert!(metadata.contains(r#""display_name":"quote \" plugin""#));
    assert!(metadata.contains(r#""description":"line\nbreak""#));
}

#[test]
fn metadata_validation_rejects_empty_name() {
    let error = PluginMetadata::new("", "0.1.0", PluginCategory::Utility)
        .to_json()
        .unwrap_err();

    assert!(error.to_string().contains("name"));
}

#[test]
fn metadata_is_valid() {
    let plugin = RustBasicPlugin::default();

    validate_metadata_json(&plugin.metadata().to_json().unwrap()).unwrap();
}

#[test]
fn lifecycle_updates_state() {
    let mut plugin = RustBasicPlugin::default();

    plugin.initialize();
    assert!(plugin.initialized);

    plugin.shutdown();
    assert!(!plugin.initialized);
}
