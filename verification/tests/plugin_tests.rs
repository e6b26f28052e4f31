use winisland::plugin::{new_record, PluginManager};

fn rec(name: &str, update: bool) -> winisland::plugin::PluginRecord {
    new_record(
        format!("plugins/{}.dll", name),
        name.to_string(),
        "1.0".to_string(),
        "Me".to_string(),
        "Test".to_string(),
        update,
        false,
        false,
    )
}

#[test]
fn a_new_record_is_disabled_and_keyed_by_name() {
    let r = rec("Clock", true);
    assert_eq!(r.id, "Clock");
    assert!(!r.enabled);
}

#[test]
fn a_new_plugin_is_not_updated_until_enabled() {
    let mut pm = PluginManager::new();
    pm.register(rec("Clock", true));
    assert!(pm.update_targets().is_empty());
    assert!(pm.toggle_enabled("Clock"));
    assert_eq!(pm.update_targets(), vec!["Clock".to_string()]);
}

#[test]
fn registering_and_replacing() {
    let mut pm = PluginManager::new();
    pm.register(rec("A", true));
    pm.register(rec("B", false));
    assert_eq!(pm.plugins.len(), 2);
    let mut again = rec("A", false);
    again.version = "2.0".to_string();
    pm.register(again);
    assert_eq!(pm.plugins.len(), 2);
    let i = pm.find("A").unwrap();
    assert_eq!(pm.plugins[i].version, "2.0");
    assert_eq!(pm.find("C"), None);
}

#[test]
fn only_enabled_plugins_with_an_update_are_updated() {
    let mut pm = PluginManager::new();
    pm.register(rec("A", true));
    pm.register(rec("B", false));
    pm.register(rec("C", true));
    assert!(pm.update_targets().is_empty());
    assert!(pm.toggle_enabled("A"));
    assert!(pm.toggle_enabled("B"));
    assert!(pm.toggle_enabled("C"));
    assert_eq!(pm.update_targets(), vec!["A".to_string(), "C".to_string()]);
    assert!(pm.toggle_enabled("A"));
    assert_eq!(pm.update_targets(), vec!["C".to_string()]);
    assert!(pm.toggle_enabled("A"));
    assert_eq!(pm.update_targets(), vec!["A".to_string(), "C".to_string()]);
    assert!(!pm.toggle_enabled("Z"));
}

#[test]
fn plugin_requests() {
    let mut pm = PluginManager::new();
    pm.request_expand();
    assert!(pm.expand_requested && !pm.collapse_requested);
    pm.request_collapse();
    assert!(pm.collapse_requested);
    pm.set_custom_text(Some("Hello".to_string()));
    assert_eq!(pm.custom_text, "Hello");
    pm.set_custom_text(None);
    assert_eq!(pm.custom_text, "");
}

#[test]
fn duplicate_ids_are_detected() {
    let mut pm = PluginManager::new();
    pm.register(rec("A", true));
    pm.register(rec("B", true));
    assert!(pm.ids_unique());
    pm.plugins.push(rec("A", false));
    assert!(!pm.ids_unique());
}

#[test]
fn toggling_twice_restores_the_registry() {
    let mut pm = PluginManager::new();
    pm.register(rec("A", true));
    pm.register(rec("B", false));
    assert!(pm.toggle_enabled("B"));
    assert!(pm.plugins[1].enabled);
    assert!(!pm.plugins[1].has_update);
    assert_eq!(pm.plugins[1].path, "plugins/B.dll");
    assert!(!pm.plugins[0].enabled);
    assert!(pm.toggle_enabled("B"));
    assert!(!pm.plugins[1].enabled);
    assert_eq!(pm.plugins[1].id, "B");
}
