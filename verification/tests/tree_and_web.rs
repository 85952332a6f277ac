use unfold::config::{
    layout_or_default, settings_or_default, Keybindings, Layout, Settings, SidebarPosition,
};
use unfold::tree::TreeStore;
use unfold::weburl::{
    accept_website_response, normalize_and_validate_external_url, normalize_and_validate_url,
    MAX_RESPONSE_BYTES, MSG_EMPTY_CONTENT, MSG_HTTP_STATUS_FAILED, MSG_RESPONSE_TOO_LARGE,
    MSG_URL_INVALID, MSG_URL_REQUIRED,
};

fn sample_store() -> TreeStore {
    let mut store = TreeStore::new();
    store.add_space("s1".to_string(), "First".to_string(), 0).expect("space");
    store.add_space("s2".to_string(), "Second".to_string(), 1).expect("space");
    // s1:  a ── b ── c      d (second root)
    // s2:  e
    store
        .insert_node(
            "a".to_string(), "s1".to_string(), None, "a".to_string(), None, false, false, 0,
            None, None, 10,
        )
        .expect("a");
    store
        .insert_node(
            "b".to_string(), "s1".to_string(), Some("a".to_string()), "b".to_string(), None,
            false, false, 0, None, None, 11,
        )
        .expect("b");
    store
        .insert_node(
            "c".to_string(), "s1".to_string(), Some("b".to_string()), "c".to_string(), None,
            false, false, 0, None, None, 12,
        )
        .expect("c");
    store
        .insert_node(
            "d".to_string(), "s1".to_string(), None, "d".to_string(), None, false, false, 1,
            None, None, 13,
        )
        .expect("d");
    store
        .insert_node(
            "e".to_string(), "s2".to_string(), None, "e".to_string(), None, false, false, 0,
            None, None, 14,
        )
        .expect("e");
    store
}

#[test]
fn cascade_deleting_internal_node_removes_subtree_only() {
    let mut store = sample_store();
    assert!(store.delete_node("b"));
    assert!(!store.has_node("b"));
    assert!(!store.has_node("c"), "descendant removed transitively");
    assert!(store.has_node("a"), "ancestor untouched");
    assert!(store.has_node("d"), "sibling untouched");
    assert!(store.has_node("e"), "other space untouched");
    assert_eq!(store.nodes.len(), 3);
}

#[test]
fn cascade_deleting_space_removes_all_its_nodes() {
    let mut store = sample_store();
    assert!(store.delete_space("s1"));
    assert!(!store.has_space("s1"));
    assert!(store.has_space("s2"));
    assert!(!store.has_node("a"));
    assert!(!store.has_node("b"));
    assert!(!store.has_node("c"));
    assert!(!store.has_node("d"));
    assert!(store.has_node("e"));
    assert_eq!(store.nodes.len(), 1);
    assert_eq!(store.spaces.len(), 1);
}

#[test]
fn deleting_unknown_ids_changes_nothing() {
    let mut store = sample_store();
    assert!(!store.delete_node("zz"));
    assert!(!store.delete_space("zz"));
    assert_eq!(store.nodes.len(), 5);
    assert_eq!(store.spaces.len(), 2);
}

#[test]
fn insert_rejects_bad_references() {
    let mut store = sample_store();
    let dup = store.insert_node(
        "a".to_string(), "s1".to_string(), None, "dup".to_string(), None, false, false, 0, None,
        None, 0,
    );
    assert!(dup.is_err(), "duplicate id");
    let no_space = store.insert_node(
        "x".to_string(), "nope".to_string(), None, "x".to_string(), None, false, false, 0, None,
        None, 0,
    );
    assert!(no_space.is_err(), "missing space");
    let bad_parent = store.insert_node(
        "x".to_string(), "s1".to_string(), Some("zz".to_string()), "x".to_string(), None, false,
        false, 0, None, None, 0,
    );
    assert!(bad_parent.is_err(), "missing parent");
    let cross_space = store.insert_node(
        "x".to_string(), "s2".to_string(), Some("a".to_string()), "x".to_string(), None, false,
        false, 0, None, None, 0,
    );
    assert!(cross_space.is_err(), "parent from another space");
}

#[test]
fn timestamps_default_to_now_on_insert() {
    let mut store = TreeStore::new();
    store.add_space("s".to_string(), "s".to_string(), 0).expect("space");
    store
        .insert_node(
            "n".to_string(), "s".to_string(), None, "n".to_string(), None, false, false, 0,
            None, None, 100,
        )
        .expect("insert");
    assert_eq!(store.nodes[0].created_at, 100);
    assert_eq!(store.nodes[0].updated_at, 100);
    store
        .insert_node(
            "m".to_string(), "s".to_string(), None, "m".to_string(), None, false, false, 0,
            Some(5), Some(7), 100,
        )
        .expect("insert explicit");
    assert_eq!(store.nodes[1].created_at, 5);
    assert_eq!(store.nodes[1].updated_at, 7);
}

#[test]
fn updating_name_or_content_advances_updated_at() {
    let mut store = TreeStore::new();
    store.add_space("s".to_string(), "s".to_string(), 0).expect("space");
    store
        .insert_node(
            "n".to_string(), "s".to_string(), None, "n".to_string(), None, false, false, 0,
            None, None, 100,
        )
        .expect("insert");
    store.update_node_name("n", "renamed".to_string(), 150).expect("rename");
    assert_eq!(store.nodes[0].name, "renamed");
    assert_eq!(store.nodes[0].updated_at, 150);
    assert_eq!(store.nodes[0].created_at, 100, "created_at is immutable");
    store
        .update_node_content("n", Some("text".to_string()), 175)
        .expect("edit");
    assert_eq!(store.nodes[0].updated_at, 175);
    assert!(store.update_node_name("zz", "x".to_string(), 1).is_err());
}

#[test]
fn updating_sort_order_leaves_updated_at_alone() {
    let mut store = TreeStore::new();
    store.add_space("s".to_string(), "s".to_string(), 0).expect("space");
    store
        .insert_node(
            "n".to_string(), "s".to_string(), None, "n".to_string(), None, false, false, 0,
            None, None, 100,
        )
        .expect("insert");
    store.update_node_sort_order("n", 42).expect("reorder");
    assert_eq!(store.nodes[0].sort_order, 42);
    assert_eq!(store.nodes[0].updated_at, 100, "reorder does not touch updated_at");
}

#[test]
fn url_normalization_defaults_scheme() {
    assert_eq!(
        normalize_and_validate_url("example.com").expect("valid"),
        "https://example.com/"
    );
    assert_eq!(
        normalize_and_validate_url("  http://example.com  ").expect("valid"),
        "http://example.com/"
    );
}

#[test]
fn url_normalization_rejects_bad_input() {
    assert_eq!(normalize_and_validate_url("").unwrap_err(), MSG_URL_REQUIRED);
    assert_eq!(normalize_and_validate_url("   ").unwrap_err(), MSG_URL_REQUIRED);
    assert_eq!(normalize_and_validate_url("http://").unwrap_err(), MSG_URL_INVALID);
    assert_eq!(normalize_and_validate_external_url(" ").unwrap_err(), MSG_URL_REQUIRED);
}

#[test]
fn external_url_accepts_mailto_and_tel() {
    assert_eq!(
        normalize_and_validate_external_url("mailto:someone@example.com").expect("valid"),
        "mailto:someone@example.com"
    );
    assert_eq!(
        normalize_and_validate_external_url("tel:+15551234").expect("valid"),
        "tel:+15551234"
    );
    assert_eq!(
        normalize_and_validate_external_url("example.com/page").expect("valid"),
        "https://example.com/page"
    );
    assert!(normalize_and_validate_external_url("").is_err());
}

#[test]
fn website_response_checks() {
    let ok = accept_website_response(
        true,
        Some(100),
        12,
        "<html></html>".to_string(),
        "https://example.com/".to_string(),
    )
    .expect("accepted");
    assert_eq!(ok.html, "<html></html>");
    assert_eq!(ok.final_url, "https://example.com/");
    assert_eq!(
        accept_website_response(false, None, 1, "x".to_string(), "u".to_string()).unwrap_err(),
        MSG_HTTP_STATUS_FAILED
    );
    assert_eq!(
        accept_website_response(
            true,
            Some((MAX_RESPONSE_BYTES as u64) + 1),
            1,
            "x".to_string(),
            "u".to_string()
        )
        .unwrap_err(),
        MSG_RESPONSE_TOO_LARGE
    );
    assert_eq!(
        accept_website_response(
            true,
            None,
            MAX_RESPONSE_BYTES + 1,
            "x".to_string(),
            "u".to_string()
        )
        .unwrap_err(),
        MSG_RESPONSE_TOO_LARGE
    );
    assert_eq!(
        accept_website_response(true, None, 3, "  \n ".to_string(), "u".to_string()).unwrap_err(),
        MSG_EMPTY_CONTENT
    );
}

#[test]
fn config_defaults() {
    let layout = Layout::default();
    assert_eq!(layout.sidebar_position, Some(SidebarPosition::Left));
    let keys = Keybindings::default();
    assert_eq!(keys.toggle_sidebar, "Mod-b");
    assert_eq!(keys.select_all, "Mod-a");
    let settings = Settings::default();
    assert_eq!(settings.keybindings.toggle_sidebar, "Mod-b");
}

#[test]
fn missing_config_files_yield_defaults() {
    let layout = layout_or_default(None);
    assert_eq!(layout.sidebar_position, Some(SidebarPosition::Left));
    let stored = Layout { sidebar_position: Some(SidebarPosition::Right) };
    let layout = layout_or_default(Some(stored));
    assert_eq!(layout.sidebar_position, Some(SidebarPosition::Right));
    let settings = settings_or_default(None);
    assert_eq!(settings.keybindings.select_all, "Mod-a");
    let custom = Settings {
        keybindings: Keybindings {
            toggle_sidebar: "Ctrl-b".to_string(),
            select_all: "Ctrl-a".to_string(),
        },
    };
    let settings = settings_or_default(Some(custom));
    assert_eq!(settings.keybindings.toggle_sidebar, "Ctrl-b");
}
