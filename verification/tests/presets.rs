use i18n_scanner::collector::keys::KeyTable;
use i18n_scanner::i18n_packages::{
    default_members, is_preset_member_name, preset_member_names, preset_member_type,
    supplement_members, Member,
};
use i18n_scanner::i18n_types::{I18nMember, I18nType};
use i18n_scanner::node::{Node, SourceKind};
use i18n_scanner::node_store::NodeStore;
use i18n_scanner::pattern::script_path;
use i18n_scanner::post_collector::{KeyPath, PostCollector};
use i18n_scanner::text::fill_placeholders;

#[test]
fn preset_names_by_kind() {
    assert_eq!(preset_member_names(&I18nType::TMethod), vec!["t"]);
    assert_eq!(preset_member_names(&I18nType::Hook), vec!["useTranslation"]);
    assert_eq!(preset_member_names(&I18nType::TransComp), vec!["Trans"]);
    assert_eq!(preset_member_names(&I18nType::TranslationComp), vec!["Translation"]);
    assert_eq!(preset_member_names(&I18nType::HocWrapper), vec!["withTranslation"]);
    assert_eq!(preset_member_names(&I18nType::ObjectMemberT), vec!["i18n"]);
}

#[test]
fn preset_name_needs_matching_kind() {
    assert!(is_preset_member_name("t", &I18nType::TMethod));
    assert!(!is_preset_member_name("t", &I18nType::Hook));
    assert!(!is_preset_member_name("tt", &I18nType::TMethod));
    assert_eq!(preset_member_type("withTranslation"), Some(I18nType::HocWrapper));
    assert_eq!(preset_member_type("other"), None);
}

#[test]
fn default_members_cover_the_six_kinds() {
    let names: Vec<String> = default_members().into_iter().map(|m| m.name).collect();
    assert_eq!(names, vec!["t", "useTranslation", "Trans", "Translation", "withTranslation", "i18n"]);
}

#[test]
fn supplement_keeps_declared_members_first() {
    let declared = vec![
        Member { name: "translate".to_string(), kind: I18nType::TMethod, ns: None },
        Member { name: "useT".to_string(), kind: I18nType::Hook, ns: Some("ns".to_string()) },
    ];
    let all = supplement_members(&declared);
    let names: Vec<&str> = all.iter().map(|m| m.name.as_str()).collect();
    assert_eq!(names, vec!["translate", "useT", "Trans", "Translation", "withTranslation", "i18n"]);
    assert_eq!(all[1].ns.as_deref(), Some("ns"));
    assert_eq!(supplement_members(&vec![]).len(), 6);
}

#[test]
fn script_paths() {
    assert!(script_path("/a/b.ts"));
    assert!(script_path("/a/b.tsx"));
    assert!(script_path("b.js"));
    assert!(script_path("/a/b.d.jsx"));
    assert!(!script_path(".ts"));
    assert!(!script_path("/a/b.css"));
    assert!(!script_path("/a/b.mjs"));
    assert!(!script_path("/a/bts"));
    assert!(!script_path("/a\n/b.ts"));
    assert!(!script_path("/a/b.ts\n"));
}

#[test]
fn placeholders_are_filled_from_left_to_right() {
    assert_eq!(fill_placeholders("WRAPPED_{}", "KEY"), ("WRAPPED_KEY".to_string(), true));
    assert_eq!(fill_placeholders("{}_{}", "é"), ("é_é".to_string(), true));
    assert_eq!(fill_placeholders("{{}}", "x"), ("{x}".to_string(), true));
    assert_eq!(fill_placeholders("no hole {", "x"), ("no hole {".to_string(), false));
    assert_eq!(fill_placeholders("", "x"), (String::new(), false));
}

#[test]
fn key_table_keeps_first_seen_order() {
    let mut table = KeyTable::new();
    table.add_key("default", "B".to_string());
    table.add_key("other", "A".to_string());
    table.add_key("default", "A".to_string());
    table.add_key("default", "B".to_string());
    assert_eq!(table.get_keys("default"), vec!["B", "A"]);
    assert_eq!(table.get_keys("other"), vec!["A"]);
    assert_eq!(table.get_keys("missing"), Vec::<String>::new());
    assert!(table.has_key("other", "A"));
    assert!(!table.has_key("other", "B"));
    let mut merged = KeyTable::new();
    merged.add_key("other", "Z".to_string());
    merged.merge(&table);
    assert_eq!(merged.get_keys("other"), vec!["Z", "A"]);
    assert_eq!(merged.get_keys("default"), vec!["B", "A"]);
}

#[test]
fn post_collector_keeps_what_is_added() {
    let mut pending = PostCollector::new();
    pending.add(
        vec![KeyPath::from_string("default".to_string())],
        vec![KeyPath::from_node("/src/a.ts".to_string(), "K".to_string())],
    );
    assert_eq!(pending.0.len(), 1);
    assert!(matches!(&pending.0[0].0[0], KeyPath::String(text) if text == "default"));
    assert!(matches!(&pending.0[0].1[0], KeyPath::LinkedKey(link) if link.node == "/src/a.ts" && link.member == "K"));
}

#[test]
fn source_kind_follows_the_extension() {
    assert_eq!(
        Node::new("/a/b.tsx".to_string()).source_kind,
        Some(SourceKind { typescript: true, jsx: true })
    );
    assert_eq!(
        Node::new("/a/b.ts".to_string()).source_kind,
        Some(SourceKind { typescript: true, jsx: false })
    );
    assert_eq!(
        Node::new("/a/b.jsx".to_string()).source_kind,
        Some(SourceKind { typescript: false, jsx: true })
    );
    assert_eq!(
        Node::new("/a/b.js".to_string()).source_kind,
        Some(SourceKind { typescript: false, jsx: false })
    );
    assert_eq!(Node::new("/a/b.css".to_string()).source_kind, None);
}

#[test]
fn node_keeps_one_entry_for_each_export() {
    let mut node = Node::new("/a/b.ts".to_string());
    assert!(!node.has_exported_i18n_methods());
    node.insert_exporting("x".to_string(), None);
    assert!(!node.has_exported_i18n_methods());
    node.insert_exporting("t".to_string(), Some(I18nMember { kind: I18nType::TMethod, ns: None }));
    node.insert_exporting("x".to_string(), Some(I18nMember { kind: I18nType::Hook, ns: None }));
    node.insert_exporting("t".to_string(), None);
    assert!(node.has_exported_i18n_methods());
    let names: Vec<&str> = node.exporting_members.iter().map(|e| e.name.as_str()).collect();
    assert_eq!(names, vec!["x", "t"]);
    let classified = node.get_exporting_i18n_members();
    assert_eq!(classified.len(), 1);
    assert_eq!(classified[0].0, "x");
    assert_eq!(classified[0].1.kind, I18nType::Hook);
    assert!(node.i18n_member("t").is_none());
    node.insert_importing("./a".to_string(), "/one.ts".to_string());
    node.insert_importing("./a".to_string(), "/two.ts".to_string());
    node.insert_importing("./b".to_string(), "/one.ts".to_string());
    assert_eq!(node.importing.len(), 2);
    assert_eq!(node.importing_target("./a").map(|p| p.as_str()), Some("/two.ts"));
    assert_eq!(node.importing_target("./b").map(|p| p.as_str()), Some("/one.ts"));
    assert!(node.importing_target("./c").is_none());
    node.insert_imports("/x.ts".to_string());
    node.insert_imports("/y.ts".to_string());
    node.insert_imports("/x.ts".to_string());
    assert_eq!(node.imports, vec!["/x.ts", "/y.ts"]);
    assert!(!node.has_i18n_source_imported());
    node.mark_has_i18n_source_imported();
    assert!(node.has_i18n_source_imported());
}

#[test]
fn kinds_are_written_with_their_names() {
    let kinds = [
        (I18nType::Hook, "Hook"),
        (I18nType::TMethod, "TMethod"),
        (I18nType::TransComp, "TransComp"),
        (I18nType::TranslationComp, "TranslationComp"),
        (I18nType::HocWrapper, "HocWrapper"),
        (I18nType::ObjectMemberT, "ObjectMemberT"),
    ];
    for (kind, name) in kinds {
        assert_eq!(kind.as_str(), name);
        assert_eq!(I18nType::from_name(name), Some(kind));
    }
    assert_eq!(I18nType::from_name("hook"), None);
    assert_eq!(I18nType::from_name(""), None);
}

#[test]
fn store_keeps_the_later_of_two_nodes_with_one_path() {
    let mut first = Node::new("/a.ts".to_string());
    first.insert_exporting("one".to_string(), None);
    let other = Node::new("/b.ts".to_string());
    let mut second = Node::new("/a.ts".to_string());
    second.insert_exporting("two".to_string(), None);
    let store = NodeStore::new(vec![first, other, second]);
    assert_eq!(store.get_all_nodes(), vec!["/a.ts", "/b.ts"]);
    let kept = store.get_node("/a.ts").unwrap();
    let names: Vec<&str> = kept.exporting_members.iter().map(|e| e.name.as_str()).collect();
    assert_eq!(names, vec!["two"]);
    assert!(NodeStore::new(Vec::new()).get_all_nodes().is_empty());
}

#[test]
fn a_recorded_edge_is_replaced() {
    let mut store = NodeStore::new(vec![
        Node::new("/main.ts".to_string()),
        Node::new("/one.ts".to_string()),
        Node::new("/two.ts".to_string()),
    ]);
    assert_eq!(Node::try_insert_importing(&mut store, 0, "./dep".to_string(), "/one.ts"), Ok(()));
    assert_eq!(Node::try_insert_importing(&mut store, 0, "./other".to_string(), "/one.ts"), Ok(()));
    assert_eq!(Node::try_insert_importing(&mut store, 0, "./dep".to_string(), "/two.ts"), Ok(()));
    let main = store.get_node("/main.ts").unwrap();
    assert_eq!(main.importing.len(), 2);
    assert_eq!(main.importing_target("./dep").map(|p| p.as_str()), Some("/two.ts"));
    assert_eq!(main.importing_target("./other").map(|p| p.as_str()), Some("/one.ts"));
    assert_eq!(main.get_importing_node(&store, "./dep").unwrap().file_path, "/two.ts");
    assert_eq!(store.get_node("/one.ts").unwrap().imports, vec!["/main.ts"]);
    assert_eq!(store.get_node("/two.ts").unwrap().imports, vec!["/main.ts"]);
}

#[test]
fn an_edge_to_an_unknown_file_is_refused() {
    let mut store = NodeStore::new(vec![Node::new("/main.ts".to_string())]);
    assert_eq!(Node::try_insert_importing(&mut store, 0, "./dep".to_string(), "/gone.ts"), Err(()));
    let main = store.get_node("/main.ts").unwrap();
    assert!(main.importing.is_empty());
    assert!(main.importing_target("./dep").is_none());
}
