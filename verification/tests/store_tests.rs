use kozutsumi::entry::Entry;
use kozutsumi::store::{
    available_parcels, config_candidates, not_found_message, pick_config_path, render_entries,
    ParcelConfig,
};

fn sample_store() -> ParcelConfig {
    let mut config = ParcelConfig::new();
    assert!(config.add_parcel(
        "work".to_string(),
        vec![
            Entry::App("slack".to_string()),
            Entry::Url("https://mail.example.com/".to_string()),
        ],
    ));
    assert!(config.add_parcel(
        "home".to_string(),
        vec![Entry::File("/tmp/notes.txt".to_string())],
    ));
    config
}

#[test]
fn lookup_finds_entries_in_order() {
    let config = sample_store();
    let entries = config.lookup("work").expect("work is defined");
    assert_eq!(
        *entries,
        vec![
            Entry::App("slack".to_string()),
            Entry::Url("https://mail.example.com/".to_string()),
        ]
    );
}

#[test]
fn lookup_absent_is_none() {
    let config = sample_store();
    assert!(config.lookup("garden").is_none());
}

#[test]
fn duplicate_name_is_refused() {
    let mut config = sample_store();
    assert!(!config.add_parcel("work".to_string(), vec![]));
    assert_eq!(config.names().len(), 2);
}

#[test]
fn names_keep_definition_order() {
    let config = sample_store();
    assert_eq!(config.names(), vec!["work".to_string(), "home".to_string()]);
}

#[test]
fn available_parcels_joins_names() {
    let config = sample_store();
    assert_eq!(available_parcels(&config), "work, home".to_string());
}

#[test]
fn missing_parcel_message_lists_every_name() {
    let config = sample_store();
    let message = match config.lookup_or_message("garden") {
        Err(m) => m,
        Ok(_) => panic!("garden must not be found"),
    };
    assert_eq!(
        message,
        "Parcel `garden` not found. Available parcels: work, home".to_string()
    );
    for name in config.names() {
        assert!(message.contains(&name));
    }
}

#[test]
fn not_found_message_exact_form() {
    let config = sample_store();
    assert_eq!(
        not_found_message("x", &config),
        "Parcel `x` not found. Available parcels: work, home".to_string()
    );
}

#[test]
fn render_entries_lists_display_forms() {
    let entries = vec![
        Entry::App("slack".to_string()),
        Entry::File("/tmp/notes.txt".to_string()),
    ];
    assert_eq!(render_entries(&entries), "- slack\n- /tmp/notes.txt\n".to_string());
}

#[test]
fn render_whole_store() {
    let config = sample_store();
    assert_eq!(
        config.render(),
        "work:\n- slack\n- https://mail.example.com/\nhome:\n- /tmp/notes.txt\n".to_string()
    );
}

#[test]
fn empty_store_is_empty() {
    let config = ParcelConfig::new();
    assert!(config.is_empty());
    assert_eq!(available_parcels(&config), String::new());
    assert_eq!(config.render(), String::new());
}

#[test]
fn config_candidate_paths() {
    let (yml, yaml) = config_candidates("/home/alice/.config/kozutsumi/parcel");
    assert_eq!(yml, "/home/alice/.config/kozutsumi/parcel.yml".to_string());
    assert_eq!(yaml, "/home/alice/.config/kozutsumi/parcel.yaml".to_string());
    assert_eq!(pick_config_path(yml.clone(), yaml.clone(), true), yml);
    assert_eq!(pick_config_path(yml, yaml.clone(), false), yaml);
}
