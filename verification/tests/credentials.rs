use std::collections::BTreeMap;

use aws_setter::credentials::{load_credentials, CredentialStore, CredentialsConfigEntry};
use aws_setter::ini::{group, write_items, IniItem, LoadError, Section};
use aws_setter::sts::Credentials;

fn fresh(key: &str, secret: &str, token: &str) -> Credentials {
    Credentials {
        access_key_id: key.to_string(),
        secret_access_key: secret.to_string(),
        session_token: token.to_string(),
        expiration: "2031-05-06T07:08:09Z".to_string(),
    }
}

fn entry(key: &str, secret: &str, token: &str) -> CredentialsConfigEntry {
    CredentialsConfigEntry {
        aws_access_key_id: key.to_string(),
        aws_secret_access_key: secret.to_string(),
        aws_session_token: token.to_string(),
    }
}

const TWO_PROFILES: &str = "[default]\naws_access_key_id=A1\naws_secret_access_key=S1\naws_session_token=T1\n\
[other]\naws_access_key_id=A9\naws_secret_access_key=S9\naws_session_token=T9\n";

#[test]
fn placeholder_entry_holds_default_in_every_field() {
    assert_eq!(CredentialsConfigEntry::default(), entry("Default", "Default", "Default"));
}

#[test]
fn update_overwrites_the_three_fields() {
    let mut target = entry("A1", "S1", "T1");
    target.update(&fresh("A2", "S2", "T2"));
    assert_eq!(target, entry("A2", "S2", "T2"));
    assert_eq!(entry("A1", "S1", "T1").duplicate(), entry("A1", "S1", "T1"));
}

#[test]
fn merge_changes_only_the_profile() {
    let mut store = load_credentials(TWO_PROFILES).unwrap();
    store.merge("default", &fresh("A2", "S2", "T2"));
    assert_eq!(store.len(), 2);
    assert_eq!(store.get("default"), Some(&entry("A2", "S2", "T2")));
    assert_eq!(store.get("other"), Some(&entry("A9", "S9", "T9")));
    assert_eq!(
        store.to_text(),
        "[default]\r\naws_access_key_id=A2\r\naws_secret_access_key=S2\r\naws_session_token=T2\r\n\
[other]\r\naws_access_key_id=A9\r\naws_secret_access_key=S9\r\naws_session_token=T9\r\n"
    );
}

#[test]
fn merge_creates_an_absent_profile() {
    let mut store = load_credentials(TWO_PROFILES).unwrap();
    assert_eq!(store.get("newprofile"), None);
    store.merge("newprofile", &fresh("A2", "S2", "T2"));
    assert_eq!(store.len(), 3);
    assert_eq!(store.get("newprofile"), Some(&entry("A2", "S2", "T2")));
    assert_eq!(store.get("default"), Some(&entry("A1", "S1", "T1")));
    assert_eq!(store.get("other"), Some(&entry("A9", "S9", "T9")));
}

#[test]
fn merge_into_an_empty_store() {
    let mut store = CredentialStore::new();
    assert_eq!(store.len(), 0);
    assert_eq!(store.to_text(), "");
    store.merge("default", &fresh("A2", "S2", "T2"));
    assert_eq!(
        store.to_text(),
        "[default]\r\naws_access_key_id=A2\r\naws_secret_access_key=S2\r\naws_session_token=T2\r\n"
    );
}

#[test]
fn written_store_reads_back_equal() {
    let mut store = load_credentials(TWO_PROFILES).unwrap();
    store.merge("newprofile", &fresh("AKIA+/=", "se cret", "tok=en;#"));
    store.merge("other", &fresh("A3", "S3", "T3"));
    let text = store.to_text();
    let again = load_credentials(&text).unwrap();
    assert_eq!(again.len(), 3);
    for profile in ["default", "other", "newprofile"] {
        assert_eq!(again.get(profile), store.get(profile));
    }
    assert_eq!(again.to_text(), text);
    assert_eq!(again.items(), store.items());
}

#[test]
fn blanks_around_a_written_value_are_not_read_back() {
    let mut store = CredentialStore::new();
    store.merge("default", &fresh("A1", "S1", " T1 "));
    assert_eq!(store.to_text(), "[default]\r\naws_access_key_id=A1\r\naws_secret_access_key=S1\r\naws_session_token= T1 \r\n");
    let again = load_credentials(&store.to_text()).unwrap();
    assert_eq!(again.get("default"), Some(&entry("A1", "S1", "T1")));
    let items = store.items();
    assert_eq!(CredentialStore::from_items(&items).unwrap().get("default"), Some(&entry("A1", "S1", " T1 ")));
}

#[test]
fn written_store_is_what_serde_ini_writes() {
    let mut store = CredentialStore::new();
    store.merge("alpha", &fresh("A1", "S1", "T1"));
    store.merge("beta", &fresh("A2", "S2", "T2"));
    let mut expected: BTreeMap<String, BTreeMap<String, String>> = BTreeMap::new();
    for (profile, key, secret, token) in [("alpha", "A1", "S1", "T1"), ("beta", "A2", "S2", "T2")] {
        let mut fields = BTreeMap::new();
        fields.insert("aws_access_key_id".to_string(), key.to_string());
        fields.insert("aws_secret_access_key".to_string(), secret.to_string());
        fields.insert("aws_session_token".to_string(), token.to_string());
        expected.insert(profile.to_string(), fields);
    }
    assert_eq!(store.to_text(), serde_ini::to_string(&expected).unwrap());
    let read: BTreeMap<String, BTreeMap<String, String>> = serde_ini::from_str(&store.to_text()).unwrap();
    assert_eq!(read, expected);
}

#[test]
fn load_skips_comments_and_empty_lines_and_ignores_other_fields() {
    let text = "; managed file\n\n[default]\n# note\naws_access_key_id = A1\nregion=eu-west-1\n\
aws_secret_access_key=S1\naws_session_token =  T1  \n";
    let store = load_credentials(text).unwrap();
    assert_eq!(store.len(), 1);
    assert_eq!(store.get("default"), Some(&entry("A1", "S1", "T1")));
}

#[test]
fn load_of_empty_text_is_an_empty_store() {
    let store = load_credentials("").unwrap();
    assert_eq!(store.len(), 0);
    assert!(store.items().is_empty());
}

#[test]
fn load_keeps_the_later_of_two_sections_with_one_name() {
    let text = "[default]\naws_access_key_id=A1\naws_secret_access_key=S1\naws_session_token=T1\n\
[default]\naws_access_key_id=A2\naws_secret_access_key=S2\naws_session_token=T2\n";
    let store = load_credentials(text).unwrap();
    assert_eq!(store.len(), 1);
    assert_eq!(store.get("default"), Some(&entry("A2", "S2", "T2")));
}

#[test]
fn load_reports_each_kind_of_error() {
    assert_eq!(load_credentials("[default\n").err(), Some(LoadError::Syntax));
    assert_eq!(load_credentials("[default]\nno equals sign\n").err(), Some(LoadError::Syntax));
    assert_eq!(load_credentials("aws_access_key_id=A1\n[default]\n").err(), Some(LoadError::OrphanValue));
    assert_eq!(
        load_credentials("[default]\naws_access_key_id=A1\naws_session_token=T1\n").err(),
        Some(LoadError::MissingField)
    );
    assert_eq!(
        load_credentials(
            "[default]\naws_access_key_id=A1\naws_access_key_id=A2\naws_secret_access_key=S1\naws_session_token=T1\n"
        )
        .err(),
        Some(LoadError::DuplicateField)
    );
    assert_eq!(load_credentials("[default]\n").err(), Some(LoadError::MissingField));
}

#[test]
fn every_load_error_has_its_message() {
    assert_eq!(LoadError::Syntax.message(), "a line is not a line of an INI file");
    assert_eq!(LoadError::OrphanValue.message(), "an assignment stands before the first section");
    assert_eq!(LoadError::MissingField.message(), "a section lacks a field");
    assert_eq!(LoadError::DuplicateField.message(), "a section assigns a field twice");
}

#[test]
fn first_failing_section_decides_the_error() {
    let text = "[first]\naws_access_key_id=A1\naws_access_key_id=A1\naws_secret_access_key=S\naws_session_token=T\n\
[second]\naws_access_key_id=A1\n";
    assert_eq!(load_credentials(text).err(), Some(LoadError::DuplicateField));
}

#[test]
fn items_of_a_store_are_a_section_line_and_three_assignments() {
    let mut store = CredentialStore::new();
    store.merge("default", &fresh("A1", "S1", "T1"));
    let expected = vec![
        IniItem::Section { name: "default".to_string() },
        IniItem::Value { key: "aws_access_key_id".to_string(), value: "A1".to_string() },
        IniItem::Value { key: "aws_secret_access_key".to_string(), value: "S1".to_string() },
        IniItem::Value { key: "aws_session_token".to_string(), value: "T1".to_string() },
    ];
    assert_eq!(store.items(), expected);
    assert_eq!(entry("A1", "S1", "T1").items("default"), expected);
    let back = CredentialStore::from_items(&expected).unwrap();
    assert_eq!(back.get("default"), Some(&entry("A1", "S1", "T1")));
}

#[test]
fn every_kind_of_item_is_written_on_its_own_line() {
    let items = vec![
        IniItem::Comment { text: " note".to_string() },
        IniItem::Empty,
        IniItem::Section { name: "s".to_string() },
        IniItem::Value { key: "k".to_string(), value: "v".to_string() },
    ];
    assert_eq!(write_items(&items), "; note\r\n\r\n[s]\r\nk=v\r\n");
    assert_eq!(write_items(&vec![]), "");
}

#[test]
fn group_collects_assignments_under_their_section() {
    let items = vec![
        IniItem::Empty,
        IniItem::Section { name: "a".to_string() },
        IniItem::Value { key: "k".to_string(), value: "1".to_string() },
        IniItem::Comment { text: "#c".to_string() },
        IniItem::Value { key: "k".to_string(), value: "2".to_string() },
        IniItem::Section { name: "b".to_string() },
    ];
    let sections = group(&items).unwrap();
    assert_eq!(
        sections,
        vec![
            Section {
                name: "a".to_string(),
                pairs: vec![("k".to_string(), "1".to_string()), ("k".to_string(), "2".to_string())],
            },
            Section { name: "b".to_string(), pairs: vec![] },
        ]
    );
    assert_eq!(sections[0].field("k"), Err(LoadError::DuplicateField));
    assert_eq!(sections[1].field("k"), Err(LoadError::MissingField));
    assert_eq!(group(&vec![IniItem::Value { key: "k".to_string(), value: "v".to_string() }]), None);
    let one = Section { name: "c".to_string(), pairs: vec![("k".to_string(), "v".to_string())] };
    assert_eq!(one.field("k"), Ok("v".to_string()));
    assert_eq!(CredentialsConfigEntry::from_section(&one), Err(LoadError::MissingField));
    assert!(CredentialStore::from_sections(&sections).is_err());
}
