use harfbuzz::common::Language;
use harfbuzz::language::LanguageTable;

#[test]
fn language_names_are_interned() {
    let mut table = LanguageTable::new();
    let en = table.from_string("en");
    let fr = table.from_string("fr-CA");
    assert!(en.is_valid() && fr.is_valid());
    assert_ne!(en, fr);
    assert_eq!(table.from_string("EN"), en);
    assert_eq!(table.from_string("fr_ca"), fr);
    assert_eq!(table.from_string("fr-ca.UTF-8"), fr);
    assert_eq!(table.len(), 2);
    assert_eq!(table.to_string(en), Some("en".to_string()));
    assert_eq!(table.to_string(fr), Some("fr-ca".to_string()));
}

#[test]
fn no_name_gives_the_invalid_language() {
    let mut table = LanguageTable::new();
    assert_eq!(table.from_string(""), Language::invalid());
    assert_eq!(table.from_string("?"), Language::invalid());
    assert_eq!(table.len(), 0);
    assert_eq!(table.to_string(Language::invalid()), None);
    assert_eq!(table.to_string(Language { handle: 5 }), None);
}

#[test]
fn default_language_is_set_once() {
    let mut table = LanguageTable::new();
    let first = table.get_default("de_DE.UTF-8");
    assert_eq!(table.to_string(first), Some("de-de".to_string()));
    assert_eq!(table.get_default("ja"), first);
    assert_eq!(table.len(), 1);
}
