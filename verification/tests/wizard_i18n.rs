use greentic_operator::wizard_i18n::{canonical_locale_tag, locale_candidates, locale_file};

#[test]
fn canonical_locale_tag_normalizes_case_separator_and_suffixes() {
    assert_eq!(canonical_locale_tag("de_de.UTF-8@euro"), "de-DE");
    assert_eq!(canonical_locale_tag("EN-us"), "en-US");
    assert_eq!(canonical_locale_tag("zh-Hant-TW"), "zh-Hant");
    assert_eq!(canonical_locale_tag("nl"), "nl");
    assert_eq!(canonical_locale_tag("pt-"), "pt");
}

#[test]
fn locale_candidates_order_and_dedup() {
    assert_eq!(
        locale_candidates(" de_DE ", "de"),
        vec!["de_DE.json", "de-DE.json", "de.json", "en-GB.json", "en.json"]
    );
    assert_eq!(locale_candidates("en", "en"), vec!["en.json", "en-GB.json"]);
    assert_eq!(locale_candidates("   ", ""), vec!["en-GB.json", "en.json"]);
}

fn files(names: &[&str]) -> Vec<String> {
    names.iter().map(|n| n.to_string()).collect()
}

#[test]
fn locale_file_prefers_requested_then_primary_then_english() {
    let available = files(&["de.json", "en.json", "nl.json"]);
    assert_eq!(locale_file("de", "de", &available), Some("de.json".to_string()));
    assert_eq!(locale_file("nl", "nl", &available), Some("nl.json".to_string()));
    assert_eq!(locale_file("de-DE", "de", &available), Some("de.json".to_string()));
    assert_eq!(locale_file("zz-ZZ", "zz", &available), Some("en.json".to_string()));
    let with_gb = files(&["en.json", "en-GB.json"]);
    assert_eq!(locale_file("zz-ZZ", "zz", &with_gb), Some("en-GB.json".to_string()));
    assert_eq!(locale_file("de", "de", &Vec::new()), None);
}
