use simple_i18n::document::Node;
use simple_i18n::provider::WatchProvider;
use simple_i18n::registry::{Holder, InternationalCore};
use simple_i18n::shared::SharedTable;
use simple_i18n::structure::{load_structure, FileStructure, Providers};
use simple_i18n::I18nError;

fn doc(locale: &str, value: &str, provider: Option<Providers>) -> FileStructure {
    FileStructure {
        kind: "I18N".to_string(),
        locale: locale.to_string(),
        description: None,
        provider,
        data: Some(Node::Mapping(vec![("name".to_string(), Node::Scalar(value.to_string()))])),
    }
}

fn holder(locale: &str, value: &str) -> Holder {
    Holder::new(load_structure(Ok(doc(locale, value, None)), None).ok().unwrap())
}

struct CountingProvider {
    watched: u32,
    bound: bool,
    fail_watch: bool,
}

impl WatchProvider for CountingProvider {
    fn watch(&mut self) -> Result<(), I18nError> {
        self.watched += 1;
        if self.fail_watch {
            Err(I18nError::WatchError { message: "refused".to_string() })
        } else {
            Ok(())
        }
    }

    fn set_data(&mut self, _data: SharedTable) -> Result<(), I18nError> {
        self.bound = true;
        Ok(())
    }
}

#[test]
fn bundle_end_to_end_lookup() {
    let core = InternationalCore::from_bundle(vec![
        Ok(doc("EN", "Test", None)),
        Ok(doc("RU", "Тест", Some(Providers::FileProvider))),
    ])
    .ok()
    .unwrap();
    assert_eq!(core.get_by_locale("EN").unwrap().get("name"), Some("Test".to_string()));
    assert_eq!(core.get_by_locale("RU").unwrap().get("name"), Some("Тест".to_string()));
    assert_eq!(core.get_by_locale("EN").unwrap().get_or_default("missing"), "missing");
    assert!(core.get_by_locale("DE").is_none());
    assert!(core.get_by_locale("en").is_none());
}

#[test]
fn bundle_snapshot_lookup() {
    let core = InternationalCore::from_bundle(vec![Ok(doc("EN", "Test", None))]).ok().unwrap();
    let snap = core.get_by_locale_state("EN").unwrap();
    assert_eq!(snap.get("name"), Some("Test".to_string()));
    assert!(core.get_by_locale_state("RU").is_none());
}

#[test]
fn bundle_later_document_wins() {
    let core = InternationalCore::from_bundle(vec![Ok(doc("EN", "first", None)), Ok(doc("EN", "second", None))])
        .ok()
        .unwrap();
    assert_eq!(core.get_by_locale("EN").unwrap().get("name"), Some("second".to_string()));
}

#[test]
fn bundle_fails_on_bad_document() {
    let mut bad = doc("EN", "x", None);
    bad.kind = "OTHER".to_string();
    let r = InternationalCore::from_bundle(vec![Ok(doc("RU", "y", None)), Ok(bad)]);
    assert!(matches!(r, Err(I18nError::InvalidHeader { ref path }) if path.is_empty()));
    let r = InternationalCore::from_bundle(vec![Err("broken".to_string())]);
    assert!(matches!(r, Err(I18nError::InvalidStructure { ref cause, .. }) if cause == "broken"));
}

#[test]
fn add_locale_duplicate_is_rejected() {
    let mut core = InternationalCore::empty();
    assert!(core.add_locale("EN", holder("EN", "kept")).is_ok());
    let r = core.add_locale("EN", holder("EN", "intruder"));
    assert!(matches!(r, Err(I18nError::DuplicateLocale { ref locale }) if locale == "EN"));
    assert_eq!(core.get_by_locale("EN").unwrap().get("name"), Some("kept".to_string()));
}

#[test]
fn add_locale_registers_under_given_id() {
    let mut core = InternationalCore::empty();
    assert!(core.add_locale("custom", holder("EN", "v")).is_ok());
    assert!(core.get_by_locale("custom").is_some());
    assert!(core.get_by_locale("EN").is_none());
}

#[test]
fn add_provider_unknown_locale_fails() {
    let mut core = InternationalCore::empty();
    let p = CountingProvider { watched: 0, bound: false, fail_watch: false };
    let r = core.add_provider("EN", Box::new(p));
    assert!(matches!(r, Err(I18nError::LocaleNotFound { ref locale }) if locale == "EN"));
}

#[test]
fn add_provider_binds_then_activates() {
    let mut core = InternationalCore::empty();
    core.add_locale("EN", holder("EN", "v")).unwrap();
    let p = CountingProvider { watched: 0, bound: false, fail_watch: false };
    assert!(core.add_provider("EN", Box::new(p)).is_ok());
    let failing = CountingProvider { watched: 0, bound: false, fail_watch: true };
    let r = core.add_provider("EN", Box::new(failing));
    assert!(matches!(r, Err(I18nError::WatchError { ref message }) if message == "refused"));
    assert_eq!(core.get_by_locale("EN").unwrap().get("name"), Some("v".to_string()));
}

#[test]
fn new_skips_unsupported_files() {
    let core = InternationalCore::new(vec![
        Err(I18nError::NotSupportedFileExtension { path: "readme.md".to_string() }),
        Ok(holder("EN", "Test")),
    ])
    .ok()
    .unwrap();
    assert_eq!(core.get_by_locale("EN").unwrap().get("name"), Some("Test".to_string()));
}

#[test]
fn new_stops_on_other_errors() {
    let r = InternationalCore::new(vec![
        Ok(holder("EN", "Test")),
        Err(I18nError::IoError { path: "gone.yaml".to_string() }),
    ]);
    assert!(matches!(r, Err(I18nError::IoError { ref path }) if path == "gone.yaml"));
}

#[test]
fn new_activates_providers_and_last_wins() {
    let failing = CountingProvider { watched: 0, bound: false, fail_watch: true };
    let r = InternationalCore::new(vec![Ok(holder("EN", "a").with_provider(Box::new(failing)))]);
    assert!(matches!(r, Err(I18nError::WatchError { .. })));
    let core = InternationalCore::new(vec![Ok(holder("EN", "a")), Ok(holder("EN", "b"))])
        .ok()
        .unwrap();
    assert_eq!(core.get_by_locale("EN").unwrap().get("name"), Some("b".to_string()));
}

#[test]
fn from_loaded_all_skipped_is_empty_registry() {
    let core = InternationalCore::new(vec![
        Err(I18nError::NotSupportedFileExtension { path: "a.txt".to_string() }),
        Err(I18nError::NotSupportedFileExtension { path: "b.json".to_string() }),
    ])
    .ok()
    .unwrap();
    assert!(core.get_by_locale("EN").is_none());
    let empty = InternationalCore::new(vec![]).ok().unwrap();
    assert!(empty.get_by_locale_state("EN").is_none());
}

#[test]
fn live_view_shares_entry_table() {
    let core = InternationalCore::new(vec![Ok(holder("EN", "before"))]).ok().unwrap();
    let live = core.get_by_locale("EN").unwrap();
    let frozen = core.get_by_locale_state("EN").unwrap();
    let other = core.get_by_locale("EN").unwrap();
    assert_eq!(live.get("name"), other.get("name"));
    assert_eq!(frozen.get("name"), Some("before".to_string()));
}
