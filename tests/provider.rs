use simple_i18n::document::Node;
use simple_i18n::provider::{
    FileProvider, ReloadAction, StaticFileProvider, WatchEvent, WatchFailure, WatchProvider,
    DEBOUNCE_MILLIS,
};
use simple_i18n::registry::Holder;
use simple_i18n::structure::{load_structure, FileStructure, Providers};
use simple_i18n::view::Data;
use simple_i18n::I18nError;

fn doc(value: &str) -> FileStructure {
    FileStructure {
        kind: "I18N".to_string(),
        locale: "RU".to_string(),
        description: None,
        provider: Some(Providers::FileProvider),
        data: Some(Node::Mapping(vec![("name".to_string(), Node::Scalar(value.to_string()))])),
    }
}

fn ru_holder() -> Holder {
    Holder::new(load_structure(Ok(doc("Тест")), Some("ru.yaml".to_string())).ok().unwrap())
}

#[test]
fn static_provider_does_nothing() {
    let mut p = StaticFileProvider {};
    assert!(p.watch().is_ok());
    assert!(p.set_data(ru_holder().messages()).is_ok());
}

#[test]
fn modified_event_asks_for_debounced_reload() {
    let h = ru_holder();
    let p = FileProvider::new(h.messages(), "locales/ru.yaml".to_string());
    match p.on_event(WatchEvent::Modified) {
        ReloadAction::Reload { path, delay_millis } => {
            assert_eq!(path, "locales/ru.yaml");
            assert_eq!(delay_millis, DEBOUNCE_MILLIS);
            assert_eq!(delay_millis, 10);
        }
        _ => panic!("expected a reload"),
    }
    assert!(matches!(p.on_event(WatchEvent::Other), ReloadAction::Ignore));
    match p.on_event(WatchEvent::Failed("lost".to_string())) {
        ReloadAction::Report(I18nError::WatchError { message }) => assert_eq!(message, "lost"),
        _ => panic!("expected a report"),
    }
}

#[test]
fn begin_watch_twice_is_refused() {
    let h = ru_holder();
    let mut p = FileProvider::new(h.messages(), "ru.yaml".to_string());
    assert_eq!(p.begin_watch(), Ok("ru.yaml".to_string()));
    assert!(p.finish_watch(Ok(())).is_ok());
    assert!(p.active());
    assert_eq!(
        p.begin_watch(),
        Err(I18nError::WatchError { message: "already watching: ru.yaml".to_string() })
    );
}

#[test]
fn finish_watch_classifies_failures() {
    let h = ru_holder();
    let mut p = FileProvider::new(h.messages(), "ru.yaml".to_string());
    assert_eq!(
        p.finish_watch(Err(WatchFailure::Generic("g".to_string()))),
        Err(I18nError::WatchError { message: "g".to_string() })
    );
    assert!(!p.active());
    assert_eq!(
        p.finish_watch(Err(WatchFailure::Io("disk".to_string()))),
        Err(I18nError::WatchError { message: "disk".to_string() })
    );
    assert_eq!(
        p.finish_watch(Err(WatchFailure::PathNotFound)),
        Err(I18nError::IoError { path: "ru.yaml".to_string() })
    );
    assert_eq!(
        p.finish_watch(Err(WatchFailure::MaxFilesWatch)),
        Err(I18nError::WatchError { message: "max watchers for file".to_string() })
    );
    assert_eq!(p.finish_watch(Err(WatchFailure::WatchNotFound)), Ok(()));
    assert_eq!(p.finish_watch(Err(WatchFailure::InvalidConfig("c".to_string()))), Ok(()));
    assert!(p.active());
}

#[test]
fn reload_is_seen_by_live_view_not_by_snapshot() {
    let h = ru_holder();
    let live = Data::new(h.messages());
    let frozen = h.snapshot();
    let p = FileProvider::new(h.messages(), "ru.yaml".to_string());
    assert!(p.reload(Ok(doc("new"))).is_ok());
    assert_eq!(live.get("name"), Some("new".to_string()));
    assert_eq!(frozen.get("name"), Some("Тест".to_string()));
}

#[test]
fn watched_locale_picks_up_rewritten_source() {
    let h = ru_holder();
    let live = Data::new(h.messages());
    assert_eq!(live.get("name"), Some("Тест".to_string()));
    let p = FileProvider::new(h.messages(), "ru.yaml".to_string());
    match p.on_event(WatchEvent::Modified) {
        ReloadAction::Reload { path, .. } => {
            assert_eq!(path, "ru.yaml");
            assert!(p.reload(Ok(doc("Updated"))).is_ok());
        }
        _ => panic!("expected a reload"),
    }
    assert_eq!(live.get("name"), Some("Updated".to_string()));
}

#[test]
fn failed_reload_keeps_previous_data() {
    let h = ru_holder();
    let live = Data::new(h.messages());
    let p = FileProvider::new(h.messages(), "ru.yaml".to_string());
    let r = p.reload(Err("eof".to_string()));
    assert_eq!(
        r,
        Err(I18nError::InvalidStructure { path: "ru.yaml".to_string(), cause: "eof".to_string() })
    );
    let mut wrong = doc("x");
    wrong.kind = "NOPE".to_string();
    assert_eq!(p.reload(Ok(wrong)), Err(I18nError::InvalidHeader { path: "ru.yaml".to_string() }));
    assert_eq!(live.get("name"), Some("Тест".to_string()));
}

#[test]
fn set_data_redirects_reloads() {
    let first = ru_holder();
    let second = ru_holder();
    let live_second = Data::new(second.messages());
    let mut p = FileProvider::new(first.messages(), "ru.yaml".to_string());
    assert!(p.set_data(second.messages()).is_ok());
    assert!(p.reload(Ok(doc("moved"))).is_ok());
    assert_eq!(live_second.get("name"), Some("moved".to_string()));
    assert_eq!(Data::new(first.messages()).get("name"), Some("Тест".to_string()));
}

#[test]
fn holder_install_provider_keeps_table() {
    let mut h = ru_holder();
    let live = Data::new(h.messages());
    let p = FileProvider::new(h.messages(), "ru.yaml".to_string());
    assert!(h.install_provider(Box::new(StaticFileProvider {})).is_ok());
    assert!(p.reload(Ok(doc("after"))).is_ok());
    assert_eq!(live.get("name"), Some("after".to_string()));
    assert_eq!(h.locale(), "RU");
}
