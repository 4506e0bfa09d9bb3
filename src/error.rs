use vstd::prelude::*;

verus! {

/// Everything that can go wrong while loading, watching or registering locales.
#[derive(Debug, PartialEq, Eq)]
pub enum I18nError {
    /// A file or directory could not be read or was not found.
    IoError { path: String },
    /// A document could not be parsed into the expected structure.
    InvalidStructure { path: String, cause: String },
    /// A document parsed, but its `kind` field is not `I18N`.
    InvalidHeader { path: String },
    /// The file-change observer reported a fault.
    WatchError { message: String },
    /// The file name does not end in `.yaml` or `.yml`.
    NotSupportedFileExtension { path: String },
    /// A locale identifier was added twice.
    DuplicateLocale { locale: String },
    /// An operation named a locale that is not registered.
    LocaleNotFound { locale: String },
}

/// Short name for the library's error.
pub type Error = I18nError;

impl I18nError {
    /// Whether this error only means "not a localization document, skip it".
    pub open spec fn is_skippable(&self) -> bool {
        self is NotSupportedFileExtension
    }

    pub fn skippable(&self) -> (r: bool)
        ensures
            r == self.is_skippable(),
    {
        match self {
            I18nError::NotSupportedFileExtension { .. } => true,
            _ => false,
        }
    }
}

} // verus!
