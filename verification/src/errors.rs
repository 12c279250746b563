use vstd::prelude::*;

verus! {

/// Why choosing and loading a language failed. The first three kinds mirror
/// the conditions a caller can hit through negotiation; the rest name the
/// defect-like conditions that stay fatal in both failure regimes.
#[derive(Debug)]
pub enum LanguageChoiceError {
    /// An input/output failure, carried as its message text.
    IoError(String),
    /// The base directory is missing or is not a directory.
    NoLanguageFilesAt(String),
    /// No subdirectory matches the desired tag: the desired name, and every
    /// valid-but-non-matching language directory found.
    LanguageNegotiatedFailed(String, Vec<String>),
    /// An explicitly requested language tag, or the host locale, that does
    /// not parse.
    MalformedLanguageTag(String),
    /// The host locale could not be detected.
    LocaleUnavailable,
    /// A resource file whose text is not well-formed, named by file.
    ResourceParseFailed(String),
    /// A resource file whose messages clash with ones already loaded,
    /// named by file.
    ResourceAddFailed(String),
    /// No candidate language was available while the failure policy forbids
    /// an inert, language-less state.
    NoUsableLanguage,
    /// A second initialization after a successful one.
    AlreadyInitialized,
}

} // verus!
