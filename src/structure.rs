use vstd::prelude::*;

use crate::document::{flatten, flattened, Node};
use crate::error::I18nError;
use crate::table::FlatTable;

verus! {

/// How a locale's table is kept up to date.
#[derive(Debug, Clone, Copy, PartialEq, Eq, Structural)]
pub enum Providers {
    /// The source file is watched and reloaded when it changes.
    FileProvider,
    /// The data never changes after loading (the default).
    StaticFileProvider,
}

/// A parsed localization document: header fields and the optional data tree.
pub struct FileStructure {
    pub kind: String,
    pub locale: String,
    pub description: Option<String>,
    pub provider: Option<Providers>,
    pub data: Option<Node>,
}

/// A checked document: its locale, flattened data and provider choice.
pub struct LoadedLocale {
    pub locale: String,
    pub table: FlatTable,
    pub provider: Providers,
}

/// The value the `kind` header must have.
pub open spec fn expected_kind() -> Seq<char> {
    seq!['I', '1', '8', 'N']
}

/// The provider a document asks for; none given means static.
pub open spec fn chosen_provider(p: Option<Providers>) -> Providers {
    match p {
        Some(p) => p,
        None => Providers::StaticFileProvider,
    }
}

/// Whether `s` ends with `suffix`.
pub open spec fn has_suffix(s: Seq<char>, suffix: Seq<char>) -> bool {
    s.len() >= suffix.len() && s.subrange(s.len() - suffix.len(), s.len() as int) == suffix
}

/// Whether a file name carries a localization-document extension.
pub open spec fn is_supported_name(s: Seq<char>) -> bool {
    has_suffix(s, seq!['.', 'y', 'a', 'm', 'l']) || has_suffix(s, seq!['.', 'y', 'm', 'l'])
}

/// Whether `c` has the Unicode White_Space property.
pub open spec fn is_white_space(c: char) -> bool {
    let u = c as u32;
    (0x9 <= u <= 0xd) || u == 0x20 || u == 0x85 || u == 0xa0 || u == 0x1680 || (0x2000 <= u <= 0x200a)
        || u == 0x2028 || u == 0x2029 || u == 0x202f || u == 0x205f || u == 0x3000
}

/// `s` without its longest suffix of White_Space characters.
pub open spec fn trimmed_end(s: Seq<char>) -> Seq<char>
    decreases s.len(),
{
    if s.len() > 0 && is_white_space(s.last()) {
        trimmed_end(s.drop_last())
    } else {
        s
    }
}

/// Relies on `str::trim_end`: it removes the trailing characters that have
/// the Unicode White_Space property.
#[verifier::external_body]
fn trim_end(s: &str) -> (r: String)
    ensures
        r@ == trimmed_end(s@),
{
    s.trim_end().to_string()
}

/// Whether `s` ends with `suffix`.
pub fn ends_with(s: &str, suffix: &str) -> (r: bool)
    ensures
        r == has_suffix(s@, suffix@),
{
    let n = s.unicode_len();
    let m = suffix.unicode_len();
    if n < m {
        return false;
    }
    let mut i: usize = 0;
    while i < m
        invariant
            n == s@.len(),
            m == suffix@.len(),
            m <= n,
            i <= m,
            forall|j: int| 0 <= j < i ==> s@[n - m + j] == suffix@[j],
        decreases m - i,
    {
        if s.get_char(n - m + i) != suffix.get_char(i) {
            assert(s@.subrange(n - m, n as int)[i as int] != suffix@[i as int]);
            return false;
        }
        i = i + 1;
    }
    assert(s@.subrange(n - m, n as int) =~= suffix@);
    true
}

/// Whether a file name ends in `.yaml` or `.yml`.
pub fn has_supported_extension(path: &str) -> (r: bool)
    ensures
        r == is_supported_name(path@),
{
    proof {
        reveal_strlit(".yaml");
        reveal_strlit(".yml");
        assert(".yaml"@ =~= seq!['.', 'y', 'a', 'm', 'l']);
        assert(".yml"@ =~= seq!['.', 'y', 'm', 'l']);
    }
    ends_with(path, ".yaml") || ends_with(path, ".yml")
}

/// Accepts a file path for loading: trailing whitespace is dropped, and a
/// name without a `.yaml` or `.yml` extension is refused.
pub fn checked_path(path: &str) -> (r: Result<String, I18nError>)
    ensures
        match r {
            Ok(p) => p@ == trimmed_end(path@) && is_supported_name(p@),
            Err(e) => !is_supported_name(trimmed_end(path@)) && (e matches
                I18nError::NotSupportedFileExtension { path: p } && p@ == trimmed_end(path@)),
        },
{
    let trimmed = trim_end(path);
    if has_supported_extension(trimmed.as_str()) {
        Ok(trimmed)
    } else {
        Err(I18nError::NotSupportedFileExtension { path: trimmed })
    }
}

/// Checks a parsed document and flattens its data.
///
/// A parse failure becomes `InvalidStructure` with its cause, a `kind` other
/// than `I18N` becomes `InvalidHeader`; both name `path`, or an empty path
/// when there is none.
pub fn load_structure(parsed: Result<FileStructure, String>, path: Option<String>) -> (r: Result<
    LoadedLocale,
    I18nError,
>)
    ensures
        match parsed {
            Err(cause) => (r matches Err(I18nError::InvalidStructure { path: p, cause: c })
                && p@ == path_or_empty(path) && c@ == cause@),
            Ok(s) => if s.kind@ != expected_kind() {
                (r matches Err(I18nError::InvalidHeader { path: p }) && p@ == path_or_empty(path))
            } else {
                (r matches Ok(l) && l.locale@ == s.locale@ && l.table.wf() && l.table@ == flattened(
                    s.data,
                ) && l.provider == chosen_provider(s.provider))
            },
        },
{
    let path = match path {
        Some(p) => p,
        None => String::new(),
    };
    let structure = match parsed {
        Ok(s) => s,
        Err(cause) => {
            return Err(I18nError::InvalidStructure { path, cause });
        },
    };
    let expected = "I18N".to_owned();
    proof {
        reveal_strlit("I18N");
        assert(expected@ =~= expected_kind());
    }
    if structure.kind != expected {
        return Err(I18nError::InvalidHeader { path });
    }
    let table = flatten(&structure.data);
    let provider = match structure.provider {
        Some(p) => p,
        None => Providers::StaticFileProvider,
    };
    Ok(LoadedLocale { locale: structure.locale, table, provider })
}

/// The path text of an optional path; none is the empty path.
pub open spec fn path_or_empty(path: Option<String>) -> Seq<char> {
    match path {
        Some(p) => p@,
        None => Seq::empty(),
    }
}

} // verus!
