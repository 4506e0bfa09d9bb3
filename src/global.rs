use vstd::prelude::*;

use crate::error::I18nError;
use crate::provider::WatchProvider;
use crate::registry::InternationalCore;
use crate::shared::read_default_gives;

verus! {

/// Whether the process-wide slot still holds no registry.
pub fn check_empty_core(cores: &Vec<InternationalCore>) -> (r: bool)
    ensures
        r == (cores@.len() == 0),
{
    cores.len() == 0
}

/// Puts the process-wide registry in its slot, which must still be empty: a
/// second initialization is a caller error.
pub fn init(cores: &mut Vec<InternationalCore>, core: InternationalCore)
    requires
        old(cores)@.len() == 0,
    ensures
        final(cores)@ == seq![core],
{
    cores.push(core);
}

/// The string for `key` in `locale` of the process-wide registry; the key
/// itself when there is no registry, no such locale or no such key.
pub fn get_param(cores: &Vec<InternationalCore>, locale: &str, key: &str) -> (r: String)
    requires
        cores@.len() > 0 ==> cores@[0].wf(),
    ensures
        cores@.len() == 0 ==> r@ == key@,
        cores@.len() > 0 && !cores@[0]@.contains_key(locale@) ==> r@ == key@,
        cores@.len() > 0 && cores@[0]@.contains_key(locale@) ==> read_default_gives(r@, key@),
{
    if cores.len() == 0 {
        return key.to_owned();
    }
    match cores[0].get_by_locale(locale) {
        Some(view) => view.get_or_default(key),
        None => key.to_owned(),
    }
}

/// Installs `provider` for `locale` in the process-wide registry, which must
/// exist.
pub fn set_provider(
    cores: &mut Vec<InternationalCore>,
    locale: &str,
    provider: Box<dyn WatchProvider>,
) -> (r: Result<(), I18nError>)
    requires
        old(cores)@.len() > 0,
        old(cores)@[0].wf(),
    ensures
        final(cores)@.len() == old(cores)@.len(),
        final(cores)@[0].wf(),
        final(cores)@[0]@.dom() == old(cores)@[0]@.dom(),
        !old(cores)@[0]@.contains_key(locale@) ==> (r matches Err(I18nError::LocaleNotFound { locale: l })
            && l@ == locale@),
{
    let mut core = cores.remove(0);
    let r = core.add_provider(locale, provider);
    cores.insert(0, core);
    r
}

} // verus!
