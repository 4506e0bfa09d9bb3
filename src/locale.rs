use vstd::prelude::*;

use crate::registry::InternationalCore;
use crate::view::{Data, UnWatchData};

verus! {

/// Relies on `sys_locale::get_locale`: the host's preferred locale as a
/// BCP 47 tag, or none when it cannot be told. It depends on the host, so
/// nothing is promised of it.
#[verifier::external_body]
fn system_locale() -> (r: Option<String>) {
    sys_locale::get_locale()
}

/// The locale that was found, or `default` when none was.
pub fn locale_or_default(found: Option<String>, default: &str) -> (r: String)
    ensures
        r@ == match found {
            Some(l) => l@,
            None => default@,
        },
{
    match found {
        Some(l) => l,
        None => default.to_owned(),
    }
}

/// The host's locale, or `locale` when it cannot be told.
pub fn get_locale_or_default(locale: &str) -> (r: String) {
    locale_or_default(system_locale(), locale)
}

/// The host's locale, or `en-US` when it cannot be told.
pub fn get_current_locale_or_default() -> (r: String) {
    get_locale_or_default("en-US")
}

impl InternationalCore {
    /// A live view of the host's locale, if it is registered.
    pub fn get_current_locale(&self) -> (r: Option<Data>)
        requires
            self.wf(),
        ensures
            exists|l: Seq<char>|
                (r is Some <==> #[trigger] self@.contains_key(l)) && (r matches Some(d) ==> d.table()
                    == self@[l].table()),
    {
        let locale = get_current_locale_or_default();
        let r = self.get_by_locale(locale.as_str());
        assert(r is Some <==> self@.contains_key(locale@));
        r
    }

    /// A snapshot of the host's locale, if it is registered.
    pub fn get_current_locale_state(&self) -> (r: Option<UnWatchData>)
        requires
            self.wf(),
        ensures
            exists|l: Seq<char>| (r is Some <==> #[trigger] self@.contains_key(l)),
    {
        let locale = get_current_locale_or_default();
        let r = self.get_by_locale_state(locale.as_str());
        assert(r is Some <==> self@.contains_key(locale@));
        r
    }
}

} // verus!
