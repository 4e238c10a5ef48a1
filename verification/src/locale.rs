use crate::textutil::{clean_text, is_clean_text};
use vstd::prelude::*;

verus! {

/// Whether a byte string is a well-formed Unicode language identifier, as
/// `unic_langid` judges it. The answer depends on the bytes alone.
pub uninterp spec fn lang_tag_ok(b: Seq<u8>) -> bool;

/// Relies on unic_langid::LanguageIdentifier::from_bytes: it returns `Ok`
/// exactly when the bytes form a well-formed language identifier, and the
/// answer is a pure function of the bytes.
#[verifier::external_body]
pub fn is_valid_language_tag(b: &[u8]) -> (r: bool)
    ensures
        r == lang_tag_ok(b@),
{
    unic_langid::LanguageIdentifier::from_bytes(b).is_ok()
}

/// Relies on sys_locale::get_locale: the host's preferred locale as a
/// language-tag string, if the system reports one. The answer depends on the
/// environment, so nothing is promised of it.
#[verifier::external_body]
pub fn system_locale_bytes() -> (r: Option<Vec<u8>>) {
    sys_locale::get_locale().map(|s| s.into_bytes())
}

/// The fallback language used when the host's locale is absent or malformed:
/// the bytes of "en-US".
pub open spec fn fallback_lang_tag() -> Seq<u8> {
    seq![101u8, 110u8, 45u8, 85u8, 83u8]
}

/// How the default language is chosen from whatever the locale provider
/// reported: a reported tag is kept exactly when it is a well-formed
/// language identifier that can stand in a document; anything else falls
/// back to "en-US".
pub open spec fn language_from_spec(sys: Option<Seq<u8>>) -> Seq<u8> {
    match sys {
        Some(t) => if lang_tag_ok(t) && clean_text(t) {
            t
        } else {
            fallback_lang_tag()
        },
        None => fallback_lang_tag(),
    }
}

/// The verified half of default-language selection: decides, for any value
/// the locale provider may have handed back, which language the defaults
/// carry.
pub fn language_from(sys: Option<Vec<u8>>) -> (r: Vec<u8>)
    ensures
        r@ == language_from_spec(match sys {
            Some(t) => Some(t@),
            None => None,
        }),
{
    match sys {
        Some(tag) => {
            if is_valid_language_tag(tag.as_slice()) && is_clean_text(&tag) {
                tag
            } else {
                fallback_language()
            }
        },
        None => fallback_language(),
    }
}

/// The language the application starts with: the host's locale when that is
/// a well-formed tag, the fallback otherwise — `language_from` applied to
/// whatever the environment reported.
pub fn default_language() -> (r: Vec<u8>)
    ensures
        exists|sys: Option<Seq<u8>>| r@ == #[trigger] language_from_spec(sys),
        r@ == fallback_lang_tag() || (lang_tag_ok(r@) && clean_text(r@)),
{
    let sys = system_locale_bytes();
    let ghost sys_view: Option<Seq<u8>> = match &sys {
        Some(t) => Some(t@),
        None => None,
    };
    let r = language_from(sys);
    proof {
        assert(r@ == language_from_spec(sys_view));
    }
    r
}

/// The fallback language, "en-US", as bytes.
pub fn fallback_language() -> (r: Vec<u8>)
    ensures
        r@ == fallback_lang_tag(),
{
    let r: Vec<u8> = vec![101u8, 110u8, 45u8, 85u8, 83u8];
    proof {
        assert(r@ =~= fallback_lang_tag());
    }
    r
}

} // verus!
