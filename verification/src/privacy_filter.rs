//! Masking of personal data (phone numbers, ID card numbers, e-mail
//! addresses, bank card numbers) before text is sent to a language model.
use vstd::prelude::*;
use vstd::string::*;

use crate::text::owned;

verus! {

/// Mainland mobile numbers, optionally with the +86 prefix, standing alone.
pub const PHONE_PATTERN: &'static str = r"(?:^|\s)(?:\+?86[-\s]?)?1[3-9]\d{9}(?:\s|$)";

/// 18-character resident ID numbers with a plausible birth date.
pub const ID_CARD_PATTERN: &'static str =
    r"(?:^|\s)\d{6}(?:19|20)\d{2}(?:0[1-9]|1[0-2])(?:0[1-9]|[12]\d|3[01])\d{3}[\dXx](?:\s|$)";

/// E-mail addresses.
pub const EMAIL_PATTERN: &'static str = r"[a-zA-Z0-9._%+-]+@[a-zA-Z0-9.-]+\.[a-zA-Z]{2,}";

/// Bank card numbers of 16 or 19 digits, optionally grouped by four.
pub const BANK_CARD_PATTERN: &'static str =
    r"(?:^|\s)\d{4}[-\s]?\d{4}[-\s]?\d{4}[-\s]?\d{4}(?:[-\s]?\d{3})?(?:\s|$)";

/// What `regex::Regex::replace_all` gives for a pattern, a text and a
/// replacement (the text itself when the pattern does not compile).
pub uninterp spec fn regex_replace_all_of(pattern: Seq<char>, text: Seq<char>, rep: Seq<char>) -> Seq<char>;

/// Compiles `pattern` with `regex::Regex::new` and replaces every match in
/// `text` with `rep` (`Regex::replace_all`); the result is
/// `regex_replace_all_of` of the three arguments.
#[verifier::external_body]
pub(crate) fn regex_replace_all(pattern: &str, text: &str, rep: &str) -> (r: String)
    ensures
        r@ == regex_replace_all_of(pattern@, text@, rep@),
{
    match regex::Regex::new(pattern) {
        Ok(re) => re.replace_all(text, rep).into_owned(),
        Err(_) => text.to_string(),
    }
}

/// Which kinds of personal data a user wants masked.
pub struct PrivacyFilters {
    pub phone: bool,
    pub id_card: bool,
    pub email: bool,
    pub bank_card: bool,
}

/// The default of each setting that a stored configuration leaves out.
pub fn default_true() -> (r: bool)
    ensures
        r,
{
    true
}

impl Default for PrivacyFilters {
    /// Every kind of personal data is masked.
    fn default() -> (r: Self)
        ensures
            r.phone && r.id_card && r.email && r.bank_card,
    {
        PrivacyFilters { phone: true, id_card: true, email: true, bank_card: true }
    }
}

/// `text` after the enabled masks, applied in order: phone numbers become
/// ` [PHONE] `, ID numbers ` [ID_CARD] `, e-mail addresses `[EMAIL]`, bank
/// card numbers ` [BANK_CARD] `.
pub open spec fn filtered(text: Seq<char>, f: PrivacyFilters) -> Seq<char> {
    let a = if f.phone {
        regex_replace_all_of(PHONE_PATTERN@, text, " [PHONE] "@)
    } else {
        text
    };
    let b = if f.id_card {
        regex_replace_all_of(ID_CARD_PATTERN@, a, " [ID_CARD] "@)
    } else {
        a
    };
    let c = if f.email {
        regex_replace_all_of(EMAIL_PATTERN@, b, "[EMAIL]"@)
    } else {
        b
    };
    if f.bank_card {
        regex_replace_all_of(BANK_CARD_PATTERN@, c, " [BANK_CARD] "@)
    } else {
        c
    }
}

/// Masks the kinds of personal data that `filters` enables.
pub fn apply_filters(text: &str, filters: &PrivacyFilters) -> (r: String)
    ensures
        r@ == filtered(text@, *filters),
{
    let mut result = owned(text);
    if filters.phone {
        result = regex_replace_all(PHONE_PATTERN, result.as_str(), " [PHONE] ");
    }
    if filters.id_card {
        result = regex_replace_all(ID_CARD_PATTERN, result.as_str(), " [ID_CARD] ");
    }
    if filters.email {
        result = regex_replace_all(EMAIL_PATTERN, result.as_str(), "[EMAIL]");
    }
    if filters.bank_card {
        result = regex_replace_all(BANK_CARD_PATTERN, result.as_str(), " [BANK_CARD] ");
    }
    result
}

/// With every mask switched off, text passes through unchanged.
pub proof fn law_disabled_filters_keep_text(text: Seq<char>, f: PrivacyFilters)
    requires
        !f.phone && !f.id_card && !f.email && !f.bank_card,
    ensures
        filtered(text, f) == text,
{
}

/// Only the enabled masks touch the text: switching off a mask that would
/// change nothing changes nothing.
pub proof fn law_only_enabled_masks_apply(text: Seq<char>, f: PrivacyFilters)
    requires
        f.phone,
        !f.id_card && !f.email && !f.bank_card,
    ensures
        filtered(text, f) == regex_replace_all_of(PHONE_PATTERN@, text, " [PHONE] "@),
{
}

/// Each mask is switched by its own setting alone: with one setting on,
/// exactly that pattern is replaced, by its own placeholder.
pub proof fn law_each_mask_has_its_switch(text: Seq<char>)
    ensures
        filtered(text, PrivacyFilters { phone: true, id_card: false, email: false, bank_card: false })
            == regex_replace_all_of(PHONE_PATTERN@, text, " [PHONE] "@),
        filtered(text, PrivacyFilters { phone: false, id_card: true, email: false, bank_card: false })
            == regex_replace_all_of(ID_CARD_PATTERN@, text, " [ID_CARD] "@),
        filtered(text, PrivacyFilters { phone: false, id_card: false, email: true, bank_card: false })
            == regex_replace_all_of(EMAIL_PATTERN@, text, "[EMAIL]"@),
        filtered(text, PrivacyFilters { phone: false, id_card: false, email: false, bank_card: true })
            == regex_replace_all_of(BANK_CARD_PATTERN@, text, " [BANK_CARD] "@),
{
}

/// With every mask on, they apply in order: phone numbers, ID numbers,
/// e-mail addresses, bank card numbers, each over the text the one before
/// it left.
pub proof fn law_all_masks_in_order(text: Seq<char>)
    ensures
        filtered(text, PrivacyFilters { phone: true, id_card: true, email: true, bank_card: true })
            == regex_replace_all_of(
            BANK_CARD_PATTERN@,
            regex_replace_all_of(
                EMAIL_PATTERN@,
                regex_replace_all_of(
                    ID_CARD_PATTERN@,
                    regex_replace_all_of(PHONE_PATTERN@, text, " [PHONE] "@),
                    " [ID_CARD] "@,
                ),
                "[EMAIL]"@,
            ),
            " [BANK_CARD] "@,
        ),
{
}

/// The ID-card mask applies when its setting is on, whatever the bank-card
/// setting, and the bank-card mask only when its own setting is on.
pub proof fn law_id_mask_independent_of_bank_mask(text: Seq<char>, f: PrivacyFilters)
    requires
        !f.phone,
        !f.email,
    ensures
        f.id_card && !f.bank_card ==> filtered(text, f) == regex_replace_all_of(
            ID_CARD_PATTERN@,
            text,
            " [ID_CARD] "@,
        ),
        f.id_card && f.bank_card ==> filtered(text, f) == regex_replace_all_of(
            BANK_CARD_PATTERN@,
            regex_replace_all_of(ID_CARD_PATTERN@, text, " [ID_CARD] "@),
            " [BANK_CARD] "@,
        ),
        !f.id_card && f.bank_card ==> filtered(text, f) == regex_replace_all_of(
            BANK_CARD_PATTERN@,
            text,
            " [BANK_CARD] "@,
        ),
{
}

/// The masks' patterns, character for character.
pub proof fn law_mask_patterns()
    ensures
        PHONE_PATTERN@ == r"(?:^|\s)(?:\+?86[-\s]?)?1[3-9]\d{9}(?:\s|$)"@,
        ID_CARD_PATTERN@
            == r"(?:^|\s)\d{6}(?:19|20)\d{2}(?:0[1-9]|1[0-2])(?:0[1-9]|[12]\d|3[01])\d{3}[\dXx](?:\s|$)"@,
        EMAIL_PATTERN@ == r"[a-zA-Z0-9._%+-]+@[a-zA-Z0-9.-]+\.[a-zA-Z]{2,}"@,
        BANK_CARD_PATTERN@ == r"(?:^|\s)\d{4}[-\s]?\d{4}[-\s]?\d{4}[-\s]?\d{4}(?:[-\s]?\d{3})?(?:\s|$)"@,
{
}

} // verus!
