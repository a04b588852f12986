//! Interface languages and the font-coverage rule: which languages'
//! native scripts the bundled fonts can render.

use vstd::prelude::*;

verus! {

#[derive(Clone, Copy, Debug, PartialEq, Eq, Structural)]
pub enum Language {
    En,
    Es,
    Fr,
    De,
    It,
    Pt,
    Ru,
    ZhCn,
    ZhTw,
    Ja,
    Ko,
    Ar,
    Fa,
    Hi,
    Mr,
    He,
    Bn,
    Pa,
    Ta,
    Te,
    Th,
    Am,
}

impl Default for Language {
    fn default() -> (r: Self)
        ensures
            r == Language::En,
    {
        Language::En
    }
}

/// Languages whose native script none of the bundled fonts covers.
pub open spec fn spec_lacks_native_font(lang: Language) -> bool {
    lang == Language::He || lang == Language::Bn || lang == Language::Pa || lang == Language::Ta
        || lang == Language::Te || lang == Language::Th || lang == Language::Am
}

/// Can an embedded font render the language's native script?
pub fn has_native_font(lang: Language) -> (r: bool)
    ensures
        r == !spec_lacks_native_font(lang),
{
    match lang {
        Language::He
        | Language::Bn
        | Language::Pa
        | Language::Ta
        | Language::Te
        | Language::Th
        | Language::Am => false,
        _ => true,
    }
}

} // verus!
