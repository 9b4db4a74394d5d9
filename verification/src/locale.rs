//! The interface languages offered in the status bar.
use vstd::prelude::*;

use crate::pcb::parser::text::chars_of;

verus! {

/// The languages the interface is translated to: (locale code, name).
pub fn available_locales() -> (table: Vec<(&'static str, &'static str)>)
    ensures
        table@.len() == 2,
        table@[0].0@ == "en"@,
        table@[0].1@ == "English"@,
        table@[1].0@ == "fr"@,
        table@[1].1@ == "Français"@,
{
    vec![("en", "English"), ("fr", "Français")]
}

/// The display name of a locale code, or `---` for an unknown code.
pub open spec fn spec_locale_name(locale: Seq<char>) -> Seq<char> {
    if locale == "en"@ {
        "English"@
    } else if locale == "fr"@ {
        "Français"@
    } else {
        "---"@
    }
}

fn same_chars(a: &Vec<char>, b: &Vec<char>) -> (same: bool)
    ensures
        same == (a@ == b@),
{
    if a.len() != b.len() {
        return false;
    }
    let mut i: usize = 0;
    while i < a.len()
        invariant
            a.len() == b.len(),
            i <= a.len(),
            forall|k: int| 0 <= k < i ==> a@[k] == b@[k],
        decreases a.len() - i,
    {
        if a[i] != b[i] {
            return false;
        }
        i = i + 1;
    }
    assert(a@ =~= b@);
    true
}

/// The name shown for the locale code `locale`.
pub fn get_locale_name(locale: &str) -> (name: &str)
    ensures
        name@ == spec_locale_name(locale@),
{
    let table = available_locales();
    let wanted = chars_of(locale);
    let mut i: usize = 0;
    while i < table.len()
        invariant
            table@.len() == 2,
            table@[0].0@ == "en"@,
            table@[0].1@ == "English"@,
            table@[1].0@ == "fr"@,
            table@[1].1@ == "Français"@,
            wanted@ == locale@,
            i <= 2,
            forall|k: int| 0 <= k < i ==> table@[k].0@ != locale@,
        decreases 2 - i,
    {
        let (code, name) = table[i];
        let c = chars_of(code);
        if same_chars(&c, &wanted) {
            return name;
        }
        i = i + 1;
    }
    "---"
}

} // verus!
