//! The help panel: key bindings.

use vstd::prelude::*;
use crate::text::push_char;

verus! {

/// The help panel.
#[derive(Debug, Clone, PartialEq)]
pub struct HelpBar {
    /// The panel's title.
    pub title: String,
}

/// The key bindings shown, as (key, description).
pub open spec fn shortcuts_spec() -> Seq<(Seq<char>, Seq<char>)> {
    seq![
        ("q"@, "quit"@),
        ("r"@, "reload config"@),
        ("c"@, "clear history"@),
        ("j/k"@, "navigate"@),
        ("↑↓"@, "navigate"@),
        ("/"@, "filter"@),
        ("Tab"@, "switch panel"@),
        ("Enter"@, "view details"@),
        ("?"@, "toggle help"@),
    ]
}

/// A key as shown: a space, then the key left-aligned in four columns.
pub open spec fn key_label_spec(key: Seq<char>) -> Seq<char> {
    if key.len() >= 4 {
        seq![' '] + key
    } else {
        seq![' '] + key + Seq::new((4 - key.len()) as nat, |i: int| ' ')
    }
}

impl HelpBar {
    /// A help panel titled "Help".
    pub fn new() -> (r: HelpBar)
        ensures
            r.title@ == "Help"@,
    {
        HelpBar { title: String::from_str("Help") }
    }

    /// The key bindings, as (key, description).
    pub fn shortcuts() -> (r: Vec<(String, String)>)
        ensures
            crate::pairs::pairs_view(r@) == shortcuts_spec(),
    {
        let mut v: Vec<(String, String)> = Vec::new();
        v.push((String::from_str("q"), String::from_str("quit")));
        v.push((String::from_str("r"), String::from_str("reload config")));
        v.push((String::from_str("c"), String::from_str("clear history")));
        v.push((String::from_str("j/k"), String::from_str("navigate")));
        v.push((String::from_str("↑↓"), String::from_str("navigate")));
        v.push((String::from_str("/"), String::from_str("filter")));
        v.push((String::from_str("Tab"), String::from_str("switch panel")));
        v.push((String::from_str("Enter"), String::from_str("view details")));
        v.push((String::from_str("?"), String::from_str("toggle help")));
        assert(crate::pairs::pairs_view(v@) =~= shortcuts_spec());
        v
    }

    /// A key as shown in the panel.
    pub fn key_label(key: &str) -> (r: String)
        ensures
            r@ == key_label_spec(key@),
    {
        let mut s = String::new();
        push_char(&mut s, ' ');
        crate::text::push_str(&mut s, key);
        let n = key.unicode_len();
        let mut i = n;
        while i < 4
            invariant
                n == key@.len(),
                n <= i <= 4 || (n > 4 && i == n),
                i < 4 ==> n < 4,
                s@ == seq![' '] + key@ + Seq::new((i - n) as nat, |j: int| ' '),
            decreases 4 - i,
        {
            push_char(&mut s, ' ');
            assert(s@ =~= seq![' '] + key@ + Seq::new((i + 1 - n) as nat, |j: int| ' '));
            i = i + 1;
        }
        if n >= 4 {
            assert(s@ =~= seq![' '] + key@);
        }
        s
    }
}

impl Default for HelpBar {
    /// A help panel titled "Help".
    fn default() -> (r: HelpBar)
        ensures
            r.title@ == "Help"@,
    {
        HelpBar::new()
    }
}

} // verus!
