//! The user command bindings: which profile the configuration names, and
//! which key runs which command.

use vstd::prelude::*;
use vstd::string::StrSliceExecFns;
use crate::names::lowercase;
use crate::names::lower_of;

verus! {

/// Key scan codes of the function-key profile.
pub const DIK_F1: u8 = 0x3B;
pub const DIK_F2: u8 = 0x3C;
pub const DIK_F3: u8 = 0x3D;
pub const DIK_F4: u8 = 0x3E;
pub const DIK_F6: u8 = 0x40;
pub const DIK_F7: u8 = 0x41;

/// The input profiles.
#[derive(Clone, Copy, Debug, PartialEq, Eq, Structural)]
pub enum InputProfile {
    FKeys,
    Punct,
}

/// The commands a key can run (each requires the modifier to be held).
#[derive(Clone, Copy, Debug, PartialEq, Eq, Structural)]
pub enum Command {
    ReloadMods,
    ToggleShowMods,
    SelectNextTexture,
    SelectPrevTexture,
    ClearTextureLists,
    TakeSnapshot,
}

/// Whether `s` starts with `p`.
pub open spec fn has_prefix(s: Seq<char>, p: Seq<char>) -> bool {
    p.len() <= s.len() && s.subrange(0, p.len() as int) == p
}

/// The profile a configured name selects, compared without regard to case:
/// names starting with "fk" select function keys, names starting with
/// "punct" select punctuation keys, anything else falls back to function
/// keys. The flag tells whether the name was recognized.
pub open spec fn spec_profile(name: Seq<char>) -> (InputProfile, bool) {
    let l = lower_of(name);
    if has_prefix(l, seq!['f', 'k']) {
        (InputProfile::FKeys, true)
    } else if has_prefix(l, seq!['p', 'u', 'n', 'c', 't']) {
        (InputProfile::Punct, true)
    } else {
        (InputProfile::FKeys, false)
    }
}

fn starts_with(s: &str, p: &str) -> (r: bool)
    ensures
        r == has_prefix(s@, p@),
{
    let n = s.unicode_len();
    let m = p.unicode_len();
    if m > n {
        return false;
    }
    let mut i: usize = 0;
    while i < m
        invariant
            m <= n,
            n == s@.len(),
            m == p@.len(),
            i <= m,
            forall|j: int| 0 <= j < i ==> s@[j] == p@[j],
        decreases m - i,
    {
        if s.get_char(i) != p.get_char(i) {
            assert(s@.subrange(0, m as int)[i as int] != p@[i as int]);
            return false;
        }
        i = i + 1;
    }
    assert(s@.subrange(0, m as int) =~= p@);
    true
}

/// Picks the input profile a configured name selects (see `spec_profile`).
pub fn input_profile(name: &str) -> (r: (InputProfile, bool))
    ensures
        r == spec_profile(name@),
{
    let l = lowercase(name);
    let fk = "fk";
    let punct = "punct";
    proof {
        reveal_strlit("fk");
        reveal_strlit("punct");
        assert(fk@ =~= seq!['f', 'k']);
        assert(punct@ =~= seq!['p', 'u', 'n', 'c', 't']);
    }
    if starts_with(l.as_str(), fk) {
        (InputProfile::FKeys, true)
    } else if starts_with(l.as_str(), punct) {
        (InputProfile::Punct, true)
    } else {
        (InputProfile::FKeys, false)
    }
}

/// The key bindings of the function-key profile.
pub open spec fn fkey_bindings() -> Seq<(u8, Command)> {
    seq![
        (DIK_F1, Command::ReloadMods),
        (DIK_F2, Command::ToggleShowMods),
        (DIK_F3, Command::SelectNextTexture),
        (DIK_F4, Command::SelectPrevTexture),
        (DIK_F6, Command::ClearTextureLists),
        (DIK_F7, Command::TakeSnapshot),
    ]
}

/// The key bindings of a profile. The punctuation profile binds nothing.
pub fn bindings(profile: InputProfile) -> (r: Vec<(u8, Command)>)
    ensures
        r@ == (match profile {
            InputProfile::FKeys => fkey_bindings(),
            InputProfile::Punct => Seq::<(u8, Command)>::empty(),
        }),
{
    match profile {
        InputProfile::FKeys => {
            let r = vec![
                (DIK_F1, Command::ReloadMods),
                (DIK_F2, Command::ToggleShowMods),
                (DIK_F3, Command::SelectNextTexture),
                (DIK_F4, Command::SelectPrevTexture),
                (DIK_F6, Command::ClearTextureLists),
                (DIK_F7, Command::TakeSnapshot),
            ];
            assert(r@ =~= fkey_bindings());
            r
        },
        InputProfile::Punct => {
            let r: Vec<(u8, Command)> = Vec::new();
            assert(r@ =~= Seq::<(u8, Command)>::empty());
            r
        },
    }
}

} // verus!
