//! Classifying downloaded files: extension extraction, the installer set,
//! and the action the UI should offer for a path.

use vstd::prelude::*;

use crate::strutil::last_index_of;
use crate::task::{after_last, before_last, has_char, lemma_after_last_absent, lemma_split_at_last};

verus! {

/// ASCII lowercasing of one character.
pub open spec fn lower_char(c: char) -> char {
    if c == 'A' {
        'a'
    } else if c == 'B' {
        'b'
    } else if c == 'C' {
        'c'
    } else if c == 'D' {
        'd'
    } else if c == 'E' {
        'e'
    } else if c == 'F' {
        'f'
    } else if c == 'G' {
        'g'
    } else if c == 'H' {
        'h'
    } else if c == 'I' {
        'i'
    } else if c == 'J' {
        'j'
    } else if c == 'K' {
        'k'
    } else if c == 'L' {
        'l'
    } else if c == 'M' {
        'm'
    } else if c == 'N' {
        'n'
    } else if c == 'O' {
        'o'
    } else if c == 'P' {
        'p'
    } else if c == 'Q' {
        'q'
    } else if c == 'R' {
        'r'
    } else if c == 'S' {
        's'
    } else if c == 'T' {
        't'
    } else if c == 'U' {
        'u'
    } else if c == 'V' {
        'v'
    } else if c == 'W' {
        'w'
    } else if c == 'X' {
        'x'
    } else if c == 'Y' {
        'y'
    } else if c == 'Z' {
        'z'
    } else {
        c
    }
}

/// Lowercases one character.
pub fn ascii_lower(c: char) -> (r: char)
    ensures
        r == lower_char(c),
{
    match c {
        'A' => 'a',
        'B' => 'b',
        'C' => 'c',
        'D' => 'd',
        'E' => 'e',
        'F' => 'f',
        'G' => 'g',
        'H' => 'h',
        'I' => 'i',
        'J' => 'j',
        'K' => 'k',
        'L' => 'l',
        'M' => 'm',
        'N' => 'n',
        'O' => 'o',
        'P' => 'p',
        'Q' => 'q',
        'R' => 'r',
        'S' => 's',
        'T' => 't',
        'U' => 'u',
        'V' => 'v',
        'W' => 'w',
        'X' => 'x',
        'Y' => 'y',
        'Z' => 'z',
        _ => c,
    }
}

/// ASCII lowercasing of a string, character by character.
pub open spec fn lower_seq(s: Seq<char>) -> Seq<char> {
    Seq::new(s.len(), |i: int| lower_char(s[i]))
}

/// Whether two strings agree up to ASCII case.
pub fn eq_ignore_case(a: &str, b: &str) -> (r: bool)
    ensures
        r == (lower_seq(a@) == lower_seq(b@)),
{
    let alen = a.unicode_len();
    let blen = b.unicode_len();
    if alen != blen {
        proof {
            assert(lower_seq(a@).len() != lower_seq(b@).len());
        }
        return false;
    }
    let mut i: usize = 0;
    while i < alen
        invariant
            alen == a@.len(),
            blen == b@.len(),
            alen == blen,
            i <= alen,
            forall|j: int| 0 <= j < i ==> lower_char(a@[j]) == lower_char(b@[j]),
        decreases alen - i,
    {
        if ascii_lower(a.get_char(i)) != ascii_lower(b.get_char(i)) {
            proof {
                assert(lower_seq(a@)[i as int] != lower_seq(b@)[i as int]);
            }
            return false;
        }
        i += 1;
    }
    proof {
        assert(lower_seq(a@) =~= lower_seq(b@));
    }
    true
}

/// The extension of a path: what follows the last dot of the last path
/// segment, provided something precedes that dot. A leading-dot name such as
/// a hidden file has no extension.
pub open spec fn spec_extension(p: Seq<char>) -> Option<Seq<char>> {
    let seg = after_last(p, '/');
    if has_char(seg, '.') && before_last(seg, '.').len() > 0 {
        Some(after_last(seg, '.'))
    } else {
        None
    }
}

/// Extracts the extension of a path.
pub fn extension_of(path: &str) -> (r: Option<String>)
    ensures
        match r {
            Some(e) => spec_extension(path@) == Some(e@),
            None => spec_extension(path@) is None,
        },
{
    let len = path.unicode_len();
    let seg: &str = match last_index_of(path, '/') {
        Some(i) => {
            proof {
                lemma_split_at_last(path@, '/', i as int);
            }
            path.substring_char(i + 1, len)
        },
        None => {
            proof {
                lemma_after_last_absent(path@, '/');
            }
            path
        },
    };
    let seglen = seg.unicode_len();
    match last_index_of(seg, '.') {
        Some(i) => {
            proof {
                lemma_split_at_last(seg@, '.', i as int);
            }
            if i == 0 {
                None
            } else {
                Some(String::from_str(seg.substring_char(i + 1, seglen)))
            }
        },
        None => {
            proof {
                lemma_after_last_absent(seg@, '.');
                if seg@.len() > 0 && has_char(seg@, '.') {
                    assert(false);
                }
            }
            None
        },
    }
}

/// The lowercased extensions treated as installers.
pub open spec fn spec_is_installer(p: Seq<char>) -> bool {
    match spec_extension(p) {
        Some(e) => {
            let l = lower_seq(e);
            l == "exe"@ || l == "msi"@ || l == "dmg"@ || l == "pkg"@ || l == "deb"@ || l == "rpm"@
                || l == "appimage"@
        },
        None => false,
    }
}

/// Lowercasing a string already in lower case changes nothing.
proof fn lemma_lower_fixed(s: Seq<char>)
    requires
        forall|i: int| 0 <= i < s.len() ==> s[i] == lower_char(#[trigger] s[i]),
    ensures
        lower_seq(s) == s,
{
    assert(lower_seq(s) =~= s);
}

/// Whether the file at `path` is an installer package, by its extension.
pub fn is_installer_file(path: &str) -> (r: bool)
    ensures
        r == spec_is_installer(path@),
{
    proof {
        reveal_strlit("exe");
        reveal_strlit("msi");
        reveal_strlit("dmg");
        reveal_strlit("pkg");
        reveal_strlit("deb");
        reveal_strlit("rpm");
        reveal_strlit("appimage");
        lemma_lower_fixed("exe"@);
        lemma_lower_fixed("msi"@);
        lemma_lower_fixed("dmg"@);
        lemma_lower_fixed("pkg"@);
        lemma_lower_fixed("deb"@);
        lemma_lower_fixed("rpm"@);
        lemma_lower_fixed("appimage"@);
    }
    match extension_of(path) {
        Some(e) => {
            let s = e.as_str();
            eq_ignore_case(s, "exe") || eq_ignore_case(s, "msi") || eq_ignore_case(s, "dmg")
                || eq_ignore_case(s, "pkg") || eq_ignore_case(s, "deb") || eq_ignore_case(s, "rpm")
                || eq_ignore_case(s, "appimage")
        },
        None => false,
    }
}

/// The action the UI should offer for a path: fetch it when missing, install
/// an installer, run an executable, otherwise open it.
pub open spec fn spec_file_action(p: Seq<char>, path_exists: bool) -> Seq<char> {
    if !path_exists {
        "download"@
    } else if spec_is_installer(p) {
        "install"@
    } else {
        match spec_extension(p) {
            Some(e) => {
                let l = lower_seq(e);
                if l == "exe"@ || l == "app"@ {
                    "run"@
                } else {
                    "open"@
                }
            },
            None => "open"@,
        }
    }
}

/// Suggests the action for the file at `path`, which the caller has checked
/// for existence.
pub fn get_file_action(path: &str, path_exists: bool) -> (r: String)
    ensures
        r@ == spec_file_action(path@, path_exists),
{
    proof {
        reveal_strlit("exe");
        reveal_strlit("app");
        lemma_lower_fixed("exe"@);
        lemma_lower_fixed("app"@);
    }
    if !path_exists {
        String::from_str("download")
    } else if is_installer_file(path) {
        String::from_str("install")
    } else {
        match extension_of(path) {
            Some(e) => {
                if eq_ignore_case(e.as_str(), "exe") || eq_ignore_case(e.as_str(), "app") {
                    String::from_str("run")
                } else {
                    String::from_str("open")
                }
            },
            None => String::from_str("open"),
        }
    }
}

/// Admits a request to run the installer at `path`: the file must exist and
/// carry an installer extension.
pub fn run_installer_check(path: &str, path_exists: bool) -> (r: Result<(), &'static str>)
    ensures
        match r {
            Ok(_) => path_exists && spec_is_installer(path@),
            Err(_) => !path_exists || !spec_is_installer(path@),
        },
{
    if !path_exists {
        Err("the installer file does not exist")
    } else if !is_installer_file(path) {
        Err("not a valid installer file")
    } else {
        Ok(())
    }
}

/// Admits a request to open the file at `path`: it must exist.
pub fn open_file_check(path_exists: bool) -> (r: Result<(), &'static str>)
    ensures
        r is Ok <==> path_exists,
{
    if path_exists {
        Ok(())
    } else {
        Err("the file does not exist")
    }
}

/// Whether the application behind `path` counts as installed: an installer
/// package on disk is not yet installed; any other existing file is.
pub open spec fn spec_is_app_installed(p: Seq<char>, path_exists: bool) -> bool {
    if spec_is_installer(p) {
        false
    } else {
        path_exists
    }
}

/// Decides installedness for the file at `path`, which the caller has
/// checked for existence.
pub fn is_app_installed(path: &str, path_exists: bool) -> (r: bool)
    ensures
        r == spec_is_app_installed(path@, path_exists),
{
    if is_installer_file(path) {
        false
    } else {
        path_exists
    }
}

} // verus!
