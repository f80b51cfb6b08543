//! Platform targets and the fixed conventions attached to each of them.
use vstd::prelude::*;
use vstd::string::*;

verus! {

/// A packaging target: one concrete operating system, or all of them.
#[derive(Clone, Copy, Debug, PartialEq, Eq, Structural)]
pub enum Platform {
    Windows,
    Linux,
    MacOS,
    All,
}

/// `c` is `d` up to ASCII case, where `d` is the lower-case form.
pub open spec fn folds_to(c: char, d: char) -> bool {
    c == d || ('A' <= c && c <= 'Z' && (c as u32) + 32 == (d as u32))
}

/// `s` spells the lower-case token `t`, ignoring ASCII case.
pub open spec fn spells(s: Seq<char>, t: Seq<char>) -> bool {
    &&& s.len() == t.len()
    &&& forall|i: int| 0 <= i < s.len() ==> folds_to(#[trigger] s[i], t[i])
}

/// The platform that a user token selects, if any.
pub open spec fn platform_of(s: Seq<char>) -> Option<Platform> {
    if spells(s, "windows"@) || spells(s, "win"@) {
        Some(Platform::Windows)
    } else if spells(s, "linux"@) || spells(s, "ubuntu"@) || spells(s, "debian"@) {
        Some(Platform::Linux)
    } else if spells(s, "macos"@) || spells(s, "mac"@) || spells(s, "darwin"@) {
        Some(Platform::MacOS)
    } else if spells(s, "all"@) {
        Some(Platform::All)
    } else {
        None
    }
}

/// The canonical token of each platform.
pub open spec fn canonical_token(p: Platform) -> Seq<char> {
    match p {
        Platform::Windows => "windows"@,
        Platform::Linux => "linux"@,
        Platform::MacOS => "macos"@,
        Platform::All => "all"@,
    }
}

/// The name of the release subdirectory of each platform.
pub open spec fn target_name_of(p: Platform) -> Seq<char> {
    match p {
        Platform::Windows => "windows"@,
        Platform::Linux => "linux"@,
        Platform::MacOS => "mac"@,
        Platform::All => "all"@,
    }
}

/// The concrete platforms that a selection stands for, in build order.
pub open spec fn expansion_of(p: Platform) -> Seq<Platform> {
    match p {
        Platform::All => seq![Platform::Windows, Platform::Linux, Platform::MacOS],
        _ => seq![p],
    }
}

/// Arguments of the package manager's build command for each platform.
pub open spec fn build_args_of(p: Platform) -> Seq<Seq<char>> {
    match p {
        Platform::Windows => seq!["run"@, "build"@, "--"@, "--win"@],
        Platform::Linux => seq!["run"@, "build"@, "--"@, "--linux"@],
        Platform::MacOS => seq!["run"@, "build"@, "--"@, "--mac"@],
        Platform::All => seq!["run"@, "build"@],
    }
}

/// Path, below the build output directory, of the unpacked application tree.
pub open spec fn unpacked_path_of(p: Platform) -> Seq<Seq<char>> {
    match p {
        Platform::Windows => seq!["win-unpacked"@],
        Platform::Linux => seq!["linux-unpacked"@],
        Platform::MacOS => seq!["mac"@],
        Platform::All => seq![],
    }
}

/// File-name patterns of the installer packages of each platform.
pub open spec fn installer_patterns_of(p: Platform) -> Seq<Seq<char>> {
    match p {
        Platform::Windows => seq!["*.exe"@],
        Platform::Linux => seq!["*.AppImage"@, "*.deb"@],
        Platform::MacOS => seq!["*.dmg"@],
        Platform::All => seq!["*.exe"@, "*.AppImage"@, "*.deb"@, "*.dmg"@],
    }
}

/// Each canonical token is spelled by itself.
proof fn lemma_spells_self(t: Seq<char>)
    ensures
        spells(t, t),
{
}

/// Every recognised token selects the same platform as that platform's
/// canonical token: a synonym never changes the outcome of parsing.
pub proof fn lemma_synonym_is_canonical(s: Seq<char>)
    requires
        platform_of(s) is Some,
    ensures
        platform_of(canonical_token(platform_of(s)->0)) == platform_of(s),
{
    reveal_strlit("windows");
    reveal_strlit("win");
    reveal_strlit("linux");
    reveal_strlit("ubuntu");
    reveal_strlit("debian");
    reveal_strlit("macos");
    reveal_strlit("mac");
    reveal_strlit("darwin");
    reveal_strlit("all");
    let c = canonical_token(platform_of(s)->0);
    lemma_spells_self(c);
    assert(!folds_to("linux"@[0], "windows"@[0]));
    assert(!folds_to("macos"@[0], "linux"@[0]));
    assert(!folds_to("all"@[0], "win"@[0]));
    assert(!folds_to("all"@[0], "mac"@[0]));
}

/// Whether `s` spells the lower-case token `t`, ignoring ASCII case.
pub fn spells_token(s: &str, t: &str) -> (r: bool)
    ensures
        r == spells(s@, t@),
{
    let n = s.unicode_len();
    if n != t.unicode_len() {
        return false;
    }
    let mut i: usize = 0;
    while i < n
        invariant
            n == s@.len(),
            n == t@.len(),
            i <= n,
            forall|k: int| 0 <= k < i ==> folds_to(#[trigger] s@[k], t@[k]),
        decreases n - i,
    {
        let c = s.get_char(i);
        let d = t.get_char(i);
        if !(c == d || ('A' <= c && c <= 'Z' && (c as u32) + 32 == (d as u32))) {
            return false;
        }
        i = i + 1;
    }
    true
}

/// Pushes an owned copy of `s` onto `v`.
fn push_str(v: &mut Vec<String>, s: &str)
    ensures
        final(v).deep_view() == old(v).deep_view().push(s@),
{
    let owned = String::from_str(s);
    v.push(owned);
    proof {
        assert(final(v).deep_view() =~= old(v).deep_view().push(s@));
    }
}

impl Platform {
    /// The platform selected by `s`, case-insensitively, with its synonyms;
    /// `None` when `s` names no platform.
    pub fn from_string(s: &str) -> (r: Option<Platform>)
        ensures
            r == platform_of(s@),
    {
        if spells_token(s, "windows") || spells_token(s, "win") {
            Some(Platform::Windows)
        } else if spells_token(s, "linux") || spells_token(s, "ubuntu") || spells_token(
            s,
            "debian",
        ) {
            Some(Platform::Linux)
        } else if spells_token(s, "macos") || spells_token(s, "mac") || spells_token(s, "darwin") {
            Some(Platform::MacOS)
        } else if spells_token(s, "all") {
            Some(Platform::All)
        } else {
            None
        }
    }

    /// The platform of an optional token: `All` when there is none.
    pub fn from_arg(s: Option<&str>) -> (r: Option<Platform>)
        ensures
            r == (match s {
                Some(t) => platform_of(t@),
                None => Some(Platform::All),
            }),
    {
        match s {
            Some(t) => Platform::from_string(t),
            None => Some(Platform::All),
        }
    }

    /// Name of the platform's release subdirectory.
    pub fn target_name(&self) -> (r: &'static str)
        ensures
            r@ == target_name_of(*self),
    {
        match self {
            Platform::Windows => "windows",
            Platform::Linux => "linux",
            Platform::MacOS => "mac",
            Platform::All => "all",
        }
    }

    /// The concrete platforms to build for this selection, in order.
    pub fn expand(&self) -> (r: Vec<Platform>)
        ensures
            r@ == expansion_of(*self),
    {
        let mut r: Vec<Platform> = Vec::new();
        match self {
            Platform::All => {
                r.push(Platform::Windows);
                r.push(Platform::Linux);
                r.push(Platform::MacOS);
            },
            _ => {
                r.push(*self);
            },
        }
        proof {
            assert(r@ =~= expansion_of(*self));
        }
        r
    }

    /// Arguments of the build command; the package manager runs it after a
    /// successful `install`.
    pub fn build_args(&self) -> (r: Vec<String>)
        ensures
            r.deep_view() == build_args_of(*self),
    {
        let mut r: Vec<String> = Vec::new();
        push_str(&mut r, "run");
        push_str(&mut r, "build");
        match self {
            Platform::Windows => {
                push_str(&mut r, "--");
                push_str(&mut r, "--win");
            },
            Platform::Linux => {
                push_str(&mut r, "--");
                push_str(&mut r, "--linux");
            },
            Platform::MacOS => {
                push_str(&mut r, "--");
                push_str(&mut r, "--mac");
            },
            Platform::All => {},
        }
        proof {
            assert(r.deep_view() =~= build_args_of(*self));
        }
        r
    }

    /// Path, below the build output directory, of the unpacked application
    /// tree; empty for `All`, whose tree is the output directory itself.
    pub fn unpacked_path(&self) -> (r: Vec<String>)
        ensures
            r.deep_view() == unpacked_path_of(*self),
    {
        let mut r: Vec<String> = Vec::new();
        match self {
            Platform::Windows => push_str(&mut r, "win-unpacked"),
            Platform::Linux => push_str(&mut r, "linux-unpacked"),
            Platform::MacOS => push_str(&mut r, "mac"),
            Platform::All => {},
        }
        proof {
            assert(r.deep_view() =~= unpacked_path_of(*self));
        }
        r
    }

    /// File-name patterns of the platform's installer packages.
    pub fn installer_patterns(&self) -> (r: Vec<String>)
        ensures
            r.deep_view() == installer_patterns_of(*self),
    {
        let mut r: Vec<String> = Vec::new();
        match self {
            Platform::Windows => push_str(&mut r, "*.exe"),
            Platform::Linux => {
                push_str(&mut r, "*.AppImage");
                push_str(&mut r, "*.deb");
            },
            Platform::MacOS => push_str(&mut r, "*.dmg"),
            Platform::All => {
                push_str(&mut r, "*.exe");
                push_str(&mut r, "*.AppImage");
                push_str(&mut r, "*.deb");
                push_str(&mut r, "*.dmg");
            },
        }
        proof {
            assert(r.deep_view() =~= installer_patterns_of(*self));
        }
        r
    }
}

} // verus!
