//! Which files the native plugin loader accepts, and when it may unload.

use vstd::prelude::*;

verus! {

/// The operating systems whose dynamic libraries differ in extension and in
/// whether they can be unloaded.
#[derive(Debug, Clone, Copy, PartialEq, Eq, Structural)]
pub enum TargetOs {
    Windows,
    MacOs,
    Other,
}

/// `c` with ASCII upper case letters made lower case.
pub open spec fn ascii_lower(c: char) -> char {
    if 'A' <= c <= 'Z' {
        ((c as u32) + 32) as char
    } else {
        c
    }
}

/// Equality of two strings up to ASCII case.
pub open spec fn eq_ignore_ascii_case(a: Seq<char>, b: Seq<char>) -> bool {
    a.len() == b.len() && forall|i: int| 0 <= i < a.len() ==> ascii_lower(a[i]) == ascii_lower(b[i])
}

/// The file extension of dynamic libraries on `os`.
pub open spec fn library_extension(os: TargetOs) -> Seq<char> {
    match os {
        TargetOs::Windows => seq!['d', 'l', 'l'],
        TargetOs::MacOs => seq!['d', 'y', 'l', 'i', 'b'],
        TargetOs::Other => seq!['s', 'o'],
    }
}

/// The code of `c` with ASCII upper case letters made lower case.
pub open spec fn lower_code(c: char) -> u32 {
    if 'A' <= c <= 'Z' {
        ((c as u32) + 32) as u32
    } else {
        c as u32
    }
}

proof fn lemma_lower_code(a: char, b: char)
    ensures
        (ascii_lower(a) == ascii_lower(b)) == (lower_code(a) == lower_code(b)),
{
    assert(ascii_lower(a) as u32 == lower_code(a));
    assert(ascii_lower(b) as u32 == lower_code(b));
}

fn same_letter(a: char, b: char) -> (r: bool)
    ensures
        r == (ascii_lower(a) == ascii_lower(b)),
{
    proof {
        lemma_lower_code(a, b);
    }
    let la: u32 = if 'A' <= a && a <= 'Z' {
        (a as u32) + 32
    } else {
        a as u32
    };
    let lb: u32 = if 'A' <= b && b <= 'Z' {
        (b as u32) + 32
    } else {
        b as u32
    };
    la == lb
}

/// Loader for plugins compiled to dynamic libraries.
pub struct NativePluginLoader;

impl NativePluginLoader {
    /// Whether a file with extension `extension` is a plugin this loader can
    /// load on `os`: its extension is the dynamic library extension of `os`
    /// up to ASCII case.
    pub fn can_load(&self, extension: &str, os: TargetOs) -> (b: bool)
        ensures
            b == eq_ignore_ascii_case(extension@, library_extension(os)),
    {
        let expected: &[char] = match os {
            TargetOs::Windows => &['d', 'l', 'l'],
            TargetOs::MacOs => &['d', 'y', 'l', 'i', 'b'],
            TargetOs::Other => &['s', 'o'],
        };
        assert(expected@ == library_extension(os));
        let n = extension.unicode_len();
        if n != expected.len() {
            return false;
        }
        let mut i: usize = 0;
        while i < n
            invariant
                i <= n,
                n == extension@.len(),
                n == expected@.len(),
                expected@ == library_extension(os),
                forall|j: int|
                    0 <= j < i ==> ascii_lower(extension@[j]) == ascii_lower(expected@[j]),
            decreases n - i,
        {
            if !same_letter(extension.get_char(i), expected[i]) {
                return false;
            }
            i = i + 1;
        }
        true
    }

    /// Whether a loaded plugin may be unloaded on `os`: Windows keeps
    /// loaded libraries locked.
    pub fn can_unload(&self, os: TargetOs) -> (b: bool)
        ensures
            b == (os != TargetOs::Windows),
    {
        match os {
            TargetOs::Windows => false,
            _ => true,
        }
    }
}


/// Dynamic libraries end in `dll` on Windows, `dylib` on macOS and `so`
/// elsewhere, and no two systems share an extension.
pub proof fn lemma_library_extensions(a: TargetOs, b: TargetOs)
    ensures
        library_extension(TargetOs::Windows) == seq!['d', 'l', 'l'],
        library_extension(TargetOs::MacOs) == seq!['d', 'y', 'l', 'i', 'b'],
        library_extension(TargetOs::Other) == seq!['s', 'o'],
        library_extension(a) == library_extension(b) ==> a == b,
{
    if a != b {
        assert(library_extension(a).len() != library_extension(b).len() || library_extension(a)[1]
            != library_extension(b)[1]);
    }
}

} // verus!
