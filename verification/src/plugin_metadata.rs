//! Building a plugin's owned metadata from the strings it exposes: the
//! author, dependency and permission lists are comma-separated, each entry
//! trimmed of white space, empty entries dropped.

use vstd::prelude::*;
use crate::plugin_api::{OwnedPluginMetadata, PluginApiVersion};

verus! {

broadcast use vstd::seq_lib::group_filter_ensures;

/// Unicode white space (the `White_Space` property), the characters
/// trimming removes.
pub open spec fn is_white_space(c: char) -> bool {
    ||| '\u{9}' <= c <= '\u{d}'
    ||| c == ' '
    ||| c == '\u{85}'
    ||| c == '\u{a0}'
    ||| c == '\u{1680}'
    ||| '\u{2000}' <= c <= '\u{200a}'
    ||| c == '\u{2028}'
    ||| c == '\u{2029}'
    ||| c == '\u{202f}'
    ||| c == '\u{205f}'
    ||| c == '\u{3000}'
}

/// `s` without its leading white space.
pub open spec fn trim_start(s: Seq<char>) -> Seq<char>
    decreases s.len(),
{
    if s.len() > 0 && is_white_space(s[0]) {
        trim_start(s.drop_first())
    } else {
        s
    }
}

/// `s` without its trailing white space.
pub open spec fn trim_end(s: Seq<char>) -> Seq<char>
    decreases s.len(),
{
    if s.len() > 0 && is_white_space(s.last()) {
        trim_end(s.drop_last())
    } else {
        s
    }
}

/// `s` without leading and trailing white space.
pub open spec fn trim(s: Seq<char>) -> Seq<char> {
    trim_end(trim_start(s))
}

/// The pieces of `s` between commas, in order; a string without commas is
/// one piece, and an empty string is one empty piece.
pub open spec fn split_commas(s: Seq<char>) -> Seq<Seq<char>>
    decreases s.len(),
{
    if s.len() == 0 {
        seq![Seq::<char>::empty()]
    } else {
        let parts = split_commas(s.drop_last());
        if s.last() == ',' {
            parts.push(Seq::<char>::empty())
        } else {
            parts.update(parts.len() - 1, parts.last().push(s.last()))
        }
    }
}

/// The entries of a comma-separated list: each piece trimmed, empty ones
/// dropped.
pub open spec fn name_list(s: Seq<char>) -> Seq<Seq<char>> {
    split_commas(s).map_values(|p: Seq<char>| trim(p)).filter(|t: Seq<char>| t.len() > 0)
}

fn white_space(c: char) -> (b: bool)
    ensures
        b == is_white_space(c),
{
    ('\u{9}' <= c && c <= '\u{d}') || c == ' ' || c == '\u{85}' || c == '\u{a0}' || c
        == '\u{1680}' || ('\u{2000}' <= c && c <= '\u{200a}') || c == '\u{2028}' || c
        == '\u{2029}' || c == '\u{202f}' || c == '\u{205f}' || c == '\u{3000}'
}

proof fn lemma_trim_start_step(s: Seq<char>, a: int, i: int)
    requires
        0 <= a < i <= s.len(),
        is_white_space(s[a]),
    ensures
        trim_start(s.subrange(a, i)) == trim_start(s.subrange(a + 1, i)),
{
    assert(s.subrange(a, i).drop_first() =~= s.subrange(a + 1, i));
}

proof fn lemma_trim_end_step(s: Seq<char>, a: int, b: int)
    requires
        0 <= a < b <= s.len(),
        is_white_space(s[b - 1]),
    ensures
        trim_end(s.subrange(a, b)) == trim_end(s.subrange(a, b - 1)),
{
    assert(s.subrange(a, b).drop_last() =~= s.subrange(a, b - 1));
}

/// The trimmed piece `name[start..end]` as an owned string.
fn trimmed_piece(name: &str, start: usize, end: usize) -> (t: String)
    requires
        start <= end <= name@.len(),
    ensures
        t@ == trim(name@.subrange(start as int, end as int)),
{
    let ghost s = name@;
    let mut a = start;
    while a < end && white_space(name.get_char(a))
        invariant
            start <= a <= end <= s.len(),
            s == name@,
            trim_start(s.subrange(start as int, end as int)) == trim_start(
                s.subrange(a as int, end as int),
            ),
        decreases end - a,
    {
        proof {
            lemma_trim_start_step(s, a as int, end as int);
        }
        a = a + 1;
    }
    assert(trim_start(s.subrange(a as int, end as int)) == s.subrange(a as int, end as int));
    let mut b = end;
    while b > a && white_space(name.get_char(b - 1))
        invariant
            start <= a <= b <= end <= s.len(),
            s == name@,
            trim_end(s.subrange(a as int, end as int)) == trim_end(s.subrange(a as int, b as int)),
        decreases b - a,
    {
        proof {
            lemma_trim_end_step(s, a as int, b as int);
        }
        b = b - 1;
    }
    assert(trim_end(s.subrange(a as int, b as int)) == s.subrange(a as int, b as int));
    name.substring_char(a, b).to_owned()
}

/// The entries of a comma-separated list: each piece between commas
/// trimmed of white space, empty pieces dropped.
pub fn parse_name_list(list: &str) -> (names: Vec<String>)
    ensures
        names@.map_values(|n: String| n@) == name_list(list@),
{
    let ghost s = list@;
    let n = list.unicode_len();
    let mut names: Vec<String> = Vec::new();
    let ghost mut done: Seq<Seq<char>> = Seq::empty();
    let mut start: usize = 0;
    let mut i: usize = 0;
    assert(s.take(0) =~= Seq::<char>::empty());
    assert(split_commas(s.take(0)) =~= done.push(s.subrange(0, 0)));
    while i < n
        invariant
            s == list@,
            n == s.len(),
            start <= i <= n,
            split_commas(s.take(i as int)) == done.push(s.subrange(start as int, i as int)),
            names@.map_values(|m: String| m@) == done.map_values(|p: Seq<char>| trim(p)).filter(
                |t: Seq<char>| t.len() > 0,
            ),
        decreases n - i,
    {
        let c = list.get_char(i);
        let ghost cur = s.subrange(start as int, i as int);
        assert(s.take(i + 1).drop_last() =~= s.take(i as int));
        assert(s.take(i + 1).last() == c);
        if c == ',' {
            let piece = trimmed_piece(list, start, i);
            proof {
                lemma_push_piece(done, cur);
                done = done.push(cur);
                assert(s.subrange((i + 1) as int, (i + 1) as int) =~= Seq::<char>::empty());
            }
            let ghost before = names@;
            if piece.unicode_len() > 0 {
                names.push(piece);
                assert(names@.map_values(|m: String| m@) =~= before.map_values(|m: String| m@).push(
                    trim(cur),
                ));
            }
            start = i + 1;
        } else {
            proof {
                assert(s.subrange(start as int, i + 1) =~= cur.push(c));
                assert(done.push(cur).update(done.len() as int, cur.push(c)) =~= done.push(
                    cur.push(c),
                ));
            }
        }
        i = i + 1;
    }
    let ghost last = s.subrange(start as int, n as int);
    let piece = trimmed_piece(list, start, n);
    proof {
        assert(s.take(n as int) =~= s);
        lemma_push_piece(done, last);
    }
    let ghost before = names@;
    if piece.unicode_len() > 0 {
        names.push(piece);
        assert(names@.map_values(|m: String| m@) =~= before.map_values(|m: String| m@).push(
            trim(last),
        ));
    }
    names
}

proof fn lemma_push_piece(done: Seq<Seq<char>>, piece: Seq<char>)
    ensures
        done.push(piece).map_values(|p: Seq<char>| trim(p)).filter(|t: Seq<char>| t.len() > 0)
            == if trim(piece).len() > 0 {
            done.map_values(|p: Seq<char>| trim(p)).filter(|t: Seq<char>| t.len() > 0).push(
                trim(piece),
            )
        } else {
            done.map_values(|p: Seq<char>| trim(p)).filter(|t: Seq<char>| t.len() > 0)
        },
{
    let f = |p: Seq<char>| trim(p);
    let keep = |t: Seq<char>| t.len() > 0;
    assert(done.push(piece).map_values(f) =~= done.map_values(f).push(trim(piece)));
    done.map_values(f).lemma_filter_push(trim(piece), keep);
}

impl OwnedPluginMetadata {
    /// Owned metadata from the strings a plugin exposes: the name, version
    /// and description as given, the author, dependency and permission
    /// lists parsed as comma-separated lists.
    pub fn from_fields(
        name: String,
        version: String,
        authors: &str,
        description: String,
        dependencies: &str,
        permissions: &str,
        api_version: PluginApiVersion,
    ) -> (m: Self)
        ensures
            m.name@ == name@,
            m.version@ == version@,
            m.description@ == description@,
            m.authors@.map_values(|n: String| n@) == name_list(authors@),
            m.dependencies@.map_values(|n: String| n@) == name_list(dependencies@),
            m.permissions@.map_values(|n: String| n@) == name_list(permissions@),
            m.api_version == api_version,
    {
        OwnedPluginMetadata {
            name,
            version,
            authors: parse_name_list(authors),
            description,
            dependencies: parse_name_list(dependencies),
            permissions: parse_name_list(permissions),
            api_version,
        }
    }
}

} // verus!
