//! Paths as text: components separated by `/`.
//!
//! Repeated separators, a trailing separator and `.` components (but for a leading
//! one) do not count as components.

use crate::text;
use vstd::prelude::*;

verus! {

// ---------------------------------------------------------------------------
// Model
// ---------------------------------------------------------------------------

/// `s` without the separators and `.` components at its end; the root stays.
pub open spec fn tidied(s: Seq<char>) -> Seq<char>
    decreases s.len(),
{
    if s.len() >= 2 && s.last() == '/' {
        tidied(s.drop_last())
    } else if s.len() >= 2 && s.last() == '.' && s[s.len() - 2] == '/' {
        tidied(s.drop_last())
    } else {
        s
    }
}

/// Just behind the last `c` in `s`, or 0 when there is none.
pub open spec fn behind_last(s: Seq<char>, c: char) -> int
    decreases s.len(),
{
    if s.len() == 0 {
        0
    } else if s.last() == c {
        s.len() as int
    } else {
        behind_last(s.drop_last(), c)
    }
}

/// The last component, when the path has one.
pub open spec fn last_component(s: Seq<char>) -> Option<Seq<char>> {
    let t = tidied(s);
    if t.len() == 0 || t == seq!['/'] {
        None
    } else {
        Some(t.skip(behind_last(t, '/')))
    }
}

/// The path without its last component, when it has one.
pub open spec fn parent_of(s: Seq<char>) -> Option<Seq<char>> {
    let t = tidied(s);
    if t.len() == 0 || t == seq!['/'] {
        None
    } else {
        Some(tidied(t.take(behind_last(t, '/'))))
    }
}

/// The file name: the last component, unless it is `.` or `..`.
pub open spec fn name_of(s: Seq<char>) -> Option<Seq<char>> {
    match last_component(s) {
        Some(c) => if c == seq!['.'] || c == seq!['.', '.'] {
            None
        } else {
            Some(c)
        },
        None => None,
    }
}

/// A file name without its extension: what stands before the last dot. A dot at
/// the start begins no extension.
pub open spec fn stem(name: Seq<char>) -> Seq<char> {
    let i = behind_last(name, '.');
    if i <= 1 {
        name
    } else {
        name.take(i - 1)
    }
}

/// A file name's extension, if it has one.
pub open spec fn extension(name: Seq<char>) -> Option<Seq<char>> {
    let i = behind_last(name, '.');
    if i <= 1 {
        None
    } else {
        Some(name.skip(i))
    }
}

/// The file name of a path without its extension.
pub open spec fn stem_of(s: Seq<char>) -> Option<Seq<char>> {
    match name_of(s) {
        Some(name) => Some(stem(name)),
        None => None,
    }
}

/// The extension of a path's file name.
pub open spec fn extension_of(s: Seq<char>) -> Option<Seq<char>> {
    match name_of(s) {
        Some(name) => extension(name),
        None => None,
    }
}

/// `dir` and a relative path below it.
pub open spec fn joined(dir: Seq<char>, below: Seq<char>) -> Seq<char> {
    if dir.len() == 0 || dir.last() == '/' {
        dir + below
    } else {
        dir.push('/') + below
    }
}

// ---------------------------------------------------------------------------
// Executable side
// ---------------------------------------------------------------------------

fn is_root(s: &[char]) -> (r: bool)
    ensures
        r == (s@ == seq!['/']),
{
    if s.len() == 1 && s[0] == '/' {
        assert(s@ =~= seq!['/']);
        true
    } else {
        false
    }
}

fn tidy(s: &[char]) -> (r: &[char])
    ensures
        r@ == tidied(s@),
{
    let mut n: usize = s.len();
    assert(s@.take(n as int) == s@);
    while n >= 2 && (s[n - 1] == '/' || (s[n - 1] == '.' && s[n - 2] == '/'))
        invariant
            n <= s.len(),
            tidied(s@) == tidied(s@.take(n as int)),
        decreases n,
    {
        assert(s@.take(n as int).drop_last() == s@.take(n - 1));
        n -= 1;
    }
    &s[0..n]
}

fn position_behind_last(s: &[char], c: char) -> (r: usize)
    ensures
        r == behind_last(s@, c),
        r <= s@.len(),
{
    let mut n: usize = s.len();
    assert(s@.take(n as int) == s@);
    while n > 0 && s[n - 1] != c
        invariant
            n <= s.len(),
            behind_last(s@, c) == behind_last(s@.take(n as int), c),
        decreases n,
    {
        assert(s@.take(n as int).drop_last() == s@.take(n - 1));
        n -= 1;
    }
    n
}

/// The path without its last component, when it has one.
pub fn parent(s: &[char]) -> (r: Option<&[char]>)
    ensures
        match r {
            Some(p) => parent_of(s@) == Some(p@),
            None => parent_of(s@) is None,
        },
{
    let t = tidy(s);
    if t.len() == 0 || is_root(t) {
        return None;
    }
    let i = position_behind_last(t, '/');
    Some(tidy(&t[0..i]))
}

/// The file name: the last component, unless it is `.` or `..`.
pub fn file_name(s: &[char]) -> (r: Option<&[char]>)
    ensures
        match r {
            Some(p) => name_of(s@) == Some(p@),
            None => name_of(s@) is None,
        },
{
    let t = tidy(s);
    if t.len() == 0 || is_root(t) {
        return None;
    }
    let i = position_behind_last(t, '/');
    let name = &t[i..t.len()];
    assert(name@ == t@.skip(i as int));
    if name.len() == 1 && name[0] == '.' {
        assert(name@ =~= seq!['.']);
        return None;
    }
    if name.len() == 2 && name[0] == '.' && name[1] == '.' {
        assert(name@ =~= seq!['.', '.']);
        return None;
    }
    Some(name)
}

/// The file name without its extension.
pub fn file_stem(s: &[char]) -> (r: Option<&[char]>)
    ensures
        match r {
            Some(p) => stem_of(s@) == Some(p@),
            None => stem_of(s@) is None,
        },
{
    match file_name(s) {
        Some(name) => {
            let i = position_behind_last(name, '.');
            if i <= 1 {
                Some(name)
            } else {
                Some(&name[0..i - 1])
            }
        },
        None => None,
    }
}

/// The extension of the file name.
pub fn file_extension(s: &[char]) -> (r: Option<&[char]>)
    ensures
        match r {
            Some(p) => extension_of(s@) == Some(p@),
            None => extension_of(s@) is None,
        },
{
    match file_name(s) {
        Some(name) => {
            let i = position_behind_last(name, '.');
            if i <= 1 {
                None
            } else {
                assert(name@.subrange(i as int, name@.len() as int) == name@.skip(i as int));
                Some(&name[i..name.len()])
            }
        },
        None => None,
    }
}

/// Go below a directory.
pub fn push(dir: &mut String, below: &str)
    ensures
        final(dir)@ == joined(old(dir)@, below@),
{
    let v = text::chars_of(dir.as_str());
    if v.len() > 0 && v[v.len() - 1] != '/' {
        dir.push('/');
    }
    dir.append(below);
}

// ---------------------------------------------------------------------------
// Laws
// ---------------------------------------------------------------------------

proof fn lemma_behind_last(a: Seq<char>, c: char, b: Seq<char>)
    requires
        !b.contains(c),
    ensures
        behind_last(a + seq![c] + b, c) == a.len() + 1,
    decreases b.len(),
{
    let s = a + seq![c] + b;
    if b.len() > 0 {
        let rest = b.drop_last();
        assert(!rest.contains(c)) by {
            if rest.contains(c) {
                let k = choose|k: int| 0 <= k < rest.len() && rest[k] == c;
                assert(b[k] == c);
            }
        }
        lemma_behind_last(a, c, rest);
        assert(s.drop_last() == a + seq![c] + rest);
        assert(b.contains(b.last()));
        assert(s.last() == b.last());
    } else {
        assert(s.last() == c);
    }
}

proof fn lemma_behind_none(b: Seq<char>, c: char)
    requires
        !b.contains(c),
    ensures
        behind_last(b, c) == 0,
    decreases b.len(),
{
    if b.len() > 0 {
        let rest = b.drop_last();
        assert(!rest.contains(c)) by {
            if rest.contains(c) {
                let k = choose|k: int| 0 <= k < rest.len() && rest[k] == c;
                assert(b[k] == c);
            }
        }
        assert(b.contains(b.last()));
        lemma_behind_none(rest, c);
    }
}

/// A directory's path without a slash behind it.
pub open spec fn is_dir(dir: Seq<char>) -> bool {
    dir.len() > 0 && dir.last() != '/' && tidied(dir) == dir
}

/// A name that an entry of a directory can have.
pub open spec fn is_entry(name: Seq<char>) -> bool {
    name.len() > 0 && !name.contains('/') && name != seq!['.'] && name != seq!['.', '.']
}

/// An entry joined to its directory has that name and that parent. On its own it has the
/// name and an empty parent.
pub proof fn law_joined_paths_come_apart(dir: Seq<char>, name: Seq<char>)
    requires
        is_dir(dir),
        is_entry(name),
    ensures
        joined(dir, name) == dir + seq!['/'] + name,
        parent_of(joined(dir, name)) == Some(dir),
        name_of(joined(dir, name)) == Some(name),
        parent_of(name) == Some(Seq::<char>::empty()),
        name_of(name) == Some(name),
        joined(Seq::empty(), name) == name,
{
    let s = dir + seq!['/'] + name;
    assert(dir.push('/') + name == s);
    assert(name.contains(name.last()));
    assert(s.last() == name.last());
    if name.len() == 1 {
        assert(name == seq![name[0]]);
    } else {
        assert(s[s.len() - 2] == name[name.len() - 2]);
        assert(name.contains(name[name.len() - 2]));
    }
    assert(tidied(s) == s);
    lemma_behind_last(dir, '/', name);
    assert(s.skip(dir.len() as int + 1) == name);
    let head = s.take(dir.len() as int + 1);
    assert(head.drop_last() == dir);
    assert(head.last() == '/');
    assert(tidied(head) == tidied(dir));
    assert(s != seq!['/']);
    assert(tidied(name) == name);
    lemma_behind_none(name, '/');
    assert(name.skip(0) == name);
    assert(name.take(0) == Seq::<char>::empty());
    assert(name != seq!['/']) by {
        if name == seq!['/'] {
            assert(name[0] == '/');
        }
    }
    assert(Seq::<char>::empty() + name == name);
}

/// A name's extension is what follows its last dot, and its stem what stands before it;
/// without a dot, or with one only in front, it is all stem.
pub proof fn law_names_come_apart(base: Seq<char>, ext: Seq<char>)
    requires
        !ext.contains('.'),
    ensures
        base.len() > 0 ==> stem(base + seq!['.'] + ext) == base && extension(
            base + seq!['.'] + ext,
        ) == Some(ext),
        stem(ext) == ext && extension(ext) is None,
        stem(seq!['.'] + ext) == seq!['.'] + ext && extension(seq!['.'] + ext) is None,
{
    let s = base + seq!['.'] + ext;
    lemma_behind_last(base, '.', ext);
    assert(s.take(base.len() as int) == base);
    assert(s.skip(base.len() as int + 1) == ext);
    lemma_behind_none(ext, '.');
    let none = Seq::<char>::empty();
    lemma_behind_last(none, '.', ext);
    assert(none + seq!['.'] + ext == seq!['.'] + ext);
}

} // verus!
