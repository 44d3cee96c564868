//! Names of files.

use crate::text::{chars_of, concat2, concat3, string_of};
use vstd::prelude::*;
use vstd::slice::slice_subrange;

verus! {

/// The position of the last `c` in `s`.
pub open spec fn last_index(s: Seq<char>, c: char) -> Option<int>
    decreases s.len(),
{
    if s.len() == 0 {
        None
    } else if s.last() == c {
        Some(s.len() - 1)
    } else {
        last_index(s.drop_last(), c)
    }
}

/// Where the dot before the extension of a file name stands. A dot at the
/// beginning of the name is none.
pub open spec fn extension_dot(name: Seq<char>) -> Option<int> {
    match last_index(name, '.') {
        Some(k) => if k == 0 || name == ".."@ {
            None
        } else {
            Some(k)
        },
        None => None,
    }
}

/// The file name without its extension.
pub open spec fn stem(name: Seq<char>) -> Seq<char> {
    match extension_dot(name) {
        Some(k) => name.take(k),
        None => name,
    }
}

/// The extension of a file name, or nothing at all.
pub open spec fn extension(name: Seq<char>) -> Seq<char> {
    match extension_dot(name) {
        Some(k) => name.skip(k + 1),
        None => Seq::empty(),
    }
}

proof fn lemma_last_index(s: Seq<char>, c: char)
    ensures
        last_index(s, c) matches Some(k) ==> 0 <= k < s.len() && s[k] == c,
    decreases s.len(),
{
    if s.len() > 0 && s.last() != c {
        lemma_last_index(s.drop_last(), c);
    }
}

/// The position of the last `c` in `s`.
pub fn last_position(s: &[char], c: char) -> (r: Option<usize>)
    ensures
        match r {
            Some(k) => last_index(s@, c) == Some(k as int) && k < s@.len(),
            None => last_index(s@, c) is None,
        },
{
    let n = s.len();
    let mut i: usize = n;
    assert(s@.take(n as int) =~= s@);
    while i > 0
        invariant
            i <= n == s@.len(),
            last_index(s@, c) == last_index(s@.take(i as int), c),
        decreases i,
    {
        assert(s@.take(i as int).drop_last() =~= s@.take(i - 1));
        if s[i - 1] == c {
            return Some(i - 1);
        }
        i = i - 1;
    }
    None
}

fn dot_position(s: &[char]) -> (r: Option<usize>)
    ensures
        match r {
            Some(k) => extension_dot(s@) == Some(k as int) && 0 < k < s@.len(),
            None => extension_dot(s@) is None,
        },
{
    proof {
        reveal_strlit("..");
    }
    match last_position(s, '.') {
        Some(k) => {
            if k == 0 {
                return None;
            }
            if s.len() == 2 && s[0] == '.' && s[1] == '.' {
                assert(s@ =~= ".."@);
                return None;
            }
            Some(k)
        },
        None => None,
    }
}

/// Whether the file name has an extension.
pub fn has_extension(name: &str) -> (r: bool)
    ensures
        r == (extension_dot(name@) is Some),
{
    dot_position(chars_of(name).as_slice()).is_some()
}

/// The file name without its extension.
pub fn file_stem(name: &str) -> (r: String)
    ensures
        r@ == stem(name@),
{
    let s = chars_of(name);
    match dot_position(s.as_slice()) {
        Some(k) => {
            let head = slice_subrange(s.as_slice(), 0, k);
            assert(head@ =~= name@.take(k as int));
            string_of(head)
        },
        None => name.to_owned(),
    }
}

/// The extension of a file name, or nothing at all.
pub fn file_extension(name: &str) -> (r: String)
    ensures
        r@ == extension(name@),
{
    let s = chars_of(name);
    match dot_position(s.as_slice()) {
        Some(k) => {
            let n = s.len();
            let tail = slice_subrange(s.as_slice(), k + 1, n);
            assert(tail@ =~= name@.skip(k + 1));
            string_of(tail)
        },
        None => {
            let empty: Vec<char> = Vec::new();
            let r = string_of(empty.as_slice());
            assert(r@ =~= Seq::<char>::empty());
            r
        },
    }
}

/// The path of a name below a directory. A name that begins with a slash stands
/// alone.
pub open spec fn joined_path(dir: Seq<char>, name: Seq<char>) -> Seq<char> {
    if dir.len() == 0 || (name.len() > 0 && name[0] == '/') {
        name
    } else if dir.last() == '/' {
        dir + name
    } else {
        dir + "/"@ + name
    }
}

/// The path of a name below a directory.
pub fn join_path(dir: &str, name: &str) -> (r: String)
    ensures
        r@ == joined_path(dir@, name@),
{
    let d = chars_of(dir);
    let c = chars_of(name);
    if d.len() == 0 || (c.len() > 0 && c[0] == '/') {
        name.to_owned()
    } else if d[d.len() - 1] == '/' {
        concat2(dir, name)
    } else {
        concat3(dir, "/", name)
    }
}

/// The last part of a path.
pub open spec fn last_part(path: Seq<char>) -> Seq<char> {
    match last_index(path, '/') {
        Some(k) => path.skip(k + 1),
        None => path,
    }
}

/// The last part of a path.
pub fn last_part_of(path: &str) -> (r: String)
    ensures
        r@ == last_part(path@),
{
    let s = chars_of(path);
    match last_position(s.as_slice(), '/') {
        Some(k) => {
            let n = s.len();
            let tail = slice_subrange(s.as_slice(), k + 1, n);
            assert(tail@ =~= path@.skip(k + 1));
            string_of(tail)
        },
        None => path.to_owned(),
    }
}

/// A name with an extension is made of its stem, a dot and its extension.
pub proof fn law_stem_and_extension(name: Seq<char>)
    ensures
        extension_dot(name) is Some ==> name == stem(name) + seq!['.'] + extension(name),
        extension_dot(name) is None ==> name == stem(name) && extension(name).len() == 0,
{
    lemma_last_index(name, '.');
    match extension_dot(name) {
        Some(k) => {
            assert(name =~= name.take(k) + seq!['.'] + name.skip(k + 1));
        },
        None => {},
    }
}

proof fn lemma_last_of(head: Seq<char>, c: char, rest: Seq<char>)
    requires
        !rest.contains(c),
    ensures
        last_index(head + seq![c] + rest, c) == Some(head.len() as int),
    decreases rest.len(),
{
    let s = head + seq![c] + rest;
    if rest.len() == 0 {
        assert(s =~= head + seq![c]);
    } else {
        assert(s.last() == rest.last());
        assert(rest.contains(rest.last()));
        let fewer = rest.drop_last();
        assert forall|k: int| 0 <= k < fewer.len() implies fewer[k] != c by {
            assert(rest.contains(rest[k]));
        }
        lemma_last_of(head, c, fewer);
        assert(s.drop_last() =~= head + seq![c] + fewer);
    }
}

proof fn lemma_none_of(s: Seq<char>, c: char)
    requires
        !s.contains(c),
    ensures
        last_index(s, c) is None,
    decreases s.len(),
{
    if s.len() > 0 {
        assert(s.contains(s.last()));
        let fewer = s.drop_last();
        assert forall|k: int| 0 <= k < fewer.len() implies fewer[k] != c by {
            assert(s.contains(s[k]));
        }
        lemma_none_of(fewer, c);
    }
}

/// The last dot of a file name parts its stem from its extension, whatever
/// stands before that dot.
pub proof fn law_last_dot_parts(base: Seq<char>, ext: Seq<char>)
    requires
        base.len() > 0,
        !ext.contains('.'),
        base != seq!['.'] || ext.len() > 0,
    ensures
        stem(base + seq!['.'] + ext) == base,
        extension(base + seq!['.'] + ext) == ext,
{
    let name = base + seq!['.'] + ext;
    lemma_last_of(base, '.', ext);
    reveal_strlit("..");
    if name == ".."@ {
        assert(name.len() == 2);
        assert(name[0] == base[0] == '.');
        assert(base =~= seq!['.']);
    }
    assert(name.take(base.len() as int) =~= base);
    assert(name.skip(base.len() as int + 1) =~= ext);
}

/// A file name that has no dot, or one at its beginning alone, has no
/// extension.
pub proof fn law_plain_name_has_no_extension(name: Seq<char>)
    requires
        !name.contains('.') || !name.drop_first().contains('.'),
    ensures
        stem(name) == name,
        extension(name).len() == 0,
{
    if name.contains('.') {
        let rest = name.drop_first();
        if name[0] != '.' {
            let k = choose|k: int| 0 <= k < name.len() && name[k] == '.';
            assert(rest[k - 1] == '.');
            assert(rest.contains('.'));
        }
        lemma_last_of(Seq::empty(), '.', rest);
        assert(Seq::<char>::empty() + seq!['.'] + rest =~= name);
    } else {
        lemma_none_of(name, '.');
    }
}

/// An extension holds no dot.
pub proof fn law_extension_has_no_dot(name: Seq<char>)
    ensures
        !extension(name).contains('.'),
{
    lemma_nothing_behind(name, '.');
    lemma_last_index(name, '.');
    match extension_dot(name) {
        Some(k) => {
            let ext = name.skip(k + 1);
            assert forall|i: int| 0 <= i < ext.len() implies ext[i] != '.' by {
                assert(ext[i] == name[k + 1 + i]);
            }
        },
        None => {},
    }
}

proof fn lemma_nothing_behind(s: Seq<char>, c: char)
    ensures
        last_index(s, c) matches Some(k) ==> forall|i: int| k < i < s.len() ==> s[i] != c,
    decreases s.len(),
{
    if s.len() > 0 && s.last() != c {
        lemma_nothing_behind(s.drop_last(), c);
        lemma_last_index(s.drop_last(), c);
        match last_index(s, c) {
            Some(k) => {
                assert forall|i: int| k < i < s.len() implies s[i] != c by {
                    if i < s.len() - 1 {
                        assert(s[i] == s.drop_last()[i]);
                    }
                }
            },
            None => {},
        }
    }
}

/// The last part of a path is what was joined to a directory.
pub proof fn law_last_part_was_joined(dir: Seq<char>, name: Seq<char>)
    requires
        !name.contains('/'),
    ensures
        last_part(joined_path(dir, name)) == name,
        dir.len() > 0 && dir.last() != '/' ==> joined_path(dir, name) == dir + seq!['/'] + name,
{
    reveal_strlit("/");
    if name.len() > 0 {
        assert(name.contains(name[0]));
    }
    if dir.len() == 0 {
        lemma_none_of(name, '/');
    } else if dir.last() == '/' {
        lemma_last_of(dir.drop_last(), '/', name);
        assert(dir.drop_last() + seq!['/'] + name =~= dir + name);
        assert((dir + name).skip(dir.len() as int) =~= name);
    } else {
        lemma_last_of(dir, '/', name);
        assert(dir + "/"@ + name =~= dir + seq!['/'] + name);
        assert((dir + "/"@ + name).skip(dir.len() as int + 1) =~= name);
    }
}

} // verus!
