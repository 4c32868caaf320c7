//! Unix path text: joining, file names and extensions.

use crate::text;
use vstd::prelude::*;

verus! {

/// `part` under `base`. An absolute `part` stands for itself; otherwise one
/// separator stands between the two, unless `base` is empty or has it already.
pub open spec fn joined_path(base: Seq<char>, part: Seq<char>) -> Seq<char> {
    if part.len() > 0 && part[0] == '/' {
        part
    } else if base.len() == 0 || base.last() == '/' {
        base + part
    } else {
        base + seq!['/'] + part
    }
}

/// Joins two paths.
pub fn join_path(base: &str, part: &str) -> (r: String)
    ensures
        r@ == joined_path(base@, part@),
{
    let n: usize = base.unicode_len();
    let m: usize = part.unicode_len();
    if m > 0 && part.get_char(0) == '/' {
        part.to_owned()
    } else if n == 0 || base.get_char(n - 1) == '/' {
        text::joined2(base, part)
    } else {
        proof {
            reveal_strlit("/");
        }
        assert("/"@ == seq!['/']);
        text::joined3(base, "/", part)
    }
}

/// `p` without the separators and `.` components that it ends with.
pub open spec fn without_trailing_dots(p: Seq<char>) -> Seq<char>
    decreases p.len(),
{
    if p.len() > 0 && p.last() == '/' {
        without_trailing_dots(p.drop_last())
    } else if p.len() > 1 && p.last() == '.' && p[p.len() - 2] == '/' {
        without_trailing_dots(p.drop_last())
    } else {
        p
    }
}

/// What follows the last `c` of `s`; all of `s` where it holds none.
pub open spec fn after_last(s: Seq<char>, c: char) -> Seq<char>
    decreases s.len(),
{
    if s.len() == 0 || s.last() == c {
        Seq::empty()
    } else {
        after_last(s.drop_last(), c).push(s.last())
    }
}

/// The extension of the last component of a path: what follows its last dot.
/// A name without a dot, or whose only dot comes first, has none.
pub open spec fn extension(p: Seq<char>) -> Option<Seq<char>> {
    let name = after_last(without_trailing_dots(p), '/');
    let ext = after_last(name, '.');
    if name.len() == 0 || name == seq!['.', '.'] || ext.len() + 1 >= name.len() {
        None
    } else {
        Some(ext)
    }
}

/// Whether a path has the extension `mp3`, in any letter case.
pub open spec fn mp3_path(p: Seq<char>) -> bool {
    extension(p) matches Some(ext) && text::ascii_lower(ext) == "mp3"@
}

proof fn lemma_after_last(s: Seq<char>, c: char, i: int)
    requires
        0 <= i <= s.len(),
        i == 0 || s[i - 1] == c,
        forall|k: int| i <= k < s.len() ==> s[k] != c,
    ensures
        after_last(s, c) == s.skip(i),
    decreases s.len(),
{
    if i == s.len() {
        assert(s.skip(i) == Seq::<char>::empty());
    } else {
        lemma_after_last(s.drop_last(), c, i);
        assert(s.skip(i) == s.drop_last().skip(i).push(s.last()));
    }
}

/// Where the part of `v[..end]` behind its last `c` begins.
fn last_part(v: &Vec<char>, from: usize, end: usize, c: char) -> (r: usize)
    requires
        from <= end <= v@.len(),
    ensures
        from <= r <= end,
        after_last(v@.subrange(from as int, end as int), c) == v@.subrange(r as int, end as int),
{
    let mut i: usize = end;
    while i > from && v[i - 1] != c
        invariant
            from <= i <= end <= v@.len(),
            forall|k: int| i <= k < end ==> v@[k] != c,
        decreases i,
    {
        i -= 1;
    }
    proof {
        let s = v@.subrange(from as int, end as int);
        lemma_after_last(s, c, i - from);
        assert(s.skip(i - from) == v@.subrange(i as int, end as int));
    }
    i
}

/// Whether a path has the extension `mp3`, in any letter case.
pub fn is_mp3_path(p: &str) -> (r: bool)
    ensures
        r == mp3_path(p@),
{
    let v = text::chars_of(p);
    let mut end: usize = v.len();
    assert(p@.take(end as int) == p@);
    while end > 0 && (v[end - 1] == '/' || (end > 1 && v[end - 1] == '.' && v[end - 2] == '/'))
        invariant
            v@ == p@,
            end <= v@.len(),
            without_trailing_dots(p@) == without_trailing_dots(p@.take(end as int)),
        decreases end,
    {
        assert(p@.take(end as int).drop_last() == p@.take(end as int - 1));
        end -= 1;
    }
    let ghost whole = p@.take(end as int);
    assert(without_trailing_dots(p@) == whole);
    let start = last_part(&v, 0, end, '/');
    let ghost name = p@.subrange(start as int, end as int);
    assert(v@.subrange(0, end as int) == whole);
    assert(after_last(whole, '/') == name);
    let dot = last_part(&v, start, end, '.');
    let ghost ext = p@.subrange(dot as int, end as int);
    assert(after_last(name, '.') == ext);
    if start == end {
        return false;
    }
    if end - start == 2 && v[start] == '.' && v[start + 1] == '.' {
        assert(name == seq!['.', '.']);
        return false;
    }
    assert(name != seq!['.', '.']) by {
        if name == seq!['.', '.'] {
            assert(name[0] == '.' && name[1] == '.');
        }
    }
    if dot <= start + 1 {
        return false;
    }
    let e = text::string_of(&v, dot, end);
    text::same_text(text::to_ascii_lower(e.as_str()).as_str(), "mp3")
}

} // verus!
