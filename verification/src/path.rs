//! Paths as text: components separated by `/`, absolute when the text starts
//! with `/`.
use vstd::prelude::*;
use vstd::string::StringExecFns;
use crate::text::chars_of;
use crate::text::option_text;
use crate::text::string_of;
use crate::text::texts;

verus! {

/// The separator between the components of a path.
pub open spec fn sep() -> char {
    '/'
}

/// A path is absolute when it starts at the root of the file system.
pub open spec fn is_absolute(p: Seq<char>) -> bool {
    p.len() > 0 && p[0] == sep()
}

/// `rel` placed under `base`. An absolute `rel` replaces `base`; otherwise
/// the two are put together with exactly one separator added between them
/// unless `base` is empty or already ends in one.
pub open spec fn join(base: Seq<char>, rel: Seq<char>) -> Seq<char> {
    if is_absolute(rel) {
        rel
    } else if base.len() == 0 {
        rel
    } else if base.last() == sep() {
        base + rel
    } else {
        base.push(sep()) + rel
    }
}

/// Position `i` of `p` holds a separator that ends a non-empty directory
/// prefix: `p[..i]` names a directory that holds the rest.
pub open spec fn is_cut(p: Seq<char>, i: int) -> bool {
    0 < i < p.len() && p[i] == sep() && p[i - 1] != sep()
}

/// The directory prefixes of `p` that end before position `n`, shortest
/// first.
pub open spec fn parents_upto(p: Seq<char>, n: nat) -> Seq<Seq<char>>
    decreases n,
{
    if n == 0 {
        Seq::empty()
    } else if is_cut(p, n - 1) {
        parents_upto(p, (n - 1) as nat).push(p.subrange(0, n - 1))
    } else {
        parents_upto(p, (n - 1) as nat)
    }
}

/// Every directory that has to exist for a file at `p` to be written,
/// `p` itself left out: `a` and `a/b` for `a/b/c.html`.
pub open spec fn implied_parents(p: Seq<char>) -> Seq<Seq<char>> {
    parents_upto(p, p.len())
}

/// What `parents_upto` holds: exactly the prefixes that end at a cut below
/// `n`.
pub proof fn lemma_parents_upto_contains(p: Seq<char>, n: nat, q: Seq<char>)
    requires
        n <= p.len(),
    ensures
        parents_upto(p, n).contains(q) <==> exists|i: int|
            0 <= i < n && #[trigger] is_cut(p, i) && q == p.subrange(0, i),
    decreases n,
{
    if n == 0 {
        assert(!parents_upto(p, n).contains(q));
    } else {
        let m = (n - 1) as nat;
        lemma_parents_upto_contains(p, m, q);
        let rest = parents_upto(p, m);
        if is_cut(p, n - 1) {
            let full = rest.push(p.subrange(0, n - 1));
            assert(full == parents_upto(p, n));
            if full.contains(q) {
                let k = choose|k: int| 0 <= k < full.len() && full[k] == q;
                if k < rest.len() {
                    assert(rest[k] == q);
                    assert(rest.contains(q));
                } else {
                    assert(is_cut(p, n - 1) && q == p.subrange(0, n - 1));
                }
            }
            if exists|i: int| 0 <= i < n && #[trigger] is_cut(p, i) && q == p.subrange(0, i) {
                let i = choose|i: int| 0 <= i < n && #[trigger] is_cut(p, i) && q == p.subrange(0, i);
                if i < m {
                    assert(rest.contains(q));
                    let k = choose|k: int| 0 <= k < rest.len() && rest[k] == q;
                    assert(full[k] == q);
                } else {
                    assert(full[rest.len() as int] == q);
                }
            }
        } else {
            if exists|i: int| 0 <= i < n && #[trigger] is_cut(p, i) && q == p.subrange(0, i) {
                let i = choose|i: int| 0 <= i < n && #[trigger] is_cut(p, i) && q == p.subrange(0, i);
                assert(i < m);
            }
        }
    }
}

/// A directory is implied by `p` exactly when it is a prefix of `p` that
/// ends at a cut.
pub proof fn lemma_implied_parents_contains(p: Seq<char>, q: Seq<char>)
    ensures
        implied_parents(p).contains(q) <==> exists|i: int| #[trigger]
            is_cut(p, i) && q == p.subrange(0, i),
{
    lemma_parents_upto_contains(p, p.len(), q);
    if exists|i: int| #[trigger] is_cut(p, i) && q == p.subrange(0, i) {
        let i = choose|i: int| #[trigger] is_cut(p, i) && q == p.subrange(0, i);
        assert(0 <= i < p.len() && is_cut(p, i) && q == p.subrange(0, i));
    }
}

/// Whether `p` starts at the root of the file system.
pub fn path_is_absolute(p: &str) -> (r: bool)
    ensures
        r == is_absolute(p@),
{
    if p.is_empty() {
        false
    } else {
        p.get_char(0) == '/'
    }
}

/// `rel` placed under `base`.
pub fn path_join(base: &str, rel: &str) -> (out: String)
    ensures
        out@ == join(base@, rel@),
{
    if path_is_absolute(rel) || base.is_empty() {
        return String::from_str(rel);
    }
    let b = chars_of(base);
    let mut out = String::from_str(base);
    if b[b.len() - 1] != '/' {
        out.push('/');
    }
    out.append(rel);
    out
}

/// The directories implied by `p`, shortest first.
pub fn path_implied_parents(p: &str) -> (out: Vec<String>)
    ensures
        texts(out@) == implied_parents(p@),
{
    let chars = chars_of(p);
    let mut out: Vec<String> = Vec::new();
    let mut prefix: Vec<char> = Vec::new();
    let mut i: usize = 0;
    while i < chars.len()
        invariant
            i <= chars.len(),
            chars@ == p@,
            prefix@ == p@.subrange(0, i as int),
            texts(out@) == parents_upto(p@, i as nat),
        decreases chars.len() - i,
    {
        let c = chars[i];
        if i > 0 && c == '/' && chars[i - 1] != '/' {
            let dir = string_of(&prefix);
            proof {
                assert(texts(out@.push(dir)) =~= texts(out@).push(dir@));
            }
            out.push(dir);
        }
        prefix.push(c);
        i += 1;
        proof {
            assert(prefix@ =~= p@.subrange(0, i as int));
        }
    }
    out
}


/// A path being split: the components that are complete, and the one
/// being read.
pub ghost struct Split {
    pub done: Seq<Seq<char>>,
    pub current: Seq<char>,
}

/// The first `n` characters of `p` split at the separators; empty
/// components are left out.
pub open spec fn split_upto(p: Seq<char>, n: nat) -> Split
    decreases n,
{
    if n == 0 || n > p.len() {
        Split { done: Seq::empty(), current: Seq::empty() }
    } else {
        let before = split_upto(p, (n - 1) as nat);
        if p[n - 1] == sep() {
            if before.current.len() == 0 {
                before
            } else {
                Split { done: before.done.push(before.current), current: Seq::empty() }
            }
        } else {
            Split { current: before.current.push(p[n - 1]), ..before }
        }
    }
}

/// The components of `p`: what stands between its separators, empty
/// stretches left out. For an absolute path the root is no component.
pub open spec fn components(p: Seq<char>) -> Seq<Seq<char>> {
    let split = split_upto(p, p.len());
    if split.current.len() == 0 {
        split.done
    } else {
        split.done.push(split.current)
    }
}

/// The last component of `p`, if it has one.
pub open spec fn file_name(p: Seq<char>) -> Option<Seq<char>> {
    if components(p).len() == 0 {
        None
    } else {
        Some(components(p).last())
    }
}

/// `p` begins with `prefix`.
pub open spec fn begins_with(p: Seq<char>, prefix: Seq<char>) -> bool {
    prefix.len() <= p.len() && p.subrange(0, prefix.len() as int) == prefix
}

/// `p` ends with `suffix`.
pub open spec fn ends_with(p: Seq<char>, suffix: Seq<char>) -> bool {
    suffix.len() <= p.len() && p.subrange(p.len() - suffix.len(), p.len() as int) == suffix
}

/// `s` without the separators at its head.
pub open spec fn without_leading_separators(s: Seq<char>) -> Seq<char>
    decreases s.len(),
{
    if s.len() > 0 && s[0] == sep() {
        without_leading_separators(s.drop_first())
    } else {
        s
    }
}

/// What is left of `p` when the directory `base` is taken from its head;
/// nothing where `p` does not lie in `base`. The text of `base` must be
/// followed in `p` by a separator or by nothing, unless `base` itself ends
/// with one or is empty.
pub open spec fn strip_prefix(p: Seq<char>, base: Seq<char>) -> Option<Seq<char>> {
    if !begins_with(p, base) {
        None
    } else if base.len() == 0 || base.last() == sep() || p.len() == base.len() || p[base.len() as int]
        == sep() {
        Some(without_leading_separators(p.subrange(base.len() as int, p.len() as int)))
    } else {
        None
    }
}

/// The components of `p`.
pub fn path_components(p: &str) -> (out: Vec<String>)
    ensures
        texts(out@) == components(p@),
{
    let chars = chars_of(p);
    let mut out: Vec<String> = Vec::new();
    let mut current: Vec<char> = Vec::new();
    let mut i: usize = 0;
    proof {
        assert(texts(out@) =~= Seq::<Seq<char>>::empty());
    }
    while i < chars.len()
        invariant
            i <= chars.len(),
            chars@ == p@,
            texts(out@) == split_upto(p@, i as nat).done,
            current@ == split_upto(p@, i as nat).current,
        decreases chars.len() - i,
    {
        let c = chars[i];
        if c == '/' {
            if current.len() > 0 {
                let piece = string_of(&current);
                proof {
                    assert(texts(out@.push(piece)) =~= texts(out@).push(piece@));
                }
                out.push(piece);
                current = Vec::new();
            }
        } else {
            current.push(c);
        }
        i += 1;
    }
    if current.len() > 0 {
        let piece = string_of(&current);
        proof {
            assert(texts(out@.push(piece)) =~= texts(out@).push(piece@));
        }
        out.push(piece);
    }
    out
}

/// The last component of `p`, if it has one.
pub fn path_file_name(p: &str) -> (name: Option<String>)
    ensures
        option_text(name) == file_name(p@),
{
    let mut parts = path_components(p);
    proof {
        if parts@.len() > 0 {
            assert(texts(parts@).last() == parts@.last()@);
        }
    }
    parts.pop()
}

/// Whether `p` begins with `prefix`.
pub fn path_begins_with(p: &Vec<char>, prefix: &Vec<char>) -> (r: bool)
    ensures
        r == begins_with(p@, prefix@),
{
    if prefix.len() > p.len() {
        return false;
    }
    let mut i: usize = 0;
    while i < prefix.len()
        invariant
            i <= prefix.len() <= p.len(),
            forall|k: int| 0 <= k < i ==> p@[k] == prefix@[k],
        decreases prefix.len() - i,
    {
        if p[i] != prefix[i] {
            proof {
                let head = p@.subrange(0, prefix.len() as int);
                assert(head[i as int] == p@[i as int]);
                assert(head[i as int] != prefix@[i as int]);
            }
            return false;
        }
        i += 1;
    }
    proof {
        assert(p@.subrange(0, prefix.len() as int) =~= prefix@);
    }
    true
}

/// Whether `p` ends with `suffix`.
pub fn text_ends_with(p: &str, suffix: &str) -> (r: bool)
    ensures
        r == ends_with(p@, suffix@),
{
    let text = chars_of(p);
    let tail = chars_of(suffix);
    if tail.len() > text.len() {
        return false;
    }
    let shift = text.len() - tail.len();
    let mut i: usize = 0;
    while i < tail.len()
        invariant
            i <= tail.len(),
            tail.len() <= text.len(),
            text@ == p@,
            tail@ == suffix@,
            shift == text.len() - tail.len(),
            forall|k: int| 0 <= k < i ==> text@[shift + k] == tail@[k],
        decreases tail.len() - i,
    {
        if text[shift + i] != tail[i] {
            proof {
                let end = text@.subrange(shift as int, text.len() as int);
                assert(end[i as int] == text@[shift + i]);
                assert(end[i as int] != tail@[i as int]);
            }
            return false;
        }
        i += 1;
    }
    proof {
        assert(text@.subrange(shift as int, text.len() as int) =~= tail@);
    }
    true
}

/// What is left of `p` when the directory `base` is taken from its head.
pub fn path_strip_prefix(p: &str, base: &str) -> (rest: Option<String>)
    ensures
        option_text(rest) == strip_prefix(p@, base@),
{
    let path = chars_of(p);
    let head = chars_of(base);
    if !path_begins_with(&path, &head) {
        return None;
    }
    let n = head.len();
    if !(n == 0 || head[n - 1] == '/' || path.len() == n || path[n] == '/') {
        return None;
    }
    let mut i: usize = n;
    let ghost tail = p@.subrange(n as int, p@.len() as int);
    proof {
        assert(p@.subrange(n as int, p@.len() as int) =~= tail);
    }
    while i < path.len() && path[i] == '/'
        invariant
            n <= i <= path.len(),
            path@ == p@,
            without_leading_separators(tail) == without_leading_separators(
                p@.subrange(i as int, p@.len() as int),
            ),
        decreases path.len() - i,
    {
        proof {
            let here = p@.subrange(i as int, p@.len() as int);
            assert(here.drop_first() =~= p@.subrange(i + 1, p@.len() as int));
        }
        i += 1;
    }
    let mut rest: Vec<char> = Vec::new();
    let start = i;
    while i < path.len()
        invariant
            start <= i <= path.len(),
            path@ == p@,
            rest@ == p@.subrange(start as int, i as int),
        decreases path.len() - i,
    {
        rest.push(path[i]);
        i += 1;
        proof {
            assert(rest@ =~= p@.subrange(start as int, i as int));
        }
    }
    Some(string_of(&rest))
}


/// The components `parts[from..n]` put together into one path, each under
/// those before it.
pub open spec fn joined(parts: Seq<Seq<char>>, from: nat, n: nat) -> Seq<char>
    decreases n,
{
    if n <= from || n > parts.len() {
        Seq::empty()
    } else {
        join(joined(parts, from, (n - 1) as nat), parts[n - 1])
    }
}

/// The components of `parts` from place `from` on, put together into one
/// path.
pub fn path_joined(parts: &Vec<String>, from: usize) -> (path: String)
    ensures
        path@ == joined(texts(parts@), from as nat, parts@.len()),
{
    let mut path = String::new();
    let mut i: usize = from;
    if from >= parts.len() {
        return path;
    }
    while i < parts.len()
        invariant
            from <= i <= parts.len(),
            path@ == joined(texts(parts@), from as nat, i as nat),
        decreases parts.len() - i,
    {
        proof {
            assert(texts(parts@)[i as int] == parts@[i as int]@);
        }
        path = path_join(path.as_str(), parts[i].as_str());
        i += 1;
    }
    path
}

} // verus!
