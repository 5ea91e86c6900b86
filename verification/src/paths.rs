use vstd::prelude::*;

verus! {

/// The path without its trailing separators and trailing `.` components,
/// which `Path::file_name` does not count as the last component.
pub open spec fn strip_trailing(p: Seq<char>) -> Seq<char>
    decreases p.len(),
{
    if p.len() > 0 && p.last() == '/' {
        strip_trailing(p.drop_last())
    } else if p == seq!['.'] || (p.len() >= 2 && p.last() == '.' && p[p.len() - 2] == '/') {
        strip_trailing(p.drop_last())
    } else {
        p
    }
}

/// The index of the last separator in `p`, or -1.
pub open spec fn last_separator(p: Seq<char>) -> int
    decreases p.len(),
{
    if p.len() == 0 {
        -1
    } else if p.last() == '/' {
        p.len() - 1
    } else {
        last_separator(p.drop_last())
    }
}

/// The last component of a `/`-separated path, as `Path::file_name` gives
/// it on Unix: `None` for an empty path, the root, `.` and a path that
/// ends in `..`.
pub open spec fn file_name_of(p: Seq<char>) -> Option<Seq<char>> {
    let t = strip_trailing(p);
    let s = t.subrange(last_separator(t) + 1, t.len() as int);
    if s.len() == 0 || s == seq!['.', '.'] {
        None
    } else {
        Some(s)
    }
}

/// `rel` appended to `base` as `PathBuf::push` does on Unix: an absolute
/// `rel` replaces `base`, else a separator is put between them unless
/// `base` is empty or already ends in one.
pub open spec fn path_join(base: Seq<char>, rel: Seq<char>) -> Seq<char> {
    if rel.len() > 0 && rel[0] == '/' {
        rel
    } else if base.len() == 0 || base.last() == '/' {
        base + rel
    } else {
        base + seq!['/'] + rel
    }
}

proof fn lemma_last_separator_bounds(p: Seq<char>)
    ensures
        -1 <= last_separator(p) < p.len(),
        last_separator(p) >= 0 ==> p[last_separator(p)] == '/',
        forall|k: int| last_separator(p) < k < p.len() ==> p[k] != '/',
    decreases p.len(),
{
    if p.len() > 0 && p.last() != '/' {
        let q = p.drop_last();
        lemma_last_separator_bounds(q);
        assert forall|k: int| last_separator(p) < k < p.len() implies p[k] != '/' by {
            if k < p.len() - 1 {
                assert(p[k] == q[k]);
            }
        }
    }
}

/// A single path component: non-empty, without separator, and neither `.`
/// nor `..`.
pub open spec fn is_plain_component(name: Seq<char>) -> bool {
    &&& name.len() > 0
    &&& forall|i: int| 0 <= i < name.len() ==> #[trigger] name[i] != '/'
    &&& name != seq!['.']
    &&& name != seq!['.', '.']
}

proof fn lemma_last_separator_append(a: Seq<char>, name: Seq<char>)
    requires
        forall|i: int| 0 <= i < name.len() ==> #[trigger] name[i] != '/',
    ensures
        last_separator(a + name) == last_separator(a),
    decreases name.len(),
{
    if name.len() == 0 {
        assert(a + name =~= a);
    } else {
        assert((a + name).drop_last() =~= a + name.drop_last());
        assert((a + name).last() == name.last());
        lemma_last_separator_append(a, name.drop_last());
    }
}

/// Joining a plain component to any path gives a path whose file name is
/// that component.
pub proof fn lemma_file_name_of_join(base: Seq<char>, name: Seq<char>)
    requires
        is_plain_component(name),
    ensures
        file_name_of(path_join(base, name)) == Some(name),
{
    let j = path_join(base, name);
    let prefix = if base.len() == 0 || base.last() == '/' {
        base
    } else {
        base + seq!['/']
    };
    assert(name[0] != '/');
    assert(j =~= prefix + name);
    assert(j.last() == name.last());
    if name.len() == 1 {
        assert(name =~= seq![name[0]]);
    } else {
        assert(j[j.len() - 2] == name[name.len() - 2]);
    }
    if base.len() == 0 {
        assert(j =~= name);
    }
    assert(strip_trailing(j) == j);
    lemma_last_separator_append(prefix, name);
    lemma_last_separator_bounds(prefix);
    if prefix.len() > 0 {
        assert(prefix.last() == '/');
        assert(prefix.drop_last() + seq!['/'] =~= prefix);
    }
    assert(last_separator(prefix) == prefix.len() - 1);
    assert(j.subrange(last_separator(j) + 1, j.len() as int) =~= name);
}

/// Joining keeps both parts whole: an absolute `rel` is the result; else
/// the result is `base`, then one separator exactly when `base` is not
/// empty and does not already end in one, then `rel`.
pub proof fn lemma_join_shape(base: Seq<char>, rel: Seq<char>)
    ensures
        rel.len() > 0 && rel[0] == '/' ==> path_join(base, rel) == rel,
        !(rel.len() > 0 && rel[0] == '/') ==> {
            let sep: int = if base.len() > 0 && base.last() != '/' {
                1
            } else {
                0
            };
            let j = path_join(base, rel);
            &&& j.len() == base.len() + sep + rel.len()
            &&& j.take(base.len() as int) == base
            &&& j.skip(base.len() + sep) == rel
            &&& sep == 1 ==> j[base.len() as int] == '/'
        },
{
    if !(rel.len() > 0 && rel[0] == '/') {
        let j = path_join(base, rel);
        if base.len() > 0 && base.last() != '/' {
            assert(j.take(base.len() as int) =~= base);
            assert(j.skip(base.len() as int + 1) =~= rel);
        } else {
            assert(j.take(base.len() as int) =~= base);
            assert(j.skip(base.len() as int) =~= rel);
        }
    }
}

/// The file name of a path has no separator and is neither `.` nor `..`.
pub proof fn lemma_file_name_is_plain(p: Seq<char>)
    requires
        file_name_of(p) is Some,
    ensures
        is_plain_component(file_name_of(p)->0),
{
    let t = strip_trailing(p);
    lemma_last_separator_bounds(t);
    let s = file_name_of(p)->0;
    assert forall|i: int| 0 <= i < s.len() implies #[trigger] s[i] != '/' by {
        assert(s[i] == t[last_separator(t) + 1 + i]);
    }
    lemma_strip_trailing_not_dot(p);
    if s == seq!['.'] {
        assert(s.len() == 1);
        assert(t.len() == last_separator(t) + 2);
        assert(s[0] == t[last_separator(t) + 1]);
        assert(t.last() == '.');
        if last_separator(t) >= 0 {
            assert(t[t.len() - 2] == '/');
        } else {
            assert(t =~= seq!['.']);
        }
    }
}

proof fn lemma_strip_trailing_not_dot(p: Seq<char>)
    ensures
        !(strip_trailing(p) == seq!['.']),
        !(strip_trailing(p).len() >= 2 && strip_trailing(p).last() == '.' && strip_trailing(
            p,
        )[strip_trailing(p).len() - 2] == '/'),
    decreases p.len(),
{
    if p.len() > 0 && p.last() == '/' {
        lemma_strip_trailing_not_dot(p.drop_last());
    } else if p == seq!['.'] || (p.len() >= 2 && p.last() == '.' && p[p.len() - 2] == '/') {
        lemma_strip_trailing_not_dot(p.drop_last());
    }
}

/// The last component of `path`, as `Path::file_name` gives it.
pub fn file_name<'a>(path: &'a str) -> (r: Option<&'a str>)
    ensures
        match r {
            Some(s) => file_name_of(path@) == Some(s@),
            None => file_name_of(path@) is None,
        },
{
    let n = path.unicode_len();
    let mut end: usize = n;
    assert(path@.take(n as int) =~= path@);
    loop
        invariant
            end <= n,
            n == path@.len(),
            strip_trailing(path@) == strip_trailing(path@.take(end as int)),
        ensures
            end <= n,
            strip_trailing(path@) == path@.take(end as int),
        decreases end,
    {
        let ghost p = path@.take(end as int);
        if end > 0 && path.get_char(end - 1) == '/' {
            assert(p.drop_last() =~= path@.take(end - 1));
            end -= 1;
        } else if (end == 1 && path.get_char(0) == '.') || (end >= 2 && path.get_char(end - 1)
            == '.' && path.get_char(end - 2) == '/') {
            assert(p.drop_last() =~= path@.take(end - 1));
            if end == 1 {
                assert(p =~= seq!['.']);
            }
            end -= 1;
        } else {
            assert(!(p.len() > 0 && p.last() == '/'));
            assert(p != seq!['.']) by {
                if end == 1 {
                    assert(p[0] == path@[0]);
                }
            }
            break;
        }
    }
    let ghost t = path@.take(end as int);
    let mut start: usize = end;
    while start > 0 && path.get_char(start - 1) != '/'
        invariant
            start <= end <= n,
            n == path@.len(),
            t == path@.take(end as int),
            forall|k: int| start <= k < end ==> path@[k] != '/',
        decreases start,
    {
        start -= 1;
    }
    proof {
        lemma_last_separator_bounds(t);
        let ls = last_separator(t);
        if start > 0 {
            assert(t[start - 1] == '/');
            assert(ls >= start - 1);
            assert(ls <= start - 1);
        } else {
            assert(ls < 0) by {
                if ls >= 0 {
                    assert(t[ls] == path@[ls]);
                }
            }
        }
        assert(ls == start - 1);
    }
    let seg = path.substring_char(start, end);
    assert(seg@ =~= t.subrange(last_separator(t) + 1, t.len() as int));
    let sl = end - start;
    if sl == 0 {
        return None;
    }
    if sl == 2 && seg.get_char(0) == '.' && seg.get_char(1) == '.' {
        assert(seg@ =~= seq!['.', '.']);
        return None;
    }
    assert(seg@ != seq!['.', '.']) by {
        if seg@ == seq!['.', '.'] {
            assert(seg@[0] == '.' && seg@[1] == '.');
        }
    }
    Some(seg)
}

/// `rel` appended to `base` as `PathBuf::push` does on Unix.
pub fn join_path(base: &str, rel: &str) -> (r: String)
    ensures
        r@ == path_join(base@, rel@),
{
    let rl = rel.unicode_len();
    if rl > 0 && rel.get_char(0) == '/' {
        return rel.to_owned();
    }
    let bl = base.unicode_len();
    let mut r = base.to_owned();
    if bl > 0 && base.get_char(bl - 1) != '/' {
        r.append("/");
        proof {
            reveal_strlit("/");
        }
    }
    r.append(rel);
    r
}

} // verus!
