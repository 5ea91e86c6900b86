use vstd::prelude::*;

verus! {

/// The order of `String`s in std: lexicographic over the characters, each
/// compared by its code point (the same order as over the UTF-8 bytes).
pub open spec fn name_less(a: Seq<char>, b: Seq<char>) -> bool
    decreases a.len(),
{
    if a.len() == 0 {
        b.len() > 0
    } else if b.len() == 0 {
        false
    } else if a[0] != b[0] {
        a[0] < b[0]
    } else {
        name_less(a.drop_first(), b.drop_first())
    }
}

/// No name comes before itself.
pub proof fn lemma_name_less_irreflexive(a: Seq<char>)
    ensures
        !name_less(a, a),
    decreases a.len(),
{
    if a.len() > 0 {
        lemma_name_less_irreflexive(a.drop_first());
    }
}

/// The order on names is transitive.
pub proof fn lemma_name_less_transitive(a: Seq<char>, b: Seq<char>, c: Seq<char>)
    requires
        name_less(a, b),
        name_less(b, c),
    ensures
        name_less(a, c),
    decreases a.len(),
{
    if a.len() > 0 && b.len() > 0 && c.len() > 0 {
        if a[0] == b[0] && b[0] == c[0] {
            lemma_name_less_transitive(a.drop_first(), b.drop_first(), c.drop_first());
        }
    }
}

/// Two different names are ordered one way or the other, and never both.
pub proof fn lemma_name_less_total(a: Seq<char>, b: Seq<char>)
    ensures
        a != b ==> name_less(a, b) || name_less(b, a),
        !(name_less(a, b) && name_less(b, a)),
    decreases a.len(),
{
    if a.len() > 0 && b.len() > 0 {
        lemma_name_less_total(a.drop_first(), b.drop_first());
        if a[0] == b[0] && a.drop_first() == b.drop_first() {
            assert forall|i: int| 0 <= i < a.len() implies a[i] == b[i] by {
                if i > 0 {
                    assert(a[i] == a.drop_first()[i - 1]);
                    assert(b[i] == b.drop_first()[i - 1]);
                }
            }
            assert(a =~= b);
        }
    } else if a.len() == 0 && b.len() == 0 {
        assert(a =~= b);
    }
}

/// The order compares the first differing characters by code point, and a
/// proper prefix comes before the longer name.
pub proof fn lemma_name_less_by_code_point(a: Seq<char>, b: Seq<char>, x: char, y: char)
    ensures
        name_less(a + seq![x] + b, a + seq![y] + b) <==> x < y,
        b.len() > 0 ==> name_less(a, a + b),
    decreases a.len(),
{
    if a.len() > 0 {
        assert((a + seq![x] + b).drop_first() =~= a.drop_first() + seq![x] + b);
        assert((a + seq![y] + b).drop_first() =~= a.drop_first() + seq![y] + b);
        assert((a + b).drop_first() =~= a.drop_first() + b);
        lemma_name_less_by_code_point(a.drop_first(), b, x, y);
    } else {
        assert(a + seq![x] + b =~= seq![x] + b);
        assert(a + seq![y] + b =~= seq![y] + b);
        if x == y {
            lemma_name_less_irreflexive(seq![x] + b);
        }
        assert(a + b =~= b);
    }
}

proof fn lemma_name_less_skip(a: Seq<char>, b: Seq<char>, i: int)
    requires
        0 <= i < a.len(),
        i < b.len(),
        a[i] == b[i],
    ensures
        name_less(a.skip(i), b.skip(i)) == name_less(a.skip(i + 1), b.skip(i + 1)),
{
    assert(a.skip(i).drop_first() =~= a.skip(i + 1));
    assert(b.skip(i).drop_first() =~= b.skip(i + 1));
}

/// Compares two names in the order of `name_less`.
pub fn name_less_exec(a: &String, b: &String) -> (r: bool)
    ensures
        r == name_less(a@, b@),
{
    let sa = a.as_str();
    let sb = b.as_str();
    let la = sa.unicode_len();
    let lb = sb.unicode_len();
    let mut i: usize = 0;
    assert(a@.skip(0) =~= a@);
    assert(b@.skip(0) =~= b@);
    while i < la && i < lb
        invariant
            sa@ == a@,
            sb@ == b@,
            la == a@.len(),
            lb == b@.len(),
            i <= la,
            i <= lb,
            name_less(a@, b@) == name_less(a@.skip(i as int), b@.skip(i as int)),
        decreases la - i,
    {
        let ca = sa.get_char(i);
        let cb = sb.get_char(i);
        if ca != cb {
            assert(a@.skip(i as int)[0] == ca);
            assert(b@.skip(i as int)[0] == cb);
            return ca < cb;
        }
        proof {
            lemma_name_less_skip(a@, b@, i as int);
        }
        i += 1;
    }
    i < lb
}

} // verus!
