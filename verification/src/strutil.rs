//! Verified character-level string utilities: searching, counting,
//! lexicographic comparison, and prefix/suffix stripping.

use vstd::prelude::*;

verus! {

/// Index of the first occurrence of `c` in `s`, or `s.len()` when `c` is absent.
pub open spec fn find_index(s: Seq<char>, c: char) -> int
    decreases s.len(),
{
    if s.len() == 0 {
        0
    } else if s[0] == c {
        0
    } else {
        1 + find_index(s.drop_first(), c)
    }
}

pub proof fn lemma_find_index(s: Seq<char>, c: char)
    ensures
        0 <= find_index(s, c) <= s.len(),
        find_index(s, c) < s.len() ==> s[find_index(s, c)] == c,
        forall|j: int| 0 <= j < find_index(s, c) ==> s[j] != c,
    decreases s.len(),
{
    if s.len() != 0 && s[0] != c {
        lemma_find_index(s.drop_first(), c);
        assert forall|j: int| 0 <= j < find_index(s, c) implies s[j] != c by {
            if j > 0 {
                assert(s.drop_first()[j - 1] == s[j]);
            }
        }
    }
}

/// The properties of `lemma_find_index` determine the index.
pub proof fn lemma_find_index_determined(s: Seq<char>, c: char, i: int)
    requires
        0 <= i <= s.len(),
        forall|j: int| 0 <= j < i ==> s[j] != c,
        i < s.len() ==> s[i] == c,
    ensures
        find_index(s, c) == i,
    decreases s.len(),
{
    if s.len() == 0 {
    } else if s[0] == c {
        assert(i == 0);
    } else {
        assert(i >= 1);
        let t = s.drop_first();
        assert forall|j: int| 0 <= j < i - 1 implies t[j] != c by {
            assert(t[j] == s[j + 1]);
        }
        assert(i - 1 < t.len() ==> t[i - 1] == s[i]);
        lemma_find_index_determined(t, c, i - 1);
    }
}

/// Index of the last occurrence of `c` in `s`, or `-1` when `c` is absent.
pub open spec fn rfind_index(s: Seq<char>, c: char) -> int
    decreases s.len(),
{
    if s.len() == 0 {
        -1
    } else if s.last() == c {
        s.len() - 1
    } else {
        rfind_index(s.drop_last(), c)
    }
}

pub proof fn lemma_rfind_index(s: Seq<char>, c: char)
    ensures
        -1 <= rfind_index(s, c) < s.len(),
        rfind_index(s, c) >= 0 ==> s[rfind_index(s, c)] == c,
        forall|j: int| rfind_index(s, c) < j < s.len() ==> s[j] != c,
    decreases s.len(),
{
    if s.len() != 0 && s.last() != c {
        lemma_rfind_index(s.drop_last(), c);
        assert forall|j: int| rfind_index(s, c) < j < s.len() implies s[j] != c by {
            if j < s.len() - 1 {
                assert(s.drop_last()[j] == s[j]);
            }
        }
    }
}

pub proof fn lemma_rfind_index_determined(s: Seq<char>, c: char, i: int)
    requires
        -1 <= i < s.len(),
        i >= 0 ==> s[i] == c,
        forall|j: int| i < j < s.len() ==> s[j] != c,
    ensures
        rfind_index(s, c) == i,
    decreases s.len(),
{
    if s.len() == 0 {
    } else if s.last() == c {
        assert(i == s.len() - 1);
    } else {
        assert(i < s.len() - 1);
        let t = s.drop_last();
        assert forall|j: int| i < j < t.len() implies t[j] != c by {
            assert(t[j] == s[j]);
        }
        assert(i >= 0 ==> t[i] == s[i]);
        lemma_rfind_index_determined(t, c, i);
    }
}

/// How many times `c` occurs in `s`.
pub open spec fn count_char(s: Seq<char>, c: char) -> nat
    decreases s.len(),
{
    if s.len() == 0 {
        0
    } else {
        count_char(s.drop_last(), c) + if s.last() == c {
            1nat
        } else {
            0nat
        }
    }
}

/// Strict lexicographic order on character sequences, by scalar value;
/// a proper prefix precedes its extensions.
pub open spec fn lex_lt(a: Seq<char>, b: Seq<char>) -> bool
    decreases a.len(),
{
    if b.len() == 0 {
        false
    } else if a.len() == 0 {
        true
    } else if a[0] != b[0] {
        (a[0] as u32) < (b[0] as u32)
    } else {
        lex_lt(a.drop_first(), b.drop_first())
    }
}

pub proof fn lemma_lex_lt_connected(a: Seq<char>, b: Seq<char>)
    requires
        a != b,
    ensures
        lex_lt(a, b) || lex_lt(b, a),
    decreases a.len(),
{
    if a.len() == 0 && b.len() == 0 {
        assert(a =~= b);
    } else if a.len() == 0 || b.len() == 0 {
    } else if a[0] != b[0] {
        if (a[0] as u32) == (b[0] as u32) {
            vstd::utf8::char_u32_cast(a[0], a[0] as u32);
            vstd::utf8::char_u32_cast(b[0], b[0] as u32);
        }
    } else {
        let at = a.drop_first();
        let bt = b.drop_first();
        if at == bt {
            assert(at.len() == a.len() - 1);
            assert(bt.len() == b.len() - 1);
            assert(a.len() == b.len());
            assert forall|i: int| 0 <= i < a.len() implies a[i] == b[i] by {
                if i > 0 {
                    assert(at[i - 1] == a[i]);
                    assert(bt[i - 1] == b[i]);
                }
            }
            assert(a =~= b);
        } else {
            lemma_lex_lt_connected(at, bt);
        }
    }
}

pub proof fn lemma_lex_lt_trans(a: Seq<char>, b: Seq<char>, c: Seq<char>)
    requires
        lex_lt(a, b),
        lex_lt(b, c),
    ensures
        lex_lt(a, c),
    decreases a.len(),
{
    if a.len() == 0 {
    } else {
        // a nonempty, so b and c are nonempty too
        if a[0] == b[0] && b[0] == c[0] {
            lemma_lex_lt_trans(a.drop_first(), b.drop_first(), c.drop_first());
        }
    }
}

/// First index of `c` in `s`, or the length of `s` when absent.
pub fn find_char(s: &str, c: char) -> (i: usize)
    ensures
        i as int == find_index(s@, c),
{
    let n = s.unicode_len();
    let mut i: usize = 0;
    while i < n
        invariant
            0 <= i <= n,
            n == s@.len(),
            forall|j: int| 0 <= j < i ==> s@[j] != c,
        decreases n - i,
    {
        if s.get_char(i) == c {
            proof {
                lemma_find_index_determined(s@, c, i as int);
            }
            return i;
        }
        i = i + 1;
    }
    proof {
        lemma_find_index_determined(s@, c, n as int);
    }
    n
}

/// Last index of `c` in `s`, or `None` when absent.
pub fn rfind_char(s: &str, c: char) -> (r: Option<usize>)
    ensures
        match r {
            Some(i) => i as int == rfind_index(s@, c),
            None => rfind_index(s@, c) == -1,
        },
{
    let n = s.unicode_len();
    let mut i: usize = n;
    while i > 0
        invariant
            0 <= i <= n,
            n == s@.len(),
            forall|j: int| i <= j < n ==> s@[j] != c,
        decreases i,
    {
        i = i - 1;
        if s.get_char(i) == c {
            proof {
                lemma_rfind_index_determined(s@, c, i as int);
            }
            return Some(i);
        }
    }
    proof {
        lemma_rfind_index_determined(s@, c, -1);
    }
    None
}

/// How many times `c` occurs in `s`.
pub fn count_char_exec(s: &str, c: char) -> (r: usize)
    ensures
        r as nat == count_char(s@, c),
{
    let n = s.unicode_len();
    let mut i: usize = 0;
    let mut cnt: usize = 0;
    while i < n
        invariant
            0 <= i <= n,
            n == s@.len(),
            cnt <= i,
            cnt as nat == count_char(s@.take(i as int), c),
        decreases n - i,
    {
        proof {
            assert(s@.take(i as int + 1).drop_last() =~= s@.take(i as int));
            assert(s@.take(i as int + 1).last() == s@[i as int]);
        }
        if s.get_char(i) == c {
            cnt = cnt + 1;
        }
        i = i + 1;
    }
    proof {
        assert(s@.take(n as int) =~= s@);
    }
    cnt
}

/// Whether `a` precedes `b` in strict lexicographic order.
pub fn str_lt(a: &str, b: &str) -> (r: bool)
    ensures
        r == lex_lt(a@, b@),
{
    let na = a.unicode_len();
    let nb = b.unicode_len();
    let mut i: usize = 0;
    proof {
        assert(a@.skip(0) =~= a@);
        assert(b@.skip(0) =~= b@);
    }
    loop
        invariant
            0 <= i <= na,
            0 <= i <= nb,
            na == a@.len(),
            nb == b@.len(),
            lex_lt(a@, b@) == lex_lt(a@.skip(i as int), b@.skip(i as int)),
        decreases nb - i,
    {
        if i >= nb {
            proof {
                assert(b@.skip(i as int).len() == 0);
            }
            return false;
        }
        if i >= na {
            proof {
                assert(a@.skip(i as int).len() == 0);
                assert(b@.skip(i as int).len() > 0);
            }
            return true;
        }
        let ca = a.get_char(i);
        let cb = b.get_char(i);
        proof {
            assert(a@.skip(i as int)[0] == a@[i as int]);
            assert(b@.skip(i as int)[0] == b@[i as int]);
        }
        if ca != cb {
            return (ca as u32) < (cb as u32);
        }
        proof {
            assert(a@.skip(i as int).drop_first() =~= a@.skip(i as int + 1));
            assert(b@.skip(i as int).drop_first() =~= b@.skip(i as int + 1));
        }
        i = i + 1;
    }
}

/// Whether `prefix@` is a prefix of `s@`.
pub fn str_starts_with(s: &str, prefix: &str) -> (r: bool)
    ensures
        r == prefix@.is_prefix_of(s@),
{
    let np = prefix.unicode_len();
    let ns = s.unicode_len();
    if np > ns {
        return false;
    }
    let mut i: usize = 0;
    while i < np
        invariant
            0 <= i <= np,
            np <= ns,
            np == prefix@.len(),
            ns == s@.len(),
            forall|j: int| 0 <= j < i ==> s@[j] == prefix@[j],
        decreases np - i,
    {
        if s.get_char(i) != prefix.get_char(i) {
            proof {
                assert(s@.subrange(0, np as int)[i as int] == s@[i as int]);
                assert(!(prefix@ =~= s@.subrange(0, np as int)));
            }
            return false;
        }
        i = i + 1;
    }
    proof {
        assert(prefix@ =~= s@.subrange(0, np as int));
    }
    true
}

/// Equality of two owned strings, by contents.
pub fn string_eq(a: &String, b: &String) -> (r: bool)
    ensures
        r == (a@ == b@),
{
    a.eq(b)
}

/// The document name obtained from `path` by removing the prefix `root`
/// followed by a path separator, or `None` when `path` does not carry
/// that prefix.
pub open spec fn strip_dir_prefix(path: Seq<char>, root: Seq<char>) -> Option<Seq<char>> {
    if root.len() + 1 <= path.len() && path.take(root.len() as int + 1) == root + seq!['/'] {
        Some(path.skip(root.len() as int + 1))
    } else {
        None
    }
}

/// The name obtained from `name` by removing a trailing `.sol`, or `None`
/// when the name does not end in it.
pub open spec fn strip_sol_suffix(name: Seq<char>) -> Option<Seq<char>> {
    if name.len() >= 4 && name.skip(name.len() as int - 4) == seq!['.', 's', 'o', 'l'] {
        Some(name.take(name.len() as int - 4))
    } else {
        None
    }
}

/// Removes the leading `root` directory (and its separator) from `path`.
pub fn strip_source_prefix(path: &str, root: &str) -> (r: Option<String>)
    ensures
        match r {
            Some(s) => strip_dir_prefix(path@, root@) == Some(s@),
            None => strip_dir_prefix(path@, root@) is None,
        },
{
    let nr = root.unicode_len();
    let np = path.unicode_len();
    if np < nr || nr == usize::MAX || np < nr + 1 {
        proof {
            assert(strip_dir_prefix(path@, root@) is None);
        }
        return None;
    }
    if !str_starts_with(path, root) {
        proof {
            if strip_dir_prefix(path@, root@) is Some {
                assert(path@.take(nr as int + 1) == root@ + seq!['/']);
                assert forall|j: int| 0 <= j < nr implies path@[j] == root@[j] by {
                    assert(path@.take(nr as int + 1)[j] == path@[j]);
                    assert((root@ + seq!['/'])[j] == root@[j]);
                }
                assert(root@ =~= path@.subrange(0, nr as int));
            }
        }
        return None;
    }
    if path.get_char(nr) != '/' {
        proof {
            if strip_dir_prefix(path@, root@) is Some {
                assert(path@.take(nr as int + 1)[nr as int] == path@[nr as int]);
                assert((root@ + seq!['/'])[nr as int] == '/');
            }
        }
        return None;
    }
    let rest = path.substring_char(nr + 1, np);
    proof {
        assert(root@.is_prefix_of(path@));
        assert forall|j: int| 0 <= j < nr + 1 implies path@.take(nr as int + 1)[j] == (root@
            + seq!['/'])[j] by {
            if j < nr {
                assert(root@ =~= path@.subrange(0, nr as int));
                assert(path@.subrange(0, nr as int)[j] == path@[j]);
            }
        }
        assert(path@.take(nr as int + 1) =~= root@ + seq!['/']);
    }
    Some(rest.to_owned())
}

/// Removes a trailing `.sol` from `name`.
pub fn strip_sol_extension(name: &str) -> (r: Option<String>)
    ensures
        match r {
            Some(s) => strip_sol_suffix(name@) == Some(s@),
            None => strip_sol_suffix(name@) is None,
        },
{
    let n = name.unicode_len();
    if n < 4 {
        return None;
    }
    let c0 = name.get_char(n - 4);
    let c1 = name.get_char(n - 3);
    let c2 = name.get_char(n - 2);
    let c3 = name.get_char(n - 1);
    proof {
        assert(name@.skip(n as int - 4)[0] == name@[n as int - 4]);
        assert(name@.skip(n as int - 4)[1] == name@[n as int - 3]);
        assert(name@.skip(n as int - 4)[2] == name@[n as int - 2]);
        assert(name@.skip(n as int - 4)[3] == name@[n as int - 1]);
    }
    if c0 == '.' && c1 == 's' && c2 == 'o' && c3 == 'l' {
        proof {
            assert(name@.skip(n as int - 4) =~= seq!['.', 's', 'o', 'l']);
        }
        let stem = name.substring_char(0, n - 4);
        Some(stem.to_owned())
    } else {
        proof {
            if name@.skip(n as int - 4) == seq!['.', 's', 'o', 'l'] {
                assert(name@[n as int - 4] == '.');
            }
        }
        None
    }
}

} // verus!
