//! Small verified string utilities: equality, ASCII case folding for locale
//! tags, and `%s` template substitution.

use vstd::prelude::*;

verus! {

/// ASCII-lowercase a single character; other characters are unchanged.
pub open spec fn ascii_lower_char(c: char) -> char {
    if 65 <= c as u32 && c as u32 <= 90 {
        ((c as u32 + 32) as u8) as char
    } else {
        c
    }
}

/// ASCII-lowercase every character of a sequence.
pub open spec fn lower_seq(s: Seq<char>) -> Seq<char> {
    s.map_values(|c: char| ascii_lower_char(c))
}

/// Exact string equality, decided character by character.
pub fn str_eq(a: &str, b: &str) -> (r: bool)
    ensures
        r == (a@ == b@),
{
    let n = a.unicode_len();
    let m = b.unicode_len();
    if n != m {
        return false;
    }
    let mut i: usize = 0;
    while i < n
        invariant
            n == a@.len(),
            n == b@.len(),
            i <= n,
            forall|j: int| 0 <= j < i ==> a@[j] == b@[j],
        decreases n - i,
    {
        if a.get_char(i) != b.get_char(i) {
            return false;
        }
        i = i + 1;
    }
    proof {
        assert(a@ =~= b@);
    }
    true
}

/// Whether `s`, ASCII-lowercased, equals the (already lowercase) pattern.
pub fn eq_lower(s: &str, pat: &str) -> (r: bool)
    ensures
        r == (lower_seq(s@) == pat@),
{
    let n = s.unicode_len();
    let m = pat.unicode_len();
    if n != m {
        proof {
            assert(lower_seq(s@).len() == s@.len());
        }
        return false;
    }
    let mut i: usize = 0;
    while i < n
        invariant
            n == s@.len(),
            n == pat@.len(),
            i <= n,
            forall|j: int| 0 <= j < i ==> lower_seq(s@)[j] == pat@[j],
        decreases n - i,
    {
        let c = s.get_char(i);
        let u = c as u32;
        let low: char = if 65 <= u && u <= 90 {
            ((u + 32) as u8) as char
        } else {
            c
        };
        proof {
            assert(lower_seq(s@)[i as int] == ascii_lower_char(s@[i as int]));
        }
        if low != pat.get_char(i) {
            return false;
        }
        i = i + 1;
    }
    proof {
        assert(lower_seq(s@) =~= pat@);
    }
    true
}

/// The result of substituting `arg` for every `%s` marker in `t`.
pub open spec fn replace_marker(t: Seq<char>, arg: Seq<char>) -> Seq<char>
    decreases t.len(),
{
    if t.len() >= 2 && t[0] == '%' && t[1] == 's' {
        arg + replace_marker(t.skip(2), arg)
    } else if t.len() >= 1 {
        seq![t[0]] + replace_marker(t.skip(1), arg)
    } else {
        Seq::<char>::empty()
    }
}

/// Substitute `arg` for every `%s` marker in `t`.
pub fn replace_all(t: &str, arg: &str) -> (r: String)
    ensures
        r@ == replace_marker(t@, arg@),
{
    let n = t.unicode_len();
    let mut res = String::new();
    let mut i: usize = 0;
    proof {
        assert(t@.skip(0) =~= t@);
        assert(Seq::<char>::empty() + replace_marker(t@, arg@) =~= replace_marker(t@, arg@));
    }
    while i < n
        invariant
            n == t@.len(),
            i <= n,
            replace_marker(t@, arg@) == res@ + replace_marker(t@.skip(i as int), arg@),
        decreases n - i,
    {
        proof {
            assert(t@.skip(i as int)[0] == t@[i as int]);
            if i + 1 < n {
                assert(t@.skip(i as int)[1] == t@[i + 1]);
            }
        }
        if i + 1 < n && t.get_char(i) == '%' && t.get_char(i + 1) == 's' {
            res.append(arg);
            proof {
                assert(t@.skip(i as int).skip(2) =~= t@.skip(i + 2));
            }
            i = i + 2;
        } else {
            let piece = t.substring_char(i, i + 1);
            proof {
                assert(piece@ =~= seq![t@[i as int]]);
                assert(t@.skip(i as int).skip(1) =~= t@.skip(i + 1));
            }
            res.append(piece);
            i = i + 1;
        }
    }
    proof {
        assert(t@.skip(n as int).len() == 0);
        assert(res@ + replace_marker(t@.skip(n as int), arg@) =~= res@);
    }
    res
}

} // verus!
