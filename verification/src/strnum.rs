//! Plain text helpers: character-exact string equality, decimal rendering of
//! integers, and repeated/joined text used by the cardinality expansion.

use vstd::prelude::*;
use vstd::string::StrSliceExecFns;
use vstd::string::StringExecFns;

verus! {

/// The decimal digit character for `d` (meaningful for `0 <= d <= 9`).
pub open spec fn digit_char(d: int) -> char {
    if d == 0 {
        '0'
    } else if d == 1 {
        '1'
    } else if d == 2 {
        '2'
    } else if d == 3 {
        '3'
    } else if d == 4 {
        '4'
    } else if d == 5 {
        '5'
    } else if d == 6 {
        '6'
    } else if d == 7 {
        '7'
    } else if d == 8 {
        '8'
    } else {
        '9'
    }
}

/// The decimal digits of a nonnegative `n`, most significant first.
pub open spec fn dec_digits(n: int) -> Seq<char>
    decreases n,
{
    if n < 10 {
        seq![digit_char(n)]
    } else {
        dec_digits(n / 10) + seq![digit_char(n % 10)]
    }
}

/// The decimal rendering of `i`, with a leading minus sign when negative.
pub open spec fn int_text(i: int) -> Seq<char> {
    if i < 0 {
        seq!['-'] + dec_digits(-i)
    } else {
        dec_digits(i)
    }
}

/// `n` copies of `e`, back to back.
pub open spec fn rep(e: Seq<char>, n: int) -> Seq<char>
    decreases n,
{
    if n <= 0 {
        Seq::empty()
    } else {
        rep(e, n - 1) + e
    }
}

/// `n` copies of `e`, separated by `sep`.
pub open spec fn join_rep(e: Seq<char>, sep: Seq<char>, n: int) -> Seq<char>
    decreases n,
{
    if n <= 0 {
        Seq::empty()
    } else if n == 1 {
        e
    } else {
        join_rep(e, sep, n - 1) + sep + e
    }
}

/// The fixed-arity alternatives for candidate lengths `l..=u`: for each `k`,
/// `pre`, then `k` comma-separated copies of `e`, then `post`; alternatives
/// separated by `sep`.
pub open spec fn tuple_alts(
    e: Seq<char>,
    pre: Seq<char>,
    post: Seq<char>,
    sep: Seq<char>,
    l: int,
    u: int,
) -> Seq<char>
    decreases u - l,
{
    if u < l {
        Seq::empty()
    } else if u == l {
        pre + join_rep(e, ","@, l) + post
    } else {
        tuple_alts(e, pre, post, sep, l, u - 1) + sep + (pre + join_rep(e, ","@, u) + post)
    }
}

/// Character-exact equality of two strings.
pub fn str_eq(a: &str, b: &str) -> (r: bool)
    ensures
        r == (a@ == b@),
{
    let la = a.unicode_len();
    let lb = b.unicode_len();
    if la != lb {
        return false;
    }
    let mut i: usize = 0;
    while i < la
        invariant
            i <= la,
            la == a@.len(),
            la == b@.len(),
            forall|j: int| 0 <= j < i ==> a@[j] == b@[j],
        decreases la - i,
    {
        if a.get_char(i) != b.get_char(i) {
            return false;
        }
        i = i + 1;
    }
    proof {
        assert(a@ =~= b@);
    }
    true
}

/// Whether `name` occurs in `names`, character for character.
pub fn contains_str(names: &Vec<String>, name: &str) -> (r: bool)
    ensures
        r == names@.map_values(|s: String| s@).contains(name@),
{
    let ghost viewed = names@.map_values(|s: String| s@);
    let mut i: usize = 0;
    while i < names.len()
        invariant
            i <= names@.len(),
            viewed == names@.map_values(|s: String| s@),
            forall|j: int| 0 <= j < i ==> viewed[j] != name@,
        decreases names@.len() - i,
    {
        if str_eq(names[i].as_str(), name) {
            proof {
                assert(viewed[i as int] == name@);
            }
            return true;
        }
        i = i + 1;
    }
    proof {
        assert(forall|j: int| 0 <= j < viewed.len() ==> viewed[j] != name@);
    }
    false
}

/// The one-character string for the decimal digit `d`.
fn digit_str(d: u64) -> (r: &'static str)
    requires
        d < 10,
    ensures
        r@ == seq![digit_char(d as int)],
{
    if d == 0 {
        proof {
            reveal_strlit("0");
            assert("0"@ =~= seq![digit_char(0)]);
        }
        "0"
    } else if d == 1 {
        proof {
            reveal_strlit("1");
            assert("1"@ =~= seq![digit_char(1)]);
        }
        "1"
    } else if d == 2 {
        proof {
            reveal_strlit("2");
            assert("2"@ =~= seq![digit_char(2)]);
        }
        "2"
    } else if d == 3 {
        proof {
            reveal_strlit("3");
            assert("3"@ =~= seq![digit_char(3)]);
        }
        "3"
    } else if d == 4 {
        proof {
            reveal_strlit("4");
            assert("4"@ =~= seq![digit_char(4)]);
        }
        "4"
    } else if d == 5 {
        proof {
            reveal_strlit("5");
            assert("5"@ =~= seq![digit_char(5)]);
        }
        "5"
    } else if d == 6 {
        proof {
            reveal_strlit("6");
            assert("6"@ =~= seq![digit_char(6)]);
        }
        "6"
    } else if d == 7 {
        proof {
            reveal_strlit("7");
            assert("7"@ =~= seq![digit_char(7)]);
        }
        "7"
    } else if d == 8 {
        proof {
            reveal_strlit("8");
            assert("8"@ =~= seq![digit_char(8)]);
        }
        "8"
    } else {
        proof {
            reveal_strlit("9");
            assert("9"@ =~= seq![digit_char(9)]);
        }
        "9"
    }
}

/// The decimal rendering of `n`.
pub fn u64_dec_str(n: u64) -> (r: String)
    ensures
        r@ == dec_digits(n as int),
    decreases n,
{
    if n < 10 {
        let mut s = String::new();
        s.append(digit_str(n));
        proof {
            assert(s@ =~= dec_digits(n as int));
        }
        s
    } else {
        let mut s = u64_dec_str(n / 10);
        s.append(digit_str(n % 10));
        proof {
            assert(s@ =~= dec_digits(n as int));
        }
        s
    }
}

/// The decimal rendering of `n`.
pub fn usize_dec_str(n: usize) -> (r: String)
    ensures
        r@ == dec_digits(n as int),
{
    u64_dec_str(n as u64)
}

/// The decimal rendering of `v`, with a leading minus sign when negative.
pub fn i64_dec_str(v: i64) -> (r: String)
    ensures
        r@ == int_text(v as int),
{
    if v >= 0 {
        u64_dec_str(v as u64)
    } else {
        let m: u64 = (-(v as i128)) as u64;
        let mut s = String::new();
        s.append("-");
        let digits = u64_dec_str(m);
        s.append(digits.as_str());
        proof {
            reveal_strlit("-");
            assert("-"@ =~= seq!['-']);
            assert(s@ =~= int_text(v as int));
        }
        s
    }
}

/// Appends `n` copies of `e` to `s`.
pub fn append_rep(s: &mut String, e: &str, n: usize)
    ensures
        final(s)@ == old(s)@ + rep(e@, n as int),
{
    proof {
        assert(old(s)@ + rep(e@, 0) =~= old(s)@);
    }
    let mut i: usize = 0;
    while i < n
        invariant
            i <= n,
            s@ == old(s)@ + rep(e@, i as int),
        decreases n - i,
    {
        s.append(e);
        proof {
            assert(s@ =~= old(s)@ + rep(e@, i + 1));
        }
        i = i + 1;
    }
}

/// Appends `n` copies of `e`, separated by `sep`, to `s`.
pub fn append_join_rep(s: &mut String, e: &str, sep: &str, n: usize)
    ensures
        final(s)@ == old(s)@ + join_rep(e@, sep@, n as int),
{
    proof {
        assert(old(s)@ + join_rep(e@, sep@, 0) =~= old(s)@);
    }
    let mut i: usize = 0;
    while i < n
        invariant
            i <= n,
            s@ == old(s)@ + join_rep(e@, sep@, i as int),
        decreases n - i,
    {
        if i != 0 {
            s.append(sep);
        }
        s.append(e);
        proof {
            assert(s@ =~= old(s)@ + join_rep(e@, sep@, i + 1));
        }
        i = i + 1;
    }
}

/// Appends the fixed-arity alternatives for lengths `l..=u` to `s`.
pub fn append_tuple_alts(s: &mut String, e: &str, pre: &str, post: &str, sep: &str, l: usize, u: usize)
    requires
        l <= u,
        u < usize::MAX,
    ensures
        final(s)@ == old(s)@ + tuple_alts(e@, pre@, post@, sep@, l as int, u as int),
{
    proof {
        assert(old(s)@ + tuple_alts(e@, pre@, post@, sep@, l as int, l - 1) =~= old(s)@);
    }
    let mut k: usize = l;
    while k <= u
        invariant
            l <= k <= u + 1,
            u < usize::MAX,
            s@ == old(s)@ + tuple_alts(e@, pre@, post@, sep@, l as int, k - 1),
        decreases u + 1 - k,
    {
        if k != l {
            s.append(sep);
        }
        s.append(pre);
        append_join_rep(s, e, ",", k);
        s.append(post);
        proof {
            reveal_strlit(",");
            assert(s@ =~= old(s)@ + tuple_alts(e@, pre@, post@, sep@, l as int, k as int));
        }
        k = k + 1;
    }
}

} // verus!
