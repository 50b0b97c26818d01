//! Identifier formatting: dot-segment splitting, Pascal-casing, and
//! namespace-path extraction.

use vstd::prelude::*;
use vstd::string::StrSliceExecFns;
use vstd::string::StringExecFns;

use convert_case::Case;
use convert_case::Casing;

verus! {

/// The Pascal-cased form of `s`, as convert_case computes it.
pub uninterp spec fn pascal_of(s: Seq<char>) -> Seq<char>;

/// Relies on convert_case's `Casing::to_case` with `Case::Pascal`: the result
/// depends on the input characters alone.
#[verifier::external_body]
pub fn to_pascalcase(value: &str) -> (r: String)
    ensures
        r@ == pascal_of(value@),
{
    value.to_case(Case::Pascal)
}

/// The index of the first `'.'` in `s`, or `-1` if there is none.
pub open spec fn first_dot(s: Seq<char>) -> int
    decreases s.len(),
{
    if s.len() == 0 {
        -1
    } else if s[0] == '.' {
        0
    } else {
        let r = first_dot(s.drop_first());
        if r < 0 {
            -1
        } else {
            r + 1
        }
    }
}

/// What `first_dot` finds: the first dot when there is one, else nothing.
pub proof fn lemma_first_dot(s: Seq<char>)
    ensures
        first_dot(s) >= 0 ==> {
            &&& first_dot(s) < s.len()
            &&& s[first_dot(s)] == '.'
            &&& forall|j: int| 0 <= j < first_dot(s) ==> s[j] != '.'
        },
        first_dot(s) < 0 ==> forall|j: int| 0 <= j < s.len() ==> s[j] != '.',
    decreases s.len(),
{
    if s.len() == 0 {
    } else if s[0] == '.' {
    } else {
        lemma_first_dot(s.drop_first());
        assert(forall|j: int| 0 <= j < s.len() - 1 ==> s.drop_first()[j] == s[j + 1]);
        assert(forall|j: int| 1 <= j < s.len() ==> s[j] == s.drop_first()[j - 1]);
        if first_dot(s) >= 0 {
            let r = first_dot(s.drop_first());
            assert(first_dot(s) == r + 1);
            assert(s[r + 1] == s.drop_first()[r]);
        }
    }
}

/// The dot-separated segments of `s`, in order.  Always at least one segment.
pub open spec fn split_dots(s: Seq<char>) -> Seq<Seq<char>>
    decreases s.len(),
{
    let i = first_dot(s);
    if 0 <= i < s.len() {
        seq![s.subrange(0, i)] + split_dots(s.subrange(i + 1, s.len() as int))
    } else {
        seq![s]
    }
}

/// The segments, Pascal-cased.
pub open spec fn pascal_segments(s: Seq<char>) -> Seq<Seq<char>> {
    split_dots(s).map_values(|p: Seq<char>| pascal_of(p))
}

/// The first `k` of `parts`, joined with `'.'`.
pub open spec fn join_dots_upto(parts: Seq<Seq<char>>, k: int) -> Seq<char>
    decreases k,
{
    if k <= 0 {
        Seq::empty()
    } else if k == 1 {
        parts[0]
    } else {
        join_dots_upto(parts, k - 1) + seq!['.'] + parts[k - 1]
    }
}

/// All of `parts`, joined with `'.'`.
pub open spec fn join_dots(parts: Seq<Seq<char>>) -> Seq<char> {
    join_dots_upto(parts, parts.len() as int)
}

/// The namespaced form of a dotted name: every segment Pascal-cased, dots
/// kept.
pub open spec fn namespaced_of(s: Seq<char>) -> Seq<char> {
    join_dots(pascal_segments(s))
}

/// The index of the first `'.'`, or `None`.
fn find_dot(value: &str) -> (r: Option<usize>)
    ensures
        match r {
            Some(i) => first_dot(value@) == i as int,
            None => first_dot(value@) < 0,
        },
{
    let len = value.unicode_len();
    let mut i: usize = 0;
    while i < len
        invariant
            i <= len,
            len == value@.len(),
            forall|j: int| 0 <= j < i ==> value@[j] != '.',
        decreases len - i,
    {
        if value.get_char(i) == '.' {
            proof {
                lemma_first_dot(value@);
            }
            return Some(i);
        }
        i = i + 1;
    }
    proof {
        lemma_first_dot(value@);
    }
    None
}

/// Splits a dotted name into its segments.
pub fn split_identifier(value: &str) -> (r: Vec<String>)
    ensures
        r@.map_values(|x: String| x@) == split_dots(value@),
    decreases value@.len(),
{
    match find_dot(value) {
        None => {
            let mut v: Vec<String> = Vec::new();
            v.push(value.to_owned());
            proof {
                assert(v@.map_values(|x: String| x@) =~= split_dots(value@));
            }
            v
        },
        Some(i) => {
            let len = value.unicode_len();
            proof {
                lemma_first_dot(value@);
            }
            let head = value.substring_char(0, i);
            let tail = value.substring_char(i + 1, len);
            let mut rest = split_identifier(tail);
            let mut v: Vec<String> = Vec::new();
            v.push(head.to_owned());
            v.append(&mut rest);
            proof {
                assert(v@.map_values(|x: String| x@) =~= split_dots(value@));
            }
            v
        },
    }
}

/// Pascal-cases every dotted segment and joins them back with dots.
pub fn to_namespaced(value: &str) -> (r: String)
    ensures
        r@ == namespaced_of(value@),
{
    let parts = split_identifier(value);
    let ghost mapped = pascal_segments(value@);
    let mut s = String::new();
    let mut i: usize = 0;
    while i < parts.len()
        invariant
            i <= parts@.len(),
            parts@.map_values(|x: String| x@) == split_dots(value@),
            mapped == pascal_segments(value@),
            s@ == join_dots_upto(mapped, i as int),
        decreases parts@.len() - i,
    {
        if i != 0 {
            s.append(".");
        }
        let p = to_pascalcase(parts[i].as_str());
        s.append(p.as_str());
        proof {
            reveal_strlit(".");
            assert("."@ =~= seq!['.']);
            assert(mapped[i as int] == pascal_of(parts@[i as int]@));
            assert(s@ =~= join_dots_upto(mapped, i + 1));
        }
        i = i + 1;
    }
    proof {
        assert(parts@.len() == mapped.len());
    }
    s
}

/// Splits a dotted name into its Pascal-cased namespace path and its
/// Pascal-cased final segment.
pub fn split_namespaced(value: &str) -> (r: (Vec<String>, String))
    ensures
        r.0@.map_values(|x: String| x@) == pascal_segments(value@).drop_last(),
        r.1@ == pascal_segments(value@).last(),
{
    let parts = split_identifier(value);
    let ghost mapped = pascal_segments(value@);
    let mut out: Vec<String> = Vec::new();
    let mut i: usize = 0;
    while i < parts.len()
        invariant
            i <= parts@.len(),
            parts@.map_values(|x: String| x@) == split_dots(value@),
            mapped == pascal_segments(value@),
            out@.len() == i,
            forall|j: int| 0 <= j < i ==> out@[j]@ == mapped[j],
        decreases parts@.len() - i,
    {
        let p = to_pascalcase(parts[i].as_str());
        out.push(p);
        proof {
            assert(mapped[i as int] == pascal_of(parts@[i as int]@));
        }
        i = i + 1;
    }
    proof {
        assert(split_dots(value@).len() >= 1);
        assert(out@.len() == mapped.len());
    }
    let last = match out.pop() {
        Some(l) => l,
        None => String::new(),
    };
    proof {
        assert(out@.map_values(|x: String| x@) =~= mapped.drop_last());
    }
    (out, last)
}


/// Splitting a dotted name into its namespace path and final segment and
/// joining them back with dots reproduces the whole namespaced name: the
/// round trip loses nothing but the original casing.
pub proof fn lemma_namespaced_round_trip(s: Seq<char>)
    ensures
        join_dots(pascal_segments(s).drop_last().push(pascal_segments(s).last()))
            == namespaced_of(s),
{
    assert(split_dots(s).len() >= 1);
    assert(pascal_segments(s).drop_last().push(pascal_segments(s).last())
        =~= pascal_segments(s));
}

/// Whether `c` is an ASCII letter or a space.
pub open spec fn is_alpha_or_space(c: char) -> bool {
    ('a' <= c && c <= 'z') || ('A' <= c && c <= 'Z') || c == ' '
}

/// Whether every character of `s` is an ASCII letter or a space.
pub open spec fn all_alphaspace(s: Seq<char>) -> bool {
    forall|i: int| 0 <= i < s.len() ==> is_alpha_or_space(s[i])
}

/// Decides whether `value` consists of letters and spaces alone.
pub fn is_alphaspace(value: &str) -> (r: bool)
    ensures
        r == all_alphaspace(value@),
{
    let len = value.unicode_len();
    let mut i: usize = 0;
    while i < len
        invariant
            i <= len,
            len == value@.len(),
            forall|j: int| 0 <= j < i ==> is_alpha_or_space(value@[j]),
        decreases len - i,
    {
        let c = value.get_char(i);
        if !((('a' <= c && c <= 'z') || ('A' <= c && c <= 'Z')) || c == ' ') {
            proof {
                assert(!is_alpha_or_space(value@[i as int]));
            }
            return false;
        }
        i = i + 1;
    }
    true
}

} // verus!
