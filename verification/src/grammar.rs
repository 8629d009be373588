//! The wire-type signature grammar.
//!
//! A single complete type is one of: a basic type code, the variant code
//! `v`, an array `a` followed by a complete element type, a dictionary
//! `a{kv}` with a basic key and a complete value type, or a structure
//! `( ... )` holding one or more complete types.  `type_end` defines where
//! the single complete type starting at a position ends; `is_single_type`
//! says whether a whole string is exactly one complete type.

use vstd::prelude::*;
use vstd::string::StrSliceExecFns;

verus! {

/// The basic (non-container) type codes of the wire grammar.
pub open spec fn is_basic_type_char(c: char) -> bool {
    ||| c == 'y'
    ||| c == 'b'
    ||| c == 'n'
    ||| c == 'q'
    ||| c == 'i'
    ||| c == 'u'
    ||| c == 'x'
    ||| c == 't'
    ||| c == 'd'
    ||| c == 'h'
    ||| c == 's'
    ||| c == 'o'
    ||| c == 'g'
}

/// The position just past the single complete type starting at `i`, or `i`
/// itself when no complete type starts there.
pub open spec fn type_end(s: Seq<char>, i: int) -> int
    decreases s.len() - i, 0int,
{
    if i < 0 || i >= s.len() {
        i
    } else if is_basic_type_char(s[i]) || s[i] == 'v' {
        i + 1
    } else if s[i] == 'a' {
        if i + 1 < s.len() && s[i + 1] == '{' {
            if i + 2 < s.len() && is_basic_type_char(s[i + 2]) {
                let e = type_end(s, i + 3);
                if i + 3 < e && e < s.len() && s[e] == '}' {
                    e + 1
                } else {
                    i
                }
            } else {
                i
            }
        } else if i + 1 < s.len() {
            let e = type_end(s, i + 1);
            if i + 1 < e {
                e
            } else {
                i
            }
        } else {
            i
        }
    } else if s[i] == '(' {
        let e = type_run_end(s, i + 1);
        if i + 1 < e && e < s.len() && s[e] == ')' {
            e + 1
        } else {
            i
        }
    } else {
        i
    }
}

/// The position reached by consuming complete types one after another,
/// starting at `i`, for as long as one starts at the current position.
pub open spec fn type_run_end(s: Seq<char>, i: int) -> int
    decreases s.len() - i, 1int,
{
    if i < 0 || i >= s.len() {
        i
    } else {
        let e = type_end(s, i);
        if e <= i || e > s.len() {
            i
        } else if e == s.len() {
            e
        } else {
            type_run_end(s, e)
        }
    }
}

/// A string is a single complete type of the wire grammar.
pub open spec fn is_single_type(s: Seq<char>) -> bool {
    s.len() > 0 && type_end(s, 0) == s.len()
}

fn basic_type_char(c: char) -> (b: bool)
    ensures
        b == is_basic_type_char(c),
{
    c == 'y' || c == 'b' || c == 'n' || c == 'q' || c == 'i' || c == 'u' || c == 'x' || c == 't'
        || c == 'd' || c == 'h' || c == 's' || c == 'o' || c == 'g'
}

fn type_end_x(s: &str, n: usize, i: usize) -> (r: usize)
    requires
        n == s@.len(),
        i <= n,
    ensures
        r as int == type_end(s@, i as int),
        i <= r <= n,
    decreases n - i, 0int,
{
    if i >= n {
        return i;
    }
    let c = s.get_char(i);
    if basic_type_char(c) || c == 'v' {
        i + 1
    } else if c == 'a' {
        if i + 1 < n && s.get_char(i + 1) == '{' {
            if i + 2 < n && basic_type_char(s.get_char(i + 2)) {
                let e = type_end_x(s, n, i + 3);
                if i + 3 < e && e < n && s.get_char(e) == '}' {
                    e + 1
                } else {
                    i
                }
            } else {
                i
            }
        } else if i + 1 < n {
            let e = type_end_x(s, n, i + 1);
            if i + 1 < e {
                e
            } else {
                i
            }
        } else {
            i
        }
    } else if c == '(' {
        let e = type_run_end_x(s, n, i + 1);
        if i + 1 < e && e < n && s.get_char(e) == ')' {
            e + 1
        } else {
            i
        }
    } else {
        i
    }
}

fn type_run_end_x(s: &str, n: usize, i: usize) -> (r: usize)
    requires
        n == s@.len(),
        i <= n,
    ensures
        r as int == type_run_end(s@, i as int),
        i <= r <= n,
    decreases n - i, 1int,
{
    if i >= n {
        return i;
    }
    let e = type_end_x(s, n, i);
    if e <= i {
        i
    } else if e == n {
        e
    } else {
        type_run_end_x(s, n, e)
    }
}

/// Decides whether `s` is exactly one complete type of the wire grammar.
pub fn check_single_type(s: &str) -> (b: bool)
    ensures
        b == is_single_type(s@),
{
    let n = s.unicode_len();
    if n == 0 {
        return false;
    }
    let e = type_end_x(s, n, 0);
    e == n
}

proof fn lemma_run_end_lb(s: Seq<char>, i: int)
    ensures
        type_run_end(s, i) >= i,
    decreases s.len() - i, 2int,
{
    if 0 <= i && i < s.len() {
        let e = type_end(s, i);
        if i < e <= s.len() && e < s.len() {
            lemma_run_end_lb(s, e);
        }
    }
}

/// A successful `type_end` reads only the characters of the type itself:
/// any string that agrees with `s` on that window parses to the same end.
proof fn lemma_type_end_stable(s: Seq<char>, t: Seq<char>, i: int)
    requires
        0 <= i,
        i < type_end(s, i),
        type_end(s, i) <= s.len(),
        type_end(s, i) <= t.len(),
        forall|j: int| i <= j < type_end(s, i) ==> t[j] == s[j],
    ensures
        type_end(t, i) == type_end(s, i),
    decreases s.len() - i, 0int,
{
    let e = type_end(s, i);
    assert(i < s.len());
    if is_basic_type_char(s[i]) || s[i] == 'v' {
        assert(t[i] == s[i]);
    } else if s[i] == 'a' {
        assert(t[i] == s[i]);
        if i + 1 < s.len() && s[i + 1] == '{' {
            assert(i + 2 < s.len() && is_basic_type_char(s[i + 2]));
            let e1 = type_end(s, i + 3);
            assert(i + 3 < e1 && e1 < s.len() && s[e1] == '}' && e == e1 + 1);
            lemma_type_end_stable(s, t, i + 3);
            assert(t[i + 1] == '{' && is_basic_type_char(t[i + 2]) && t[e1] == '}');
        } else {
            assert(i + 1 < s.len());
            let e1 = type_end(s, i + 1);
            assert(i + 1 < e1 && e == e1);
            lemma_type_end_stable(s, t, i + 1);
            assert(t[i + 1] == s[i + 1]);
        }
    } else if s[i] == '(' {
        assert(t[i] == s[i]);
        let m = type_run_end(s, i + 1);
        assert(i + 1 < m && m < s.len() && s[m] == ')' && e == m + 1);
        lemma_run_end_stable(s, t, i + 1);
        assert(t[m] == ')');
    } else {
        assert(false);
    }
}

/// The companion of `lemma_type_end_stable` for a run of types that stops
/// at a closing parenthesis.
proof fn lemma_run_end_stable(s: Seq<char>, t: Seq<char>, i: int)
    requires
        0 <= i,
        i <= type_run_end(s, i),
        type_run_end(s, i) < s.len(),
        s[type_run_end(s, i)] == ')',
        type_run_end(s, i) < t.len(),
        forall|j: int| i <= j <= type_run_end(s, i) ==> t[j] == s[j],
    ensures
        type_run_end(t, i) == type_run_end(s, i),
    decreases s.len() - i, 1int,
{
    let e = type_run_end(s, i);
    assert(i < s.len());
    let m = type_end(s, i);
    if m <= i || m > s.len() {
        assert(e == i);
        assert(t[i] == ')');
        assert(type_end(t, i) == i);
        assert(type_run_end(t, i) == i);
    } else if m == s.len() {
        assert(false);
    } else {
        assert(e == type_run_end(s, m));
        lemma_run_end_lb(s, m);
        lemma_type_end_stable(s, t, i);
        lemma_run_end_stable(s, t, m);
        assert(type_run_end(t, i) == e);
    }
}

/// No single complete type is a proper prefix of another: the grammar is
/// self-delimiting, so a type that is a prefix of another type equals it.
pub proof fn lemma_single_type_prefix_free(a: Seq<char>, b: Seq<char>)
    requires
        is_single_type(a),
        is_single_type(b),
        a.len() <= b.len(),
        a == b.take(a.len() as int),
    ensures
        a == b,
{
    if a.len() < b.len() {
        assert forall|j: int| 0 <= j < type_end(a, 0) implies b[j] == a[j] by {
            assert(b.take(a.len() as int)[j] == b[j]);
        }
        lemma_type_end_stable(a, b, 0);
        assert(false);
    } else {
        assert(a =~= b);
    }
}

} // verus!
