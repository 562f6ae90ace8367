//! String utilities: lexicographic order on character sequences, equality,
//! sorting, wildcard detection and decimal rendering of counters.

use vstd::prelude::*;
use vstd::string::StrSliceExecFns;
use vstd::string::StringExecFns;

verus! {

/// Lexicographic strict order on the character tails `a[i..]` and `b[i..]`,
/// comparing characters by their scalar values.
pub open spec fn lex_lt_from(a: Seq<char>, b: Seq<char>, i: int) -> bool
    decreases b.len() - i,
{
    if i >= b.len() {
        false
    } else if i >= a.len() {
        true
    } else if (a[i] as u32) < (b[i] as u32) {
        true
    } else if a[i] as u32 == b[i] as u32 {
        lex_lt_from(a, b, i + 1)
    } else {
        false
    }
}

/// `a` is strictly before `b` in lexicographic (scalar value) order.
pub open spec fn lex_lt(a: Seq<char>, b: Seq<char>) -> bool {
    lex_lt_from(a, b, 0)
}

/// Strict lexicographic comparison of two strings.
pub fn str_lt(a: &str, b: &str) -> (r: bool)
    ensures
        r == lex_lt(a@, b@),
{
    let la = a.unicode_len();
    let lb = b.unicode_len();
    let mut i: usize = 0;
    loop
        invariant
            la == a@.len(),
            lb == b@.len(),
            i <= la,
            i <= lb,
            lex_lt(a@, b@) == lex_lt_from(a@, b@, i as int),
        decreases lb - i,
    {
        if i >= lb {
            return false;
        }
        if i >= la {
            return true;
        }
        let ca = a.get_char(i);
        let cb = b.get_char(i);
        if (ca as u32) < (cb as u32) {
            return true;
        }
        if (ca as u32) != (cb as u32) {
            return false;
        }
        i = i + 1;
    }
}

/// Character-wise string equality.
pub fn str_eq(a: &str, b: &str) -> (r: bool)
    ensures
        r == (a@ == b@),
{
    let la = a.unicode_len();
    let lb = b.unicode_len();
    if la != lb {
        return false;
    }
    let mut i: usize = 0;
    loop
        invariant
            la == a@.len(),
            lb == b@.len(),
            la == lb,
            i <= la,
            forall|j: int| 0 <= j < i ==> a@[j] == b@[j],
        decreases la - i,
    {
        if i >= la {
            proof {
                assert(a@ =~= b@);
            }
            return true;
        }
        let ca = a.get_char(i);
        let cb = b.get_char(i);
        if ca != cb {
            return false;
        }
        i = i + 1;
    }
}

/// The sequence `s` with `x` inserted before its first element that is
/// strictly greater, so that inserting into a sorted sequence keeps it
/// sorted and keeps equal elements in arrival order.
pub open spec fn spec_insert_string(s: Seq<Seq<char>>, x: Seq<char>) -> Seq<Seq<char>>
    decreases s.len(),
{
    if s.len() == 0 {
        seq![x]
    } else if lex_lt(x, s[0]) {
        seq![x] + s
    } else {
        seq![s[0]] + spec_insert_string(s.drop_first(), x)
    }
}

/// Insertion sort of a sequence of strings, in lexicographic order.
pub open spec fn spec_sort_strings(s: Seq<Seq<char>>) -> Seq<Seq<char>>
    decreases s.len(),
{
    if s.len() == 0 {
        s
    } else {
        spec_insert_string(spec_sort_strings(s.drop_last()), s.last())
    }
}

fn insert_string(mut v: Vec<String>, x: String) -> (r: Vec<String>)
    ensures
        r.deep_view() == spec_insert_string(v.deep_view(), x@),
    decreases v.len(),
{
    let ghost orig = v.deep_view();
    if v.len() == 0 {
        v.push(x);
        proof {
            assert(v.deep_view() =~= spec_insert_string(orig, x@));
        }
        v
    } else if str_lt(x.as_str(), v[0].as_str()) {
        v.insert(0, x);
        proof {
            assert(v.deep_view() =~= spec_insert_string(orig, x@));
        }
        v
    } else {
        let h = v.remove(0);
        proof {
            assert(v.deep_view() =~= orig.drop_first());
        }
        let mut r = insert_string(v, x);
        r.insert(0, h);
        proof {
            assert(r.deep_view() =~= spec_insert_string(orig, x@));
        }
        r
    }
}

/// Sorts a list of strings lexicographically, by scalar value, ascending.
pub fn sort_strings(mut v: Vec<String>) -> (r: Vec<String>)
    ensures
        r.deep_view() == spec_sort_strings(v.deep_view()),
    decreases v.len(),
{
    let ghost orig = v.deep_view();
    if v.len() == 0 {
        v
    } else {
        let x = v.pop().unwrap();
        proof {
            assert(v.deep_view() =~= orig.drop_last());
            assert(x@ == orig.last());
        }
        let s = sort_strings(v);
        insert_string(s, x)
    }
}

/// Whether the string holds one of the glob metacharacters `*`, `?`, `[`.
pub open spec fn spec_has_wildcard(s: Seq<char>) -> bool {
    exists|i: int| 0 <= i < s.len() && (s[i] == '*' || s[i] == '?' || s[i] == '[')
}

/// Tests for glob metacharacters in a pattern string.
pub fn has_wildcard(s: &str) -> (r: bool)
    ensures
        r == spec_has_wildcard(s@),
{
    let l = s.unicode_len();
    let mut i: usize = 0;
    loop
        invariant
            l == s@.len(),
            i <= l,
            forall|j: int| 0 <= j < i ==> !(s@[j] == '*' || s@[j] == '?' || s@[j] == '['),
        decreases l - i,
    {
        if i >= l {
            return false;
        }
        let c = s.get_char(i);
        if c == '*' || c == '?' || c == '[' {
            return true;
        }
        i = i + 1;
    }
}

/// The decimal digit character for a value below ten.
pub open spec fn spec_digit(d: int) -> char {
    if d == 0 {
        '0'
    } else if d == 1 {
        '1'
    } else if d == 2 {
        '2'
    } else if d == 3 {
        '3'
    } else if d == 4 {
        '4'
    } else if d == 5 {
        '5'
    } else if d == 6 {
        '6'
    } else if d == 7 {
        '7'
    } else if d == 8 {
        '8'
    } else {
        '9'
    }
}

/// The usual decimal rendering of a natural number, most significant digit
/// first, with no leading zeros (a single `0` for zero).
pub open spec fn spec_decimal(n: nat) -> Seq<char>
    decreases n,
{
    if n < 10 {
        seq![spec_digit(n as int)]
    } else {
        spec_decimal(n / 10) + seq![spec_digit((n % 10) as int)]
    }
}

fn digit_str(d: u64) -> (r: &'static str)
    requires
        d < 10,
    ensures
        r@ =~= seq![spec_digit(d as int)],
{
    proof {
        reveal_strlit("0");
        reveal_strlit("1");
        reveal_strlit("2");
        reveal_strlit("3");
        reveal_strlit("4");
        reveal_strlit("5");
        reveal_strlit("6");
        reveal_strlit("7");
        reveal_strlit("8");
        reveal_strlit("9");
    }
    if d == 0 {
        "0"
    } else if d == 1 {
        "1"
    } else if d == 2 {
        "2"
    } else if d == 3 {
        "3"
    } else if d == 4 {
        "4"
    } else if d == 5 {
        "5"
    } else if d == 6 {
        "6"
    } else if d == 7 {
        "7"
    } else if d == 8 {
        "8"
    } else {
        "9"
    }
}

/// Renders a counter in decimal.
pub fn decimal(n: u64) -> (r: String)
    ensures
        r@ == spec_decimal(n as nat),
    decreases n,
{
    if n < 10 {
        String::from_str(digit_str(n))
    } else {
        let mut r = decimal(n / 10);
        r.append(digit_str(n % 10));
        r
    }
}

} // verus!
