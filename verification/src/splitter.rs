//! Grammar splitter: locates the operator name and argument span of a
//! call `name(args)`, and splits an argument span at its single
//! parenthesis-nesting-depth-zero comma.

use vstd::prelude::*;
use crate::expr::FilterError;

verus! {

/// How one character changes the parenthesis nesting depth.
pub open spec fn depth_delta(c: char) -> int {
    if c == '(' {
        1
    } else if c == ')' {
        -1
    } else {
        0
    }
}

/// Parenthesis nesting depth accumulated over all of `s`.
pub open spec fn seq_depth(s: Seq<char>) -> int
    decreases s.len(),
{
    if s.len() == 0 {
        0
    } else {
        seq_depth(s.drop_last()) + depth_delta(s.last())
    }
}

/// A comma of `s` at position `j` that no unmatched `(` encloses.
pub open spec fn is_dz_comma(s: Seq<char>, j: int) -> bool {
    &&& 0 <= j < s.len()
    &&& s[j] == ','
    &&& seq_depth(s.subrange(0, j)) == 0
}

/// Number of depth-zero commas among the first `n` characters of `s`.
pub open spec fn dz_comma_count_upto(s: Seq<char>, n: int) -> int
    decreases n,
{
    if n <= 0 {
        0
    } else {
        dz_comma_count_upto(s, n - 1) + if is_dz_comma(s, n - 1) {
            1int
        } else {
            0int
        }
    }
}

/// Number of depth-zero commas in `s`.
pub open spec fn dz_comma_count(s: Seq<char>) -> int {
    dz_comma_count_upto(s, s.len() as int)
}

/// Position of the first depth-zero comma among the first `n`
/// characters of `s`, if any.
pub open spec fn dz_comma_first_upto(s: Seq<char>, n: int) -> Option<int>
    decreases n,
{
    if n <= 0 {
        None
    } else {
        match dz_comma_first_upto(s, n - 1) {
            Some(j) => Some(j),
            None => if is_dz_comma(s, n - 1) {
                Some(n - 1)
            } else {
                None
            },
        }
    }
}

/// Position of the first depth-zero comma of `s`, if any.
pub open spec fn dz_comma_first(s: Seq<char>) -> Option<int> {
    dz_comma_first_upto(s, s.len() as int)
}

/// Position of the first `(` among the first `n` characters of `s`,
/// if any.
pub open spec fn first_lparen_upto(s: Seq<char>, n: int) -> Option<int>
    decreases n,
{
    if n <= 0 {
        None
    } else {
        match first_lparen_upto(s, n - 1) {
            Some(p) => Some(p),
            None => if s[n - 1] == '(' {
                Some(n - 1)
            } else {
                None
            },
        }
    }
}

/// Position of the first `(` of `s`, if any.
pub open spec fn first_lparen(s: Seq<char>) -> Option<int> {
    first_lparen_upto(s, s.len() as int)
}

/// The keyword of the sole unary operator.
pub open spec fn op_not() -> Seq<char> {
    seq!['n', 'o', 't']
}

/// Operator name and argument span of a call `name(args)`: the name is
/// everything before the first `(`, the span everything between that
/// `(` and the final character, which must be `)`.
pub open spec fn spec_locate_call(s: Seq<char>) -> Option<(Seq<char>, Seq<char>)> {
    match first_lparen(s) {
        None => None,
        Some(p) => if 0 <= p && p + 2 <= s.len() && s[s.len() - 1] == ')' {
            Some((s.subrange(0, p), s.subrange(p + 1, s.len() - 1)))
        } else {
            None
        },
    }
}

/// Split an argument span: the parentheses of `inner` must balance;
/// for the unary operator the whole span is the (right) operand; for
/// every other name `inner` must hold exactly one depth-zero comma,
/// the left argument ends before it and the right argument starts two
/// characters after it (the grammar writes `, ` between arguments).
pub open spec fn spec_split(name: Seq<char>, inner: Seq<char>) -> Option<(Seq<char>, Seq<char>)> {
    if seq_depth(inner) != 0 {
        None
    } else if name == op_not() {
        Some((Seq::<char>::empty(), inner))
    } else if dz_comma_count(inner) == 1 {
        match dz_comma_first(inner) {
            Some(j) => if 0 <= j && j + 2 <= inner.len() {
                Some((inner.subrange(0, j), inner.subrange(j + 2, inner.len() as int)))
            } else {
                None
            },
            None => None,
        }
    } else {
        None
    }
}

/// Whether `name` is the unary operator keyword.
pub fn is_not_name(name: &str) -> (r: bool)
    ensures
        r <==> name@ == op_not(),
{
    let n = name.unicode_len();
    if n != 3 {
        return false;
    }
    let c0 = name.get_char(0);
    let c1 = name.get_char(1);
    let c2 = name.get_char(2);
    if c0 == 'n' && c1 == 'o' && c2 == 't' {
        proof {
            assert(name@ =~= op_not());
        }
        true
    } else {
        false
    }
}

/// Extract the operator name and the argument span of `name(args)`.
pub fn locate_call<'a>(f: &'a str) -> (r: Result<(&'a str, &'a str), FilterError>)
    ensures
        match r {
            Ok(t) => spec_locate_call(f@) == Some((t.0@, t.1@)),
            Err(err) => spec_locate_call(f@) is None && err == FilterError::MalformedFilter,
        },
{
    let n = f.unicode_len();
    let mut j: usize = 0;
    let mut found: Option<usize> = None;
    while j < n
        invariant
            n == f@.len(),
            j <= n,
            match found {
                Some(p) => first_lparen_upto(f@, j as int) == Some(p as int) && p < j,
                None => first_lparen_upto(f@, j as int) is None,
            },
        decreases n - j,
    {
        if found.is_none() {
            let c = f.get_char(j);
            if c == '(' {
                found = Some(j);
            }
        }
        j += 1;
    }
    match found {
        None => Err(FilterError::MalformedFilter),
        Some(p) => {
            if n - p < 2 {
                return Err(FilterError::MalformedFilter);
            }
            let last = f.get_char(n - 1);
            if last != ')' {
                return Err(FilterError::MalformedFilter);
            }
            let name = f.substring_char(0, p);
            let inner = f.substring_char(p + 1, n - 1);
            Ok((name, inner))
        },
    }
}

/// Split the argument span `inner` of a call whose operator is `name`
/// at its single depth-zero comma; for the unary operator the whole
/// span is the (right) operand and the left is empty.
pub fn split_top_level<'a>(name: &str, inner: &'a str) -> (r: Result<
    (&'a str, &'a str),
    FilterError,
>)
    ensures
        match r {
            Ok(t) => spec_split(name@, inner@) == Some((t.0@, t.1@)),
            Err(err) => spec_split(name@, inner@) is None && err == FilterError::MalformedFilter,
        },
{
    let n = inner.unicode_len();
    let mut j: usize = 0;
    let mut depth: i128 = 0;
    let mut cnt: usize = 0;
    let mut first: usize = 0;
    let mut have_first: bool = false;
    while j < n
        invariant
            n == inner@.len(),
            j <= n,
            -(j as int) <= depth as int <= j as int,
            depth as int == seq_depth(inner@.subrange(0, j as int)),
            cnt as int == dz_comma_count_upto(inner@, j as int),
            cnt <= j,
            have_first <==> cnt > 0,
            if have_first {
                dz_comma_first_upto(inner@, j as int) == Some(first as int) && first < j
            } else {
                dz_comma_first_upto(inner@, j as int) is None
            },
        decreases n - j,
    {
        let c = inner.get_char(j);
        proof {
            assert(inner@.subrange(0, j as int + 1).drop_last() =~= inner@.subrange(0, j as int));
        }
        if c == '(' {
            depth = depth + 1;
        } else if c == ')' {
            depth = depth - 1;
        } else if c == ',' {
            if depth == 0 {
                if !have_first {
                    first = j;
                    have_first = true;
                }
                cnt = cnt + 1;
            }
        }
        j += 1;
    }
    proof {
        assert(inner@.subrange(0, n as int) =~= inner@);
    }
    if depth != 0 {
        return Err(FilterError::MalformedFilter);
    }
    if is_not_name(name) {
        let left = inner.substring_char(0, 0);
        proof {
            assert(inner@.subrange(0, 0) =~= Seq::<char>::empty());
        }
        return Ok((left, inner));
    }
    if cnt != 1 {
        return Err(FilterError::MalformedFilter);
    }
    if n - first < 2 {
        return Err(FilterError::MalformedFilter);
    }
    let left = inner.substring_char(0, first);
    let right = inner.substring_char(first + 2, n);
    Ok((left, right))
}

proof fn lemma_dz_first_is_dz(s: Seq<char>, n: int)
    requires
        dz_comma_first_upto(s, n) is Some,
    ensures
        is_dz_comma(s, dz_comma_first_upto(s, n)->Some_0),
        dz_comma_first_upto(s, n)->Some_0 < n,
    decreases n,
{
    if n > 0 {
        if dz_comma_first_upto(s, n - 1) is Some {
            lemma_dz_first_is_dz(s, n - 1);
        }
    }
}

/// The splitter never splits inside a nested parenthesis group: when a
/// binary argument span is split, the split point is a comma at
/// parenthesis nesting depth zero, the left argument is exactly the
/// text before that comma and the right argument exactly the text
/// starting two characters after it.
pub proof fn lemma_split_never_inside_group(name: Seq<char>, inner: Seq<char>)
    requires
        name != op_not(),
        spec_split(name, inner) is Some,
    ensures
        ({
            let (l, r) = spec_split(name, inner)->Some_0;
            &&& is_dz_comma(inner, l.len() as int)
            &&& l == inner.subrange(0, l.len() as int)
            &&& r == inner.subrange(l.len() as int + 2, inner.len() as int)
        }),
{
    lemma_dz_first_is_dz(inner, inner.len() as int);
}

} // verus!
