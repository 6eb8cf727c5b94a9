//! Character-level vocabulary of the assembler: whitespace, comments and
//! the parts of a line around a separator.
//!
//! Every text is modelled as a `Seq<char>`; the executable functions work on
//! the characters of a line held in a `Vec<char>`.
use vstd::prelude::*;

verus! {

/// The characters that count as whitespace: those that Unicode marks as
/// `White_Space`.
pub open spec fn is_whitespace(c: char) -> bool {
    let u = c as u32;
    ||| 0x09 <= u <= 0x0D
    ||| u == 0x20
    ||| u == 0x85
    ||| u == 0xA0
    ||| u == 0x1680
    ||| 0x2000 <= u <= 0x200A
    ||| u == 0x2028
    ||| u == 0x2029
    ||| u == 0x202F
    ||| u == 0x205F
    ||| u == 0x3000
}

/// `s` without its leading whitespace.
pub open spec fn trim_start(s: Seq<char>) -> Seq<char>
    decreases s.len(),
{
    if s.len() > 0 && is_whitespace(s.first()) {
        trim_start(s.drop_first())
    } else {
        s
    }
}

/// `s` without its trailing whitespace.
pub open spec fn trim_end(s: Seq<char>) -> Seq<char>
    decreases s.len(),
{
    if s.len() > 0 && is_whitespace(s.last()) {
        trim_end(s.drop_last())
    } else {
        s
    }
}

/// `s` without the whitespace that surrounds it.
pub open spec fn trim(s: Seq<char>) -> Seq<char> {
    trim_end(trim_start(s))
}

/// Whether `s` begins with the two-character comment marker `//`.
pub open spec fn starts_comment(s: Seq<char>) -> bool {
    s.len() >= 2 && s[0] == '/' && s[1] == '/'
}

/// The number of characters of `s` that precede its first comment marker;
/// the length of `s` when it holds none.
pub open spec fn comment_start(s: Seq<char>) -> nat
    decreases s.len(),
{
    if s.len() == 0 || starts_comment(s) {
        0
    } else {
        1 + comment_start(s.drop_first())
    }
}

/// `s` up to its first comment marker.
pub open spec fn strip_comment(s: Seq<char>) -> Seq<char> {
    s.take(comment_start(s) as int)
}

/// The canonical form of a source line: its comment removed, then the
/// surrounding whitespace. Empty exactly for the lines that hold no command.
pub open spec fn clean_line(line: Seq<char>) -> Seq<char> {
    trim(strip_comment(line))
}

/// The texts of a list of strings.
pub open spec fn texts(lines: Seq<String>) -> Seq<Seq<char>> {
    Seq::new(lines.len(), |i: int| lines[i]@)
}

/// The part of `s` before the first `c`; all of `s` when `c` does not occur.
pub open spec fn before_first(s: Seq<char>, c: char) -> Seq<char> {
    match s.index_of_first(c) {
        Some(i) => s.take(i),
        None => s,
    }
}

/// The part of `s` after the last `c`; all of `s` when `c` does not occur.
pub open spec fn after_last(s: Seq<char>, c: char) -> Seq<char> {
    match s.index_of_last(c) {
        Some(i) => s.skip(i + 1),
        None => s,
    }
}

/// The part of `s` between the first `open` and the first `close`; empty when
/// one of them is missing or the first `close` comes before the first `open`.
pub open spec fn between_first(s: Seq<char>, open: char, close: char) -> Seq<char> {
    match (s.index_of_first(open), s.index_of_first(close)) {
        (Some(i), Some(j)) => if i < j {
            s.subrange(i + 1, j)
        } else {
            Seq::empty()
        },
        _ => Seq::empty(),
    }
}

/// Whether `c` counts as whitespace.
pub fn is_whitespace_char(c: char) -> (b: bool)
    ensures
        b == is_whitespace(c),
{
    let u: u32 = c as u32;
    (0x09 <= u && u <= 0x0D) || u == 0x20 || u == 0x85 || u == 0xA0 || u == 0x1680 || (0x2000 <= u
        && u <= 0x200A) || u == 0x2028 || u == 0x2029 || u == 0x202F || u == 0x205F || u == 0x3000
}

/// The characters of `s`, in order.
pub fn chars_of(s: &str) -> (v: Vec<char>)
    ensures
        v@ == s@,
{
    let mut v: Vec<char> = Vec::new();
    for c in it: s.chars()
        invariant
            it.seq() == s@,
            v@ == s@.take(it.index()),
    {
        v.push(c);
        assert(s@.take(it.index() + 1) =~= s@.take(it.index()).push(c));
    }
    assert(s@.take(s@.len() as int) =~= s@);
    v
}

/// The index at which the first comment marker of `v` begins, or the length
/// of `v`.
pub fn find_comment(v: &Vec<char>) -> (k: usize)
    ensures
        k == comment_start(v@),
        k <= v.len(),
{
    let n = v.len();
    let mut i: usize = 0;
    assert(v@.skip(0) =~= v@);
    while i < n
        invariant
            n == v.len(),
            i <= n,
            comment_start(v@) == i + comment_start(v@.skip(i as int)),
        decreases n - i,
    {
        let ghost rest = v@.skip(i as int);
        assert(rest.len() == n - i && rest[0] == v@[i as int]);
        if v[i] == '/' && i + 1 < n && v[i + 1] == '/' {
            assert(rest[1] == v@[i + 1]);
            assert(starts_comment(rest));
            return i;
        }
        assert(!starts_comment(rest)) by {
            if rest.len() >= 2 {
                assert(rest[1] == v@[i + 1]);
            }
        }
        assert(rest.drop_first() =~= v@.skip(i + 1));
        i = i + 1;
    }
    assert(v@.skip(n as int).len() == 0);
    n
}

/// The bounds of `v[from..to]` without its surrounding whitespace.
pub fn trim_range(v: &Vec<char>, from: usize, to: usize) -> (r: (usize, usize))
    requires
        from <= to <= v.len(),
    ensures
        from <= r.0 <= r.1 <= to,
        v@.subrange(r.0 as int, r.1 as int) == trim(v@.subrange(from as int, to as int)),
{
    let mut a: usize = from;
    while a < to && is_whitespace_char(v[a])
        invariant
            from <= a <= to <= v.len(),
            trim_start(v@.subrange(from as int, to as int)) == trim_start(
                v@.subrange(a as int, to as int),
            ),
        decreases to - a,
    {
        assert(v@.subrange(a as int, to as int).drop_first() =~= v@.subrange(a + 1, to as int));
        a = a + 1;
    }
    assert(trim_start(v@.subrange(a as int, to as int)) == v@.subrange(a as int, to as int));
    let mut b: usize = to;
    while b > a && is_whitespace_char(v[b - 1])
        invariant
            a <= b <= to <= v.len(),
            trim_end(v@.subrange(a as int, to as int)) == trim_end(v@.subrange(a as int, b as int)),
        decreases b - a,
    {
        assert(v@.subrange(a as int, b as int).drop_last() =~= v@.subrange(a as int, b - 1));
        b = b - 1;
    }
    assert(trim_end(v@.subrange(a as int, b as int)) == v@.subrange(a as int, b as int));
    (a, b)
}

/// The index of the first `c` in `v`.
pub fn find_first(v: &Vec<char>, c: char) -> (r: Option<usize>)
    ensures
        match r {
            Some(i) => v@.index_of_first(c) == Some(i as int) && i < v.len(),
            None => v@.index_of_first(c) is None,
        },
{
    proof {
        v@.index_of_first_ensures(c);
    }
    let n = v.len();
    let mut i: usize = 0;
    while i < n
        invariant
            n == v.len(),
            i <= n,
            forall|j: int| 0 <= j < i ==> v@[j] != c,
        decreases n - i,
    {
        if v[i] == c {
            proof {
                v@.index_of_first_ensures(c);
                assert(v@.contains(c));
            }
            return Some(i);
        }
        i = i + 1;
    }
    None
}

/// The index of the last `c` in `v`.
pub fn find_last(v: &Vec<char>, c: char) -> (r: Option<usize>)
    ensures
        match r {
            Some(i) => v@.index_of_last(c) == Some(i as int) && i < v.len(),
            None => v@.index_of_last(c) is None,
        },
{
    proof {
        v@.index_of_last_ensures(c);
    }
    let n = v.len();
    let mut i: usize = n;
    while i > 0
        invariant
            n == v.len(),
            i <= n,
            forall|j: int| i <= j < n ==> v@[j] != c,
        decreases i,
    {
        i = i - 1;
        if v[i] == c {
            proof {
                v@.index_of_last_ensures(c);
                assert(v@.contains(c));
            }
            return Some(i);
        }
    }
    None
}

/// Whether `v[from..to]` spells `word`.
pub fn range_is(v: &Vec<char>, from: usize, to: usize, word: &str) -> (b: bool)
    requires
        from <= to <= v.len(),
    ensures
        b == (v@.subrange(from as int, to as int) == word@),
{
    let ghost part = v@.subrange(from as int, to as int);
    let mut i: usize = from;
    for c in it: word.chars()
        invariant
            it.seq() == word@,
            part == v@.subrange(from as int, to as int),
            from <= to <= v.len(),
            i == from + it.index(),
            i <= to,
            forall|j: int| 0 <= j < it.index() ==> part[j] == word@[j],
    {
        if i >= to {
            assert(part.len() < word@.len());
            return false;
        }
        if v[i] != c {
            assert(part[i - from] != word@[i - from]);
            return false;
        }
        i = i + 1;
    }
    if i == to {
        assert(part =~= word@);
        true
    } else {
        assert(part.len() > word@.len());
        false
    }
}

/// Whether `c` occurs in `s`.
pub fn contains_char(s: &str, c: char) -> (b: bool)
    ensures
        b == s@.contains(c),
{
    for x in it: s.chars()
        invariant
            it.seq() == s@,
            forall|j: int| 0 <= j < it.index() ==> s@[j] != c,
    {
        if x == c {
            assert(s@[it.index()] == c);
            return true;
        }
    }
    false
}

/// The canonical form of a source line.
pub fn clean(line: &str) -> (r: String)
    ensures
        r@ == clean_line(line@),
{
    let v = chars_of(line);
    let k = find_comment(&v);
    let (a, b) = trim_range(&v, 0, k);
    assert(v@.subrange(0, k as int) =~= v@.take(k as int));
    line.substring_char(a, b).to_owned()
}

} // verus!
