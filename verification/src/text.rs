//! Character-level building blocks: runs of a class of characters at either
//! end of a text, and the first place where one text stands in another.

use vstd::prelude::*;
use vstd::string::StrSliceExecFns;
use vstd::string::StringExecFns;

verus! {

/// A set of characters that a scan can test for.
#[derive(Clone, Copy, Debug)]
pub enum CharClass {
    /// Unicode white space.
    Whitespace,
    /// The one given character.
    Is(char),
    /// Every character but the given one.
    IsNot(char),
}

/// The code points with the Unicode property `White_Space`.
pub open spec fn is_whitespace(c: char) -> bool {
    let n = c as u32;
    ||| 0x09 <= n <= 0x0D
    ||| n == 0x20
    ||| n == 0x85
    ||| n == 0xA0
    ||| n == 0x1680
    ||| 0x2000 <= n <= 0x200A
    ||| n == 0x2028
    ||| n == 0x2029
    ||| n == 0x202F
    ||| n == 0x205F
    ||| n == 0x3000
}

impl CharClass {
    /// Whether `c` belongs to the class.
    pub open spec fn has(self, c: char) -> bool {
        match self {
            CharClass::Whitespace => is_whitespace(c),
            CharClass::Is(d) => c == d,
            CharClass::IsNot(d) => c != d,
        }
    }

    /// Tests `c` for membership.
    pub fn contains(&self, c: char) -> (b: bool)
        ensures
            b == self.has(c),
    {
        match self {
            CharClass::Whitespace => {
                let n: u32 = c as u32;
                (0x09 <= n && n <= 0x0D) || n == 0x20 || n == 0x85 || n == 0xA0 || n == 0x1680 || (
                0x2000 <= n && n <= 0x200A) || n == 0x2028 || n == 0x2029 || n == 0x202F || n
                    == 0x205F || n == 0x3000
            },
            CharClass::Is(d) => c == *d,
            CharClass::IsNot(d) => c != *d,
        }
    }
}

/// Length of the longest prefix of `s` made of characters of `class`.
pub open spec fn leading_len(s: Seq<char>, class: CharClass) -> nat
    decreases s.len(),
{
    if s.len() > 0 && class.has(s[0]) {
        1 + leading_len(s.drop_first(), class)
    } else {
        0
    }
}

/// Length of the longest suffix of `s` made of characters of `class`.
pub open spec fn trailing_len(s: Seq<char>, class: CharClass) -> nat
    decreases s.len(),
{
    if s.len() > 0 && class.has(s.last()) {
        1 + trailing_len(s.drop_last(), class)
    } else {
        0
    }
}

/// `s` up to, and without, its first `c`; all of `s` where it holds none.
pub open spec fn before_first(s: Seq<char>, c: char) -> Seq<char> {
    s.take(leading_len(s, CharClass::IsNot(c)) as int)
}

/// What follows the last `c` in `s`; all of `s` where it holds none.
pub open spec fn after_last(s: Seq<char>, c: char) -> Seq<char> {
    s.skip(s.len() - trailing_len(s, CharClass::IsNot(c)))
}

/// `s` without the run of `c` at its start.
pub open spec fn strip_leading(s: Seq<char>, c: char) -> Seq<char> {
    s.skip(leading_len(s, CharClass::Is(c)) as int)
}

/// `s` without the run of `c` at its end.
pub open spec fn strip_trailing(s: Seq<char>, c: char) -> Seq<char> {
    s.take(s.len() - trailing_len(s, CharClass::Is(c)))
}

/// `s` without the white space at its start and at its end.
pub open spec fn trimmed(s: Seq<char>) -> Seq<char> {
    let rest = s.skip(leading_len(s, CharClass::Whitespace) as int);
    rest.take(rest.len() - trailing_len(rest, CharClass::Whitespace))
}

/// The leading run is a prefix, all of it is in the class, and the character
/// that follows it, if there is one, is not.
pub proof fn lemma_leading_run(s: Seq<char>, class: CharClass)
    ensures
        leading_len(s, class) <= s.len(),
        forall|i: int| 0 <= i < leading_len(s, class) ==> class.has(#[trigger] s[i]),
        leading_len(s, class) < s.len() ==> !class.has(s[leading_len(s, class) as int]),
    decreases s.len(),
{
    if s.len() > 0 && class.has(s[0]) {
        let rest = s.drop_first();
        lemma_leading_run(rest, class);
        assert forall|i: int| 0 <= i < leading_len(s, class) implies class.has(
            #[trigger] s[i],
        ) by {
            if i > 0 {
                assert(s[i] == rest[i - 1]);
            }
        }
        if leading_len(s, class) < s.len() {
            assert(s[leading_len(s, class) as int] == rest[leading_len(rest, class) as int]);
        }
    }
}

/// The trailing run is a suffix, all of it is in the class, and the character
/// before it, if there is one, is not.
pub proof fn lemma_trailing_run(s: Seq<char>, class: CharClass)
    ensures
        trailing_len(s, class) <= s.len(),
        forall|i: int|
            s.len() - trailing_len(s, class) <= i < s.len() ==> class.has(#[trigger] s[i]),
        trailing_len(s, class) < s.len() ==> !class.has(
            s[s.len() - trailing_len(s, class) - 1],
        ),
    decreases s.len(),
{
    if s.len() > 0 && class.has(s.last()) {
        let rest = s.drop_last();
        lemma_trailing_run(rest, class);
        assert forall|i: int| s.len() - trailing_len(s, class) <= i < s.len() implies class.has(
            #[trigger] s[i],
        ) by {
            if i < s.len() - 1 {
                assert(s[i] == rest[i]);
            }
        }
        if trailing_len(s, class) < s.len() {
            assert(s[s.len() - trailing_len(s, class) - 1] == rest[rest.len() - trailing_len(
                rest,
                class,
            ) - 1]);
        }
    }
}

/// Whether `p` stands in `s` at position `i`.
pub open spec fn occurs_at(s: Seq<char>, p: Seq<char>, i: int) -> bool {
    0 <= i && i + p.len() <= s.len() && s.subrange(i, i + p.len()) == p
}

/// The least position, not before `from`, at which `p` stands in `s`.
pub open spec fn first_occurrence_from(s: Seq<char>, p: Seq<char>, from: int) -> Option<int>
    decreases s.len() + 1 - from,
{
    if from < 0 || from + p.len() > s.len() {
        None
    } else if occurs_at(s, p, from) {
        Some(from)
    } else {
        first_occurrence_from(s, p, from + 1)
    }
}

/// The least position at which `p` stands in `s`.
pub open spec fn first_occurrence(s: Seq<char>, p: Seq<char>) -> Option<int> {
    first_occurrence_from(s, p, 0)
}

/// `s` cut off where `p` first stands in it; all of `s` where it does not.
pub open spec fn cut_at(s: Seq<char>, p: Seq<char>) -> Seq<char> {
    match first_occurrence(s, p) {
        Some(i) => s.take(i),
        None => s,
    }
}

/// `first_occurrence_from` finds a place where `p` stands, with none between
/// `from` and it, or reports that there is none from `from` on.
pub proof fn lemma_first_occurrence_from(s: Seq<char>, p: Seq<char>, from: int)
    requires
        0 <= from,
    ensures
        match first_occurrence_from(s, p, from) {
            Some(i) => from <= i && occurs_at(s, p, i) && forall|j: int|
                from <= j < i ==> !occurs_at(s, p, j),
            None => forall|j: int| from <= j ==> !occurs_at(s, p, j),
        },
    decreases s.len() + 1 - from,
{
    if from + p.len() > s.len() {
    } else if occurs_at(s, p, from) {
    } else {
        lemma_first_occurrence_from(s, p, from + 1);
    }
}

/// The characters of `s`, in order.
pub fn chars_of(s: &str) -> (v: Vec<char>)
    ensures
        v@ == s@,
{
    let mut v: Vec<char> = Vec::new();
    for c in it: s.chars()
        invariant
            it.seq() == s@,
            v@ == s@.take(it.index() as int),
    {
        v.push(c);
    }
    v
}

/// Counts the characters of `class` at the start of `v[start..end]`.
pub fn leading_count(v: &Vec<char>, start: usize, end: usize, class: CharClass) -> (n: usize)
    requires
        start <= end <= v.len(),
    ensures
        n == leading_len(v@.subrange(start as int, end as int), class),
        n <= end - start,
{
    let mut i: usize = start;
    while i < end && class.contains(v[i])
        invariant
            start <= i <= end <= v.len(),
            leading_len(v@.subrange(start as int, end as int), class) == (i - start)
                + leading_len(v@.subrange(i as int, end as int), class),
        decreases end - i,
    {
        proof {
            let cur = v@.subrange(i as int, end as int);
            assert(cur[0] == v@[i as int]);
            assert(cur.drop_first() =~= v@.subrange(i + 1, end as int));
        }
        i += 1;
    }
    proof {
        let cur = v@.subrange(i as int, end as int);
        if i < end {
            assert(cur[0] == v@[i as int]);
        }
    }
    i - start
}

/// Counts the characters of `class` at the end of `v[start..end]`.
pub fn trailing_count(v: &Vec<char>, start: usize, end: usize, class: CharClass) -> (n: usize)
    requires
        start <= end <= v.len(),
    ensures
        n == trailing_len(v@.subrange(start as int, end as int), class),
        n <= end - start,
{
    let mut j: usize = end;
    while j > start && class.contains(v[j - 1])
        invariant
            start <= j <= end <= v.len(),
            trailing_len(v@.subrange(start as int, end as int), class) == (end - j)
                + trailing_len(v@.subrange(start as int, j as int), class),
        decreases j - start,
    {
        proof {
            let cur = v@.subrange(start as int, j as int);
            assert(cur.last() == v@[j - 1]);
            assert(cur.drop_last() =~= v@.subrange(start as int, j - 1));
        }
        j -= 1;
    }
    proof {
        let cur = v@.subrange(start as int, j as int);
        if j > start {
            assert(cur.last() == v@[j - 1]);
        }
    }
    end - j
}

/// Tests whether `p` stands in `v` at position `at`.
pub fn stands_at(v: &Vec<char>, p: &Vec<char>, at: usize) -> (b: bool)
    requires
        at + p.len() <= v.len(),
    ensures
        b == (v@.subrange(at as int, at + p.len()) == p@),
{
    let m = p.len();
    let mut t: usize = 0;
    while t < m
        invariant
            t <= m,
            m == p.len(),
            at + m <= v.len(),
            forall|u: int| 0 <= u < t ==> v@[at + u] == p@[u],
        decreases m - t,
    {
        if v[at + t] != p[t] {
            proof {
                let part = v@.subrange(at as int, at + m);
                assert(part[t as int] != p@[t as int]);
            }
            return false;
        }
        t += 1;
    }
    assert(v@.subrange(at as int, at + m) =~= p@);
    true
}

/// Finds the first place where `p` stands in `v[start..end]`, as a position
/// in `v`.
pub fn find_in(v: &Vec<char>, start: usize, end: usize, p: &Vec<char>) -> (r: Option<usize>)
    requires
        start <= end <= v.len(),
    ensures
        match r {
            Some(k) => start <= k <= end && first_occurrence(
                v@.subrange(start as int, end as int),
                p@,
            ) == Some(k - start),
            None => first_occurrence(v@.subrange(start as int, end as int), p@) is None,
        },
{
    let m = p.len();
    let len = end - start;
    let ghost sub = v@.subrange(start as int, end as int);
    if m > len {
        return None;
    }
    let mut i: usize = 0;
    loop
        invariant
            m == p.len(),
            len == end - start,
            start <= end <= v.len(),
            i <= len - m,
            sub == v@.subrange(start as int, end as int),
            first_occurrence(sub, p@) == first_occurrence_from(sub, p@, i as int),
        decreases len - m - i,
    {
        assert(sub.subrange(i as int, i + m) =~= v@.subrange(start + i, start + i + m));
        if stands_at(v, p, start + i) {
            return Some(start + i);
        }
        if i == len - m {
            assert(first_occurrence_from(sub, p@, i + 1) is None);
            return None;
        }
        i += 1;
    }
}

/// Tests whether `v` begins with `p`.
pub fn begins_with(v: &Vec<char>, p: &Vec<char>) -> (b: bool)
    ensures
        b == p@.is_prefix_of(v@),
{
    if p.len() > v.len() {
        return false;
    }
    stands_at(v, p, 0)
}

/// Tests whether two texts hold the same characters.
pub fn same_text(a: &str, b: &str) -> (r: bool)
    ensures
        r == (a@ == b@),
{
    let va = chars_of(a);
    let vb = chars_of(b);
    if va.len() != vb.len() {
        return false;
    }
    let r = stands_at(&va, &vb, 0);
    assert(va@.subrange(0, vb@.len() as int) =~= va@);
    r
}

/// The text without the white space at its start and at its end.
pub fn trim(s: &str) -> (r: &str)
    ensures
        r@ == trimmed(s@),
{
    let v = chars_of(s);
    let n = v.len();
    let a = leading_count(&v, 0, n, CharClass::Whitespace);
    let t = trailing_count(&v, a, n, CharClass::Whitespace);
    proof {
        assert(v@.subrange(0, n as int) =~= v@);
        assert(v@.skip(a as int) =~= v@.subrange(a as int, n as int));
        assert(trimmed(s@) =~= v@.subrange(a as int, n - t));
    }
    s.substring_char(a, n - t)
}

/// The decimal digit for `d`.
pub open spec fn digit_char(d: nat) -> char {
    if d == 0 {
        '0'
    } else if d == 1 {
        '1'
    } else if d == 2 {
        '2'
    } else if d == 3 {
        '3'
    } else if d == 4 {
        '4'
    } else if d == 5 {
        '5'
    } else if d == 6 {
        '6'
    } else if d == 7 {
        '7'
    } else if d == 8 {
        '8'
    } else {
        '9'
    }
}

/// `n` written in decimal, without leading zeros.
pub open spec fn decimal(n: nat) -> Seq<char>
    decreases n,
{
    if n < 10 {
        seq![digit_char(n)]
    } else {
        decimal(n / 10).push(digit_char(n % 10))
    }
}

/// The one-character text of a decimal digit.
pub fn digit_text(d: u64) -> (s: &'static str)
    requires
        d < 10,
    ensures
        s@ == seq![digit_char(d as nat)],
{
    proof {
        reveal_strlit("0");
        reveal_strlit("1");
        reveal_strlit("2");
        reveal_strlit("3");
        reveal_strlit("4");
        reveal_strlit("5");
        reveal_strlit("6");
        reveal_strlit("7");
        reveal_strlit("8");
        reveal_strlit("9");
    }
    let s = match d {
        0 => "0",
        1 => "1",
        2 => "2",
        3 => "3",
        4 => "4",
        5 => "5",
        6 => "6",
        7 => "7",
        8 => "8",
        _ => "9",
    };
    assert(s@ =~= seq![digit_char(d as nat)]);
    s
}

/// Appends `n`, written in decimal, to `out`.
pub fn push_decimal(out: &mut String, n: u64)
    ensures
        final(out)@ == old(out)@ + decimal(n as nat),
    decreases n,
{
    if n >= 10 {
        push_decimal(out, n / 10);
    }
    out.append(digit_text(n % 10));
    proof {
        let d = digit_char((n % 10) as nat);
        if n >= 10 {
            assert(old(out)@ + decimal((n / 10) as nat) + seq![d] =~= old(out)@ + decimal(
                (n / 10) as nat,
            ).push(d));
        }
    }
}

} // verus!
