//! Model names: the grammar that a destination name has to match, and the
//! short name proposed for a model.

use crate::text::{
    after_last, before_first, chars_of, cut_at, find_in, first_occurrence, leading_count,
    leading_len,
    lemma_leading_run, lemma_trailing_run, trailing_count, trailing_len, CharClass,
};
use vstd::prelude::*;
use vstd::string::StrSliceExecFns;
use vstd::string::StringExecFns;

verus! {

/// A letter, a digit, `.`, `_` or `-`.
pub open spec fn is_name_char(c: char) -> bool {
    ||| 'a' <= c <= 'z'
    ||| 'A' <= c <= 'Z'
    ||| '0' <= c <= '9'
    ||| c == '.'
    ||| c == '_'
    ||| c == '-'
}

/// A non-empty run of name characters: one segment of a name, or its tag.
pub open spec fn is_word(s: Seq<char>) -> bool {
    s.len() > 0 && forall|i: int| 0 <= i < s.len() ==> is_name_char(#[trigger] s[i])
}

/// The segments written one after the other with a `/` between each two.
pub open spec fn joined(segments: Seq<Seq<char>>) -> Seq<char>
    decreases segments.len(),
{
    if segments.len() == 0 {
        Seq::empty()
    } else if segments.len() == 1 {
        segments[0]
    } else {
        joined(segments.drop_last()) + seq!['/'] + segments.last()
    }
}

/// The name made of the given segments and, where there is one, the tag
/// behind a `:`.
pub open spec fn rendered(segments: Seq<Seq<char>>, tag: Option<Seq<char>>) -> Seq<char> {
    match tag {
        Some(t) => joined(segments) + seq![':'] + t,
        None => joined(segments),
    }
}

/// Whether the parts are those of a name: at least one segment, every
/// segment a word, and the tag, where there is one, a word too.
pub open spec fn are_name_parts(segments: Seq<Seq<char>>, tag: Option<Seq<char>>) -> bool {
    &&& segments.len() >= 1
    &&& forall|i: int| 0 <= i < segments.len() ==> is_word(#[trigger] segments[i])
    &&& tag matches Some(t) ==> is_word(t)
}

/// The grammar of model names: one or more words separated by `/`, then
/// optionally `:` and a tag that is a word.
pub open spec fn is_valid_name(s: Seq<char>) -> bool {
    exists|segments: Seq<Seq<char>>, tag: Option<Seq<char>>|
        are_name_parts(segments, tag) && s == #[trigger] rendered(segments, tag)
}

/// Words separated by single `/`, told by looking at neighbouring characters.
spec fn is_plain_path(p: Seq<char>) -> bool {
    &&& p.len() > 0
    &&& forall|i: int| 0 <= i < p.len() ==> is_name_char(#[trigger] p[i]) || p[i] == '/'
    &&& p[0] != '/'
    &&& p.last() != '/'
    &&& forall|i: int| 0 <= i < p.len() - 1 ==> !(#[trigger] p[i] == '/' && p[i + 1] == '/')
}

/// What the scan of a name tests: a plain path up to the first `:`, and a
/// word behind it.
spec fn scans_as_name(s: Seq<char>) -> bool {
    let k = leading_len(s, CharClass::IsNot(':')) as int;
    is_plain_path(s.take(k)) && (k == s.len() || is_word(s.skip(k + 1)))
}

proof fn lemma_joined_is_plain(segments: Seq<Seq<char>>)
    requires
        segments.len() >= 1,
        forall|i: int| 0 <= i < segments.len() ==> is_word(#[trigger] segments[i]),
    ensures
        is_plain_path(joined(segments)),
    decreases segments.len(),
{
    if segments.len() == 1 {
        let w = segments[0];
        assert(is_word(w));
        assert(is_name_char(w[0]));
        assert(is_name_char(w[w.len() - 1]));
    } else {
        let init = segments.drop_last();
        let w = segments.last();
        assert forall|i: int| 0 <= i < init.len() implies is_word(#[trigger] init[i]) by {
            assert(init[i] == segments[i]);
        }
        lemma_joined_is_plain(init);
        let a = joined(init);
        let p = joined(segments);
        assert(p == a + seq!['/'] + w);
        assert(is_word(w));
        assert(p.len() == a.len() + 1 + w.len());
        assert forall|i: int| 0 <= i < p.len() implies is_name_char(#[trigger] p[i]) || p[i]
            == '/' by {
            if i < a.len() {
                assert(p[i] == a[i]);
            } else if i == a.len() {
                assert(p[i] == '/');
            } else {
                assert(p[i] == w[i - a.len() - 1]);
            }
        }
        assert(p[0] == a[0]);
        assert(p.last() == w[w.len() - 1]);
        assert forall|i: int| 0 <= i < p.len() - 1 implies !(#[trigger] p[i] == '/' && p[i + 1]
            == '/') by {
            if i + 1 < a.len() {
                assert(p[i] == a[i] && p[i + 1] == a[i + 1]);
            } else if i + 1 == a.len() {
                assert(p[i] == a.last());
            } else if i == a.len() {
                assert(p[i + 1] == w[0]);
                assert(is_name_char(w[0]));
            } else {
                assert(p[i] == w[i - a.len() - 1]);
                assert(is_name_char(w[i - a.len() - 1]));
            }
        }
    }
}

proof fn lemma_plain_has_segments(p: Seq<char>) -> (segments: Seq<Seq<char>>)
    requires
        is_plain_path(p),
    ensures
        segments.len() >= 1,
        forall|i: int| 0 <= i < segments.len() ==> is_word(#[trigger] segments[i]),
        joined(segments) == p,
    decreases p.len(),
{
    let class = CharClass::IsNot('/');
    let t = trailing_len(p, class) as int;
    lemma_trailing_run(p, class);
    if t == p.len() {
        assert forall|i: int| 0 <= i < p.len() implies is_name_char(#[trigger] p[i]) by {
            assert(class.has(p[i]));
        }
        seq![p]
    } else {
        let j = p.len() - t - 1;
        assert(p[j] == '/');
        let head = p.take(j);
        let w = p.skip(j + 1);
        assert(j < p.len() - 1);
        assert(j > 0);
        assert forall|i: int| 0 <= i < w.len() implies is_name_char(#[trigger] w[i]) by {
            assert(w[i] == p[j + 1 + i]);
            assert(class.has(p[j + 1 + i]));
        }
        assert(is_plain_path(head)) by {
            assert forall|i: int| 0 <= i < head.len() implies is_name_char(#[trigger] head[i])
                || head[i] == '/' by {
                assert(head[i] == p[i]);
            }
            assert(head[0] == p[0]);
            assert(head.last() == p[j - 1]);
            assert(!(p[j - 1] == '/' && p[j - 1 + 1] == '/'));
            assert forall|i: int| 0 <= i < head.len() - 1 implies !(#[trigger] head[i] == '/'
                && head[i + 1] == '/') by {
                assert(head[i] == p[i] && head[i + 1] == p[i + 1]);
            }
        }
        let init = lemma_plain_has_segments(head);
        let segments = init.push(w);
        assert(segments.drop_last() =~= init);
        assert(segments.last() == w);
        assert(joined(segments) == joined(init) + seq!['/'] + w);
        assert(head + seq!['/'] + w =~= p);
        assert forall|i: int| 0 <= i < segments.len() implies is_word(#[trigger] segments[i]) by {
            if i < init.len() {
                assert(segments[i] == init[i]);
            }
        }
        segments
    }
}

proof fn lemma_leading_len_of_prefix(a: Seq<char>, b: Seq<char>, class: CharClass)
    requires
        forall|i: int| 0 <= i < a.len() ==> class.has(#[trigger] a[i]),
        b.len() > 0 ==> !class.has(b[0]),
    ensures
        leading_len(a + b, class) == a.len(),
    decreases a.len(),
{
    let s = a + b;
    if a.len() == 0 {
        assert(s =~= b);
    } else {
        assert(s[0] == a[0]);
        assert(class.has(a[0]));
        let rest = a.drop_first();
        assert(s.drop_first() =~= rest + b);
        assert forall|i: int| 0 <= i < rest.len() implies class.has(#[trigger] rest[i]) by {
            assert(rest[i] == a[i + 1]);
        }
        lemma_leading_len_of_prefix(rest, b, class);
    }
}

proof fn lemma_plain_path_has_no_colon(p: Seq<char>)
    requires
        is_plain_path(p),
    ensures
        forall|i: int| 0 <= i < p.len() ==> CharClass::IsNot(':').has(#[trigger] p[i]),
{
    assert forall|i: int| 0 <= i < p.len() implies CharClass::IsNot(':').has(#[trigger] p[i]) by {
        assert(is_name_char(p[i]) || p[i] == '/');
    }
}

proof fn lemma_parts_scan(segments: Seq<Seq<char>>, tag: Option<Seq<char>>)
    requires
        are_name_parts(segments, tag),
    ensures
        scans_as_name(rendered(segments, tag)),
{
    let p = joined(segments);
    let s = rendered(segments, tag);
    lemma_joined_is_plain(segments);
    lemma_plain_path_has_no_colon(p);
    match tag {
        Some(t) => {
            let b = seq![':'] + t;
            assert(s =~= p + b);
            assert(b[0] == ':');
            lemma_leading_len_of_prefix(p, b, CharClass::IsNot(':'));
            assert(s.take(p.len() as int) =~= p);
            assert(s.skip(p.len() as int + 1) =~= t);
        },
        None => {
            let b = Seq::<char>::empty();
            assert(s =~= p + b);
            lemma_leading_len_of_prefix(p, b, CharClass::IsNot(':'));
            assert(s.take(p.len() as int) =~= p);
        },
    }
}

proof fn lemma_scan_has_parts(s: Seq<char>)
    requires
        scans_as_name(s),
    ensures
        is_valid_name(s),
{
    let k = leading_len(s, CharClass::IsNot(':')) as int;
    lemma_leading_run(s, CharClass::IsNot(':'));
    let segments = lemma_plain_has_segments(s.take(k));
    if k == s.len() {
        assert(s.take(k) =~= s);
        let tag = None::<Seq<char>>;
        assert(are_name_parts(segments, tag));
        assert(s == rendered(segments, tag));
    } else {
        assert(s[k] == ':');
        let tag = Some(s.skip(k + 1));
        assert(are_name_parts(segments, tag));
        assert(s.take(k) + seq![':'] + s.skip(k + 1) =~= s);
        assert(s == rendered(segments, tag));
    }
}

/// A text is a valid name exactly when it scans as one.
proof fn lemma_valid_iff_scans(s: Seq<char>)
    ensures
        is_valid_name(s) == scans_as_name(s),
{
    if is_valid_name(s) {
        let (segments, tag) = choose|segments: Seq<Seq<char>>, tag: Option<Seq<char>>|
            are_name_parts(segments, tag) && s == #[trigger] rendered(segments, tag);
        lemma_parts_scan(segments, tag);
    }
    if scans_as_name(s) {
        lemma_scan_has_parts(s);
    }
}

/// Every text put together from words, with `/` between the segments and
/// `:` before the tag, is a valid name.
pub proof fn lemma_words_make_valid_name(segments: Seq<Seq<char>>, tag: Option<Seq<char>>)
    requires
        segments.len() >= 1,
        forall|i: int| 0 <= i < segments.len() ==> is_word(#[trigger] segments[i]),
        tag matches Some(t) ==> is_word(t),
    ensures
        is_valid_name(rendered(segments, tag)),
{
    assert(are_name_parts(segments, tag));
}

/// No valid name holds a character other than name characters, `/` and `:`,
/// such as a space or `@`.
pub proof fn lemma_foreign_char_is_invalid(s: Seq<char>, i: int)
    requires
        0 <= i < s.len(),
        !is_name_char(s[i]),
        s[i] != '/',
        s[i] != ':',
    ensures
        !is_valid_name(s),
{
    lemma_valid_iff_scans(s);
    let k = leading_len(s, CharClass::IsNot(':')) as int;
    lemma_leading_run(s, CharClass::IsNot(':'));
    if scans_as_name(s) {
        if i < k {
            assert(s.take(k)[i] == s[i]);
        } else {
            assert(s[k] == ':');
            assert(s.skip(k + 1)[i - k - 1] == s[i]);
        }
    }
}

/// No valid name has an empty segment: it is not empty, does not begin
/// with `/` or `:`, and in it no `/` is followed by `/`, by `:` or by the end.
pub proof fn lemma_empty_segment_is_invalid(s: Seq<char>)
    ensures
        s.len() == 0 ==> !is_valid_name(s),
        s.len() > 0 && (s[0] == '/' || s[0] == ':') ==> !is_valid_name(s),
        s.len() > 0 && s.last() == '/' ==> !is_valid_name(s),
        forall|i: int|
            0 <= i < s.len() - 1 && #[trigger] s[i] == '/' && (s[i + 1] == '/' || s[i + 1] == ':')
                ==> !is_valid_name(s),
{
    lemma_valid_iff_scans(s);
    let k = leading_len(s, CharClass::IsNot(':')) as int;
    lemma_leading_run(s, CharClass::IsNot(':'));
    let p = s.take(k);
    if scans_as_name(s) {
        assert(p[0] == s[0]);
        assert(p.last() == s[k - 1]);
        if s.len() > 0 && s.last() == '/' {
            if k < s.len() {
                let t = s.skip(k + 1);
                assert(t.last() == s.last());
                assert(is_name_char(t[t.len() - 1]));
            }
        }
        assert forall|i: int|
            0 <= i < s.len() - 1 && #[trigger] s[i] == '/' && (s[i + 1] == '/' || s[i + 1]
                == ':') implies false by {
            if i + 1 < k {
                assert(p[i] == s[i] && p[i + 1] == s[i + 1]);
            } else if i + 1 == k {
            } else if i == k {
            } else {
                assert(s.skip(k + 1)[i - k - 1] == s[i]);
            }
        }
    }
}

/// No valid name has an empty tag or a second `:`: in it no `:` is followed
/// by the end, and none stands behind another.
pub proof fn lemma_empty_tag_is_invalid(s: Seq<char>)
    ensures
        s.len() > 0 && s.last() == ':' ==> !is_valid_name(s),
        forall|i: int, j: int|
            0 <= i < j < s.len() && #[trigger] s[i] == ':' && #[trigger] s[j] == ':'
                ==> !is_valid_name(s),
{
    lemma_valid_iff_scans(s);
    let k = leading_len(s, CharClass::IsNot(':')) as int;
    lemma_leading_run(s, CharClass::IsNot(':'));
    if scans_as_name(s) {
        if s.len() > 0 && s.last() == ':' {
            if k < s.len() {
                let t = s.skip(k + 1);
                assert(t.last() == s.last());
                assert(is_name_char(t[t.len() - 1]));
            } else {
                assert(CharClass::IsNot(':').has(s[s.len() - 1]));
            }
        }
        assert forall|i: int, j: int|
            0 <= i < j < s.len() && #[trigger] s[i] == ':' && #[trigger] s[j]
                == ':' implies false by {
            if i < k {
                assert(CharClass::IsNot(':').has(s[i]));
            } else {
                assert(s.skip(k + 1)[j - k - 1] == s[j]);
            }
        }
    }
}

/// Why a name was refused: it does not match the grammar of model names.
#[derive(Clone, Copy, Debug)]
pub struct InvalidName;

impl InvalidName {
    /// The text shown for a refused name.
    pub fn message(&self) -> (r: String)
        ensures
            r@ == "Invalid name. Use letters, numbers, . _ - / and optional :tag"@,
    {
        String::from_str("Invalid name. Use letters, numbers, . _ - / and optional :tag")
    }
}

/// Tests one character for the class of name characters.
pub fn name_char(c: char) -> (b: bool)
    ensures
        b == is_name_char(c),
{
    (c >= 'a' && c <= 'z') || (c >= 'A' && c <= 'Z') || (c >= '0' && c <= '9') || c == '.' || c
        == '_' || c == '-'
}

fn word_holds(v: &Vec<char>, start: usize, end: usize) -> (b: bool)
    requires
        start <= end <= v.len(),
    ensures
        b == is_word(v@.subrange(start as int, end as int)),
{
    let ghost w = v@.subrange(start as int, end as int);
    if start == end {
        return false;
    }
    let mut i: usize = start;
    while i < end
        invariant
            start <= i <= end <= v.len(),
            w == v@.subrange(start as int, end as int),
            forall|j: int| 0 <= j < i - start ==> is_name_char(#[trigger] w[j]),
        decreases end - i,
    {
        if !name_char(v[i]) {
            assert(w[i - start] == v@[i as int]);
            return false;
        }
        assert(w[i - start] == v@[i as int]);
        i += 1;
    }
    true
}

fn path_holds(v: &Vec<char>, end: usize) -> (b: bool)
    requires
        end <= v.len(),
    ensures
        b == is_plain_path(v@.take(end as int)),
{
    let ghost p = v@.take(end as int);
    if end == 0 {
        return false;
    }
    let mut after_slash = true;
    let mut i: usize = 0;
    while i < end
        invariant
            i <= end <= v.len(),
            p == v@.take(end as int),
            forall|j: int| 0 <= j < i ==> is_name_char(#[trigger] p[j]) || p[j] == '/',
            i > 0 ==> p[0] != '/',
            forall|j: int| 0 <= j < i - 1 ==> !(#[trigger] p[j] == '/' && p[j + 1] == '/'),
            after_slash == (i == 0 || p[i - 1] == '/'),
        decreases end - i,
    {
        let c = v[i];
        assert(p[i as int] == c);
        if c == '/' {
            if after_slash {
                proof {
                    if i > 0 {
                        assert(p[i - 1] == '/' && p[i - 1 + 1] == '/');
                    }
                }
                return false;
            }
            after_slash = true;
        } else if name_char(c) {
            after_slash = false;
        } else {
            return false;
        }
        i += 1;
    }
    !after_slash
}

/// Accepts `s` exactly when it matches the grammar of model names.
pub fn validate_model_name(s: &str) -> (r: Result<(), InvalidName>)
    ensures
        r is Ok <==> is_valid_name(s@),
{
    let v = chars_of(s);
    let n = v.len();
    let k = leading_count(&v, 0, n, CharClass::IsNot(':'));
    proof {
        lemma_valid_iff_scans(s@);
        assert(v@.subrange(0, n as int) =~= v@);
        assert(v@.skip(k + 1) =~= v@.subrange(k + 1, n as int));
    }
    if !path_holds(&v, k) {
        return Err(InvalidName);
    }
    if k < n && !word_holds(&v, k + 1, n) {
        return Err(InvalidName);
    }
    Ok(())
}

/// The markers of quantisation and format that are cut from a proposed
/// name, in the order in which they are tried.
pub open spec fn noise_markers() -> Seq<Seq<char>> {
    seq![
        "-GGUF"@,
        "-gguf"@,
        ".gguf"@,
        "-Q2"@,
        "-Q3"@,
        "-Q4"@,
        "-Q5"@,
        "-Q6"@,
        "-Q8"@,
        "-K"@,
        "_K"@,
        "-KM"@,
        "_KM"@,
        "-K_M"@,
        "_K_M"@,
        "-Q4_K"@,
        "_Q4_K"@,
        "-Q5_K"@,
        "_Q5_K"@,
    ]
}

/// `s` cut once: at the first place of the first of the markers that
/// stands in it. Where none of them does, `s` as it is.
pub open spec fn strip_noise(s: Seq<char>, markers: Seq<Seq<char>>) -> Seq<char>
    decreases markers.len(),
{
    if markers.len() == 0 {
        s
    } else if first_occurrence(s, markers[0]) is Some {
        cut_at(s, markers[0])
    } else {
        strip_noise(s, markers.drop_first())
    }
}

/// The short name proposed for the model `full`: what stands before the
/// first `:`, of that the part behind the last `/`, cut at the first noise
/// marker of the list that stands in it.
pub open spec fn suggestion(full: Seq<char>) -> Seq<char> {
    strip_noise(after_last(before_first(full, ':'), '/'), noise_markers())
}

/// Number of noise markers.
pub const NOISE_MARKERS: usize = 19;

/// The noise marker with the given number.
pub fn noise_marker(i: usize) -> (m: &'static str)
    requires
        i < NOISE_MARKERS,
    ensures
        m@ == noise_markers()[i as int],
        noise_markers().len() == NOISE_MARKERS,
{
    match i {
        0 => "-GGUF",
        1 => "-gguf",
        2 => ".gguf",
        3 => "-Q2",
        4 => "-Q3",
        5 => "-Q4",
        6 => "-Q5",
        7 => "-Q6",
        8 => "-Q8",
        9 => "-K",
        10 => "_K",
        11 => "-KM",
        12 => "_KM",
        13 => "-K_M",
        14 => "_K_M",
        15 => "-Q4_K",
        16 => "_Q4_K",
        17 => "-Q5_K",
        _ => "_Q5_K",
    }
}

/// Proposes a short name for the model `full`.
pub fn suggest_simple_name(full: &str) -> (r: String)
    ensures
        r@ == suggestion(full@),
{
    let v = chars_of(full);
    let n = v.len();
    let k = leading_count(&v, 0, n, CharClass::IsNot(':'));
    let t = trailing_count(&v, 0, k, CharClass::IsNot('/'));
    let start = k - t;
    let ghost segment = v@.subrange(start as int, k as int);
    proof {
        assert(v@.subrange(0, n as int) =~= v@);
        let head = before_first(full@, ':');
        assert(head =~= v@.subrange(0, k as int));
        assert(after_last(head, '/') =~= segment);
        assert(noise_markers().skip(0) =~= noise_markers());
    }
    let mut i: usize = 0;
    while i < NOISE_MARKERS
        invariant
            i <= NOISE_MARKERS,
            noise_markers().len() == NOISE_MARKERS,
            start <= k <= v.len(),
            v@ == full@,
            segment == v@.subrange(start as int, k as int),
            strip_noise(segment, noise_markers().skip(i as int)) == suggestion(full@),
        decreases NOISE_MARKERS - i,
    {
        let marker = chars_of(noise_marker(i));
        let ghost rest = noise_markers().skip(i as int);
        proof {
            assert(rest[0] == noise_markers()[i as int]);
            assert(rest.drop_first() =~= noise_markers().skip(i + 1));
        }
        match find_in(&v, start, k, &marker) {
            Some(at) => {
                proof {
                    assert(segment.take(at - start) =~= v@.subrange(start as int, at as int));
                }
                return String::from_str(full.substring_char(start, at));
            },
            None => {},
        }
        i += 1;
    }
    String::from_str(full.substring_char(start, k))
}

} // verus!
