//! Text handling for statement descriptions: splitting a description at its
//! first hyphen, trimming white space and collapsing runs of spaces.
//!
//! Every operation is specified over `Seq<char>`, the view of a string.

use regex::Regex;
use vstd::prelude::*;
use vstd::string::*;

verus! {

/// Whether `c` has the Unicode `White_Space` property.
pub open spec fn is_whitespace(c: char) -> bool {
    let u = c as u32;
    ||| 0x09 <= u <= 0x0D
    ||| u == 0x20
    ||| u == 0x85
    ||| u == 0xA0
    ||| u == 0x1680
    ||| 0x2000 <= u <= 0x200A
    ||| u == 0x2028
    ||| u == 0x2029
    ||| u == 0x202F
    ||| u == 0x205F
    ||| u == 0x3000
}

/// Index of the first hyphen of `s` at or after `from`, or `s.len()` when
/// there is none.
pub open spec fn hyphen_from(s: Seq<char>, from: int) -> int
    decreases s.len() - from,
{
    if 0 <= from < s.len() && s[from] != '-' {
        hyphen_from(s, from + 1)
    } else {
        from
    }
}

/// Index of the first hyphen of `s`, or `s.len()` when there is none.
pub open spec fn first_hyphen(s: Seq<char>) -> int {
    hyphen_from(s, 0)
}

/// What stands before the first hyphen of `s`: all of `s` when it holds no
/// hyphen.
pub open spec fn before_hyphen(s: Seq<char>) -> Seq<char> {
    s.subrange(0, first_hyphen(s))
}

/// What stands after the first hyphen of `s`, if it holds one. Later hyphens
/// belong to this part.
pub open spec fn after_hyphen(s: Seq<char>) -> Option<Seq<char>> {
    if first_hyphen(s) < s.len() {
        Some(s.subrange(first_hyphen(s) + 1, s.len() as int))
    } else {
        None
    }
}

/// Index of the first character of `s` at or after `from` that is not white
/// space, or `s.len()` when only white space follows.
pub open spec fn skip_whitespace(s: Seq<char>, from: int) -> int
    decreases s.len() - from,
{
    if 0 <= from < s.len() && is_whitespace(s[from]) {
        skip_whitespace(s, from + 1)
    } else {
        from
    }
}

/// Length of the shortest prefix of `s.take(to)` that leaves only white
/// space behind it.
pub open spec fn drop_whitespace(s: Seq<char>, to: int) -> int
    decreases to,
{
    if 0 < to <= s.len() && is_whitespace(s[to - 1]) {
        drop_whitespace(s, to - 1)
    } else {
        to
    }
}

/// Where the trimmed part of `s` starts.
pub open spec fn trim_start_index(s: Seq<char>) -> int {
    skip_whitespace(s, 0)
}

/// Where the trimmed part of `s` ends. For a string of white space alone this
/// is `0`, before the start.
pub open spec fn trim_end_index(s: Seq<char>) -> int {
    drop_whitespace(s, s.len() as int)
}

/// `s` without its leading and trailing white space.
pub open spec fn trimmed(s: Seq<char>) -> Seq<char> {
    if trim_start_index(s) <= trim_end_index(s) {
        s.subrange(trim_start_index(s), trim_end_index(s))
    } else {
        Seq::empty()
    }
}

/// `s` with every maximal run of spaces replaced by one space: a space is
/// kept unless another space stands right before it.
pub open spec fn collapsed(s: Seq<char>) -> Seq<char>
    decreases s.len(),
{
    if s.len() == 0 {
        s
    } else if s.len() >= 2 && s[s.len() - 1] == ' ' && s[s.len() - 2] == ' ' {
        collapsed(s.drop_last())
    } else {
        collapsed(s.drop_last()).push(s.last())
    }
}

/// No two spaces stand side by side in `s`.
pub open spec fn single_spaced(s: Seq<char>) -> bool {
    forall|i: int| 0 <= i && i + 1 < s.len() ==> !(#[trigger] s[i] == ' ' && s[i + 1] == ' ')
}

/// `s` holds no hyphen.
pub open spec fn hyphen_free(s: Seq<char>) -> bool {
    forall|i: int| 0 <= i < s.len() ==> #[trigger] s[i] != '-'
}

/// `s` neither starts nor ends with white space.
pub open spec fn tight(s: Seq<char>) -> bool {
    s.len() > 0 ==> !is_whitespace(s[0]) && !is_whitespace(s.last())
}

/// The pattern that matches a run of one or more spaces.
pub open spec fn space_run_pattern() -> Seq<char> {
    seq![' ', '+']
}

/// The text that takes the place of a run of spaces.
pub open spec fn single_space() -> Seq<char> {
    seq![' ']
}

/// Tells whether `c` has the Unicode `White_Space` property.
pub fn char_is_whitespace(c: char) -> (r: bool)
    ensures
        r == is_whitespace(c),
{
    let u: u32 = c as u32;
    (0x09 <= u && u <= 0x0D) || u == 0x20 || u == 0x85 || u == 0xA0 || u == 0x1680 || (0x2000 <= u
        && u <= 0x200A) || u == 0x2028 || u == 0x2029 || u == 0x202F || u == 0x205F || u == 0x3000
}

/// Splits `s` at its first hyphen. The first part is what stands before it,
/// or all of `s` when there is no hyphen; the second is what stands after
/// it, and is absent when there is no hyphen.
pub fn split_at_hyphen(s: &str) -> (parts: (&str, Option<&str>))
    ensures
        parts.0@ == before_hyphen(s@),
        match parts.1 {
            Some(rest) => after_hyphen(s@) == Some(rest@),
            None => after_hyphen(s@) is None,
        },
{
    let n: usize = s.unicode_len();
    let mut i: usize = 0;
    let mut hyphen: Option<usize> = None;
    for c in it: s.chars()
        invariant
            it.seq() == s@,
            n == s@.len(),
            i == it.index(),
            match hyphen {
                Some(at) => at == first_hyphen(s@) && at < n,
                None => first_hyphen(s@) == hyphen_from(s@, i as int),
            },
    {
        if hyphen.is_none() && c == '-' {
            hyphen = Some(i);
        }
        i = i + 1;
    }
    match hyphen {
        Some(at) => (s.substring_char(0, at), Some(s.substring_char(at + 1, n))),
        None => (s.substring_char(0, n), None),
    }
}

/// Removes leading and trailing white space from `s`.
pub fn trim(s: &str) -> (r: &str)
    ensures
        r@ == trimmed(s@),
{
    let n: usize = s.unicode_len();
    let mut i: usize = 0;
    let mut start: Option<usize> = None;
    let mut end: usize = 0;
    for c in it: s.chars()
        invariant
            it.seq() == s@,
            n == s@.len(),
            i == it.index(),
            end <= i,
            end == drop_whitespace(s@, i as int),
            match start {
                Some(at) => at == trim_start_index(s@) && at < end,
                None => trim_start_index(s@) == skip_whitespace(s@, i as int) && end == 0,
            },
    {
        if !char_is_whitespace(c) {
            if start.is_none() {
                start = Some(i);
            }
            end = i + 1;
        }
        i = i + 1;
    }
    match start {
        Some(at) => s.substring_char(at, end),
        None => s.substring_char(0, 0),
    }
}

/// Compiles `pattern` with `regex::Regex::new` and hands `text` and
/// `replacement` to `regex::Regex::replace_all`, which replaces every match,
/// leftmost first and none overlapping another. For the pattern of a run of
/// spaces, which always compiles and matches greedily, and a replacement of
/// one space, which holds no reference to a capture group, the result is
/// `text` with every maximal run of spaces turned into one space. Nothing is
/// claimed of any other pattern or replacement.
#[verifier::external_body]
fn replace_all(pattern: &str, text: &str, replacement: &str) -> (out: String)
    requires
        pattern@ == space_run_pattern(),
        replacement@ == single_space(),
    ensures
        out@ == collapsed(text@),
{
    Regex::new(pattern).unwrap().replace_all(text, replacement).into_owned()
}

/// Replaces every run of one or more spaces in `s` by a single space. Tabs
/// and other white space are left as they are.
pub fn collapse_spaces(s: &str) -> (r: String)
    ensures
        r@ == collapsed(s@),
        single_spaced(r@),
{
    proof {
        reveal_strlit(" +");
        reveal_strlit(" ");
        assert(" +"@ =~= space_run_pattern());
        assert(" "@ =~= single_space());
        lemma_collapsed_single_spaced(s@);
    }
    replace_all(" +", s, " ")
}

/// The first hyphen at or after `from` lies within `s`, or at its end; no
/// hyphen stands between `from` and it.
pub proof fn lemma_hyphen_from(s: Seq<char>, from: int)
    requires
        0 <= from <= s.len(),
    ensures
        from <= hyphen_from(s, from) <= s.len(),
        hyphen_from(s, from) < s.len() ==> s[hyphen_from(s, from)] == '-',
        forall|i: int| from <= i < hyphen_from(s, from) ==> #[trigger] s[i] != '-',
    decreases s.len() - from,
{
    if from < s.len() && s[from] != '-' {
        lemma_hyphen_from(s, from + 1);
    }
}

/// What stands before the first hyphen holds no hyphen, and a text without
/// a hyphen is all before it.
pub proof fn lemma_before_hyphen(s: Seq<char>)
    ensures
        hyphen_free(before_hyphen(s)),
        hyphen_free(s) ==> before_hyphen(s) == s && after_hyphen(s) is None,
{
    lemma_hyphen_from(s, 0);
    if hyphen_free(s) {
        assert(s.subrange(0, s.len() as int) =~= s);
    }
}

/// Skipping white space from `from` stops within `s` at a character that is
/// none, or at the end of `s`; only white space is passed.
pub proof fn lemma_skip_whitespace(s: Seq<char>, from: int)
    requires
        0 <= from <= s.len(),
    ensures
        from <= skip_whitespace(s, from) <= s.len(),
        skip_whitespace(s, from) < s.len() ==> !is_whitespace(s[skip_whitespace(s, from)]),
        forall|i: int| from <= i < skip_whitespace(s, from) ==> is_whitespace(#[trigger] s[i]),
    decreases s.len() - from,
{
    if from < s.len() && is_whitespace(s[from]) {
        lemma_skip_whitespace(s, from + 1);
    }
}

/// Dropping white space before `to` stops behind a character that is none,
/// or at the start of `s`; only white space is dropped.
pub proof fn lemma_drop_whitespace(s: Seq<char>, to: int)
    requires
        0 <= to <= s.len(),
    ensures
        0 <= drop_whitespace(s, to) <= to,
        drop_whitespace(s, to) > 0 ==> !is_whitespace(s[drop_whitespace(s, to) - 1]),
        forall|i: int| drop_whitespace(s, to) <= i < to ==> is_whitespace(#[trigger] s[i]),
    decreases to,
{
    if 0 < to && is_whitespace(s[to - 1]) {
        lemma_drop_whitespace(s, to - 1);
    }
}

/// A trimmed text neither starts nor ends with white space, and holds a
/// hyphen only if the text did. A text that neither starts nor ends with
/// white space is left as it is.
pub proof fn lemma_trimmed(s: Seq<char>)
    ensures
        tight(trimmed(s)),
        hyphen_free(s) ==> hyphen_free(trimmed(s)),
        tight(s) ==> trimmed(s) == s,
{
    lemma_skip_whitespace(s, 0);
    lemma_drop_whitespace(s, s.len() as int);
    if tight(s) {
        assert(s.subrange(0, s.len() as int) =~= s);
    }
}

/// Collapsing the runs of spaces keeps the first character, and brings in
/// no hyphen.
pub proof fn lemma_collapsed_keeps(s: Seq<char>)
    ensures
        s.len() > 0 ==> collapsed(s).len() > 0 && collapsed(s)[0] == s[0],
        hyphen_free(s) ==> hyphen_free(collapsed(s)),
    decreases s.len(),
{
    if s.len() > 0 {
        lemma_collapsed_keeps(s.drop_last());
        lemma_collapsed_single_spaced(s.drop_last());
        if hyphen_free(s) {
            assert forall|i: int| 0 <= i < s.drop_last().len() implies #[trigger] s.drop_last()[i]
                != '-' by {
                assert(s.drop_last()[i] == s[i]);
            }
            assert(s.last() == s[s.len() - 1]);
        }
    }
}

/// Normalizing a payee leaves no run of spaces, and the result ends with the
/// character that the input ends with.
pub proof fn lemma_collapsed_single_spaced(s: Seq<char>)
    ensures
        single_spaced(collapsed(s)),
        s.len() > 0 ==> collapsed(s).len() > 0 && collapsed(s).last() == s.last(),
        s.len() == 0 ==> collapsed(s).len() == 0,
    decreases s.len(),
{
    if s.len() > 0 {
        lemma_collapsed_single_spaced(s.drop_last());
    }
}

/// A string without a run of spaces is its own normal form.
pub proof fn lemma_collapsed_fixed_point(s: Seq<char>)
    requires
        single_spaced(s),
    ensures
        collapsed(s) == s,
    decreases s.len(),
{
    if s.len() > 0 {
        lemma_collapsed_fixed_point(s.drop_last());
        assert(s.drop_last().push(s.last()) =~= s);
    }
}

/// Payee normalization is idempotent: normalizing a normalized string gives
/// the same string.
pub proof fn lemma_collapsed_idempotent(s: Seq<char>)
    ensures
        collapsed(collapsed(s)) == collapsed(s),
{
    lemma_collapsed_single_spaced(s);
    lemma_collapsed_fixed_point(collapsed(s));
}

} // verus!
