//! Character-level text utilities.
//!
//! Every helper works on `Vec<char>` so that the verifier can reason about
//! the contents directly; the specification functions over `Seq<char>` give
//! the meaning of each operation. Conversions to and from `String` sit at
//! the edges.

use vstd::prelude::*;
use vstd::string::*;

verus! {

/// Relies on `String::push` from std: it appends the given character to the
/// end of the string.
pub assume_specification[ std::string::String::push ](s: &mut std::string::String, c: char)
    ensures
        final(s)@ == old(s)@.push(c),
;

/// Character class stripped by `trim`-style helpers.
pub open spec fn is_space_char(c: char) -> bool {
    c == ' ' || c == '\t' || c == '\r' || c == '\n' || c == '\u{b}' || c == '\u{c}'
}

/// Whether `c` counts as one of the spaces stripped by trimming.
pub fn space_char(c: char) -> (r: bool)
    ensures
        r == is_space_char(c),
{
    c == ' ' || c == '\t' || c == '\r' || c == '\n' || c == '\u{b}' || c == '\u{c}'
}

/// The pattern `p` occurs in `s` starting at position `i`.
pub open spec fn spec_match_at(s: Seq<char>, p: Seq<char>, i: int) -> bool {
    0 <= i && i + p.len() <= s.len() && s.subrange(i, i + p.len()) == p
}

/// `s` begins with `p`.
pub open spec fn spec_starts_with(s: Seq<char>, p: Seq<char>) -> bool {
    spec_match_at(s, p, 0)
}

/// Index of the first occurrence of `p` in `s` at or after `i`, if any.
pub open spec fn first_sub_at(s: Seq<char>, p: Seq<char>, i: int) -> Option<int>
    decreases s.len() - i,
{
    if i < 0 || i + p.len() > s.len() {
        None
    } else if spec_match_at(s, p, i) {
        Some(i)
    } else if i >= s.len() {
        None
    } else {
        first_sub_at(s, p, i + 1)
    }
}

/// `s` contains the pattern `p`.
pub open spec fn spec_contains(s: Seq<char>, p: Seq<char>) -> bool {
    first_sub_at(s, p, 0) is Some
}

/// Where the first occurrence of `p` at or after `i` lies, when there is one.
pub proof fn lemma_first_sub_at_bounds(s: Seq<char>, p: Seq<char>, i: int)
    ensures
        match first_sub_at(s, p, i) {
            Some(j) => i <= j && j + p.len() <= s.len() && spec_match_at(s, p, j),
            None => true,
        },
    decreases s.len() - i,
{
    if i < 0 || i + p.len() > s.len() {
    } else if spec_match_at(s, p, i) {
    } else if i >= s.len() {
    } else {
        lemma_first_sub_at_bounds(s, p, i + 1);
    }
}

/// Index of the first occurrence of the character `c` at or after `i`.
pub open spec fn first_char_at(s: Seq<char>, c: char, i: int) -> Option<int>
    decreases s.len() - i,
{
    if i < 0 || i >= s.len() {
        None
    } else if s[i] == c {
        Some(i)
    } else {
        first_char_at(s, c, i + 1)
    }
}

/// `s` contains the character `c`.
pub open spec fn spec_has_char(s: Seq<char>, c: char) -> bool {
    first_char_at(s, c, 0) is Some
}

/// First index at or after `i` holding a non-space character.
pub open spec fn skip_spaces_from(s: Seq<char>, i: int) -> int
    decreases s.len() - i,
{
    if 0 <= i && i < s.len() && is_space_char(s[i]) {
        skip_spaces_from(s, i + 1)
    } else {
        i
    }
}

/// Last bound at or before `j` such that the character just before it is not a space.
pub open spec fn rskip_spaces_to(s: Seq<char>, j: int) -> int
    decreases j,
{
    if 0 < j && j <= s.len() && is_space_char(s[j - 1]) {
        rskip_spaces_to(s, j - 1)
    } else {
        j
    }
}

/// `s` with spaces stripped from both ends.
pub open spec fn spec_trim(s: Seq<char>) -> Seq<char> {
    let a = skip_spaces_from(s, 0);
    let b = rskip_spaces_to(s, s.len() as int);
    if a >= b {
        Seq::empty()
    } else {
        s.subrange(a, b)
    }
}

/// First index at or after `i` holding a character other than `c`.
pub open spec fn skip_char_from(s: Seq<char>, c: char, i: int) -> int
    decreases s.len() - i,
{
    if 0 <= i && i < s.len() && s[i] == c {
        skip_char_from(s, c, i + 1)
    } else {
        i
    }
}

/// Where skipping over `c` from `i` can land.
pub proof fn lemma_skip_char_from_bounds(s: Seq<char>, c: char, i: int)
    requires
        0 <= i <= s.len(),
    ensures
        i <= skip_char_from(s, c, i) <= s.len(),
    decreases s.len() - i,
{
    if i < s.len() && s[i] == c {
        lemma_skip_char_from_bounds(s, c, i + 1);
    }
}

/// Last bound at or before `j` such that the character just before it is not `c`.
pub open spec fn rskip_char_to(s: Seq<char>, c: char, j: int) -> int
    decreases j,
{
    if 0 < j && j <= s.len() && s[j - 1] == c {
        rskip_char_to(s, c, j - 1)
    } else {
        j
    }
}

/// `s` with every leading and trailing occurrence of `c` removed.
pub open spec fn spec_trim_char(s: Seq<char>, c: char) -> Seq<char> {
    let a = skip_char_from(s, c, 0);
    let b = rskip_char_to(s, c, s.len() as int);
    if a >= b {
        Seq::empty()
    } else {
        s.subrange(a, b)
    }
}

/// Position after all leading repetitions of the pattern `p`, starting at `i`.
pub open spec fn skip_prefix_from(s: Seq<char>, p: Seq<char>, i: int) -> int
    decreases s.len() - i,
{
    if p.len() > 0 && spec_match_at(s, p, i) {
        skip_prefix_from(s, p, i + p.len() as int)
    } else {
        i
    }
}

/// `s` with all leading repetitions of `p` removed.
pub open spec fn spec_strip_prefix_all(s: Seq<char>, p: Seq<char>) -> Seq<char> {
    s.subrange(skip_prefix_from(s, p, 0), s.len() as int)
}

/// Bound before all trailing repetitions of the pattern `p`, ending at `j`.
pub open spec fn rskip_suffix_to(s: Seq<char>, p: Seq<char>, j: int) -> int
    decreases j,
{
    if p.len() > 0 && j <= s.len() && spec_match_at(s, p, j - p.len()) {
        rskip_suffix_to(s, p, j - p.len() as int)
    } else {
        j
    }
}

/// `s` with all trailing repetitions of `p` removed.
pub open spec fn spec_strip_suffix_all(s: Seq<char>, p: Seq<char>) -> Seq<char> {
    s.subrange(0, rskip_suffix_to(s, p, s.len() as int))
}

/// `s` from position `i` on, with every occurrence of `c` removed.
pub open spec fn remove_char_from(s: Seq<char>, c: char, i: int) -> Seq<char>
    decreases s.len() - i,
{
    if i < 0 || i >= s.len() {
        Seq::empty()
    } else if s[i] == c {
        remove_char_from(s, c, i + 1)
    } else {
        seq![s[i]] + remove_char_from(s, c, i + 1)
    }
}

/// `s` with every occurrence of `c` removed.
pub open spec fn spec_remove_char(s: Seq<char>, c: char) -> Seq<char> {
    remove_char_from(s, c, 0)
}

/// `s` from position `i` on, with every `c` replaced by `d`.
pub open spec fn replace_char_from(s: Seq<char>, c: char, d: char, i: int) -> Seq<char>
    decreases s.len() - i,
{
    if i < 0 || i >= s.len() {
        Seq::empty()
    } else if s[i] == c {
        seq![d] + replace_char_from(s, c, d, i + 1)
    } else {
        seq![s[i]] + replace_char_from(s, c, d, i + 1)
    }
}

/// `s` with every occurrence of `c` replaced by `d`.
pub open spec fn spec_replace_char(s: Seq<char>, c: char, d: char) -> Seq<char> {
    replace_char_from(s, c, d, 0)
}

/// ASCII lower-case image of a single character.
pub open spec fn lower_char(c: char) -> char {
    if 'A' <= c && c <= 'Z' {
        ((c as u8) + 32) as char
    } else {
        c
    }
}

/// `s` from position `i` on, ASCII lower-cased.
pub open spec fn lower_from(s: Seq<char>, i: int) -> Seq<char>
    decreases s.len() - i,
{
    if i < 0 || i >= s.len() {
        Seq::empty()
    } else {
        seq![lower_char(s[i])] + lower_from(s, i + 1)
    }
}

/// `s` ASCII lower-cased.
pub open spec fn spec_lower(s: Seq<char>) -> Seq<char> {
    lower_from(s, 0)
}

/// Lower-casing keeps the length.
pub proof fn lemma_lower_len(s: Seq<char>, i: int)
    requires
        0 <= i <= s.len(),
    ensures
        lower_from(s, i).len() == s.len() - i,
    decreases s.len() - i,
{
    if i < s.len() {
        lemma_lower_len(s, i + 1);
    }
}

/// `s` from position `i` on, with non-overlapping occurrences of `p` removed,
/// scanning left to right.
pub open spec fn remove_sub_from(s: Seq<char>, p: Seq<char>, i: int) -> Seq<char>
    decreases s.len() - i,
{
    if i < 0 || i >= s.len() {
        Seq::empty()
    } else if p.len() > 0 && spec_match_at(s, p, i) {
        remove_sub_from(s, p, i + p.len())
    } else {
        seq![s[i]] + remove_sub_from(s, p, i + 1)
    }
}

/// `s` with all non-overlapping occurrences of `p` removed, left to right.
pub open spec fn spec_remove_sub(s: Seq<char>, p: Seq<char>) -> Seq<char> {
    remove_sub_from(s, p, 0)
}

/// Where the first occurrence of `c` at or after `i` lies, when there is one.
pub proof fn lemma_first_char_at_bounds(s: Seq<char>, c: char, i: int)
    ensures
        match first_char_at(s, c, i) {
            Some(j) => i <= j < s.len() && s[j] == c,
            None => true,
        },
    decreases s.len() - i,
{
    if 0 <= i && i < s.len() && s[i] != c {
        lemma_first_char_at_bounds(s, c, i + 1);
    }
}

/// The pieces of `s`, from position `i` on, split at every occurrence of `c`.
pub open spec fn split_char_from(s: Seq<char>, c: char, i: int) -> Seq<Seq<char>>
    decreases s.len() - i,
    via split_char_from_decreases
{
    if i < 0 || i > s.len() {
        Seq::empty()
    } else {
        match first_char_at(s, c, i) {
            Some(j) => seq![s.subrange(i, j)] + split_char_from(s, c, j + 1),
            None => seq![s.subrange(i, s.len() as int)],
        }
    }
}

#[via_fn]
proof fn split_char_from_decreases(s: Seq<char>, c: char, i: int) {
    lemma_first_char_at_bounds(s, c, i);
}

/// The pieces of `s` split at every occurrence of `c`; an empty `s` yields
/// one empty piece, as `str::split` does.
pub open spec fn spec_split_char(s: Seq<char>, c: char) -> Seq<Seq<char>> {
    split_char_from(s, c, 0)
}

/// `c` is an ASCII decimal digit.
pub open spec fn is_digit_char(c: char) -> bool {
    '0' <= c && c <= '9'
}

/// Numeric value of a digit sequence, most significant first.
pub open spec fn digits_val(s: Seq<char>) -> int
    decreases s.len(),
{
    if s.len() == 0 {
        0
    } else {
        digits_val(s.drop_last()) * 10 + (s.last() as int - '0' as int)
    }
}

/// All characters of `s` are ASCII decimal digits.
pub open spec fn all_digits(s: Seq<char>) -> bool {
    forall|k: int| 0 <= k < s.len() ==> is_digit_char(#[trigger] s[k])
}

/// `s` is accepted by `str::parse::<i32>`: an optional sign, then one or
/// more digits, with the value in range for `i32`.
pub open spec fn spec_is_i32(s: Seq<char>) -> bool {
    let neg = s.len() > 0 && s[0] == '-';
    let body = if s.len() > 0 && (s[0] == '+' || s[0] == '-') {
        s.drop_first()
    } else {
        s
    };
    body.len() > 0 && all_digits(body) && (if neg {
        digits_val(body) <= 0x8000_0000
    } else {
        digits_val(body) <= 0x7fff_ffff
    })
}

/// The members of `items` joined with a newline between consecutive members.
pub open spec fn spec_join_nl(items: Seq<Seq<char>>) -> Seq<char>
    decreases items.len(),
{
    if items.len() == 0 {
        Seq::empty()
    } else if items.len() == 1 {
        items[0]
    } else {
        spec_join_nl(items.drop_last()) + seq!['\n'] + items.last()
    }
}

/// A line piece with one trailing carriage return removed, as `str::lines` does.
pub open spec fn strip_cr(l: Seq<char>) -> Seq<char> {
    if l.len() > 0 && l.last() == '\r' {
        l.drop_last()
    } else {
        l
    }
}

/// The lines of `s` from position `i` on: pieces end at every line feed, a
/// carriage return just before a line feed is dropped, and a final line feed
/// opens no further line.
pub open spec fn lines_from(s: Seq<char>, i: int) -> Seq<Seq<char>>
    decreases s.len() - i,
    via lines_from_decreases
{
    if i < 0 || i >= s.len() {
        Seq::empty()
    } else {
        match first_char_at(s, '\n', i) {
            Some(j) => seq![strip_cr(s.subrange(i, j))] + lines_from(s, j + 1),
            None => seq![s.subrange(i, s.len() as int)],
        }
    }
}

#[via_fn]
proof fn lines_from_decreases(s: Seq<char>, i: int) {
    lemma_first_char_at_bounds(s, '\n', i);
}

/// The lines of `s`, as `str::lines` yields them.
pub open spec fn spec_lines(s: Seq<char>) -> Seq<Seq<char>> {
    lines_from(s, 0)
}

/// The characters of `s`, as a vector.
pub fn str_chars(s: &str) -> (r: Vec<char>)
    ensures
        r@ == s@,
{
    let n = s.unicode_len();
    let mut r: Vec<char> = Vec::new();
    let mut i: usize = 0;
    while i < n
        invariant
            n == s@.len(),
            i <= n,
            r@ == s@.subrange(0, i as int),
        decreases n - i,
    {
        let c = s.get_char(i);
        r.push(c);
        i = i + 1;
        proof {
            assert(r@ =~= s@.subrange(0, i as int));
        }
    }
    proof {
        assert(r@ =~= s@);
    }
    r
}

/// A `String` holding exactly the characters of `v`.
pub fn chars_string(v: &Vec<char>) -> (r: String)
    ensures
        r@ == v@,
{
    let mut r = String::new();
    let mut i: usize = 0;
    while i < v.len()
        invariant
            i <= v.len(),
            r@ == v@.subrange(0, i as int),
        decreases v.len() - i,
    {
        r.push(v[i]);
        i = i + 1;
        proof {
            assert(r@ =~= v@.subrange(0, i as int));
        }
    }
    proof {
        assert(r@ =~= v@);
    }
    r
}

/// The contiguous piece of `v` between `a` and `b`.
pub fn subrange_vec(v: &Vec<char>, a: usize, b: usize) -> (r: Vec<char>)
    requires
        a <= b <= v@.len(),
    ensures
        r@ == v@.subrange(a as int, b as int),
{
    let mut r: Vec<char> = Vec::new();
    let mut i: usize = a;
    while i < b
        invariant
            a <= i <= b <= v@.len(),
            r@ == v@.subrange(a as int, i as int),
        decreases b - i,
    {
        r.push(v[i]);
        i = i + 1;
        proof {
            assert(r@ =~= v@.subrange(a as int, i as int));
        }
    }
    r
}

/// Whether `a` and `b` hold the same characters.
pub fn eq_vec(a: &Vec<char>, b: &Vec<char>) -> (r: bool)
    ensures
        r == (a@ == b@),
{
    if a.len() != b.len() {
        proof {
            assert(a@ != b@);
        }
        return false;
    }
    let mut i: usize = 0;
    while i < a.len()
        invariant
            a@.len() == b@.len(),
            i <= a@.len(),
            a@.subrange(0, i as int) == b@.subrange(0, i as int),
        decreases a.len() - i,
    {
        if a[i] != b[i] {
            proof {
                assert(a@[i as int] != b@[i as int]);
            }
            return false;
        }
        i = i + 1;
        proof {
            assert(a@.subrange(0, i as int) =~= b@.subrange(0, i as int));
        }
    }
    proof {
        assert(a@ =~= a@.subrange(0, a@.len() as int));
        assert(b@ =~= b@.subrange(0, b@.len() as int));
    }
    true
}

/// Whether `p` occurs in `s` at position `i`.
pub fn match_at_vec(s: &Vec<char>, p: &Vec<char>, i: usize) -> (r: bool)
    ensures
        r == spec_match_at(s@, p@, i as int),
{
    if p.len() > s.len() || i > s.len() - p.len() {
        return false;
    }
    let mut j: usize = 0;
    while j < p.len()
        invariant
            s@.len() <= usize::MAX,
            i + p@.len() <= s@.len(),
            j <= p@.len(),
            s@.subrange(i as int, i + j) == p@.subrange(0, j as int),
        decreases p.len() - j,
    {
        if s[i + j] != p[j] {
            proof {
                assert(s@.subrange(i as int, i + p@.len())[j as int] != p@[j as int]);
            }
            return false;
        }
        j = j + 1;
        proof {
            assert(s@.subrange(i as int, i + j) =~= p@.subrange(0, j as int));
        }
    }
    proof {
        assert(s@.subrange(i as int, i + p@.len()) =~= p@);
    }
    true
}

/// Whether `s` begins with `p`.
pub fn starts_with_vec(s: &Vec<char>, p: &Vec<char>) -> (r: bool)
    ensures
        r == spec_starts_with(s@, p@),
{
    match_at_vec(s, p, 0)
}

/// The first position where `p` occurs in `s`, if any.
pub fn find_sub_vec(s: &Vec<char>, p: &Vec<char>) -> (r: Option<usize>)
    ensures
        match r {
            Some(j) => first_sub_at(s@, p@, 0) == Some(j as int),
            None => first_sub_at(s@, p@, 0) is None,
        },
{
    if p.len() > s.len() {
        return None;
    }
    if p.len() == 0 {
        proof {
            assert(s@.subrange(0, 0) =~= p@);
        }
        return Some(0);
    }
    let bound = s.len() - p.len();
    let mut i: usize = 0;
    while i <= bound
        invariant
            s@.len() <= usize::MAX,
            0 < p@.len() <= s@.len(),
            bound == s@.len() - p@.len(),
            i <= bound + 1,
            first_sub_at(s@, p@, 0) == first_sub_at(s@, p@, i as int),
        decreases bound + 1 - i,
    {
        if match_at_vec(s, p, i) {
            return Some(i);
        }
        i = i + 1;
    }
    None
}

/// Whether `s` contains the pattern `p`.
pub fn contains_sub_vec(s: &Vec<char>, p: &Vec<char>) -> (r: bool)
    ensures
        r == spec_contains(s@, p@),
{
    find_sub_vec(s, p).is_some()
}

/// The first position of the character `c` in `s`, if any.
pub fn find_char_vec(s: &Vec<char>, c: char) -> (r: Option<usize>)
    ensures
        match r {
            Some(j) => first_char_at(s@, c, 0) == Some(j as int),
            None => first_char_at(s@, c, 0) is None,
        },
{
    let mut i: usize = 0;
    while i < s.len()
        invariant
            i <= s@.len(),
            first_char_at(s@, c, 0) == first_char_at(s@, c, i as int),
        decreases s.len() - i,
    {
        if s[i] == c {
            return Some(i);
        }
        i = i + 1;
    }
    None
}

/// Whether `s` contains the character `c`.
pub fn contains_char_vec(s: &Vec<char>, c: char) -> (r: bool)
    ensures
        r == spec_has_char(s@, c),
{
    find_char_vec(s, c).is_some()
}

/// `s` with spaces stripped from both ends.
pub fn trim_vec(s: &Vec<char>) -> (r: Vec<char>)
    ensures
        r@ == spec_trim(s@),
{
    let mut a: usize = 0;
    while a < s.len() && space_char(s[a])
        invariant
            a <= s@.len(),
            skip_spaces_from(s@, 0) == skip_spaces_from(s@, a as int),
        decreases s.len() - a,
    {
        a = a + 1;
    }
    let mut b: usize = s.len();
    while b > 0 && space_char(s[b - 1])
        invariant
            b <= s@.len(),
            rskip_spaces_to(s@, s@.len() as int) == rskip_spaces_to(s@, b as int),
        decreases b,
    {
        b = b - 1;
    }
    if a >= b {
        Vec::new()
    } else {
        subrange_vec(s, a, b)
    }
}

/// `s` with every leading and trailing occurrence of `c` removed.
pub fn trim_char_vec(s: &Vec<char>, c: char) -> (r: Vec<char>)
    ensures
        r@ == spec_trim_char(s@, c),
{
    let mut a: usize = 0;
    while a < s.len() && s[a] == c
        invariant
            a <= s@.len(),
            skip_char_from(s@, c, 0) == skip_char_from(s@, c, a as int),
        decreases s.len() - a,
    {
        a = a + 1;
    }
    let mut b: usize = s.len();
    while b > 0 && s[b - 1] == c
        invariant
            b <= s@.len(),
            rskip_char_to(s@, c, s@.len() as int) == rskip_char_to(s@, c, b as int),
        decreases b,
    {
        b = b - 1;
    }
    if a >= b {
        Vec::new()
    } else {
        subrange_vec(s, a, b)
    }
}

/// `s` with all leading repetitions of `p` removed.
pub fn strip_prefix_all_vec(s: &Vec<char>, p: &Vec<char>) -> (r: Vec<char>)
    requires
        p@.len() > 0,
    ensures
        r@ == spec_strip_prefix_all(s@, p@),
{
    let mut i: usize = 0;
    while match_at_vec(s, p, i)
        invariant
            p@.len() > 0,
            i <= s@.len(),
            skip_prefix_from(s@, p@, 0) == skip_prefix_from(s@, p@, i as int),
        decreases s.len() - i,
    {
        i = i + p.len();
    }
    subrange_vec(s, i, s.len())
}

/// `s` with all trailing repetitions of `p` removed.
pub fn strip_suffix_all_vec(s: &Vec<char>, p: &Vec<char>) -> (r: Vec<char>)
    requires
        p@.len() > 0,
    ensures
        r@ == spec_strip_suffix_all(s@, p@),
{
    let mut j: usize = s.len();
    while j >= p.len() && match_at_vec(s, p, j - p.len())
        invariant
            p@.len() > 0,
            j <= s@.len(),
            rskip_suffix_to(s@, p@, s@.len() as int) == rskip_suffix_to(s@, p@, j as int),
        decreases j,
    {
        j = j - p.len();
    }
    subrange_vec(s, 0, j)
}

/// The views of a sequence of character vectors.
pub open spec fn views_of_vecs(v: Seq<Vec<char>>) -> Seq<Seq<char>> {
    v.map_values(|x: Vec<char>| x@)
}

/// The views of a sequence of strings.
pub open spec fn views_of_strings(v: Seq<String>) -> Seq<Seq<char>> {
    v.map_values(|x: String| x@)
}

/// `s` with every occurrence of `c` removed.
pub fn remove_char_vec(s: &Vec<char>, c: char) -> (r: Vec<char>)
    ensures
        r@ == spec_remove_char(s@, c),
{
    let mut r: Vec<char> = Vec::new();
    let mut i: usize = 0;
    while i < s.len()
        invariant
            i <= s@.len(),
            r@ + remove_char_from(s@, c, i as int) == remove_char_from(s@, c, 0),
        decreases s.len() - i,
    {
        if s[i] != c {
            r.push(s[i]);
            proof {
                assert(r@ + remove_char_from(s@, c, i + 1) =~= (r@.drop_last() + (seq![s@[i as int]]
                    + remove_char_from(s@, c, i + 1))));
            }
        }
        i = i + 1;
    }
    proof {
        assert(r@ + remove_char_from(s@, c, i as int) =~= r@);
    }
    r
}

/// `s` with every `c` replaced by `d`.
pub fn replace_char_vec(s: &Vec<char>, c: char, d: char) -> (r: Vec<char>)
    ensures
        r@ == spec_replace_char(s@, c, d),
{
    let mut r: Vec<char> = Vec::new();
    let mut i: usize = 0;
    while i < s.len()
        invariant
            i <= s@.len(),
            r@ + replace_char_from(s@, c, d, i as int) == replace_char_from(s@, c, d, 0),
        decreases s.len() - i,
    {
        let out = if s[i] == c {
            d
        } else {
            s[i]
        };
        r.push(out);
        proof {
            assert(r@ + replace_char_from(s@, c, d, i + 1) =~= (r@.drop_last() + (seq![out]
                + replace_char_from(s@, c, d, i + 1))));
        }
        i = i + 1;
    }
    proof {
        assert(r@ + replace_char_from(s@, c, d, i as int) =~= r@);
    }
    r
}

/// ASCII lower-case image of one character.
pub fn lower_char_exec(c: char) -> (r: char)
    ensures
        r == lower_char(c),
{
    if c >= 'A' && c <= 'Z' {
        ((c as u8) + 32) as char
    } else {
        c
    }
}

/// `s` ASCII lower-cased.
pub fn lower_vec(s: &Vec<char>) -> (r: Vec<char>)
    ensures
        r@ == spec_lower(s@),
{
    let mut r: Vec<char> = Vec::new();
    let mut i: usize = 0;
    while i < s.len()
        invariant
            i <= s@.len(),
            r@ + lower_from(s@, i as int) == lower_from(s@, 0),
        decreases s.len() - i,
    {
        let out = lower_char_exec(s[i]);
        r.push(out);
        proof {
            assert(r@ + lower_from(s@, i + 1) =~= (r@.drop_last() + (seq![out] + lower_from(
                s@,
                i + 1,
            ))));
        }
        i = i + 1;
    }
    proof {
        assert(r@ + lower_from(s@, i as int) =~= r@);
    }
    r
}

/// `s` with all non-overlapping occurrences of `p` removed, left to right.
pub fn remove_sub_vec(s: &Vec<char>, p: &Vec<char>) -> (r: Vec<char>)
    requires
        p@.len() > 0,
    ensures
        r@ == spec_remove_sub(s@, p@),
{
    let mut r: Vec<char> = Vec::new();
    let mut i: usize = 0;
    while i < s.len()
        invariant
            p@.len() > 0,
            i <= s@.len(),
            r@ + remove_sub_from(s@, p@, i as int) == remove_sub_from(s@, p@, 0),
        decreases s.len() - i,
    {
        if match_at_vec(s, p, i) {
            i = i + p.len();
        } else {
            r.push(s[i]);
            proof {
                assert(r@ + remove_sub_from(s@, p@, i + 1) =~= (r@.drop_last() + (seq![s@[i as int]]
                    + remove_sub_from(s@, p@, i + 1))));
            }
            i = i + 1;
        }
    }
    proof {
        assert(r@ + remove_sub_from(s@, p@, i as int) =~= r@);
    }
    r
}

/// The pieces of `s` split at every occurrence of `c`.
pub fn split_char_vec(s: &Vec<char>, c: char) -> (r: Vec<Vec<char>>)
    ensures
        views_of_vecs(r@) == spec_split_char(s@, c),
{
    let mut r: Vec<Vec<char>> = Vec::new();
    let mut start: usize = 0;
    let mut i: usize = 0;
    while i < s.len()
        invariant
            start <= i <= s@.len(),
            first_char_at(s@, c, start as int) == first_char_at(s@, c, i as int),
            views_of_vecs(r@) + split_char_from(s@, c, start as int) == split_char_from(s@, c, 0),
        decreases s.len() - i,
    {
        if s[i] == c {
            let piece = subrange_vec(s, start, i);
            r.push(piece);
            proof {
                assert(first_char_at(s@, c, start as int) == Some(i as int));
                assert(views_of_vecs(r@) =~= views_of_vecs(r@.drop_last()).push(piece@));
                assert(views_of_vecs(r@) + split_char_from(s@, c, i + 1) =~= (views_of_vecs(
                    r@.drop_last(),
                ) + (seq![s@.subrange(start as int, i as int)] + split_char_from(s@, c, i + 1))));
            }
            start = i + 1;
            i = i + 1;
        } else {
            i = i + 1;
        }
    }
    let piece = subrange_vec(s, start, s.len());
    r.push(piece);
    proof {
        assert(first_char_at(s@, c, start as int) is None);
        assert(views_of_vecs(r@) =~= views_of_vecs(r@.drop_last()).push(piece@));
        assert(views_of_vecs(r@) =~= views_of_vecs(r@.drop_last()) + seq![s@.subrange(
            start as int,
            s@.len() as int,
        )]);
    }
    r
}

/// The lines of `s`, as `str::lines` yields them.
pub fn split_lines(s: &str) -> (r: Vec<String>)
    ensures
        views_of_strings(r@) == spec_lines(s@),
{
    let v = str_chars(s);
    let mut r: Vec<String> = Vec::new();
    let mut start: usize = 0;
    let mut i: usize = 0;
    while i < v.len()
        invariant
            v@ == s@,
            start <= i <= v@.len(),
            first_char_at(v@, '\n', start as int) == first_char_at(v@, '\n', i as int),
            views_of_strings(r@) + lines_from(v@, start as int) == lines_from(v@, 0),
        decreases v.len() - i,
    {
        if v[i] == '\n' {
            let end = if i > start && v[i - 1] == '\r' {
                i - 1
            } else {
                i
            };
            let piece = chars_string(&subrange_vec(&v, start, end));
            proof {
                assert(first_char_at(v@, '\n', start as int) == Some(i as int));
                assert(piece@ =~= strip_cr(v@.subrange(start as int, i as int))) by {
                    if i > start && v@[i - 1] == '\r' {
                        assert(v@.subrange(start as int, i as int).last() == '\r');
                        assert(v@.subrange(start as int, end as int) =~= v@.subrange(
                            start as int,
                            i as int,
                        ).drop_last());
                    }
                };
            }
            r.push(piece);
            proof {
                assert(views_of_strings(r@) =~= views_of_strings(r@.drop_last()).push(piece@));
                assert(views_of_strings(r@) + lines_from(v@, i + 1) =~= (views_of_strings(
                    r@.drop_last(),
                ) + (seq![strip_cr(v@.subrange(start as int, i as int))] + lines_from(v@, i + 1))));
            }
            start = i + 1;
            i = i + 1;
        } else {
            i = i + 1;
        }
    }
    proof {
        assert(first_char_at(v@, '\n', start as int) is None);
    }
    if start < v.len() {
        let piece = chars_string(&subrange_vec(&v, start, v.len()));
        r.push(piece);
        proof {
            assert(views_of_strings(r@) =~= views_of_strings(r@.drop_last()).push(piece@));
            assert(views_of_strings(r@) =~= views_of_strings(r@.drop_last()) + seq![v@.subrange(
                start as int,
                v@.len() as int,
            )]);
        }
    } else {
        proof {
            assert(views_of_strings(r@) + lines_from(v@, start as int) =~= views_of_strings(r@));
        }
    }
    r
}

/// Digit sequences have non-negative values.
proof fn lemma_digits_val_nonneg(s: Seq<char>)
    requires
        all_digits(s),
    ensures
        digits_val(s) >= 0,
    decreases s.len(),
{
    if s.len() > 0 {
        assert(all_digits(s.drop_last())) by {
            assert(forall|k: int|
                0 <= k < s.len() - 1 ==> is_digit_char(#[trigger] s.drop_last()[k]) == is_digit_char(
                    s[k],
                ));
        }
        lemma_digits_val_nonneg(s.drop_last());
    }
}

/// Whether `s` parses as an `i32`, exactly as `str::parse::<i32>` accepts it.
pub fn is_i32_vec(s: &Vec<char>) -> (r: bool)
    ensures
        r == spec_is_i32(s@),
{
    let ghost gs = s@;
    let neg = s.len() > 0 && s[0] == '-';
    let k: usize = if s.len() > 0 && (s[0] == '+' || s[0] == '-') {
        1
    } else {
        0
    };
    let ghost body = if gs.len() > 0 && (gs[0] == '+' || gs[0] == '-') {
        gs.drop_first()
    } else {
        gs
    };
    proof {
        assert(body =~= gs.subrange(k as int, gs.len() as int));
    }
    if s.len() == k {
        proof {
            assert(body.len() == 0);
        }
        return false;
    }
    let mut i: usize = k;
    let mut val: u64 = 0;
    let mut sat = false;
    while i < s.len()
        invariant
            gs == s@,
            body == gs.subrange(k as int, gs.len() as int),
            body == (if gs.len() > 0 && (gs[0] == '+' || gs[0] == '-') {
                gs.drop_first()
            } else {
                gs
            }),
            k <= i <= gs.len(),
            all_digits(body.subrange(0, i - k)),
            !sat ==> val <= u32::MAX && val == digits_val(body.subrange(0, i - k)),
            sat ==> digits_val(body.subrange(0, i - k)) > u32::MAX,
        decreases s.len() - i,
    {
        let c = s[i];
        if !(c >= '0' && c <= '9') {
            proof {
                assert(body[i - k] == c);
                assert(!is_digit_char(body[i - k]));
            }
            return false;
        }
        let d: u64 = (c as u8 - 48) as u64;
        proof {
            let pre = body.subrange(0, i - k);
            let post = body.subrange(0, i + 1 - k);
            assert(post.drop_last() =~= pre);
            assert(post.last() == c);
            assert(digits_val(post) == digits_val(pre) * 10 + (c as int - '0' as int));
            if sat {
                lemma_digits_val_nonneg(pre);
            }
        }
        if sat {
        } else if val > u32::MAX as u64 / 10 + 1 {
            proof {
                let pre = body.subrange(0, i - k);
                assert(digits_val(pre) * 10 >= val * 10 > u32::MAX);
            }
            sat = true;
        } else {
            let next = val * 10 + d;
            if next > u32::MAX as u64 {
                sat = true;
                proof {
                    let post = body.subrange(0, i + 1 - k);
                    assert(digits_val(post) == next);
                }
            } else {
                val = next;
            }
        }
        i = i + 1;
        proof {
            assert(all_digits(body.subrange(0, i - k)));
        }
    }
    proof {
        assert(body.subrange(0, i - k) =~= body);
    }
    if sat {
        return false;
    }
    if neg {
        val <= 0x8000_0000u64
    } else {
        val <= 0x7fff_ffffu64
    }
}

/// The members of `items` joined with a newline between consecutive members.
pub fn join_nl(items: &Vec<String>) -> (r: String)
    ensures
        r@ == spec_join_nl(views_of_strings(items@)),
{
    if items.len() == 0 {
        return String::new();
    }
    let mut r = items[0].clone();
    let mut k: usize = 1;
    while k < items.len()
        invariant
            1 <= k <= items@.len(),
            r@ == spec_join_nl(views_of_strings(items@).subrange(0, k as int)),
        decreases items.len() - k,
    {
        r.append("\n");
        r.append(items[k].as_str());
        proof {
            let vs = views_of_strings(items@);
            let pre = vs.subrange(0, k as int);
            let post = vs.subrange(0, k + 1);
            assert(post.drop_last() =~= pre);
            assert(post.last() == items@[k as int]@);
            assert(r@ =~= spec_join_nl(pre) + seq!['\n'] + post.last()) by {
                assert("\n"@ =~= seq!['\n']) by {
                    reveal_strlit("\n");
                }
            }
        }
        k = k + 1;
    }
    proof {
        assert(views_of_strings(items@).subrange(0, k as int) =~= views_of_strings(items@));
    }
    r
}

/// `c` is a word character: a letter, a digit or an underscore.
pub open spec fn is_word_char(c: char) -> bool {
    ('a' <= c && c <= 'z') || ('A' <= c && c <= 'Z') || ('0' <= c && c <= '9') || c == '_'
}

/// Whether `c` is a word character.
pub fn word_char(c: char) -> (r: bool)
    ensures
        r == is_word_char(c),
{
    ('a' <= c && c <= 'z') || ('A' <= c && c <= 'Z') || ('0' <= c && c <= '9') || c == '_'
}

/// First index at or after `i` holding a non-word character.
pub open spec fn word_end_from(s: Seq<char>, i: int) -> int
    decreases s.len() - i,
{
    if 0 <= i && i < s.len() && is_word_char(s[i]) {
        word_end_from(s, i + 1)
    } else {
        i
    }
}

/// The end of the word-character run starting at `i`.
pub fn word_end_exec(s: &Vec<char>, i: usize) -> (r: usize)
    requires
        i <= s@.len(),
    ensures
        r as int == word_end_from(s@, i as int),
        i <= r <= s@.len(),
{
    let mut k: usize = i;
    while k < s.len() && word_char(s[k])
        invariant
            i <= k <= s@.len(),
            word_end_from(s@, i as int) == word_end_from(s@, k as int),
        decreases s.len() - k,
    {
        k = k + 1;
    }
    k
}

/// First index at or before `j` such that every character from it up to
/// `j` is a word character.
pub open spec fn word_start_back(s: Seq<char>, j: int) -> int
    decreases j,
{
    if 0 < j && j <= s.len() && is_word_char(s[j - 1]) {
        word_start_back(s, j - 1)
    } else {
        j
    }
}

/// The start of the word-character run ending at `j`.
pub fn word_start_exec(s: &Vec<char>, j: usize) -> (r: usize)
    requires
        j <= s@.len(),
    ensures
        r as int == word_start_back(s@, j as int),
        r <= j,
    decreases j,
{
    let mut k: usize = j;
    while k > 0 && word_char(s[k - 1])
        invariant
            k <= j <= s@.len(),
            word_start_back(s@, j as int) == word_start_back(s@, k as int),
        decreases k,
    {
        k = k - 1;
    }
    k
}

/// Index of the last occurrence of `c` strictly before `j`, if any.
pub open spec fn last_char_before(s: Seq<char>, c: char, j: int) -> Option<int>
    decreases j,
{
    if j <= 0 || j > s.len() {
        None
    } else if s[j - 1] == c {
        Some(j - 1)
    } else {
        last_char_before(s, c, j - 1)
    }
}

/// The last position of the character `c` in `s`, if any.
pub fn rfind_char_vec(s: &Vec<char>, c: char) -> (r: Option<usize>)
    ensures
        match r {
            Some(j) => last_char_before(s@, c, s@.len() as int) == Some(j as int),
            None => last_char_before(s@, c, s@.len() as int) is None,
        },
{
    let mut j: usize = s.len();
    while j > 0
        invariant
            j <= s@.len(),
            last_char_before(s@, c, s@.len() as int) == last_char_before(s@, c, j as int),
        decreases j,
    {
        if s[j - 1] == c {
            return Some(j - 1);
        }
        j = j - 1;
    }
    None
}


/// `s` with one greedy parenthesized span removed: from the first opening
/// parenthesis to the last closing one after it; `s` unchanged when no
/// such span exists.
pub open spec fn spec_strip_paren(s: Seq<char>) -> Seq<char> {
    match first_char_at(s, '(', 0) {
        Some(p) => match last_char_before(s, ')', s.len() as int) {
            Some(q) => if q > p {
                s.subrange(0, p) + s.subrange(q + 1, s.len() as int)
            } else {
                s
            },
            None => s,
        },
        None => s,
    }
}

/// `s` with its greedy parenthesized span removed.
pub fn strip_paren_vec(s: &Vec<char>) -> (r: Vec<char>)
    ensures
        r@ == spec_strip_paren(s@),
{
    let p = match find_char_vec(s, '(') {
        Some(p) => p,
        None => {
            return subrange_vec(s, 0, s.len());
        },
    };
    let q = match rfind_char_vec(s, ')') {
        Some(q) => q,
        None => {
            return subrange_vec(s, 0, s.len());
        },
    };
    proof {
        lemma_first_char_at_bounds(s@, '(', 0);
        lemma_last_char_before_bounds(s@, ')', s@.len() as int);
        assert(s@.subrange(0, s@.len() as int) =~= s@);
    }
    let n = s.len();
    if q > p {
        let mut r = subrange_vec(s, 0, p);
        let mut tail = subrange_vec(s, q + 1, n);
        r.append(&mut tail);
        proof {
            assert(r@ =~= s@.subrange(0, p as int) + s@.subrange(q + 1, s@.len() as int));
        }
        r
    } else {
        subrange_vec(s, 0, s.len())
    }
}

/// Where the last occurrence of `c` before `j` lies, when there is one.
pub proof fn lemma_last_char_before_bounds(s: Seq<char>, c: char, j: int)
    ensures
        match last_char_before(s, c, j) {
            Some(q) => 0 <= q < j <= s.len() && s[q] == c,
            None => true,
        },
    decreases j,
{
    if 0 < j && j <= s.len() && s[j - 1] != c {
        lemma_last_char_before_bounds(s, c, j - 1);
    }
}

} // verus!
