//! Text primitives on character sequences.
//!
//! Every routine here works on the character view (`Seq<char>`) of a string and
//! is specified by a small recursive spec function that mirrors the meaning of
//! the standard-library operation of the same name on patterns made of ASCII
//! characters.
use vstd::prelude::*;
use vstd::string::*;

verus! {

broadcast use vstd::seq_lib::group_seq_properties;

// ---------------------------------------------------------------------------
// Characters
// ---------------------------------------------------------------------------

/// Unicode `White_Space`, the set that `char::is_whitespace` tests.
pub open spec fn is_ws(c: char) -> bool {
    let u = c as u32;
    ||| (0x9 <= u && u <= 0xd)
    ||| u == 0x20
    ||| u == 0x85
    ||| u == 0xa0
    ||| u == 0x1680
    ||| (0x2000 <= u && u <= 0x200a)
    ||| u == 0x2028
    ||| u == 0x2029
    ||| u == 0x202f
    ||| u == 0x205f
    ||| u == 0x3000
}

pub fn char_is_ws(c: char) -> (r: bool)
    ensures
        r == is_ws(c),
{
    let u = c as u32;
    (0x9 <= u && u <= 0xd) || u == 0x20 || u == 0x85 || u == 0xa0 || u == 0x1680 || (0x2000
        <= u && u <= 0x200a) || u == 0x2028 || u == 0x2029 || u == 0x202f || u == 0x205f || u
        == 0x3000
}

// ---------------------------------------------------------------------------
// Conversions between strings and character vectors
// ---------------------------------------------------------------------------

/// Appends one character to a string (`String::push`).
#[verifier::external_body]
pub(crate) fn push_char(s: &mut String, c: char)
    ensures
        final(s)@ == old(s)@.push(c),
{
    s.push(c)
}

/// The characters of a string slice, in order.
pub fn chars_of(s: &str) -> (v: Vec<char>)
    ensures
        v@ == s@,
{
    let n = s.unicode_len();
    let mut v: Vec<char> = Vec::new();
    let mut i: usize = 0;
    while i < n
        invariant
            i <= n,
            n == s@.len(),
            v@ == s@.subrange(0, i as int),
        decreases n - i,
    {
        let c = s.get_char(i);
        v.push(c);
        i = i + 1;
    }
    v
}

/// A string holding exactly the given characters.
pub fn string_of(v: &Vec<char>) -> (s: String)
    ensures
        s@ == v@,
{
    let mut s = String::new();
    let mut i: usize = 0;
    while i < v.len()
        invariant
            i <= v.len(),
            s@ == v@.subrange(0, i as int),
        decreases v.len() - i,
    {
        push_char(&mut s, v[i]);
        i = i + 1;
    }
    s
}

/// A string holding the characters of a literal or other slice.
pub fn owned(s: &str) -> (r: String)
    ensures
        r@ == s@,
{
    let v = chars_of(s);
    string_of(&v)
}

/// Appends the characters of `tail` to `v`.
pub fn extend_chars(v: &mut Vec<char>, tail: &Vec<char>)
    ensures
        final(v)@ == old(v)@ + tail@,
{
    let mut i: usize = 0;
    while i < tail.len()
        invariant
            i <= tail.len(),
            v@ == old(v)@ + tail@.subrange(0, i as int),
        decreases tail.len() - i,
    {
        v.push(tail[i]);
        i = i + 1;
        assert(tail@.subrange(0, i as int) == tail@.subrange(0, i - 1).push(tail@[i - 1]));
    }
    assert(tail@.subrange(0, tail@.len() as int) == tail@);
}

/// Appends the characters of a string slice to `v`.
pub fn extend_str(v: &mut Vec<char>, tail: &str)
    ensures
        final(v)@ == old(v)@ + tail@,
{
    let t = chars_of(tail);
    extend_chars(v, &t);
}

/// The concatenation of two character vectors.
pub fn concat(a: &Vec<char>, b: &Vec<char>) -> (r: Vec<char>)
    ensures
        r@ == a@ + b@,
{
    let mut r = a.clone();
    extend_chars(&mut r, b);
    r
}

/// Characters `[from, to)` of `s`.
pub fn slice(s: &Vec<char>, from: usize, to: usize) -> (r: Vec<char>)
    requires
        from <= to <= s.len(),
    ensures
        r@ == s@.subrange(from as int, to as int),
{
    let mut r: Vec<char> = Vec::new();
    let mut i = from;
    while i < to
        invariant
            from <= i <= to,
            to <= s.len(),
            r@ == s@.subrange(from as int, i as int),
        decreases to - i,
    {
        r.push(s[i]);
        i = i + 1;
    }
    r
}

/// Character-wise equality of two vectors.
pub fn eq_chars(a: &Vec<char>, b: &Vec<char>) -> (r: bool)
    ensures
        r == (a@ == b@),
{
    if a.len() != b.len() {
        return false;
    }
    let mut i: usize = 0;
    while i < a.len()
        invariant
            i <= a.len(),
            a.len() == b.len(),
            forall|k: int| 0 <= k < i ==> a@[k] == b@[k],
        decreases a.len() - i,
    {
        if a[i] != b[i] {
            return false;
        }
        i = i + 1;
    }
    assert(a@ =~= b@);
    true
}

// ---------------------------------------------------------------------------
// Pattern matching
// ---------------------------------------------------------------------------

/// `p` occurs in `s` at position `i`.
pub open spec fn matches_at(s: Seq<char>, p: Seq<char>, i: int) -> bool {
    0 <= i && i + p.len() <= s.len() && s.subrange(i, i + p.len()) == p
}

pub open spec fn starts_with(s: Seq<char>, p: Seq<char>) -> bool {
    matches_at(s, p, 0)
}

pub open spec fn ends_with(s: Seq<char>, p: Seq<char>) -> bool {
    p.len() <= s.len() && matches_at(s, p, s.len() - p.len())
}

pub open spec fn contains(s: Seq<char>, p: Seq<char>) -> bool {
    exists|i: int| matches_at(s, p, i)
}

/// Index of the first occurrence of `p` at or after `i`, or `s.len()` when
/// there is none.
pub open spec fn next_match(s: Seq<char>, p: Seq<char>, i: int) -> int
    decreases s.len() - i,
{
    if i >= s.len() {
        s.len() as int
    } else if matches_at(s, p, i) {
        i
    } else {
        next_match(s, p, i + 1)
    }
}

pub proof fn lemma_next_match(s: Seq<char>, p: Seq<char>, i: int)
    requires
        0 <= i,
        p.len() > 0,
    ensures
        i <= next_match(s, p, i) || (i > s.len() && next_match(s, p, i) == s.len()),
        next_match(s, p, i) <= s.len() || next_match(s, p, i) == i,
        next_match(s, p, i) < s.len() ==> matches_at(s, p, next_match(s, p, i)),
        forall|k: int| i <= k < next_match(s, p, i) ==> !matches_at(s, p, k),
        next_match(s, p, i) >= s.len() ==> forall|k: int| i <= k ==> !matches_at(s, p, k),
    decreases s.len() - i,
{
    if i >= s.len() {
    } else if matches_at(s, p, i) {
    } else {
        lemma_next_match(s, p, i + 1);
    }
}

/// Whether `p` occurs in `s` at position `i`.
pub fn matches_at_exec(s: &Vec<char>, p: &Vec<char>, i: usize) -> (r: bool)
    ensures
        r == matches_at(s@, p@, i as int),
{
    if i > s.len() || p.len() > s.len() - i {
        return false;
    }
    let mut k: usize = 0;
    while k < p.len()
        invariant
            k <= p.len(),
            i + p.len() <= s.len(),
            forall|m: int| 0 <= m < k ==> s@[i + m] == p@[m],
        decreases p.len() - k,
    {
        if s[i + k] != p[k] {
            assert(s@.subrange(i as int, i + p.len())[k as int] != p@[k as int]);
            return false;
        }
        k = k + 1;
    }
    assert(s@.subrange(i as int, i + p.len()) =~= p@);
    true
}

pub fn starts_with_exec(s: &Vec<char>, p: &Vec<char>) -> (r: bool)
    ensures
        r == starts_with(s@, p@),
{
    matches_at_exec(s, p, 0)
}

pub fn ends_with_exec(s: &Vec<char>, p: &Vec<char>) -> (r: bool)
    ensures
        r == ends_with(s@, p@),
{
    if p.len() > s.len() {
        false
    } else {
        matches_at_exec(s, p, s.len() - p.len())
    }
}

/// First position at or after `i` where `p` occurs, or `s.len()`.
pub fn next_match_exec(s: &Vec<char>, p: &Vec<char>, i: usize) -> (j: usize)
    ensures
        j == next_match(s@, p@, i as int),
{
    if i >= s.len() {
        return s.len();
    }
    let mut k = i;
    while k < s.len()
        invariant
            i <= k <= s.len(),
            next_match(s@, p@, i as int) == next_match(s@, p@, k as int),
        decreases s.len() - k,
    {
        if matches_at_exec(s, p, k) {
            return k;
        }
        k = k + 1;
    }
    s.len()
}

pub fn contains_exec(s: &Vec<char>, p: &Vec<char>) -> (r: bool)
    ensures
        r == contains(s@, p@),
{
    if p.len() == 0 {
        assert(matches_at(s@, p@, 0)) by {
            assert(s@.subrange(0, 0) =~= p@);
        }
        return true;
    }
    let j = next_match_exec(s, p, 0);
    proof {
        lemma_next_match(s@, p@, 0);
    }
    j < s.len()
}

pub fn contains_char(s: &Vec<char>, c: char) -> (r: bool)
    ensures
        r == s@.contains(c),
{
    let mut i: usize = 0;
    while i < s.len()
        invariant
            i <= s.len(),
            forall|k: int| 0 <= k < i ==> s@[k] != c,
        decreases s.len() - i,
    {
        if s[i] == c {
            return true;
        }
        i = i + 1;
    }
    false
}


// ---------------------------------------------------------------------------
// Trimming
// ---------------------------------------------------------------------------

/// Index of the first non-whitespace character at or after `i`, or `s.len()`.
pub open spec fn skip_ws(s: Seq<char>, i: int) -> int
    decreases s.len() - i,
{
    if i >= s.len() {
        s.len() as int
    } else if !is_ws(s[i]) {
        i
    } else {
        skip_ws(s, i + 1)
    }
}

/// One past the last non-whitespace character before `j`, or `i` when all of
/// `[i, j)` is whitespace.
pub open spec fn back_ws(s: Seq<char>, i: int, j: int) -> int
    decreases j - i,
{
    if j <= i {
        i
    } else if !is_ws(s[j - 1]) {
        j
    } else {
        back_ws(s, i, j - 1)
    }
}

/// `str::trim`: the sequence without leading and trailing whitespace.
pub open spec fn trim(s: Seq<char>) -> Seq<char> {
    let a = skip_ws(s, 0);
    let b = back_ws(s, a, s.len() as int);
    s.subrange(a, b)
}

pub proof fn lemma_skip_ws(s: Seq<char>, i: int)
    requires
        0 <= i <= s.len(),
    ensures
        i <= skip_ws(s, i) <= s.len(),
        forall|k: int| i <= k < skip_ws(s, i) ==> is_ws(s[k]),
        skip_ws(s, i) < s.len() ==> !is_ws(s[skip_ws(s, i)]),
    decreases s.len() - i,
{
    if i < s.len() && is_ws(s[i]) {
        lemma_skip_ws(s, i + 1);
    }
}

pub proof fn lemma_back_ws(s: Seq<char>, i: int, j: int)
    requires
        0 <= i <= j <= s.len(),
    ensures
        i <= back_ws(s, i, j) <= j,
        forall|k: int| back_ws(s, i, j) <= k < j ==> is_ws(s[k]),
        back_ws(s, i, j) > i ==> !is_ws(s[back_ws(s, i, j) - 1]),
    decreases j - i,
{
    if j > i && is_ws(s[j - 1]) {
        lemma_back_ws(s, i, j - 1);
    }
}

pub fn skip_ws_exec(s: &Vec<char>, i: usize) -> (r: usize)
    requires
        i <= s.len(),
    ensures
        r == skip_ws(s@, i as int),
{
    let mut k = i;
    while k < s.len() && char_is_ws(s[k])
        invariant
            i <= k <= s.len(),
            skip_ws(s@, i as int) == skip_ws(s@, k as int),
        decreases s.len() - k,
    {
        k = k + 1;
    }
    k
}

pub fn back_ws_exec(s: &Vec<char>, i: usize, j: usize) -> (r: usize)
    requires
        i <= j <= s.len(),
    ensures
        r == back_ws(s@, i as int, j as int),
{
    let mut k = j;
    while k > i && char_is_ws(s[k - 1])
        invariant
            i <= k <= j,
            j <= s.len(),
            back_ws(s@, i as int, j as int) == back_ws(s@, i as int, k as int),
        decreases k - i,
    {
        k = k - 1;
    }
    k
}

pub fn trim_exec(s: &Vec<char>) -> (r: Vec<char>)
    ensures
        r@ == trim(s@),
{
    let a = skip_ws_exec(s, 0);
    proof {
        lemma_skip_ws(s@, 0);
    }
    let b = back_ws_exec(s, a, s.len());
    proof {
        lemma_back_ws(s@, a as int, s@.len() as int);
    }
    slice(s, a, b)
}

/// Strips every leading copy of `p` (`str::trim_start_matches` with a
/// non-empty pattern).
pub open spec fn trim_start_matches(s: Seq<char>, p: Seq<char>) -> Seq<char>
    decreases s.len(),
{
    if p.len() > 0 && starts_with(s, p) {
        trim_start_matches(s.subrange(p.len() as int, s.len() as int), p)
    } else {
        s
    }
}

pub fn trim_start_matches_exec(s: &Vec<char>, p: &Vec<char>) -> (r: Vec<char>)
    ensures
        r@ == trim_start_matches(s@, p@),
{
    if p.len() == 0 {
        return s.clone();
    }
    let mut cur = s.clone();
    while starts_with_exec(&cur, p)
        invariant
            p@.len() > 0,
            trim_start_matches(s@, p@) == trim_start_matches(cur@, p@),
        decreases cur@.len(),
    {
        cur = slice(&cur, p.len(), cur.len());
    }
    cur
}

/// Strips every leading and trailing copy of `c` (`str::trim_matches` with a
/// character).
pub open spec fn trim_char_start(s: Seq<char>, c: char) -> Seq<char>
    decreases s.len(),
{
    if s.len() > 0 && s[0] == c {
        trim_char_start(s.drop_first(), c)
    } else {
        s
    }
}

pub open spec fn trim_char_end(s: Seq<char>, c: char) -> Seq<char>
    decreases s.len(),
{
    if s.len() > 0 && s.last() == c {
        trim_char_end(s.drop_last(), c)
    } else {
        s
    }
}

pub open spec fn trim_char(s: Seq<char>, c: char) -> Seq<char> {
    trim_char_end(trim_char_start(s, c), c)
}

pub fn trim_char_exec(s: &Vec<char>, c: char) -> (r: Vec<char>)
    ensures
        r@ == trim_char(s@, c),
{
    let mut a: usize = 0;
    assert(s@.subrange(0, s@.len() as int) =~= s@);
    while a < s.len() && s[a] == c
        invariant
            a <= s.len(),
            trim_char_start(s@, c) == trim_char_start(s@.subrange(a as int, s@.len() as int), c),
        decreases s.len() - a,
    {
        assert(s@.subrange(a + 1, s@.len() as int) =~= s@.subrange(a as int, s@.len() as int).drop_first());
        a = a + 1;
    }
    let mid = slice(s, a, s.len());
    assert(trim_char_start(mid@, c) == mid@);
    let mut b = mid.len();
    assert(mid@.subrange(0, mid@.len() as int) =~= mid@);
    while b > 0 && mid[b - 1] == c
        invariant
            b <= mid.len(),
            trim_char_end(mid@, c) == trim_char_end(mid@.subrange(0, b as int), c),
        decreases b,
    {
        assert(mid@.subrange(0, b - 1) =~= mid@.subrange(0, b as int).drop_last());
        b = b - 1;
    }
    assert(mid@.subrange(0, mid@.len() as int) =~= mid@);
    slice(&mid, 0, b)
}

// ---------------------------------------------------------------------------
// Splitting
// ---------------------------------------------------------------------------

/// The character views of a list of pieces.
pub open spec fn pieces(v: &Vec<Vec<char>>) -> Seq<Seq<char>> {
    v@.map_values(|x: Vec<char>| x@)
}

pub proof fn lemma_pieces_push(before: Seq<Vec<char>>, after: Seq<Vec<char>>, x: Vec<char>)
    requires
        after == before.push(x),
    ensures
        after.map_values(|y: Vec<char>| y@) == before.map_values(|y: Vec<char>| y@).push(x@),
{
    assert(after.map_values(|y: Vec<char>| y@) =~= before.map_values(|y: Vec<char>| y@).push(x@));
}

/// Pieces of `s[i..]` separated by `sep` (`str::split` with a non-empty
/// pattern).
pub open spec fn split_from(s: Seq<char>, sep: Seq<char>, i: int) -> Seq<Seq<char>>
    decreases s.len() - i,
{
    if i < 0 || i > s.len() || sep.len() == 0 {
        seq![]
    } else {
        let j = next_match(s, sep, i);
        if j >= s.len() {
            seq![s.subrange(i, s.len() as int)]
        } else {
            proof {
                lemma_next_match(s, sep, i);
            }
            seq![s.subrange(i, j)] + split_from(s, sep, j + sep.len())
        }
    }
}

pub open spec fn split(s: Seq<char>, sep: Seq<char>) -> Seq<Seq<char>> {
    split_from(s, sep, 0)
}

pub proof fn lemma_split_nonempty(s: Seq<char>, sep: Seq<char>)
    requires
        sep.len() > 0,
    ensures
        split(s, sep).len() > 0,
{
    lemma_next_match(s, sep, 0);
}

pub fn split_exec(s: &Vec<char>, sep: &Vec<char>) -> (r: Vec<Vec<char>>)
    requires
        sep.len() > 0,
    ensures
        pieces(&r) == split(s@, sep@),
{
    let mut acc: Vec<Vec<char>> = Vec::new();
    let mut pos: usize = 0;
    loop
        invariant
            pos <= s.len(),
            sep@.len() > 0,
            split(s@, sep@) == pieces(&acc) + split_from(s@, sep@, pos as int),
        decreases s.len() - pos,
    {
        let j = next_match_exec(s, sep, pos);
        proof {
            lemma_next_match(s@, sep@, pos as int);
        }
        if j >= s.len() {
            let piece = slice(s, pos, s.len());
            let ghost before = acc@;
            acc.push(piece);
            proof { lemma_pieces_push(before, acc@, piece); }
            assert(split(s@, sep@) =~= pieces(&acc));
            return acc;
        }
        let piece = slice(s, pos, j);
        let ghost before = acc@;
        acc.push(piece);
        proof { lemma_pieces_push(before, acc@, piece); }
        assert(split(s@, sep@) =~= pieces(&acc) + split_from(s@, sep@, (j + sep.len()) as int));
        pos = j + sep.len();
    }
}

/// `str::lines`: pieces separated by `\n`, each without a trailing `\r`, and
/// no final empty piece.
pub open spec fn strip_cr(x: Seq<char>) -> Seq<char> {
    if x.len() > 0 && x.last() == '\r' {
        x.drop_last()
    } else {
        x
    }
}

pub open spec fn lines_from(s: Seq<char>, i: int) -> Seq<Seq<char>>
    decreases s.len() - i,
{
    if i < 0 || i >= s.len() {
        seq![]
    } else {
        let j = next_match(s, seq!['\n'], i);
        if j >= s.len() {
            seq![s.subrange(i, s.len() as int)]
        } else {
            proof {
                lemma_next_match(s, seq!['\n'], i);
            }
            seq![strip_cr(s.subrange(i, j))] + lines_from(s, j + 1)
        }
    }
}

pub open spec fn lines(s: Seq<char>) -> Seq<Seq<char>> {
    lines_from(s, 0)
}

pub fn lines_exec(s: &Vec<char>) -> (r: Vec<Vec<char>>)
    ensures
        pieces(&r) == lines(s@),
{
    let mut nl: Vec<char> = Vec::new();
    nl.push('\n');
    assert(nl@ =~= seq!['\n']);
    let mut acc: Vec<Vec<char>> = Vec::new();
    let mut pos: usize = 0;
    while pos < s.len()
        invariant
            pos <= s.len(),
            nl@ == seq!['\n'],
            lines(s@) == pieces(&acc) + lines_from(s@, pos as int),
        decreases s.len() - pos,
    {
        let j = next_match_exec(s, &nl, pos);
        proof {
            lemma_next_match(s@, nl@, pos as int);
        }
        if j >= s.len() {
            let piece = slice(s, pos, s.len());
            let ghost before = acc@;
            acc.push(piece);
            proof { lemma_pieces_push(before, acc@, piece); }
            assert(lines(s@) =~= pieces(&acc));
            return acc;
        }
        let mut piece = slice(s, pos, j);
        if piece.len() > 0 && piece[piece.len() - 1] == '\r' {
            piece.pop();
        }
        assert(piece@ == strip_cr(s@.subrange(pos as int, j as int)));
        let ghost before = acc@;
        acc.push(piece);
        proof { lemma_pieces_push(before, acc@, piece); }
        assert(lines(s@) =~= pieces(&acc) + lines_from(s@, j + 1));
        pos = j + 1;
    }
    assert(lines(s@) =~= pieces(&acc));
    acc
}

/// Index of the first whitespace character at or after `i`, or `s.len()`.
pub open spec fn next_ws(s: Seq<char>, i: int) -> int
    decreases s.len() - i,
{
    if i >= s.len() {
        s.len() as int
    } else if is_ws(s[i]) {
        i
    } else {
        next_ws(s, i + 1)
    }
}

pub proof fn lemma_next_ws(s: Seq<char>, i: int)
    requires
        0 <= i <= s.len(),
    ensures
        i <= next_ws(s, i) <= s.len(),
        forall|k: int| i <= k < next_ws(s, i) ==> !is_ws(s[k]),
        i < s.len() && !is_ws(s[i]) ==> next_ws(s, i) > i,
    decreases s.len() - i,
{
    if i < s.len() && !is_ws(s[i]) {
        lemma_next_ws(s, i + 1);
    }
}

/// `str::split_whitespace`: the maximal runs of non-whitespace characters of
/// `s[i..]`.
pub open spec fn words_from(s: Seq<char>, i: int) -> Seq<Seq<char>>
    decreases s.len() - i,
{
    if i < 0 || i > s.len() {
        seq![]
    } else {
        let a = skip_ws(s, i);
        if a >= s.len() {
            seq![]
        } else {
            proof {
                lemma_skip_ws(s, i);
                lemma_next_ws(s, a);
            }
            let b = next_ws(s, a);
            seq![s.subrange(a, b)] + words_from(s, b)
        }
    }
}

pub open spec fn words(s: Seq<char>) -> Seq<Seq<char>> {
    words_from(s, 0)
}

pub fn next_ws_exec(s: &Vec<char>, i: usize) -> (r: usize)
    requires
        i <= s.len(),
    ensures
        r == next_ws(s@, i as int),
{
    let mut k = i;
    while k < s.len() && !char_is_ws(s[k])
        invariant
            i <= k <= s.len(),
            next_ws(s@, i as int) == next_ws(s@, k as int),
        decreases s.len() - k,
    {
        k = k + 1;
    }
    k
}

pub fn words_exec(s: &Vec<char>) -> (r: Vec<Vec<char>>)
    ensures
        pieces(&r) == words(s@),
{
    let mut acc: Vec<Vec<char>> = Vec::new();
    let mut pos: usize = 0;
    loop
        invariant
            pos <= s.len(),
            words(s@) == pieces(&acc) + words_from(s@, pos as int),
        decreases s.len() - pos,
    {
        let a = skip_ws_exec(s, pos);
        proof {
            lemma_skip_ws(s@, pos as int);
        }
        if a >= s.len() {
            assert(words(s@) =~= pieces(&acc));
            return acc;
        }
        let b = next_ws_exec(s, a);
        proof {
            lemma_next_ws(s@, a as int);
        }
        let piece = slice(s, a, b);
        let ghost before = acc@;
        acc.push(piece);
        proof { lemma_pieces_push(before, acc@, piece); }
        assert(words(s@) =~= pieces(&acc) + words_from(s@, b as int));
        pos = b;
    }
}


// ---------------------------------------------------------------------------
// Prefixes, suffixes, replacement, joining
// ---------------------------------------------------------------------------

/// The character view of an optional string.
pub open spec fn opt_str(r: Option<String>) -> Option<Seq<char>> {
    match r {
        Some(v) => Some(v@),
        None => None,
    }
}

/// The characters of an optional string.
pub fn opt_chars_of(r: &Option<String>) -> (v: Option<Vec<char>>)
    ensures
        opt_chars(v) == opt_str(*r),
{
    match r {
        Some(s) => Some(chars_of(s.as_str())),
        None => None,
    }
}

/// The character view of an optional vector.
pub open spec fn opt_chars(r: Option<Vec<char>>) -> Option<Seq<char>> {
    match r {
        Some(v) => Some(v@),
        None => None,
    }
}

/// `str::strip_prefix`.
pub open spec fn strip_prefix(s: Seq<char>, p: Seq<char>) -> Option<Seq<char>> {
    if starts_with(s, p) {
        Some(s.subrange(p.len() as int, s.len() as int))
    } else {
        None
    }
}

/// `str::strip_suffix`.
pub open spec fn strip_suffix(s: Seq<char>, p: Seq<char>) -> Option<Seq<char>> {
    if ends_with(s, p) {
        Some(s.subrange(0, s.len() - p.len()))
    } else {
        None
    }
}

pub fn strip_prefix_exec(s: &Vec<char>, p: &Vec<char>) -> (r: Option<Vec<char>>)
    ensures
        opt_chars(r) == strip_prefix(s@, p@),
{
    if starts_with_exec(s, p) {
        Some(slice(s, p.len(), s.len()))
    } else {
        None
    }
}

pub fn strip_suffix_exec(s: &Vec<char>, p: &Vec<char>) -> (r: Option<Vec<char>>)
    ensures
        opt_chars(r) == strip_suffix(s@, p@),
{
    if ends_with_exec(s, p) {
        Some(slice(s, 0, s.len() - p.len()))
    } else {
        None
    }
}

/// `str::replace` with a non-empty pattern: every leftmost, non-overlapping
/// occurrence of `pat` is replaced by `rep`.
pub open spec fn replace_all(s: Seq<char>, pat: Seq<char>, rep: Seq<char>) -> Seq<char>
    decreases s.len(),
{
    if pat.len() == 0 || s.len() == 0 {
        s
    } else if starts_with(s, pat) {
        rep + replace_all(s.subrange(pat.len() as int, s.len() as int), pat, rep)
    } else {
        seq![s[0]] + replace_all(s.drop_first(), pat, rep)
    }
}

pub fn replace_all_exec(s: &Vec<char>, pat: &Vec<char>, rep: &Vec<char>) -> (r: Vec<char>)
    requires
        pat.len() > 0,
    ensures
        r@ == replace_all(s@, pat@, rep@),
{
    let mut out: Vec<char> = Vec::new();
    let mut pos: usize = 0;
    while pos < s.len()
        invariant
            pos <= s.len(),
            pat@.len() > 0,
            replace_all(s@, pat@, rep@) == out@ + replace_all(
                s@.subrange(pos as int, s@.len() as int),
                pat@,
                rep@,
            ),
        decreases s.len() - pos,
    {
        let ghost rest = s@.subrange(pos as int, s@.len() as int);
        if matches_at_exec(s, pat, pos) {
            assert(rest.subrange(0, pat@.len() as int) =~= s@.subrange(
                pos as int,
                pos + pat@.len(),
            ));
            assert(rest.subrange(pat@.len() as int, rest.len() as int) =~= s@.subrange(
                pos + pat@.len(),
                s@.len() as int,
            ));
            let ghost old_out = out@;
            extend_chars(&mut out, rep);
            assert(old_out + (rep@ + replace_all(
                s@.subrange(pos + pat@.len(), s@.len() as int),
                pat@,
                rep@,
            )) =~= out@ + replace_all(s@.subrange(pos + pat@.len(), s@.len() as int), pat@, rep@));
            pos = pos + pat.len();
        } else {
            assert(rest.subrange(0, pat@.len() as int) =~= s@.subrange(
                pos as int,
                pos + pat@.len(),
            ) || pos + pat@.len() > s@.len());
            assert(rest.drop_first() =~= s@.subrange(pos + 1, s@.len() as int));
            let ghost old_out = out@;
            out.push(s[pos]);
            assert(old_out + (seq![rest[0]] + replace_all(rest.drop_first(), pat@, rep@))
                =~= out@ + replace_all(s@.subrange(pos + 1, s@.len() as int), pat@, rep@));
            pos = pos + 1;
        }
    }
    assert(s@.subrange(pos as int, s@.len() as int) =~= Seq::<char>::empty());
    assert(out@ + Seq::<char>::empty() =~= out@);
    out
}

/// `[T]::join` on strings: the parts with `sep` between neighbours.
pub open spec fn join(parts: Seq<Seq<char>>, sep: Seq<char>) -> Seq<char>
    decreases parts.len(),
{
    if parts.len() == 0 {
        seq![]
    } else if parts.len() == 1 {
        parts[0]
    } else {
        join(parts.drop_last(), sep) + sep + parts.last()
    }
}

pub fn join_exec(parts: &Vec<Vec<char>>, sep: &Vec<char>) -> (r: Vec<char>)
    ensures
        r@ == join(pieces(parts), sep@),
{
    let mut out: Vec<char> = Vec::new();
    let mut i: usize = 0;
    while i < parts.len()
        invariant
            i <= parts.len(),
            out@ == join(pieces(parts).take(i as int), sep@),
        decreases parts.len() - i,
    {
        let ghost ps = pieces(parts);
        assert(ps.take(i + 1).drop_last() =~= ps.take(i as int));
        if i > 0 {
            extend_chars(&mut out, sep);
        }
        extend_chars(&mut out, &parts[i]);
        i = i + 1;
        assert(ps.take(i as int).last() == parts@[i - 1]@);
    }
    assert(pieces(parts).take(parts@.len() as int) =~= pieces(parts));
    out
}

// ---------------------------------------------------------------------------
// Numbers
// ---------------------------------------------------------------------------

pub open spec fn digit_char(d: nat) -> char {
    if d == 0 {
        '0'
    } else if d == 1 {
        '1'
    } else if d == 2 {
        '2'
    } else if d == 3 {
        '3'
    } else if d == 4 {
        '4'
    } else if d == 5 {
        '5'
    } else if d == 6 {
        '6'
    } else if d == 7 {
        '7'
    } else if d == 8 {
        '8'
    } else {
        '9'
    }
}

/// The decimal digits of `n` (`u64::to_string`).
pub open spec fn decimal(n: nat) -> Seq<char>
    decreases n,
{
    if n < 10 {
        seq![digit_char(n)]
    } else {
        decimal(n / 10).push(digit_char(n % 10))
    }
}

/// `i64::to_string`.
pub open spec fn signed_decimal(x: int) -> Seq<char> {
    if x < 0 {
        seq!['-'] + decimal((-x) as nat)
    } else {
        decimal(x as nat)
    }
}

fn digit_char_exec(d: u64) -> (c: char)
    requires
        d < 10,
    ensures
        c == digit_char(d as nat),
{
    if d == 0 {
        '0'
    } else if d == 1 {
        '1'
    } else if d == 2 {
        '2'
    } else if d == 3 {
        '3'
    } else if d == 4 {
        '4'
    } else if d == 5 {
        '5'
    } else if d == 6 {
        '6'
    } else if d == 7 {
        '7'
    } else if d == 8 {
        '8'
    } else {
        '9'
    }
}

pub fn decimal_exec(n: u64) -> (r: Vec<char>)
    ensures
        r@ == decimal(n as nat),
{
    let mut m = n;
    let mut acc: Vec<char> = Vec::new();
    while m >= 10
        invariant
            decimal(n as nat) == decimal(m as nat) + acc@,
        decreases m,
    {
        let d = m % 10;
        let c = digit_char_exec(d);
        let ghost old_acc = acc@;
        acc.insert(0, c);
        assert(decimal(m as nat) == decimal((m / 10) as nat).push(digit_char((m % 10) as nat)));
        assert(decimal((m / 10) as nat).push(c) + old_acc =~= decimal((m / 10) as nat) + acc@);
        m = m / 10;
    }
    let mut r: Vec<char> = Vec::new();
    r.push(digit_char_exec(m));
    assert(decimal(m as nat) =~= r@);
    extend_chars(&mut r, &acc);
    r
}

pub fn signed_decimal_exec(x: i64) -> (r: Vec<char>)
    ensures
        r@ == signed_decimal(x as int),
{
    if x < 0 {
        let mag: u64 = if x == i64::MIN {
            9223372036854775808u64
        } else {
            (-x) as u64
        };
        let d = decimal_exec(mag);
        let mut r: Vec<char> = Vec::new();
        r.push('-');
        extend_chars(&mut r, &d);
        r
    } else {
        decimal_exec(x as u64)
    }
}

/// Value of one digit in the given radix (`char::to_digit`).
pub open spec fn digit_value(c: char, radix: nat) -> Option<nat> {
    let u = c as u32;
    let v: int = if 0x30 <= u && u <= 0x39 {
        u - 0x30
    } else if 0x61 <= u && u <= 0x7a {
        u - 0x61 + 10
    } else if 0x41 <= u && u <= 0x5a {
        u - 0x41 + 10
    } else {
        99
    };
    if v < radix {
        Some(v as nat)
    } else {
        None
    }
}

/// Value of a non-signed digit string, or `None` when a character is not a
/// digit.
pub open spec fn digits_value(s: Seq<char>, radix: nat) -> Option<nat>
    decreases s.len(),
{
    if s.len() == 0 {
        Some(0)
    } else {
        match (digits_value(s.drop_last(), radix), digit_value(s.last(), radix)) {
            (Some(v), Some(d)) => Some(v * radix + d),
            _ => None,
        }
    }
}

/// The number that `u64::from_str_radix` reads: an optional `+`, then at
/// least one digit.
pub open spec fn parse_unsigned(s: Seq<char>, radix: nat) -> Option<nat> {
    let body = if s.len() > 0 && s[0] == '+' {
        s.drop_first()
    } else {
        s
    };
    if body.len() == 0 {
        None
    } else {
        digits_value(body, radix)
    }
}

/// `u64::from_str_radix(s, radix).ok()`.
pub open spec fn parse_u64(s: Seq<char>, radix: nat) -> Option<u64> {
    match parse_unsigned(s, radix) {
        Some(v) => if v <= u64::MAX {
            Some(v as u64)
        } else {
            None
        },
        None => None,
    }
}

proof fn lemma_digits_prefix(s: Seq<char>, radix: nat, i: int, j: int)
    requires
        0 <= i <= j <= s.len(),
        radix >= 1,
    ensures
        digits_value(s.subrange(0, j), radix) is Some ==> {
            &&& digits_value(s.subrange(0, i), radix) is Some
            &&& digits_value(s.subrange(0, i), radix)->0 <= digits_value(s.subrange(0, j), radix)->0
        },
    decreases j - i,
{
    if i < j {
        lemma_digits_prefix(s, radix, i, j - 1);
        assert(s.subrange(0, j).drop_last() =~= s.subrange(0, j - 1));
        if digits_value(s.subrange(0, j), radix) is Some {
            let v = digits_value(s.subrange(0, j - 1), radix)->0;
            let d = digit_value(s.subrange(0, j).last(), radix)->0;
            assert(v * radix + d >= v) by (nonlinear_arith)
                requires
                    radix >= 1,
                    d >= 0,
                    v >= 0,
            ;
        }
    }
}

fn digit_value_exec(c: char, radix: u64) -> (r: Option<u64>)
    requires
        radix <= 36,
    ensures
        r matches Some(d) ==> d < radix && digit_value(c, radix as nat) == Some(d as nat),
        r is None ==> digit_value(c, radix as nat) is None,
{
    let u = c as u32;
    let v: u64 = if 0x30 <= u && u <= 0x39 {
        (u - 0x30) as u64
    } else if 0x61 <= u && u <= 0x7a {
        (u - 0x61 + 10) as u64
    } else if 0x41 <= u && u <= 0x5a {
        (u - 0x41 + 10) as u64
    } else {
        99
    };
    if v < radix {
        Some(v)
    } else {
        None
    }
}

/// Parses an unsigned number in the given radix, as `u64::from_str_radix`
/// does.
pub fn parse_u64_exec(s: &Vec<char>, radix: u64) -> (r: Option<u64>)
    requires
        2 <= radix <= 36,
    ensures
        r == parse_u64(s@, radix as nat),
{
    let start: usize = if s.len() > 0 && s[0] == '+' {
        1
    } else {
        0
    };
    let ghost body = if s@.len() > 0 && s@[0] == '+' {
        s@.drop_first()
    } else {
        s@
    };
    assert(body =~= s@.subrange(start as int, s@.len() as int));
    if start >= s.len() {
        return None;
    }
    let mut acc: u64 = 0;
    let mut i = start;
    assert(body.subrange(0, 0) =~= Seq::<char>::empty());
    while i < s.len()
        invariant
            start <= i <= s.len(),
            2 <= radix <= 36,
            body == s@.subrange(start as int, s@.len() as int),
            parse_unsigned(s@, radix as nat) == digits_value(body, radix as nat),
            digits_value(body.subrange(0, i - start), radix as nat) == Some(acc as nat),
        decreases s.len() - i,
    {
        let ghost k = i - start;
        assert(body.subrange(0, k + 1).drop_last() =~= body.subrange(0, k));
        assert(body.subrange(0, k + 1).last() == s@[i as int]);
        let d = digit_value_exec(s[i], radix);
        match d {
            None => {
                proof {
                    assert(digits_value(body.subrange(0, k + 1), radix as nat) is None);
                    lemma_digits_prefix(body, radix as nat, k + 1, body.len() as int);
                    assert(body.subrange(0, body.len() as int) =~= body);
                    assert(parse_unsigned(s@, radix as nat) == digits_value(body, radix as nat));
                    assert(digits_value(body, radix as nat) is None);
                }
                return None;
            },
            Some(d) => {
                let m = acc.checked_mul(radix);
                let next = match m {
                    Some(m) => m.checked_add(d),
                    None => None,
                };
                match next {
                    None => {
                        proof {
                            assert(acc * radix + d > u64::MAX) by (nonlinear_arith)
                                requires
                                    m is None ==> acc * radix > u64::MAX,
                                    m matches Some(mv) ==> mv == acc * radix && mv + d
                                        > u64::MAX,
                                    d >= 0,
                            ;
                            assert(digits_value(body.subrange(0, k + 1), radix as nat) == Some(
                                (acc * radix + d) as nat,
                            ));
                            lemma_digits_prefix(body, radix as nat, k + 1, body.len() as int);
                            assert(body.subrange(0, body.len() as int) =~= body);
                            assert(parse_unsigned(s@, radix as nat) == digits_value(
                                body,
                                radix as nat,
                            ));
                        }
                        return None;
                    },
                    Some(v) => {
                        acc = v;
                    },
                }
            },
        }
        i = i + 1;
    }
    assert(body.subrange(0, body.len() as int) =~= body);
    Some(acc)
}

// ---------------------------------------------------------------------------
// Paths
// ---------------------------------------------------------------------------

/// `Path::join` on Unix: an absolute `b` replaces `a`; otherwise `b` is
/// appended after a `/` unless `a` is empty or already ends with one.
pub open spec fn path_join(a: Seq<char>, b: Seq<char>) -> Seq<char> {
    if starts_with(b, "/"@) || a.len() == 0 {
        b
    } else if ends_with(a, "/"@) {
        a + b
    } else {
        a + "/"@ + b
    }
}

pub fn path_join_exec(a: &str, b: &str) -> (r: String)
    ensures
        r@ == path_join(a@, b@),
{
    let av = chars_of(a);
    let bv = chars_of(b);
    let slash = chars_of("/");
    if starts_with_exec(&bv, &slash) || av.len() == 0 {
        string_of(&bv)
    } else if ends_with_exec(&av, &slash) {
        let r = concat(&av, &bv);
        string_of(&r)
    } else {
        let mut r = av;
        extend_chars(&mut r, &slash);
        extend_chars(&mut r, &bv);
        string_of(&r)
    }
}

/// A copy of an optional string.
pub fn clone_opt(o: &Option<String>) -> (r: Option<String>)
    ensures
        opt_str(r) == opt_str(*o),
{
    match o {
        Some(s) => Some(s.clone()),
        None => None,
    }
}

// ---------------------------------------------------------------------------
// Case mapping
// ---------------------------------------------------------------------------

/// What `str::to_lowercase` returns for a string with the given characters.
pub uninterp spec fn lowercase(s: Seq<char>) -> Seq<char>;

/// What `str::to_uppercase` returns for a string with the given characters.
pub uninterp spec fn uppercase(s: Seq<char>) -> Seq<char>;

/// Calls `str::to_lowercase`, the full Unicode lower-case mapping; the result
/// is named by `lowercase` and depends on the characters alone.
#[verifier::external_body]
pub(crate) fn to_lowercase(s: &str) -> (r: String)
    ensures
        r@ == lowercase(s@),
{
    s.to_lowercase()
}

/// Calls `str::to_uppercase`, the full Unicode upper-case mapping; the result
/// is named by `uppercase` and depends on the characters alone.
#[verifier::external_body]
pub(crate) fn to_uppercase(s: &str) -> (r: String)
    ensures
        r@ == uppercase(s@),
{
    s.to_uppercase()
}

} // verus!
