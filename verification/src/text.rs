//! Character-sequence utilities shared by the parsers: whitespace, trimming,
//! prefixes, substring search, splitting into pieces and lines, joining.
//!
//! Everything here works on `Seq<char>` in specifications and on `Vec<char>`
//! or `&[char]` in code; the conversions from and to `str`/`String` are at the
//! end of the file.

use vstd::prelude::*;

verus! {

// ---------------------------------------------------------------------------
// Whitespace and trimming
// ---------------------------------------------------------------------------

/// The Unicode `White_Space` property, which `char::is_whitespace` and
/// `str::trim` use.
pub open spec fn is_white_space(c: char) -> bool {
    let v = c as u32;
    ||| 0x9 <= v <= 0xD
    ||| v == 0x20
    ||| v == 0x85
    ||| v == 0xA0
    ||| v == 0x1680
    ||| 0x2000 <= v <= 0x200A
    ||| v == 0x2028
    ||| v == 0x2029
    ||| v == 0x202F
    ||| v == 0x205F
    ||| v == 0x3000
}

/// Whether `c` is a whitespace character.
pub fn is_whitespace(c: char) -> (b: bool)
    ensures
        b == is_white_space(c),
{
    let v = c as u32;
    (0x9 <= v && v <= 0xD) || v == 0x20 || v == 0x85 || v == 0xA0 || v == 0x1680 || (0x2000 <= v
        && v <= 0x200A) || v == 0x2028 || v == 0x2029 || v == 0x202F || v == 0x205F || v == 0x3000
}

/// `s` without its leading whitespace.
pub open spec fn trim_start(s: Seq<char>) -> Seq<char>
    decreases s.len(),
{
    if s.len() > 0 && is_white_space(s[0]) {
        trim_start(s.drop_first())
    } else {
        s
    }
}

/// `s` without its trailing whitespace.
pub open spec fn trim_end(s: Seq<char>) -> Seq<char>
    decreases s.len(),
{
    if s.len() > 0 && is_white_space(s.last()) {
        trim_end(s.drop_last())
    } else {
        s
    }
}

/// `s` without leading and trailing whitespace (`str::trim`).
pub open spec fn trim(s: Seq<char>) -> Seq<char> {
    trim_end(trim_start(s))
}

proof fn lemma_trim_start_skip(s: Seq<char>, i: int)
    requires
        0 <= i <= s.len(),
        forall|k: int| 0 <= k < i ==> is_white_space(#[trigger] s[k]),
    ensures
        trim_start(s) == trim_start(s.skip(i)),
    decreases i,
{
    if i > 0 {
        assert(s.drop_first().skip(i - 1) =~= s.skip(i));
        lemma_trim_start_skip(s.drop_first(), i - 1);
    } else {
        assert(s.skip(0) =~= s);
    }
}

proof fn lemma_trim_end_take(s: Seq<char>, j: int)
    requires
        0 <= j <= s.len(),
        forall|k: int| j <= k < s.len() ==> is_white_space(#[trigger] s[k]),
    ensures
        trim_end(s) == trim_end(s.take(j)),
    decreases s.len() - j,
{
    if j < s.len() {
        assert(s.drop_last().take(j) =~= s.take(j));
        lemma_trim_end_take(s.drop_last(), j);
    } else {
        assert(s.take(j) =~= s);
    }
}

/// `s` trimmed.
pub fn trimmed(s: &[char]) -> (r: Vec<char>)
    ensures
        r@ == trim(s@),
{
    let n = s.len();
    let mut i: usize = 0;
    while i < n && is_whitespace(s[i])
        invariant
            0 <= i <= n,
            n == s@.len(),
            forall|k: int| 0 <= k < i ==> is_white_space(#[trigger] s@[k]),
        decreases n - i,
    {
        i = i + 1;
    }
    proof {
        lemma_trim_start_skip(s@, i as int);
    }
    let mut j: usize = n;
    while j > i && is_whitespace(s[j - 1])
        invariant
            i <= j <= n,
            n == s@.len(),
            forall|k: int| j <= k < n ==> is_white_space(#[trigger] s@[k]),
        decreases j,
    {
        j = j - 1;
    }
    let r = slice_range(s, i, j);
    proof {
        let t = s@.skip(i as int);
        assert(i < n ==> !is_white_space(t[0]));
        assert(trim_start(t) == t);
        assert forall|k: int| (j - i) <= k < t.len() implies is_white_space(#[trigger] t[k]) by {
            assert(t[k] == s@[k + i]);
        }
        lemma_trim_end_take(t, j - i);
        assert(t.take(j - i) =~= s@.subrange(i as int, j as int));
        let u = s@.subrange(i as int, j as int);
        assert(j > i ==> u.last() == s@[j - 1]);
        assert(trim_end(u) == u);
    }
    r
}

// ---------------------------------------------------------------------------
// Slices and copies
// ---------------------------------------------------------------------------

/// The characters of `s` from index `i` up to (not including) `j`.
pub fn slice_range(s: &[char], i: usize, j: usize) -> (r: Vec<char>)
    requires
        i <= j <= s@.len(),
    ensures
        r@ == s@.subrange(i as int, j as int),
{
    let mut r: Vec<char> = Vec::new();
    let mut k: usize = i;
    while k < j
        invariant
            i <= k <= j,
            j <= s@.len(),
            r@ == s@.subrange(i as int, k as int),
        decreases j - k,
    {
        r.push(s[k]);
        k = k + 1;
        assert(r@ =~= s@.subrange(i as int, k as int));
    }
    r
}

/// Appends the characters of `src` to `dst`.
pub fn extend_chars(dst: &mut Vec<char>, src: &[char])
    ensures
        final(dst)@ == old(dst)@ + src@,
{
    let ghost start = dst@;
    let mut k: usize = 0;
    while k < src.len()
        invariant
            0 <= k <= src@.len(),
            dst@ == start + src@.take(k as int),
        decreases src@.len() - k,
    {
        dst.push(src[k]);
        k = k + 1;
        assert(dst@ =~= start + src@.take(k as int));
    }
    assert(src@.take(k as int) =~= src@);
}

/// Appends the characters of the string slice `src` to `dst`.
pub fn extend_str(dst: &mut Vec<char>, src: &str)
    ensures
        final(dst)@ == old(dst)@ + src@,
{
    let cs = chars_of(src);
    extend_chars(dst, cs.as_slice());
}

// ---------------------------------------------------------------------------
// Prefixes, suffixes and search
// ---------------------------------------------------------------------------

/// `p` is a prefix of `s`.
pub open spec fn has_prefix(s: Seq<char>, p: Seq<char>) -> bool {
    p.len() <= s.len() && s.take(p.len() as int) == p
}

/// `p` is a suffix of `s`.
pub open spec fn has_suffix(s: Seq<char>, p: Seq<char>) -> bool {
    p.len() <= s.len() && s.skip(s.len() - p.len()) == p
}

/// `p` occurs in `s` at index `i`.
pub open spec fn occurs_at(s: Seq<char>, p: Seq<char>, i: int) -> bool {
    0 <= i && i + p.len() <= s.len() && s.subrange(i, i + p.len()) == p
}

/// The first index at or after `i` where `p` occurs in `s`.
pub open spec fn find_from(s: Seq<char>, p: Seq<char>, i: int) -> Option<int>
    decreases s.len() - i,
{
    if i < 0 || i + p.len() > s.len() {
        None
    } else if occurs_at(s, p, i) {
        Some(i)
    } else if i >= s.len() {
        None
    } else {
        find_from(s, p, i + 1)
    }
}

/// The first index where `p` occurs in `s` (`str::find`).
pub open spec fn find(s: Seq<char>, p: Seq<char>) -> Option<int> {
    find_from(s, p, 0)
}

/// `p` occurs somewhere in `s` (`str::contains`).
pub open spec fn contains(s: Seq<char>, p: Seq<char>) -> bool {
    exists|i: int| occurs_at(s, p, i)
}

/// Whether `a` and `b` hold the same characters.
pub fn eq_chars(a: &[char], b: &[char]) -> (r: bool)
    ensures
        r == (a@ == b@),
{
    if a.len() != b.len() {
        return false;
    }
    let r = matches_at(a, b, 0);
    proof {
        assert(a@.take(b@.len() as int) =~= a@);
    }
    r
}

/// Whether the string slices `a` and `b` hold the same characters.
pub fn eq_str(a: &str, b: &str) -> (r: bool)
    ensures
        r == (a@ == b@),
{
    let x = chars_of(a);
    let y = chars_of(b);
    eq_chars(x.as_slice(), y.as_slice())
}

/// Each `from` in `s` replaced by `to` (`str::replace` with characters).
pub open spec fn replace_char(s: Seq<char>, from: char, to: char) -> Seq<char> {
    s.map_values(|c: char| if c == from { to } else { c })
}

/// `s` with each `from` replaced by `to`.
pub fn replaced(s: &[char], from: char, to: char) -> (r: Vec<char>)
    ensures
        r@ == replace_char(s@, from, to),
{
    let mut r: Vec<char> = Vec::new();
    let mut k: usize = 0;
    while k < s.len()
        invariant
            0 <= k <= s@.len(),
            r@ == replace_char(s@.take(k as int), from, to),
        decreases s@.len() - k,
    {
        let c = s[k];
        r.push(if c == from { to } else { c });
        k = k + 1;
        assert(r@ =~= replace_char(s@.take(k as int), from, to));
    }
    assert(s@.take(k as int) =~= s@);
    r
}


proof fn lemma_find_from_none(s: Seq<char>, p: Seq<char>, i: int, k: int)
    requires
        0 <= i <= k,
        find_from(s, p, i) == None::<int>,
    ensures
        !occurs_at(s, p, k),
    decreases k - i,
{
    if i < k && i + p.len() <= s.len() && i < s.len() {
        lemma_find_from_none(s, p, i + 1, k);
    }
}

/// Whether `p` occurs in `s`.
pub fn contains_chars(s: &[char], p: &[char]) -> (b: bool)
    ensures
        b == contains(s@, p@),
{
    match find_chars(s, p, 0) {
        Some(k) => true,
        None => {
            proof {
                assert forall|k: int| !occurs_at(s@, p@, k) by {
                    if k >= 0 {
                        lemma_find_from_none(s@, p@, 0, k);
                    }
                }
            }
            false
        },
    }
}

/// Whether the string slice `p` occurs in `s`.
pub fn contains_str(s: &[char], p: &str) -> (b: bool)
    ensures
        b == contains(s@, p@),
{
    let pc = chars_of(p);
    contains_chars(s, pc.as_slice())
}

/// The decimal digits of `n` (`to_string` of an unsigned integer).
pub open spec fn decimal(n: nat) -> Seq<char>
    decreases n,
{
    if n < 10 {
        seq![(('0' as u8) + (n as u8)) as char]
    } else {
        decimal(n / 10) + seq![(('0' as u8) + ((n % 10) as u8)) as char]
    }
}

/// The decimal digits of `n`.
pub fn decimal_of(n: u64) -> (r: Vec<char>)
    ensures
        r@ == decimal(n as nat),
    decreases n,
{
    if n < 10 {
        let mut r: Vec<char> = Vec::new();
        r.push((('0' as u8) + (n as u8)) as char);
        assert(r@ =~= decimal(n as nat));
        r
    } else {
        let mut r = decimal_of(n / 10);
        r.push((('0' as u8) + ((n % 10) as u8)) as char);
        assert(r@ =~= decimal(n as nat));
        r
    }
}

/// Whether `p` is a prefix of `s`.
pub fn starts_with(s: &[char], p: &[char]) -> (b: bool)
    ensures
        b == has_prefix(s@, p@),
{
    matches_at(s, p, 0)
}

/// Whether `p` is a suffix of `s`.
pub fn ends_with(s: &[char], p: &[char]) -> (b: bool)
    ensures
        b == has_suffix(s@, p@),
{
    if p.len() > s.len() {
        return false;
    }
    let r = matches_at(s, p, s.len() - p.len());
    proof {
        assert(s@.subrange(s@.len() - p@.len(), s@.len() - p@.len() + p@.len()) =~= s@.skip(
            s@.len() - p@.len(),
        ));
    }
    r
}

/// Whether `p` occurs in `s` at index `i`.
pub fn matches_at(s: &[char], p: &[char], i: usize) -> (b: bool)
    ensures
        b == occurs_at(s@, p@, i as int),
        i == 0 ==> b == has_prefix(s@, p@),
{
    if i > s.len() || p.len() > s.len() - i {
        return false;
    }
    let mut k: usize = 0;
    while k < p.len()
        invariant
            0 <= k <= p@.len(),
            i + p@.len() <= s@.len(),
            s@.len() == s.len(),
            p@.len() == p.len(),
            forall|m: int| 0 <= m < k ==> s@[i + m] == p@[m],
        decreases p@.len() - k,
    {
        if s[i + k] != p[k] {
            assert(s@.subrange(i as int, i + p@.len())[k as int] != p@[k as int]);
            return false;
        }
        k = k + 1;
    }
    assert(s@.subrange(i as int, i + p@.len()) =~= p@);
    proof {
        if i == 0 {
            assert(s@.take(p@.len() as int) =~= s@.subrange(0, p@.len() as int));
        }
    }
    true
}

proof fn lemma_find_from_skips(s: Seq<char>, p: Seq<char>, i: int, j: int)
    requires
        0 <= i <= j,
        forall|k: int| i <= k < j ==> !occurs_at(s, p, k),
        j <= s.len(),
    ensures
        find_from(s, p, i) == find_from(s, p, j),
    decreases j - i,
{
    if i < j {
        lemma_find_from_skips(s, p, i + 1, j);
        if i + p.len() > s.len() {
            // both sides are None: no occurrence can start at or after i
            lemma_find_from_none_beyond(s, p, j);
        }
    }
}

proof fn lemma_find_from_none_beyond(s: Seq<char>, p: Seq<char>, j: int)
    requires
        j + p.len() > s.len(),
    ensures
        find_from(s, p, j) == None::<int>,
{
}

/// The first index at or after `from` where `p` occurs in `s`.
pub fn find_chars(s: &[char], p: &[char], from: usize) -> (r: Option<usize>)
    requires
        from <= s@.len(),
    ensures
        r matches Some(k) ==> find_from(s@, p@, from as int) == Some(k as int) && from <= k && k
            + p@.len() <= s@.len() && occurs_at(s@, p@, k as int),
        r is None ==> find_from(s@, p@, from as int) == None::<int>,
{
    let mut i: usize = from;
    while i < s.len()
        invariant
            from <= i <= s@.len(),
            forall|k: int| from <= k < i ==> !occurs_at(s@, p@, k),
        decreases s@.len() - i,
    {
        if matches_at(s, p, i) {
            proof {
                lemma_find_from_skips(s@, p@, from as int, i as int);
            }
            return Some(i);
        }
        i = i + 1;
    }
    proof {
        lemma_find_from_skips(s@, p@, from as int, i as int);
    }
    if matches_at(s, p, i) {
        Some(i)
    } else {
        None
    }
}

// ---------------------------------------------------------------------------
// Splitting into pieces and lines, joining
// ---------------------------------------------------------------------------

/// The character sequences held by a sequence of vectors.
pub open spec fn views(v: Seq<Vec<char>>) -> Seq<Seq<char>> {
    v.map_values(|x: Vec<char>| x@)
}

// ---------------------------------------------------------------------------
// ---------------------------------------------------------------------------

/// The number of characters of `s` before the first `c` (all of them if `c`
/// does not occur).
pub open spec fn run_len(s: Seq<char>, c: char) -> nat
    decreases s.len(),
{
    if s.len() == 0 || s[0] == c {
        0
    } else {
        1 + run_len(s.drop_first(), c)
    }
}

pub proof fn lemma_run_len_bound(s: Seq<char>, c: char)
    ensures
        run_len(s, c) <= s.len(),
        run_len(s, c) < s.len() ==> s[run_len(s, c) as int] == c,
        forall|k: int| 0 <= k < run_len(s, c) ==> s[k] != c,
    decreases s.len(),
{
    if s.len() > 0 && s[0] != c {
        lemma_run_len_bound(s.drop_first(), c);
        assert forall|k: int| 0 <= k < run_len(s, c) implies s[k] != c by {
            if k > 0 {
                assert(s[k] == s.drop_first()[k - 1]);
            }
        }
    }
}

pub proof fn lemma_run_len_is(s: Seq<char>, c: char, n: int)
    requires
        0 <= n <= s.len(),
        forall|k: int| 0 <= k < n ==> s[k] != c,
        n == s.len() || s[n] == c,
    ensures
        run_len(s, c) == n,
    decreases n,
{
    if n > 0 {
        lemma_run_len_is(s.drop_first(), c, n - 1);
    }
}

/// The number of characters of `s`, from index `from` on, before the next
/// `c`.
pub fn run_length(s: &[char], from: usize, c: char) -> (r: usize)
    requires
        from <= s@.len(),
    ensures
        r == run_len(s@.skip(from as int), c),
        from + r <= s@.len(),
{
    let mut j: usize = from;
    while j < s.len() && s[j] != c
        invariant
            from <= j <= s@.len(),
            forall|k: int| from <= k < j ==> s@[k] != c,
        decreases s@.len() - j,
    {
        j = j + 1;
    }
    proof {
        let t = s@.skip(from as int);
        assert forall|k: int| 0 <= k < j - from implies t[k] != c by {
            assert(t[k] == s@[k + from]);
        }
        lemma_run_len_is(t, c, j - from);
    }
    j - from
}

/// `s` split at every `c` (`str::split` with a character pattern); the
/// pieces do not contain `c`, and there is one more piece than there are
/// occurrences of `c`.
pub open spec fn split(s: Seq<char>, c: char) -> Seq<Seq<char>>
    decreases s.len(),
{
    let k = run_len(s, c);
    if k >= s.len() {
        seq![s]
    } else {
        proof {
            lemma_run_len_bound(s, c);
        }
        seq![s.take(k as int)] + split(s.skip(k + 1 as int), c)
    }
}

/// `s` split at every `c`.
pub fn split_chars(s: &[char], c: char) -> (r: Vec<Vec<char>>)
    ensures
        views(r@) == split(s@, c),
{
    let mut r: Vec<Vec<char>> = Vec::new();
    let n = s.len();
    let mut start: usize = 0;
    let mut i: usize = 0;
    proof {
        assert(s@.skip(0) =~= s@);
        assert(views(r@) =~= Seq::<Seq<char>>::empty());
        assert(views(r@) + split(s@, c) =~= split(s@, c));
    }
    while i < n
        invariant
            0 <= start <= i <= n,
            n == s@.len(),
            forall|k: int| start <= k < i ==> s@[k] != c,
            split(s@, c) == views(r@) + split(s@.skip(start as int), c),
        decreases n - i,
    {
        if s[i] == c {
            let piece = slice_range(s, start, i);
            proof {
                let t = s@.skip(start as int);
                lemma_run_len_is(t, c, i - start);
                assert(t.take(i - start) =~= piece@);
                assert(t.skip(i - start + 1) =~= s@.skip(i + 1));
            }
            let ghost before = views(r@);
            r.push(piece);
            proof {
                assert(views(r@) =~= before.push(piece@));
                assert(seq![piece@] + split(s@.skip(i + 1), c) == split(s@.skip(start as int), c));
                assert(before + split(s@.skip(start as int), c) =~= before.push(piece@) + split(
                    s@.skip(i + 1),
                    c,
                ));
            }
            start = i + 1;
        }
        i = i + 1;
    }
    let last = slice_range(s, start, n);
    proof {
        let t = s@.skip(start as int);
        lemma_run_len_is(t, c, n - start);
        assert(t =~= last@);
    }
    let ghost before = views(r@);
    r.push(last);
    proof {
        assert(views(r@) =~= before.push(last@));
        assert(before + seq![last@] =~= before.push(last@));
    }
    r
}

/// `s` without one trailing carriage return.
pub open spec fn strip_cr(s: Seq<char>) -> Seq<char> {
    if s.len() > 0 && s.last() == '\r' {
        s.drop_last()
    } else {
        s
    }
}

/// The lines of a text, given its pieces between newlines: every piece that
/// a newline ended loses one trailing carriage return, and a last piece that
/// is empty (the text ended with a newline) is no line.
pub open spec fn lines_of_pieces(p: Seq<Seq<char>>) -> Seq<Seq<char>>
    decreases p.len(),
{
    if p.len() == 0 {
        seq![]
    } else if p.len() == 1 {
        if p[0].len() == 0 {
            seq![]
        } else {
            seq![p[0]]
        }
    } else {
        seq![strip_cr(p[0])] + lines_of_pieces(p.drop_first())
    }
}

/// The lines of `s` (`str::lines`): split at `\n`, a `\r` before the `\n`
/// dropped, no final empty line after a trailing newline.
pub open spec fn lines(s: Seq<char>) -> Seq<Seq<char>> {
    if s.len() == 0 {
        seq![]
    } else {
        lines_of_pieces(split(s, '\n'))
    }
}

/// The lines of `s`.
pub fn lines_of(s: &[char]) -> (r: Vec<Vec<char>>)
    ensures
        views(r@) == lines(s@),
{
    let mut r: Vec<Vec<char>> = Vec::new();
    if s.len() == 0 {
        proof {
            assert(views(r@) =~= Seq::<Seq<char>>::empty());
        }
        return r;
    }
    let pieces = split_chars(s, '\n');
    let ghost p = views(pieces@);
    let n = pieces.len();
    let mut i: usize = 0;
    proof {
        assert(p.skip(0) =~= p);
        assert(views(r@) =~= Seq::<Seq<char>>::empty());
        assert(p.len() >= 1) by {
            reveal_with_fuel(split, 1);
        }
    }
    while i + 1 < n
        invariant
            0 <= i < n,
            n == p.len(),
            p == views(pieces@),
            lines_of_pieces(p) == views(r@) + lines_of_pieces(p.skip(i as int)),
        decreases n - i,
    {
        let piece = &pieces[i];
        let stripped = if piece.len() > 0 && piece[piece.len() - 1] == '\r' {
            slice_range(piece.as_slice(), 0, piece.len() - 1)
        } else {
            slice_range(piece.as_slice(), 0, piece.len())
        };
        proof {
            assert(piece@ == p[i as int]);
            assert(stripped@ =~= strip_cr(p[i as int]));
            assert(p.skip(i as int).drop_first() =~= p.skip(i + 1));
        }
        let ghost before = views(r@);
        r.push(stripped);
        proof {
            assert(views(r@) =~= before.push(stripped@));
            assert(before + lines_of_pieces(p.skip(i as int)) =~= views(r@)
                + lines_of_pieces(p.skip(i + 1)));
        }
        i = i + 1;
    }
    let last = &pieces[i];
    proof {
        assert(p.skip(i as int) =~= seq![p[i as int]]);
    }
    if last.len() > 0 {
        let copy = slice_range(last.as_slice(), 0, last.len());
        let ghost before = views(r@);
        r.push(copy);
        proof {
            assert(copy@ =~= last@);
            assert(views(r@) =~= before + seq![p[i as int]]);
        }
    } else {
        proof {
            assert(views(r@) =~= views(r@) + Seq::<Seq<char>>::empty());
        }
    }
    r
}

/// The pieces of `p` joined with `sep` between each two (`join`).
pub open spec fn join(p: Seq<Seq<char>>, sep: Seq<char>) -> Seq<char>
    decreases p.len(),
{
    if p.len() == 0 {
        seq![]
    } else if p.len() == 1 {
        p[0]
    } else {
        join(p.drop_last(), sep) + sep + p.last()
    }
}

/// The pieces of `p` joined with `sep`.
pub fn join_chars(p: &Vec<Vec<char>>, sep: &[char]) -> (r: Vec<char>)
    ensures
        r@ == join(views(p@), sep@),
{
    let mut r: Vec<char> = Vec::new();
    let ghost dv = views(p@);
    let mut i: usize = 0;
    while i < p.len()
        invariant
            0 <= i <= p@.len(),
            dv == views(p@),
            r@ == join(dv.take(i as int), sep@),
        decreases p@.len() - i,
    {
        if i > 0 {
            extend_chars(&mut r, sep);
        }
        extend_chars(&mut r, p[i].as_slice());
        proof {
            assert(dv.take(i + 1).drop_last() =~= dv.take(i as int));
            assert(dv.take(i + 1).last() == p[i as int]@);
            if i == 0 {
                assert(dv.take(1) =~= seq![p[0]@]);
            }
        }
        i = i + 1;
    }
    assert(dv.take(i as int) =~= dv);
    r
}


// ---------------------------------------------------------------------------
// UTF-8 lengths
// ---------------------------------------------------------------------------

/// The number of bytes of the UTF-8 encoding of `s` (`str::len`).
pub open spec fn utf8_len(s: Seq<char>) -> nat {
    vstd::utf8::encode_utf8(s).len()
}

/// The number of bytes of the UTF-8 encoding of `c`.
pub open spec fn char_width(c: char) -> nat {
    let v = c as u32;
    if v < 0x80 {
        1
    } else if v < 0x800 {
        2
    } else if v < 0x10000 {
        3
    } else {
        4
    }
}

proof fn lemma_encode_utf8_append(a: Seq<char>, b: Seq<char>)
    ensures
        vstd::utf8::encode_utf8(a + b) == vstd::utf8::encode_utf8(a) + vstd::utf8::encode_utf8(b),
    decreases a.len(),
{
    if a.len() > 0 {
        assert((a + b).drop_first() =~= a.drop_first() + b);
        lemma_encode_utf8_append(a.drop_first(), b);
        assert((a + b)[0] == a[0]);
        assert(vstd::utf8::encode_scalar(a[0] as u32) + (vstd::utf8::encode_utf8(a.drop_first())
            + vstd::utf8::encode_utf8(b)) =~= (vstd::utf8::encode_scalar(a[0] as u32)
            + vstd::utf8::encode_utf8(a.drop_first())) + vstd::utf8::encode_utf8(b));
    } else {
        assert(a + b =~= b);
        assert(vstd::utf8::encode_utf8(a) =~= Seq::<u8>::empty());
        assert(Seq::<u8>::empty() + vstd::utf8::encode_utf8(b) =~= vstd::utf8::encode_utf8(b));
    }
}

/// Adding a character adds its width to the UTF-8 length.
pub proof fn lemma_utf8_len_push(s: Seq<char>, c: char)
    ensures
        utf8_len(s.push(c)) == utf8_len(s) + char_width(c),
{
    lemma_encode_utf8_append(s, seq![c]);
    assert(s.push(c) =~= s + seq![c]);
    assert(seq![c].drop_first() =~= Seq::<char>::empty());
    assert(vstd::utf8::encode_utf8(Seq::<char>::empty()) =~= Seq::<u8>::empty());
    assert(vstd::utf8::encode_utf8(seq![c]) =~= vstd::utf8::encode_scalar(c as u32) + Seq::<
        u8,
    >::empty());
    assert(vstd::utf8::encode_utf8(seq![c]) =~= vstd::utf8::encode_scalar(c as u32));
}

/// The UTF-8 length only grows along prefixes.
pub proof fn lemma_utf8_len_prefix_mono(s: Seq<char>, i: int, j: int)
    requires
        0 <= i <= j <= s.len(),
    ensures
        utf8_len(s.take(i)) + (j - i) <= utf8_len(s.take(j)),
    decreases j - i,
{
    if i < j {
        lemma_utf8_len_prefix_mono(s, i, j - 1);
        assert(s.take(j) =~= s.take(j - 1).push(s[j - 1]));
        lemma_utf8_len_push(s.take(j - 1), s[j - 1]);
    }
}

/// The width of a character.
pub fn char_width_of(c: char) -> (w: usize)
    ensures
        w == char_width(c),
        1 <= w <= 4,
{
    let v = c as u32;
    if v < 0x80 {
        1
    } else if v < 0x800 {
        2
    } else if v < 0x10000 {
        3
    } else {
        4
    }
}

/// Whether the UTF-8 encoding of `s` has at most `limit` bytes.
pub fn utf8_len_at_most(s: &[char], limit: usize) -> (b: bool)
    ensures
        b == (utf8_len(s@) <= limit),
{
    let mut acc: usize = 0;
    let mut k: usize = 0;
    proof {
        assert(s@.take(0) =~= Seq::<char>::empty());
    }
    while k < s.len()
        invariant
            0 <= k <= s@.len(),
            acc == utf8_len(s@.take(k as int)),
            acc <= limit,
        decreases s@.len() - k,
    {
        let w = char_width_of(s[k]);
        proof {
            assert(s@.take(k + 1) =~= s@.take(k as int).push(s@[k as int]));
            lemma_utf8_len_push(s@.take(k as int), s@[k as int]);
        }
        if w > limit - acc {
            proof {
                lemma_utf8_len_prefix_mono(s@, k + 1, s@.len() as int);
                assert(s@.take(s@.len() as int) =~= s@);
            }
            return false;
        }
        acc = acc + w;
        k = k + 1;
    }
    assert(s@.take(k as int) =~= s@);
    true
}

/// The number of leading characters of `s` whose UTF-8 encoding is exactly
/// `n` bytes long, if there is such a prefix (`n` is then a character
/// boundary of the encoding).
pub fn char_count_for_bytes(s: &[char], n: usize) -> (r: Option<usize>)
    ensures
        r matches Some(k) ==> k <= s@.len() && utf8_len(s@.take(k as int)) == n,
        r is None ==> forall|k: int| 0 <= k <= s@.len() ==> utf8_len(#[trigger] s@.take(k)) != n,
{
    let mut acc: usize = 0;
    let mut k: usize = 0;
    proof {
        assert(s@.take(0) =~= Seq::<char>::empty());
    }
    while k < s.len() && acc < n
        invariant
            0 <= k <= s@.len(),
            acc == utf8_len(s@.take(k as int)),
            acc <= n,
            forall|m: int| 0 <= m < k ==> utf8_len(#[trigger] s@.take(m)) < n,
        decreases s@.len() - k,
    {
        let w = char_width_of(s[k]);
        proof {
            assert(s@.take(k + 1) =~= s@.take(k as int).push(s@[k as int]));
            lemma_utf8_len_push(s@.take(k as int), s@[k as int]);
        }
        if w > n - acc {
            proof {
                assert forall|m: int| 0 <= m <= s@.len() implies utf8_len(#[trigger] s@.take(m))
                    != n by {
                    if m > k {
                        lemma_utf8_len_prefix_mono(s@, k + 1, m);
                    }
                }
            }
            return None;
        }
        acc = acc + w;
        k = k + 1;
    }
    if acc == n {
        Some(k)
    } else {
        proof {
            assert forall|m: int| 0 <= m <= s@.len() implies utf8_len(#[trigger] s@.take(m))
                != n by {
                if m > k {
                    lemma_utf8_len_prefix_mono(s@, k as int, m);
                }
            }
        }
        None
    }
}

/// Some prefix of `s` is exactly `n` bytes long in UTF-8 (`n` falls on a
/// character boundary).
pub open spec fn is_boundary(s: Seq<char>, n: nat) -> bool {
    exists|k: int| 0 <= k <= s.len() && utf8_len(#[trigger] s.take(k)) == n
}

/// The prefix of `s` that is `n` bytes long in UTF-8.
pub open spec fn byte_prefix(s: Seq<char>, n: nat) -> Seq<char> {
    s.take(choose|k: int| 0 <= k <= s.len() && utf8_len(#[trigger] s.take(k)) == n)
}

/// Two prefixes of the same UTF-8 length are the same prefix.
proof fn lemma_boundary_unique(s: Seq<char>, a: int, b: int)
    requires
        0 <= a <= s.len(),
        0 <= b <= s.len(),
        utf8_len(s.take(a)) == utf8_len(s.take(b)),
    ensures
        a == b,
{
    if a < b {
        lemma_utf8_len_prefix_mono(s, a, b);
    } else if b < a {
        lemma_utf8_len_prefix_mono(s, b, a);
    }
}

/// `s` cut to its first `n` bytes followed by `suffix`, where it is longer
/// than `n` bytes (`&s[..n]`, which needs `n` on a character boundary).
pub open spec fn cut_text(s: Seq<char>, n: nat, suffix: Seq<char>) -> Seq<char> {
    if utf8_len(s) > n {
        byte_prefix(s, n) + suffix
    } else {
        s
    }
}

/// `s` cut to its first `n` bytes followed by `suffix`, where it is longer
/// than `n` bytes.
pub fn cut_bytes(s: &str, n: usize, suffix: &str) -> (r: String)
    requires
        utf8_len(s@) > n ==> is_boundary(s@, n as nat),
    ensures
        r@ == cut_text(s@, n as nat, suffix@),
{
    let cs = chars_of(s);
    if utf8_len_at_most(cs.as_slice(), n) {
        return string_of(cs.as_slice());
    }
    match char_count_for_bytes(cs.as_slice(), n) {
        Some(k) => {
            let mut out = slice_range(cs.as_slice(), 0, k);
            proof {
                let c = choose|j: int| 0 <= j <= s@.len() && utf8_len(#[trigger] s@.take(j)) == n;
                lemma_boundary_unique(s@, c, k as int);
                assert(cs@.subrange(0, k as int) =~= s@.take(k as int));
            }
            extend_str(&mut out, suffix);
            string_of(out.as_slice())
        },
        None => {
            proof {
                let c = choose|j: int| 0 <= j <= s@.len() && utf8_len(#[trigger] s@.take(j)) == n;
                assert(utf8_len(s@.take(c)) == n);
            }
            String::new()
        },
    }
}

// ---------------------------------------------------------------------------
// Words
// ---------------------------------------------------------------------------

/// Scanning `s` for whitespace-separated words: the words completed so far
/// and the word in progress.
pub open spec fn word_scan(s: Seq<char>) -> (Seq<Seq<char>>, Seq<char>)
    decreases s.len(),
{
    if s.len() == 0 {
        (seq![], seq![])
    } else {
        let (ws, cur) = word_scan(s.drop_last());
        let c = s.last();
        if is_white_space(c) {
            if cur.len() > 0 {
                (ws.push(cur), seq![])
            } else {
                (ws, seq![])
            }
        } else {
            (ws, cur.push(c))
        }
    }
}

/// The words of `s` (`str::split_whitespace`): the maximal runs of
/// non-whitespace characters, in order.
pub open spec fn words(s: Seq<char>) -> Seq<Seq<char>> {
    let (ws, cur) = word_scan(s);
    if cur.len() > 0 {
        ws.push(cur)
    } else {
        ws
    }
}

/// The words of `s`.
pub fn words_of(s: &[char]) -> (r: Vec<Vec<char>>)
    ensures
        views(r@) == words(s@),
{
    let mut ws: Vec<Vec<char>> = Vec::new();
    let mut cur: Vec<char> = Vec::new();
    let mut k: usize = 0;
    proof {
        assert(s@.take(0) =~= Seq::<char>::empty());
        assert(views(ws@) =~= Seq::<Seq<char>>::empty());
    }
    while k < s.len()
        invariant
            0 <= k <= s@.len(),
            word_scan(s@.take(k as int)) == (views(ws@), cur@),
        decreases s@.len() - k,
    {
        let c = s[k];
        proof {
            assert(s@.take(k + 1).drop_last() =~= s@.take(k as int));
            assert(s@.take(k + 1).last() == c);
        }
        if is_whitespace(c) {
            if cur.len() > 0 {
                let ghost prev = ws@;
                ws.push(cur);
                proof {
                    assert(views(ws@) =~= views(prev).push(cur@));
                }
            }
            cur = Vec::new();
            proof {
                assert(cur@ =~= Seq::<char>::empty());
            }
        } else {
            cur.push(c);
        }
        k = k + 1;
    }
    proof {
        assert(s@.take(k as int) =~= s@);
    }
    if cur.len() > 0 {
        let ghost prev = ws@;
        ws.push(cur);
        proof {
            assert(views(ws@) =~= views(prev).push(cur@));
        }
    }
    ws
}

// ---------------------------------------------------------------------------
// Conversions between `str`/`String` and characters
// ---------------------------------------------------------------------------

/// The strings of a sequence, as character sequences.
pub open spec fn string_views(v: Seq<String>) -> Seq<Seq<char>> {
    v.map_values(|s: String| s@)
}

/// The characters an optional string holds.
pub open spec fn opt_chars(o: Option<String>) -> Option<Seq<char>> {
    match o {
        Some(s) => Some(s@),
        None => None,
    }
}

/// The characters of `s`, in order.
pub fn chars_of(s: &str) -> (v: Vec<char>)
    ensures
        v@ == s@,
{
    let mut v: Vec<char> = Vec::new();
    for c in it: s.chars()
        invariant
            v@ == it.seq().take(it.index() as int),
    {
        v.push(c);
    }
    v
}

/// Appends `c` to `s` (`String::push`).
#[verifier::external_body]
fn push_char(s: &mut String, c: char)
    ensures
        final(s)@ == old(s)@.push(c),
{
    s.push(c)
}

/// The string made of the characters of `v`.
pub fn string_of(v: &[char]) -> (s: String)
    ensures
        s@ == v@,
{
    let mut s = String::new();
    let mut k: usize = 0;
    while k < v.len()
        invariant
            0 <= k <= v@.len(),
            s@ == v@.take(k as int),
        decreases v@.len() - k,
    {
        push_char(&mut s, v[k]);
        k = k + 1;
        assert(s@ =~= v@.take(k as int));
    }
    assert(v@.take(k as int) =~= v@);
    s
}

} // verus!
