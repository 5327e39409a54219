//! Logical lines and tokens of a text file.
use vstd::prelude::*;

verus! {

/// The characters that `char::is_whitespace` accepts (Unicode `White_Space`).
pub open spec fn is_space(c: char) -> bool {
    let u = c as u32;
    u == 0x20 || (0x09 <= u && u <= 0x0d) || u == 0x85 || u == 0xa0 || u == 0x1680
        || (0x2000 <= u && u <= 0x200a) || u == 0x2028 || u == 0x2029 || u == 0x202f
        || u == 0x205f || u == 0x3000
}

/// Index of the first non-space character at or after `i`.
pub open spec fn first_solid(s: Seq<char>, i: int) -> int
    decreases s.len() - i,
{
    if i < 0 || i >= s.len() || !is_space(s[i]) {
        i
    } else {
        first_solid(s, i + 1)
    }
}

/// End (exclusive) of the text before `j` once trailing spaces down to `lo` are removed.
pub open spec fn last_solid(s: Seq<char>, lo: int, j: int) -> int
    decreases j - lo,
{
    if j <= lo || !is_space(s[j - 1]) {
        j
    } else {
        last_solid(s, lo, j - 1)
    }
}

/// `s` without leading and trailing whitespace (`str::trim`).
pub open spec fn trim(s: Seq<char>) -> Seq<char> {
    let lo = first_solid(s, 0);
    s.subrange(lo, last_solid(s, lo, s.len() as int))
}

/// The pieces of `s` between occurrences of `sep` (`str::split`): never empty,
/// and one piece more than there are separators.
pub open spec fn split(s: Seq<char>, sep: char) -> Seq<Seq<char>>
    decreases s.len(),
{
    if s.len() == 0 {
        seq![Seq::<char>::empty()]
    } else {
        let prev = split(s.drop_last(), sep);
        if s.last() == sep {
            prev.push(Seq::<char>::empty())
        } else {
            prev.update(prev.len() - 1, prev.last().push(s.last()))
        }
    }
}

pub proof fn lemma_split_nonempty(s: Seq<char>, sep: char)
    ensures
        split(s, sep).len() >= 1,
    decreases s.len(),
{
    if s.len() > 0 {
        lemma_split_nonempty(s.drop_last(), sep);
    }
}

/// The trimmed pieces that are not empty, in order.
pub open spec fn solid_pieces(pieces: Seq<Seq<char>>) -> Seq<Seq<char>>
    decreases pieces.len(),
{
    if pieces.len() == 0 {
        Seq::<Seq<char>>::empty()
    } else {
        let rest = solid_pieces(pieces.drop_last());
        if trim(pieces.last()).len() > 0 {
            rest.push(trim(pieces.last()))
        } else {
            rest
        }
    }
}

/// The character sequences held by a vector of rows.
pub open spec fn rows_view(rows: Seq<Vec<char>>) -> Seq<Seq<char>> {
    rows.map_values(|r: Vec<char>| r@)
}

/// The logical lines of a file: split on `'\n'`, trimmed, blank lines dropped.
pub open spec fn logical_lines(s: Seq<char>) -> Seq<Seq<char>> {
    solid_pieces(split(s, '\n'))
}

/// The tokens of a line: split on single spaces, trimmed, empty tokens dropped.
pub open spec fn tokens_of(line: Seq<char>) -> Seq<Seq<char>> {
    solid_pieces(split(line, ' '))
}

/// Relies on `str::chars`, collected into a vector: the characters of `s`, in order.
#[verifier::external_body]
pub(crate) fn chars_of(s: &str) -> (r: Vec<char>)
    ensures
        r@ == s@,
{
    s.chars().collect()
}

/// Relies on `String`'s `FromIterator<&char>`: the string made of `c`, in order.
#[verifier::external_body]
pub(crate) fn string_of(c: &Vec<char>) -> (r: String)
    ensures
        r@ == c@,
{
    c.iter().collect()
}

/// The character of a decimal digit.
pub open spec fn digit_char(d: nat) -> char {
    ((d + 48) as u8) as char
}

/// `n` written in decimal, as `Display` writes it.
pub open spec fn decimal(n: nat) -> Seq<char>
    decreases n,
{
    if n < 10 {
        seq![digit_char(n)]
    } else {
        decimal(n / 10).push(digit_char(n % 10))
    }
}

/// Appends `n` written in decimal to `out`.
pub fn push_decimal(out: &mut Vec<char>, n: usize)
    ensures
        final(out)@ == old(out)@ + decimal(n as nat),
    decreases n,
{
    if n >= 10 {
        push_decimal(out, n / 10);
    }
    let d = (n % 10) as u8;
    out.push((d + 48) as char);
    assert(final(out)@ =~= old(out)@ + decimal(n as nat));
}

/// Appends the characters of `s` to `out`.
pub fn push_all(out: &mut Vec<char>, s: &Vec<char>)
    ensures
        final(out)@ == old(out)@ + s@,
{
    let mut k: usize = 0;
    while k < s.len()
        invariant
            k <= s@.len(),
            out@ == old(out)@ + s@.take(k as int),
        decreases s@.len() - k,
    {
        out.push(s[k]);
        k = k + 1;
        assert(out@ =~= old(out)@ + s@.take(k as int));
    }
    assert(s@.take(k as int) =~= s@);
}

/// The pieces of `s` between occurrences of `sep`, as `str::split` gives them.
pub fn split_on(s: &Vec<char>, sep: char) -> (r: Vec<Vec<char>>)
    ensures
        rows_view(r@) == split(s@, sep),
{
    let mut out: Vec<Vec<char>> = Vec::new();
    let mut cur: Vec<char> = Vec::new();
    let mut i: usize = 0;
    assert(s@.take(0) =~= Seq::<char>::empty());
    while i < s.len()
        invariant
            i <= s@.len(),
            split(s@.take(i as int), sep) == rows_view(out@).push(cur@),
        decreases s@.len() - i,
    {
        let ghost old_out = rows_view(out@);
        let ghost old_cur = cur@;
        assert(s@.take(i + 1).drop_last() =~= s@.take(i as int));
        assert(s@.take(i + 1).last() == s@[i as int]);
        if s[i] == sep {
            let done = cur;
            cur = Vec::new();
            out.push(done);
            assert(rows_view(out@) =~= old_out.push(old_cur));
            assert(split(s@.take(i + 1), sep) =~= rows_view(out@).push(cur@));
        } else {
            cur.push(s[i]);
            proof {
                lemma_split_nonempty(s@.take(i as int), sep);
            }
            assert(split(s@.take(i + 1), sep) =~= rows_view(out@).push(cur@));
        }
        i = i + 1;
    }
    assert(s@.take(i as int) =~= s@);
    let ghost before = rows_view(out@);
    out.push(cur);
    assert(rows_view(out@) =~= before.push(out@.last()@));
    out
}

pub fn is_space_char(c: char) -> (r: bool)
    ensures
        r == is_space(c),
{
    let u = c as u32;
    u == 0x20 || (0x09 <= u && u <= 0x0d) || u == 0x85 || u == 0xa0 || u == 0x1680
        || (0x2000 <= u && u <= 0x200a) || u == 0x2028 || u == 0x2029 || u == 0x202f
        || u == 0x205f || u == 0x3000
}

/// The characters of `s[lo..hi]` with surrounding whitespace removed.
fn trimmed_range(s: &Vec<char>, lo: usize, hi: usize) -> (r: Vec<char>)
    requires
        lo <= hi <= s@.len(),
    ensures
        r@ == trim(s@.subrange(lo as int, hi as int)),
{
    let ghost piece = s@.subrange(lo as int, hi as int);
    let mut i: usize = lo;
    while i < hi && is_space_char(s[i])
        invariant
            lo <= i <= hi <= s@.len(),
            piece == s@.subrange(lo as int, hi as int),
            first_solid(piece, 0) == first_solid(piece, i - lo),
        decreases hi - i,
    {
        i = i + 1;
    }
    let mut j: usize = hi;
    while j > i && is_space_char(s[j - 1])
        invariant
            lo <= i <= j <= hi <= s@.len(),
            piece == s@.subrange(lo as int, hi as int),
            first_solid(piece, 0) == i - lo,
            last_solid(piece, i - lo, piece.len() as int) == last_solid(piece, i - lo, j - lo),
        decreases j - i,
    {
        j = j - 1;
    }
    let mut r: Vec<char> = Vec::new();
    let mut k: usize = i;
    while k < j
        invariant
            i <= k <= j <= s@.len(),
            r@ == s@.subrange(i as int, k as int),
        decreases j - k,
    {
        r.push(s[k]);
        k = k + 1;
    }
    assert(r@ =~= piece.subrange(i - lo, j - lo));
    r
}

/// Splits `s` on `sep`, trims each piece and keeps the non-empty ones.
pub fn solid_split(s: &Vec<char>, sep: char) -> (r: Vec<Vec<char>>)
    ensures
        rows_view(r@) == solid_pieces(split(s@, sep)),
{
    let mut out: Vec<Vec<char>> = Vec::new();
    let mut start: usize = 0;
    let mut i: usize = 0;
    proof {
        assert(s@.take(0) =~= Seq::<char>::empty());
        assert(split(s@.take(0), sep).drop_last().push(s@.subrange(0, 0)) =~= split(
            s@.take(0),
            sep,
        ));
        assert(rows_view(out@) =~= Seq::<Seq<char>>::empty());
    }
    while i < s.len()
        invariant
            start <= i <= s@.len(),
            split(s@.take(i as int), sep) == split(s@.take(start as int), sep).drop_last().push(
                s@.subrange(start as int, i as int),
            ),
            rows_view(out@) == solid_pieces(split(s@.take(start as int), sep).drop_last()),
        decreases s@.len() - i,
    {
        let ghost done = split(s@.take(start as int), sep).drop_last();
        let ghost pieces = done.push(s@.subrange(start as int, i as int));
        let ghost old_out = rows_view(out@);
        assert(s@.take(i + 1).drop_last() =~= s@.take(i as int));
        assert(s@.take(i + 1).last() == s@[i as int]);
        assert(pieces.drop_last() =~= done);
        if s[i] == sep {
            let t = trimmed_range(s, start, i);
            proof {
                assert(split(s@.take(i + 1), sep) == pieces.push(Seq::<char>::empty()));
                assert(split(s@.take(i + 1), sep).drop_last() =~= pieces);
                assert(pieces.last() == s@.subrange(start as int, i as int));
                assert(s@.subrange(i + 1, i + 1) =~= Seq::<char>::empty());
                assert(split(s@.take(i + 1), sep).drop_last().push(s@.subrange(i + 1, i + 1))
                    =~= split(s@.take(i + 1), sep));
            }
            if t.len() > 0 {
                out.push(t);
                assert(rows_view(out@) =~= old_out.push(t@));
            }
            start = i + 1;
        } else {
            proof {
                lemma_split_nonempty(s@.take(i as int), sep);
                assert(s@.subrange(start as int, i + 1) =~= s@.subrange(start as int, i as int).push(
                    s@[i as int],
                ));
                assert(split(s@.take(i + 1), sep) =~= done.push(s@.subrange(start as int, i + 1)));
            }
        }
        i = i + 1;
    }
    let ghost done = split(s@.take(start as int), sep).drop_last();
    let ghost pieces = done.push(s@.subrange(start as int, i as int));
    let ghost old_out = rows_view(out@);
    proof {
        assert(s@.take(i as int) =~= s@);
        assert(pieces.drop_last() =~= done);
    }
    let t = trimmed_range(s, start, i);
    if t.len() > 0 {
        out.push(t);
        assert(rows_view(out@) =~= old_out.push(t@));
    }
    out
}

} // verus!
