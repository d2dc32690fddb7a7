//! Plain-text helpers for the engine: rendering a value as decimal text,
//! reading a value from an input line, and splitting source text into
//! lines.

use vstd::prelude::*;

verus! {

/// The decimal digit character for `d`.
pub open spec fn digit_char(d: int) -> char {
    if d == 0 { '0' }
    else if d == 1 { '1' }
    else if d == 2 { '2' }
    else if d == 3 { '3' }
    else if d == 4 { '4' }
    else if d == 5 { '5' }
    else if d == 6 { '6' }
    else if d == 7 { '7' }
    else if d == 8 { '8' }
    else { '9' }
}

/// The decimal digits of a nonnegative number, most significant first.
pub open spec fn dec_digits(n: nat) -> Seq<char>
    decreases n,
{
    if n < 10 { seq![digit_char(n as int)] }
    else { dec_digits(n / 10) + seq![digit_char((n % 10) as int)] }
}

/// The decimal text of a value, with a leading minus sign when negative.
pub open spec fn decimal_chars(v: int) -> Seq<char> {
    if v < 0 { seq!['-'] + dec_digits((-v) as nat) } else { dec_digits(v as nat) }
}

fn digit_of(d: u32) -> (c: char)
    requires
        d < 10,
    ensures
        c == digit_char(d as int),
{
    if d == 0 { '0' }
    else if d == 1 { '1' }
    else if d == 2 { '2' }
    else if d == 3 { '3' }
    else if d == 4 { '4' }
    else if d == 5 { '5' }
    else if d == 6 { '6' }
    else if d == 7 { '7' }
    else if d == 8 { '8' }
    else { '9' }
}

/// Render a value as decimal text, per `decimal_chars`.
pub fn int_to_chars(v: i32) -> (r: Vec<char>)
    ensures
        r@ == decimal_chars(v as int),
{
    let mag: u32 = if v < 0 { (-(v as i64)) as u32 } else { v as u32 };
    // digits of `mag`, least significant first
    let mut rev: Vec<char> = Vec::new();
    let mut m: u32 = mag;
    let d0 = m % 10;
    rev.push(digit_of(d0));
    m = m / 10;
    proof {
        assert(rev@.reverse() =~= seq![digit_char((mag % 10) as int)]);
    }
    while m > 0
        invariant
            if m == 0 { dec_digits(mag as nat) == rev@.reverse() } else {
                dec_digits(mag as nat) == dec_digits(m as nat) + rev@.reverse()
            },
        decreases m,
    {
        let ghost rev0 = rev@;
        let d = m % 10;
        rev.push(digit_of(d));
        proof {
            assert(rev@.reverse() =~= seq![digit_char((m % 10) as int)] + rev0.reverse());
            if m < 10 {
                assert(dec_digits(m as nat) == seq![digit_char((m % 10) as int)]);
                assert(dec_digits(mag as nat) =~= rev@.reverse());
            } else {
                assert(dec_digits(m as nat) == dec_digits((m / 10) as nat) + seq![
                    digit_char((m % 10) as int),
                ]);
                assert(dec_digits(mag as nat) =~= dec_digits((m / 10) as nat) + rev@.reverse());
            }
        }
        m = m / 10;
    }
    let mut r: Vec<char> = Vec::new();
    if v < 0 {
        r.push('-');
    }
    let ghost prefix: Seq<char> = if v < 0 { seq!['-'] } else { Seq::empty() };
    assert(r@ =~= prefix + rev@.reverse().take(0));
    let mut j: usize = rev.len();
    while j > 0
        invariant
            j <= rev.len(),
            r@ == prefix + rev@.reverse().take(rev@.len() - j),
        decreases j,
    {
        let ghost r0 = r@;
        j = j - 1;
        r.push(rev[j]);
        proof {
            let i = rev@.len() - j - 1;
            assert(rev@.reverse()[i] == rev@[j as int]);
            assert(rev@.reverse().take(i + 1) =~= rev@.reverse().take(i) + seq![rev@.reverse()[i]]);
            assert(r@ =~= prefix + rev@.reverse().take(rev@.len() - j));
        }
    }
    proof {
        assert(rev@.reverse().take(rev@.len() as int) =~= rev@.reverse());
        if v < 0 {
            assert(mag == -(v as int));
            assert(r@ =~= decimal_chars(v as int));
        } else {
            assert(mag == v as int);
            assert(r@ =~= decimal_chars(v as int));
        }
    }
    r
}

/// A space, tab, carriage return or line feed.
pub open spec fn is_space(c: char) -> bool {
    c == ' ' || c == '\t' || c == '\r' || c == '\n'
}

fn is_space_char(c: char) -> (r: bool)
    ensures
        r == is_space(c),
{
    c == ' ' || c == '\t' || c == '\r' || c == '\n'
}

/// The numeric value of a decimal digit character, or -1 for any other
/// character.
pub open spec fn digit_val(c: char) -> int {
    if c == '0' { 0 }
    else if c == '1' { 1 }
    else if c == '2' { 2 }
    else if c == '3' { 3 }
    else if c == '4' { 4 }
    else if c == '5' { 5 }
    else if c == '6' { 6 }
    else if c == '7' { 7 }
    else if c == '8' { 8 }
    else if c == '9' { 9 }
    else { -1 }
}

pub open spec fn is_digit(c: char) -> bool {
    digit_val(c) >= 0
}

fn digit_lookup(c: char) -> (r: Option<u32>)
    ensures
        match r {
            Some(d) => is_digit(c) && d == digit_val(c),
            None => !is_digit(c),
        },
{
    if c == '0' { Some(0) }
    else if c == '1' { Some(1) }
    else if c == '2' { Some(2) }
    else if c == '3' { Some(3) }
    else if c == '4' { Some(4) }
    else if c == '5' { Some(5) }
    else if c == '6' { Some(6) }
    else if c == '7' { Some(7) }
    else if c == '8' { Some(8) }
    else if c == '9' { Some(9) }
    else { None }
}

/// The value of a digit string, most significant digit first.
pub open spec fn digits_val(s: Seq<char>) -> int
    decreases s.len(),
{
    if s.len() == 0 { 0 } else { digits_val(s.drop_last()) * 10 + digit_val(s.last()) }
}

pub open spec fn all_digits(s: Seq<char>) -> bool {
    forall|i: int| 0 <= i < s.len() ==> is_digit(#[trigger] s[i])
}

proof fn lemma_digits_val_nonneg(s: Seq<char>)
    requires
        all_digits(s),
    ensures
        digits_val(s) >= 0,
    decreases s.len(),
{
    if s.len() > 0 {
        assert(all_digits(s.drop_last()));
        lemma_digits_val_nonneg(s.drop_last());
        assert(is_digit(s.last()));
    }
}

proof fn lemma_digits_val_take_le(s: Seq<char>, k: int)
    requires
        all_digits(s),
        0 <= k <= s.len(),
    ensures
        digits_val(s.take(k)) <= digits_val(s),
    decreases s.len() - k,
{
    if k == s.len() {
        assert(s.take(k) =~= s);
    } else {
        assert(s.take(k + 1).drop_last() =~= s.take(k));
        assert(s.take(k + 1).last() == s[k]);
        assert(all_digits(s.take(k)));
        lemma_digits_val_nonneg(s.take(k));
        assert(is_digit(s[k]));
        assert(digits_val(s.take(k + 1)) == digits_val(s.take(k)) * 10 + digit_val(s[k]));
        lemma_digits_val_take_le(s, k + 1);
    }
}

/// Trim leading spaces.
pub open spec fn trim_front(s: Seq<char>) -> Seq<char>
    decreases s.len(),
{
    if s.len() > 0 && is_space(s[0]) { trim_front(s.drop_first()) } else { s }
}

/// Trim trailing spaces.
pub open spec fn trim_back(s: Seq<char>) -> Seq<char>
    decreases s.len(),
{
    if s.len() > 0 && is_space(s.last()) { trim_back(s.drop_last()) } else { s }
}

/// Trim spaces on both ends.
pub open spec fn trim_spec(s: Seq<char>) -> Seq<char> {
    trim_back(trim_front(s))
}

/// What reading a value from an input line yields: the value of the
/// line's trimmed text read as an optionally signed decimal number, or 0
/// when the text is not exactly such a number or its value does not fit
/// the engine's values.
pub open spec fn parse_int_spec(s: Seq<char>) -> i32 {
    let t = trim_spec(s);
    let neg = t.len() > 0 && t[0] == '-';
    let ds = if t.len() > 0 && (t[0] == '-' || t[0] == '+') { t.drop_first() } else { t };
    if ds.len() == 0 || !all_digits(ds) {
        0
    } else {
        let m = digits_val(ds);
        if neg {
            if m <= 0x8000_0000 { (-m) as i32 } else { 0 }
        } else {
            if m <= 0x7fff_ffff { m as i32 } else { 0 }
        }
    }
}

/// Read a value from an input line, per `parse_int_spec`.
pub fn parse_int(line: &Vec<char>) -> (v: i32)
    ensures
        v == parse_int_spec(line@),
{
    let n = line.len();
    let mut a: usize = 0;
    proof {
        assert(line@.skip(0) =~= line@);
    }
    while a < n && is_space_char(line[a])
        invariant
            a <= n,
            n == line@.len(),
            trim_front(line@) == trim_front(line@.skip(a as int)),
        decreases n - a,
    {
        proof {
            assert(line@.skip(a as int).drop_first() =~= line@.skip(a as int + 1));
        }
        a = a + 1;
    }
    proof {
        if a < n {
            assert(trim_front(line@.skip(a as int)) == line@.skip(a as int));
        } else {
            assert(line@.skip(a as int) =~= Seq::<char>::empty());
        }
        assert(trim_front(line@) == line@.skip(a as int));
        assert(line@.skip(a as int) =~= line@.subrange(a as int, n as int));
    }
    let mut b: usize = n;
    while b > a && is_space_char(line[b - 1])
        invariant
            a <= b <= n,
            n == line@.len(),
            trim_spec(line@) == trim_back(line@.subrange(a as int, b as int)),
        decreases b,
    {
        proof {
            let piece = line@.subrange(a as int, b as int);
            assert(piece.last() == line@[b - 1]);
            assert(piece.drop_last() =~= line@.subrange(a as int, b as int - 1));
        }
        b = b - 1;
    }
    proof {
        let piece = line@.subrange(a as int, b as int);
        if b > a {
            assert(piece.last() == line@[b - 1]);
            assert(trim_back(piece) == piece);
        } else {
            assert(piece =~= Seq::<char>::empty());
        }
        assert(trim_spec(line@) == line@.subrange(a as int, b as int));
    }
    let ghost t = line@.subrange(a as int, b as int);
    if a == b {
        return 0;
    }
    let first = line[a];
    let neg = first == '-';
    let signed = first == '-' || first == '+';
    let d0: usize = if signed { a + 1 } else { a };
    let ghost ds = line@.subrange(d0 as int, b as int);
    proof {
        if signed {
            assert(t.drop_first() =~= ds);
        } else {
            assert(t =~= ds);
        }
    }
    if d0 == b {
        // a bare sign with no digits
        return 0;
    }
    let mut acc: u64 = 0;
    let mut i: usize = d0;
    proof {
        assert(ds.take(0) =~= Seq::<char>::empty());
    }
    while i < b
        invariant
            a <= d0 <= i <= b <= n,
            n == line@.len(),
            a < b,
            t == trim_spec(line@),
            t == line@.subrange(a as int, b as int),
            neg == (t[0] == '-'),
            signed == (t[0] == '-' || t[0] == '+'),
            d0 == if signed { a + 1 } else { a as int },
            ds == (if signed { t.drop_first() } else { t }),
            ds == line@.subrange(d0 as int, b as int),
            d0 < b,
            all_digits(ds.take(i - d0)),
            acc == digits_val(ds.take(i - d0)),
            acc <= 0x8000_0000,
        decreases b - i,
    {
        let c = line[i];
        proof {
            assert(ds[i - d0] == line@[i as int]);
        }
        match digit_lookup(c) {
            Some(d) => {
                proof {
                    assert(ds.take(i - d0 + 1).drop_last() =~= ds.take(i - d0));
                    assert(ds.take(i - d0 + 1).last() == ds[i - d0]);
                }
                acc = acc * 10 + (d as u64);
                i = i + 1;
                if acc > 0x8000_0000 {
                    proof {
                        if all_digits(ds) {
                            lemma_digits_val_take_le(ds, i - d0);
                        }
                    }
                    return 0;
                }
            },
            None => {
                proof {
                    assert(!is_digit(ds[i - d0]));
                }
                return 0;
            },
        }
    }
    proof {
        assert(ds.take(b - d0) =~= ds);
    }
    if neg {
        let r = -(acc as i64);
        proof {
            assert(digits_val(ds) <= 0x8000_0000);
        }
        return r as i32;
    }
    if acc > 0x7fff_ffff {
        return 0;
    }
    acc as i32
}

/// Index of the first line feed in `s`, or its length when there is none.
pub open spec fn first_nl(s: Seq<char>) -> int
    decreases s.len(),
{
    if s.len() == 0 { 0 } else if s[0] == '\n' { 0 } else { 1 + first_nl(s.drop_first()) }
}

proof fn lemma_first_nl_is(s: Seq<char>, j: int)
    requires
        0 <= j <= s.len(),
        forall|k: int| 0 <= k < j ==> s[k] != '\n',
        j < s.len() ==> s[j] == '\n',
    ensures
        first_nl(s) == j,
    decreases j,
{
    if s.len() == 0 {
    } else if j == 0 {
    } else {
        assert(s[0] != '\n');
        assert forall|k: int| 0 <= k < j - 1 implies s.drop_first()[k] != '\n' by {
            assert(s.drop_first()[k] == s[k + 1]);
        }
        if j - 1 < s.drop_first().len() {
            assert(s.drop_first()[j - 1] == s[j]);
        }
        lemma_first_nl_is(s.drop_first(), j - 1);
    }
}

/// A line split off the source text, with the carriage return of a
/// carriage-return line-feed ending removed.
pub open spec fn strip_cr(s: Seq<char>) -> Seq<char> {
    if s.len() > 0 && s.last() == '\r' { s.drop_last() } else { s }
}

/// The lines of the source text: pieces split at line feeds, each minus a
/// trailing carriage return; a final line feed ends the last line rather
/// than opening an empty one.
pub open spec fn lines_spec(s: Seq<char>) -> Seq<Seq<char>>
    decreases s.len(),
    via lines_spec_dec
{
    if s.len() == 0 {
        seq![]
    } else {
        let i = first_nl(s);
        if i == s.len() { seq![s] } else { seq![strip_cr(s.take(i))] + lines_spec(s.skip(i + 1)) }
    }
}

proof fn lemma_first_nl_bounds(s: Seq<char>)
    ensures
        0 <= first_nl(s) <= s.len(),
    decreases s.len(),
{
    if s.len() > 0 && s[0] != '\n' {
        lemma_first_nl_bounds(s.drop_first());
    }
}

#[via_fn]
proof fn lines_spec_dec(s: Seq<char>) {
    lemma_first_nl_bounds(s);
}

/// The views of a vector of lines.
pub open spec fn line_views(v: Seq<Vec<char>>) -> Seq<Seq<char>> {
    Seq::new(v.len(), |i: int| v[i]@)
}

/// Split source text into its lines, per `lines_spec`.
pub fn split_lines(src: &Vec<char>) -> (r: Vec<Vec<char>>)
    ensures
        line_views(r@) == lines_spec(src@),
{
    let n = src.len();
    let mut r: Vec<Vec<char>> = Vec::new();
    let mut pos: usize = 0;
    proof {
        assert(line_views(r@) =~= Seq::<Seq<char>>::empty());
        assert(src@.skip(0) =~= src@);
        assert(line_views(r@) + lines_spec(src@) =~= lines_spec(src@));
    }
    while pos < n
        invariant
            pos <= n,
            n == src@.len(),
            lines_spec(src@) == line_views(r@) + lines_spec(src@.skip(pos as int)),
        decreases n - pos,
    {
        let ghost r0 = r@;
        let ghost rest = src@.skip(pos as int);
        // scan to the next line feed
        let mut j: usize = pos;
        while j < n && src[j] != '\n'
            invariant
                pos <= j <= n,
                n == src@.len(),
                forall|k: int| pos <= k < j ==> src@[k] != '\n',
            decreases n - j,
        {
            j = j + 1;
        }
        proof {
            assert forall|k: int| 0 <= k < j - pos implies rest[k] != '\n' by {
                assert(rest[k] == src@[pos + k]);
            }
            if (j as int) - (pos as int) < rest.len() {
                assert(rest[j - pos] == src@[j as int]);
            }
            lemma_first_nl_is(rest, j - pos);
        }
        // the piece before it, minus a carriage return before the line feed
        let mut piece: Vec<char> = Vec::new();
        let mut k: usize = pos;
        let stop: usize = if j < n && j > pos && src[j - 1] == '\r' { j - 1 } else { j };
        while k < stop
            invariant
                pos <= k <= stop <= n,
                n == src@.len(),
                piece@ == src@.subrange(pos as int, k as int),
            decreases stop - k,
        {
            let ghost p0 = piece@;
            piece.push(src[k]);
            proof {
                assert(piece@ =~= src@.subrange(pos as int, k as int + 1));
            }
            k = k + 1;
        }
        proof {
            let i = (j - pos) as int;
            assert(rest.take(i) =~= src@.subrange(pos as int, j as int));
            if j < n {
                if j > pos && src@[j as int - 1] == '\r' {
                    assert(rest.take(i).last() == src@[j as int - 1]);
                    assert(strip_cr(rest.take(i)) =~= src@.subrange(pos as int, j as int - 1));
                } else {
                    assert(strip_cr(rest.take(i)) =~= src@.subrange(pos as int, j as int));
                }
                assert(piece@ == strip_cr(rest.take(i)));
            } else {
                assert(rest.take(i) =~= rest);
                assert(piece@ == rest);
            }
        }
        r.push(piece);
        proof {
            assert(line_views(r@) =~= line_views(r0).push(piece@));
        }
        if j < n {
            proof {
                assert(rest.skip((j - pos) as int + 1) =~= src@.skip(j as int + 1));
                assert(lines_spec(rest) == seq![piece@] + lines_spec(src@.skip(j as int + 1)));
                assert(line_views(r@) + lines_spec(src@.skip(j as int + 1)) =~= line_views(r0) + lines_spec(rest));
            }
            pos = j + 1;
        } else {
            proof {
                assert(first_nl(rest) == rest.len());
                assert(lines_spec(rest) == seq![piece@]);
                assert(src@.skip(n as int) =~= Seq::<char>::empty());
                assert(line_views(r@) + lines_spec(src@.skip(n as int)) =~= line_views(r0) + lines_spec(rest));
            }
            pos = n;
        }
    }
    proof {
        assert(src@.skip(n as int) =~= Seq::<char>::empty());
        assert(line_views(r@) =~= line_views(r@) + lines_spec(src@.skip(pos as int)));
    }
    r
}

} // verus!
