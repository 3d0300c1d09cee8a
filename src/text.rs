use vstd::prelude::*;

verus! {

/// The character for a decimal digit.
pub open spec fn digit_char(d: nat) -> char {
    if d == 0 { '0' }
    else if d == 1 { '1' }
    else if d == 2 { '2' }
    else if d == 3 { '3' }
    else if d == 4 { '4' }
    else if d == 5 { '5' }
    else if d == 6 { '6' }
    else if d == 7 { '7' }
    else if d == 8 { '8' }
    else { '9' }
}

/// The decimal notation of a natural number, without leading zeros.
pub open spec fn decimal(n: nat) -> Seq<char>
    decreases n,
{
    if n < 10 {
        seq![digit_char(n)]
    } else {
        decimal(n / 10).push(digit_char(n % 10))
    }
}

fn digit_str(d: u64) -> (r: &'static str)
    requires
        d < 10,
    ensures
        r@ == seq![digit_char(d as nat)],
{
    proof {
        reveal_strlit("0");
        reveal_strlit("1");
        reveal_strlit("2");
        reveal_strlit("3");
        reveal_strlit("4");
        reveal_strlit("5");
        reveal_strlit("6");
        reveal_strlit("7");
        reveal_strlit("8");
        reveal_strlit("9");
    }
    let r = if d == 0 { "0" }
        else if d == 1 { "1" }
        else if d == 2 { "2" }
        else if d == 3 { "3" }
        else if d == 4 { "4" }
        else if d == 5 { "5" }
        else if d == 6 { "6" }
        else if d == 7 { "7" }
        else if d == 8 { "8" }
        else { "9" };
    assert(r@ =~= seq![digit_char(d as nat)]);
    r
}

/// Appends the decimal notation of `n` to `out`.
pub fn push_decimal(out: &mut String, n: u64)
    ensures
        final(out)@ == old(out)@ + decimal(n as nat),
    decreases n,
{
    if n >= 10 {
        push_decimal(out, n / 10);
    }
    out.append(digit_str(n % 10));
    assert(final(out)@ =~= old(out)@ + decimal(n as nat));
}

/// Unicode white space, as `char::is_whitespace` defines it.
pub open spec fn is_space(c: char) -> bool {
    let u = c as u32;
    (0x9 <= u <= 0xd) || u == 0x20 || u == 0x85 || u == 0xa0 || u == 0x1680
        || (0x2000 <= u <= 0x200a) || u == 0x2028 || u == 0x2029 || u == 0x202f
        || u == 0x205f || u == 0x3000
}

fn space(c: char) -> (r: bool)
    ensures
        r == is_space(c),
{
    let u = c as u32;
    (0x9 <= u && u <= 0xd) || u == 0x20 || u == 0x85 || u == 0xa0 || u == 0x1680
        || (0x2000 <= u && u <= 0x200a) || u == 0x2028 || u == 0x2029 || u == 0x202f
        || u == 0x205f || u == 0x3000
}

/// How many characters of white space open `s`.
pub open spec fn leading_space(s: Seq<char>) -> nat
    decreases s.len(),
{
    if s.len() > 0 && is_space(s[0]) {
        1 + leading_space(s.drop_first())
    } else {
        0
    }
}

/// `s` without the white space that opens it.
pub open spec fn trim_start(s: Seq<char>) -> Seq<char> {
    s.subrange(leading_space(s) as int, s.len() as int)
}

/// The position of the first line feed in `s`, or its length if it holds none.
pub open spec fn first_newline(s: Seq<char>) -> nat
    decreases s.len(),
{
    if s.len() == 0 {
        0
    } else if s[0] == '\n' {
        0
    } else {
        1 + first_newline(s.drop_first())
    }
}

/// A line that a line feed ends, without the carriage return that may close it.
pub open spec fn strip_cr(l: Seq<char>) -> Seq<char> {
    if l.len() > 0 && l.last() == '\r' {
        l.drop_last()
    } else {
        l
    }
}

/// Each line of `s` without its leading white space, the lines joined by line feeds.
/// Lines end at `\n` or `\r\n`; a final line ending adds no empty line.
pub open spec fn dedented(s: Seq<char>) -> Seq<char>
    decreases s.len(),
{
    let i = first_newline(s);
    if i >= s.len() {
        trim_start(s)
    } else {
        let line = trim_start(strip_cr(s.subrange(0, i as int)));
        let rest = s.subrange(i as int + 1, s.len() as int);
        if rest.len() == 0 {
            line
        } else {
            line + seq!['\n'] + dedented(rest)
        }
    }
}

proof fn lemma_first_newline_bound(s: Seq<char>)
    ensures
        first_newline(s) <= s.len(),
        first_newline(s) < s.len() ==> s[first_newline(s) as int] == '\n',
        forall|k: int| 0 <= k < first_newline(s) ==> s[k] != '\n',
    decreases s.len(),
{
    if s.len() > 0 && s[0] != '\n' {
        lemma_first_newline_bound(s.drop_first());
        assert forall|k: int| 0 <= k < first_newline(s) implies s[k] != '\n' by {
            if k > 0 {
                assert(s[k] == s.drop_first()[k - 1]);
            }
        }
    }
}

proof fn lemma_leading_space_bound(s: Seq<char>)
    ensures
        leading_space(s) <= s.len(),
    decreases s.len(),
{
    if s.len() > 0 && is_space(s[0]) {
        lemma_leading_space_bound(s.drop_first());
    }
}

/// Position of the first line feed at or after `from` in `s`, or the length of `s`.
fn find_newline(s: &str, from: usize, n: usize) -> (r: usize)
    requires
        n == s@.len(),
        from <= n,
    ensures
        r == from + first_newline(s@.subrange(from as int, n as int)),
{
    let mut j = from;
    while j < n
        invariant
            n == s@.len(),
            from <= j <= n,
            first_newline(s@.subrange(from as int, n as int))
                == (j - from) + first_newline(s@.subrange(j as int, n as int)),
        decreases n - j,
    {
        if s.get_char(j) == '\n' {
            return j;
        }
        assert(s@.subrange(j as int, n as int).drop_first() =~= s@.subrange(j + 1, n as int));
        j = j + 1;
    }
    j
}

/// Position of the first character at or after `from`, and before `to`, that is not
/// white space; `to` if there is none.
fn skip_space(s: &str, from: usize, to: usize) -> (r: usize)
    requires
        from <= to <= s@.len(),
    ensures
        r == from + leading_space(s@.subrange(from as int, to as int)),
{
    let mut k = from;
    while k < to
        invariant
            from <= k <= to <= s@.len(),
            leading_space(s@.subrange(from as int, to as int))
                == (k - from) + leading_space(s@.subrange(k as int, to as int)),
        decreases to - k,
    {
        if !space(s.get_char(k)) {
            return k;
        }
        assert(s@.subrange(k as int, to as int).drop_first() =~= s@.subrange(k + 1, to as int));
        k = k + 1;
    }
    k
}

/// Strips the leading white space of every line of `s` and joins the lines with `\n`.
pub fn dedent(s: &str) -> (r: String)
    ensures
        r@ == dedented(s@),
{
    let n = s.unicode_len();
    let mut out = String::new();
    let mut pos: usize = 0;
    assert(s@.subrange(0, n as int) =~= s@);
    assert(out@ + dedented(s@) =~= dedented(s@));
    while pos < n
        invariant
            n == s@.len(),
            pos <= n,
            out@ + dedented(s@.subrange(pos as int, n as int)) == dedented(s@),
        decreases n - pos,
    {
        let rest = Ghost(s@.subrange(pos as int, n as int));
        let i = find_newline(s, pos, n);
        proof {
            lemma_first_newline_bound(rest@);
        }
        if i >= n {
            let k = skip_space(s, pos, n);
            proof {
                lemma_leading_space_bound(rest@);
            }
            out.append(s.substring_char(k, n));
            assert(s@.subrange(k as int, n as int) =~= trim_start(rest@));
            assert(dedented(s@.subrange(n as int, n as int)) =~= Seq::<char>::empty());
            pos = n;
            assert(out@ + dedented(s@.subrange(pos as int, n as int)) =~= dedented(s@));
        } else {
            let mut end = i;
            if end > pos && s.get_char(end - 1) == '\r' {
                end = end - 1;
            }
            assert(s@.subrange(pos as int, end as int) =~= strip_cr(rest@.subrange(0, i - pos)));
            let k = skip_space(s, pos, end);
            proof {
                lemma_leading_space_bound(s@.subrange(pos as int, end as int));
            }
            assert(s@.subrange(k as int, end as int) =~= trim_start(
                strip_cr(rest@.subrange(0, i - pos)),
            ));
            out.append(s.substring_char(k, end));
            assert(rest@.subrange(i - pos + 1, rest@.len() as int) =~= s@.subrange(
                i + 1,
                n as int,
            ));
            if i + 1 < n {
                proof {
                    reveal_strlit("\n");
                }
                out.append("\n");
            } else {
                assert(dedented(s@.subrange(n as int, n as int)) =~= Seq::<char>::empty());
            }
            pos = i + 1;
            assert(out@ + dedented(s@.subrange(pos as int, n as int)) =~= dedented(s@));
        }
    }
    assert(dedented(s@.subrange(n as int, n as int)) =~= Seq::<char>::empty());
    assert(out@ =~= dedented(s@));
    out
}

} // verus!
