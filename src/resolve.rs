use vstd::prelude::*;

verus! {

/// What the configuration source holds under a key.
#[derive(Debug, Clone)]
pub enum ConfigValue {
    /// Nothing is stored under the key, or the source could not be read.
    Missing,
    Text(String),
    /// A value that is not a string.
    Other,
}

/// The resource suffix used while no compiler version can be had.
pub open spec fn placeholder() -> Seq<char> {
    "???"@
}

/// The position of the first `c` in `s`, or the length of `s` if there is none.
pub open spec fn first_of(s: Seq<char>, c: char) -> nat
    decreases s.len(),
{
    if s.len() == 0 || s[0] == c {
        0
    } else {
        1 + first_of(s.drop_first(), c)
    }
}

/// Where the last word of `s` starts: just after its last space, or 0.
pub open spec fn word_start(s: Seq<char>) -> nat
    decreases s.len(),
{
    if s.len() == 0 || s.last() == ' ' {
        s.len()
    } else {
        word_start(s.drop_last())
    }
}

pub open spec fn is_digit(c: char) -> bool {
    '0' <= c <= '9'
}

/// A date written `YYYY-MM-DD`.
pub open spec fn is_date(d: Seq<char>) -> bool {
    &&& d.len() == 10
    &&& d[4] == '-' && d[7] == '-'
    &&& forall|i: int| 0 <= i < 10 && i != 4 && i != 7 ==> #[trigger] is_digit(d[i])
}

/// The resource suffix of a compiler version banner of the form
/// `rustc <version> (<hash> <YYYY-MM-DD>)`: the date's digits, `-`, the version, `-`,
/// the hash. The version is the word just before the first `(`, the hash and the date
/// are what the first `(` and `)` enclose; `None` where the banner has another form.
pub open spec fn resource_suffix(s: Seq<char>) -> Option<Seq<char>> {
    let p = first_of(s, '(');
    let q = first_of(s, ')');
    let head = s.subrange(0, p - 1);
    let version = head.subrange(word_start(head) as int, head.len() as int);
    let inside = s.subrange(p as int + 1, q as int);
    let sp = first_of(inside, ' ');
    let hash = inside.subrange(0, sp as int);
    let date = inside.subrange(sp as int + 1, inside.len() as int);
    if 1 <= p && s[p - 1] == ' ' && p < q < s.len() && version.len() > 0 && 0 < sp < inside.len()
        && is_date(date) {
        Some(
            date.subrange(0, 4) + date.subrange(5, 7) + date.subrange(8, 10) + seq!['-'] + version
                + seq!['-'] + hash,
        )
    } else {
        None
    }
}

proof fn lemma_first_of(s: Seq<char>, c: char)
    ensures
        first_of(s, c) <= s.len(),
        first_of(s, c) < s.len() ==> s[first_of(s, c) as int] == c,
    decreases s.len(),
{
    if s.len() > 0 && s[0] != c {
        lemma_first_of(s.drop_first(), c);
    }
}

proof fn lemma_word_start(s: Seq<char>)
    ensures
        word_start(s) <= s.len(),
    decreases s.len(),
{
    if s.len() > 0 && s.last() != ' ' {
        lemma_word_start(s.drop_last());
    }
}

/// The first position at or after `from` and before `to` that holds `c`, or `to`.
fn find_char(s: &str, c: char, from: usize, to: usize) -> (r: usize)
    requires
        from <= to <= s@.len(),
    ensures
        r == from + first_of(s@.subrange(from as int, to as int), c),
{
    let mut j = from;
    while j < to
        invariant
            from <= j <= to <= s@.len(),
            first_of(s@.subrange(from as int, to as int), c) == (j - from) + first_of(
                s@.subrange(j as int, to as int),
                c,
            ),
        decreases to - j,
    {
        if s.get_char(j) == c {
            return j;
        }
        assert(s@.subrange(j as int, to as int).drop_first() =~= s@.subrange(j + 1, to as int));
        j = j + 1;
    }
    j
}

/// Where the last word before `to` starts, as `word_start` states.
fn find_word_start(s: &str, to: usize) -> (r: usize)
    requires
        to <= s@.len(),
    ensures
        r == word_start(s@.subrange(0, to as int)),
{
    let mut k = to;
    while k > 0
        invariant
            k <= to <= s@.len(),
            word_start(s@.subrange(0, to as int)) == word_start(s@.subrange(0, k as int)),
        decreases k,
    {
        if s.get_char(k - 1) == ' ' {
            return k;
        }
        assert(s@.subrange(0, k as int).drop_last() =~= s@.subrange(0, k - 1));
        k = k - 1;
    }
    k
}

fn is_digit_at(s: &str, i: usize) -> (r: bool)
    requires
        i < s@.len(),
    ensures
        r == is_digit(s@[i as int]),
{
    let c = s.get_char(i);
    '0' <= c && c <= '9'
}

/// Whether the ten characters from `d` on form a date.
fn date_at(s: &str, d: usize, q: usize) -> (r: bool)
    requires
        d + 10 == q <= s@.len(),
    ensures
        r == is_date(s@.subrange(d as int, d + 10)),
{
    let ghost date = s@.subrange(d as int, d + 10);
    if s.get_char(d + 4) != '-' || s.get_char(d + 7) != '-' {
        return false;
    }
    let mut i: usize = 0;
    while i < 10
        invariant
            d + 10 == q <= s@.len(),
            date == s@.subrange(d as int, d + 10),
            date[4] == '-' && date[7] == '-',
            i <= 10,
            forall|k: int| 0 <= k < i && k != 4 && k != 7 ==> #[trigger] is_digit(date[k]),
        decreases 10 - i,
    {
        if i != 4 && i != 7 && !is_digit_at(s, d + i) {
            assert(!is_digit(date[i as int]));
            return false;
        }
        i = i + 1;
    }
    true
}

/// Reads the resource suffix out of a compiler version banner, as `resource_suffix`
/// states.
#[verifier::rlimit(80)]
pub fn parse_resource_suffix(s: &str) -> (r: Option<String>)
    ensures
        match (r, resource_suffix(s@)) {
            (Some(x), Some(y)) => x@ == y,
            (None, None) => true,
            _ => false,
        },
{
    let n = s.unicode_len();
    assert(s@.subrange(0, n as int) =~= s@);
    let p = find_char(s, '(', 0, n);
    let q = find_char(s, ')', 0, n);
    proof {
        lemma_first_of(s@, '(');
        lemma_first_of(s@, ')');
    }
    if p < 1 || !(q > p && q < n) || s.get_char(p - 1) != ' ' {
        return None;
    }
    let w = find_word_start(s, p - 1);
    proof {
        lemma_word_start(s@.subrange(0, p - 1));
    }
    if w >= p - 1 {
        return None;
    }
    let sp = find_char(s, ' ', p + 1, q);
    proof {
        lemma_first_of(s@.subrange(p + 1, q as int), ' ');
    }
    if !(sp > p + 1 && sp < q) {
        return None;
    }
    let d = sp + 1;
    proof {
        let inside = s@.subrange(p + 1, q as int);
        assert(inside.subrange(sp - (p + 1) + 1, inside.len() as int) =~= s@.subrange(
            d as int,
            q as int,
        ));
    }
    if q - d != 10 || !date_at(s, d, q) {
        return None;
    }
    let ghost date = s@.subrange(d as int, q as int);
    let mut out = String::new();
    out.append(s.substring_char(d, d + 4));
    out.append(s.substring_char(d + 5, d + 7));
    out.append(s.substring_char(d + 8, d + 10));
    proof {
        reveal_strlit("-");
    }
    out.append("-");
    out.append(s.substring_char(w, p - 1));
    out.append("-");
    out.append(s.substring_char(p + 1, sp));
    proof {
        let head = s@.subrange(0, p - 1);
        let inside = s@.subrange(p + 1, q as int);
        assert(head.subrange(w as int, head.len() as int) =~= s@.subrange(w as int, p - 1));
        assert(inside.subrange(0, sp - (p + 1)) =~= s@.subrange(p + 1, sp as int));
        assert(inside.subrange(sp - (p + 1) + 1, inside.len() as int) =~= date);
        assert(date.subrange(0, 4) =~= s@.subrange(d as int, d + 4));
        assert(date.subrange(5, 7) =~= s@.subrange(d + 5, d + 7));
        assert(date.subrange(8, 10) =~= s@.subrange(d + 8, d + 10));
        assert(out@ =~= resource_suffix(s@)->0);
    }
    Some(out)
}

/// What a configuration value is, as the resolver reads it: `None` when missing,
/// `Some(None)` when not text, `Some(Some(t))` for text `t`.
pub open spec fn value_view(v: ConfigValue) -> Option<Option<Seq<char>>> {
    match v {
        ConfigValue::Missing => None,
        ConfigValue::Text(s) => Some(Some(s@)),
        ConfigValue::Other => Some(None),
    }
}

/// The resource suffix to register for what the configuration source holds under the
/// compiler version key: the suffix of the banner stored there, else the placeholder.
pub open spec fn resolved_suffix(v: Option<Option<Seq<char>>>) -> Seq<char> {
    match v {
        Some(Some(s)) => match resource_suffix(s) {
            Some(x) => x,
            None => placeholder(),
        },
        _ => placeholder(),
    }
}

/// Where the configuration source has no compiler version, or holds one that is not
/// text or not a banner, the placeholder is resolved.
pub proof fn lemma_resolver_fallback(v: Option<Option<Seq<char>>>)
    requires
        !(v matches Some(Some(s)) && resource_suffix(s) is Some),
    ensures
        resolved_suffix(v) == placeholder(),
{
}

/// Resolves the resource suffix; a missing, malformed or non-text value gives the
/// placeholder and never an error.
pub fn resolve_resource_suffix(v: &ConfigValue) -> (r: String)
    ensures
        r@ == resolved_suffix(value_view(*v)),
{
    proof {
        reveal_strlit("???");
    }
    match v {
        ConfigValue::Text(s) => match parse_resource_suffix(s.as_str()) {
            Some(x) => x,
            None => String::from_str("???"),
        },
        _ => String::from_str("???"),
    }
}

} // verus!
