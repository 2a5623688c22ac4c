use vstd::prelude::*;

verus! {

/// The characters of `s`, in order.
pub fn chars_of(s: &str) -> (r: Vec<char>)
    ensures
        r@ == s@,
{
    let mut r: Vec<char> = Vec::new();
    for c in it: s.chars()
        invariant
            r@ == it.seq().take(it.index() as int),
    {
        r.push(c);
    }
    assert(r@ =~= s@);
    r
}

/// Relies on `String::push`: appends one character at the end of the string.
#[verifier::external_body]
fn push_char(s: &mut String, c: char)
    ensures
        final(s)@ == old(s)@.push(c),
{
    s.push(c);
}

/// A string holding exactly the characters `cs`.
pub fn string_of(cs: &Vec<char>) -> (r: String)
    ensures
        r@ == cs@,
{
    let mut r = String::new();
    let mut i: usize = 0;
    while i < cs.len()
        invariant
            i <= cs.len(),
            r@ == cs@.take(i as int),
        decreases cs.len() - i,
    {
        push_char(&mut r, cs[i]);
        assert(cs@.take(i as int).push(cs@[i as int]) =~= cs@.take(i + 1));
        i = i + 1;
    }
    assert(cs@.take(cs.len() as int) =~= cs@);
    r
}

/// The Unicode `White_Space` property: the characters that `str::trim` removes.
pub open spec fn is_white_space(c: char) -> bool {
    let u = c as u32;
    ||| 0x09 <= u <= 0x0d
    ||| u == 0x20
    ||| u == 0x85
    ||| u == 0xa0
    ||| u == 0x1680
    ||| 0x2000 <= u <= 0x200a
    ||| u == 0x2028
    ||| u == 0x2029
    ||| u == 0x202f
    ||| u == 0x205f
    ||| u == 0x3000
}

/// Whether `c` is white space, as `char::is_whitespace` tells it.
pub fn white_space(c: char) -> (r: bool)
    ensures
        r == is_white_space(c),
{
    let u = c as u32;
    (0x09 <= u && u <= 0x0d) || u == 0x20 || u == 0x85 || u == 0xa0 || u == 0x1680
        || (0x2000 <= u && u <= 0x200a) || u == 0x2028 || u == 0x2029 || u == 0x202f
        || u == 0x205f || u == 0x3000
}

/// Every character of `s` is white space.
pub open spec fn all_white_space(s: Seq<char>) -> bool {
    forall|k: int| 0 <= k < s.len() ==> is_white_space(#[trigger] s[k])
}

pub open spec fn trim_start(s: Seq<char>) -> Seq<char>
    decreases s.len(),
{
    if s.len() > 0 && is_white_space(s[0]) {
        trim_start(s.drop_first())
    } else {
        s
    }
}

pub open spec fn trim_end(s: Seq<char>) -> Seq<char>
    decreases s.len(),
{
    if s.len() > 0 && is_white_space(s.last()) {
        trim_end(s.drop_last())
    } else {
        s
    }
}

/// `s` without its leading and trailing white space.
pub open spec fn trim(s: Seq<char>) -> Seq<char> {
    trim_end(trim_start(s))
}

/// Leading white space is all that `trim_start` removes.
pub proof fn lemma_trim_start_padding(pre: Seq<char>, rest: Seq<char>)
    requires
        all_white_space(pre),
        rest.len() == 0 || !is_white_space(rest[0]),
    ensures
        trim_start(pre + rest) == rest,
    decreases pre.len(),
{
    if pre.len() == 0 {
        assert(pre + rest =~= rest);
    } else {
        assert((pre + rest).drop_first() =~= pre.drop_first() + rest);
        lemma_trim_start_padding(pre.drop_first(), rest);
    }
}

/// Trailing white space is all that `trim_end` removes.
pub proof fn lemma_trim_end_padding(rest: Seq<char>, post: Seq<char>)
    requires
        all_white_space(post),
        rest.len() == 0 || !is_white_space(rest.last()),
    ensures
        trim_end(rest + post) == rest,
    decreases post.len(),
{
    if post.len() == 0 {
        assert(rest + post =~= rest);
    } else {
        assert((rest + post).drop_last() =~= rest + post.drop_last());
        lemma_trim_end_padding(rest, post.drop_last());
    }
}

/// `trim_start` keeps a suffix of `s` and removes only white space.
pub proof fn lemma_trim_start_split(s: Seq<char>)
    ensures
        trim_start(s).len() <= s.len(),
        s.skip(s.len() - trim_start(s).len()) == trim_start(s),
        all_white_space(s.take(s.len() - trim_start(s).len())),
    decreases s.len(),
{
    if s.len() > 0 && is_white_space(s[0]) {
        lemma_trim_start_split(s.drop_first());
        let k = s.len() - trim_start(s).len();
        assert(s.skip(k) =~= s.drop_first().skip(k - 1));
        assert forall|m: int| 0 <= m < k implies is_white_space(#[trigger] s.take(k)[m]) by {
            if m > 0 {
                assert(s.take(k)[m] == s.drop_first().take(k - 1)[m - 1]);
            }
        }
    } else {
        assert(s.skip(0) =~= s);
    }
}

/// `trim_end` keeps a prefix of `s` and removes only white space.
pub proof fn lemma_trim_end_split(s: Seq<char>)
    ensures
        trim_end(s).len() <= s.len(),
        s.take(trim_end(s).len() as int) == trim_end(s),
        all_white_space(s.skip(trim_end(s).len() as int)),
    decreases s.len(),
{
    if s.len() > 0 && is_white_space(s.last()) {
        lemma_trim_end_split(s.drop_last());
        let k = trim_end(s).len() as int;
        assert(s.take(k) =~= s.drop_last().take(k));
        assert forall|m: int| 0 <= m < s.len() - k implies is_white_space(#[trigger] s.skip(k)[m]) by {
            if m < s.len() - k - 1 {
                assert(s.skip(k)[m] == s.drop_last().skip(k)[m]);
            }
        }
    } else {
        assert(s.take(s.len() as int) =~= s);
    }
}

/// The bounds `(i, j)` of `trim(cs@)` inside `cs`.
pub fn trim_bounds(cs: &Vec<char>) -> (r: (usize, usize))
    ensures
        r.0 <= r.1 <= cs.len(),
        cs@.subrange(r.0 as int, r.1 as int) == trim(cs@),
{
    let n = cs.len();
    let mut i: usize = 0;
    assert(cs@.subrange(0, n as int) =~= cs@);
    while i < n && white_space(cs[i])
        invariant
            i <= n,
            n == cs.len(),
            trim_start(cs@.subrange(i as int, n as int)) == trim_start(cs@),
        decreases n - i,
    {
        assert(cs@.subrange(i as int, n as int).drop_first() =~= cs@.subrange(i + 1, n as int));
        i = i + 1;
    }
    let mut j: usize = n;
    while j > i && white_space(cs[j - 1])
        invariant
            i <= j <= n,
            n == cs.len(),
            trim_end(cs@.subrange(i as int, j as int)) == trim(cs@),
        decreases j,
    {
        assert(cs@.subrange(i as int, j as int).drop_last() =~= cs@.subrange(i as int, j - 1));
        j = j - 1;
    }
    (i, j)
}

/// ASCII lower-casing of one character; every other character is kept.
pub open spec fn ascii_lower(c: char) -> char {
    if 'A' <= c <= 'Z' {
        ((c as u32) + 32) as char
    } else {
        c
    }
}

pub open spec fn ascii_lowercase(s: Seq<char>) -> Seq<char> {
    s.map_values(|c: char| ascii_lower(c))
}

/// Whether `c` lower-cases to `l`.
pub fn lowers_to(c: char, l: char) -> (r: bool)
    ensures
        r == (ascii_lower(c) == l),
{
    if 'A' <= c && c <= 'Z' {
        (c as u32) + 32 == (l as u32)
    } else {
        c == l
    }
}

/// Whether the characters `cs[i..j]` lower-case to `word`.
pub fn lowers_to_word(cs: &Vec<char>, i: usize, j: usize, word: &str) -> (r: bool)
    requires
        i <= j <= cs.len(),
    ensures
        r == (ascii_lowercase(cs@.subrange(i as int, j as int)) == word@),
{
    let w = chars_of(word);
    if j - i != w.len() {
        assert(ascii_lowercase(cs@.subrange(i as int, j as int)).len() != word@.len());
        return false;
    }
    let mut k: usize = 0;
    while k < w.len()
        invariant
            i <= j <= cs.len(),
            j - i == w.len(),
            w@ == word@,
            k <= w.len(),
            forall|m: int| 0 <= m < k ==> ascii_lower(cs@[i + m]) == w@[m],
        decreases w.len() - k,
    {
        if !lowers_to(cs[i + k], w[k]) {
            assert(ascii_lowercase(cs@.subrange(i as int, j as int))[k as int] != word@[k as int]);
            return false;
        }
        k = k + 1;
    }
    assert(ascii_lowercase(cs@.subrange(i as int, j as int)) =~= word@);
    true
}

/// The decimal digit for `d`, for `0 <= d < 10`.
pub open spec fn digit_char(d: int) -> char {
    (('0' as int) + d) as char
}

/// The decimal writing of `n`, without sign or leading zeros.
pub open spec fn decimal(n: nat) -> Seq<char>
    decreases n,
{
    if n < 10 {
        seq![digit_char(n as int)]
    } else {
        decimal(n / 10).push(digit_char((n % 10) as int))
    }
}

fn digit(d: usize) -> (r: char)
    requires
        d < 10,
    ensures
        r == digit_char(d as int),
{
    match d {
        0 => '0',
        1 => '1',
        2 => '2',
        3 => '3',
        4 => '4',
        5 => '5',
        6 => '6',
        7 => '7',
        8 => '8',
        _ => '9',
    }
}

/// `n` written in decimal.
pub fn decimal_string(n: usize) -> (r: String)
    ensures
        r@ == decimal(n as nat),
{
    let mut m: usize = n;
    let mut tail: Vec<char> = Vec::new();
    while m >= 10
        invariant
            decimal(n as nat) == decimal(m as nat) + tail@,
        decreases m,
    {
        let d = digit(m % 10);
        let ghost t = tail@;
        tail.insert(0, d);
        assert(tail@ =~= seq![d] + t);
        assert(decimal(m as nat) == decimal((m / 10) as nat).push(d));
        assert(decimal((m / 10) as nat).push(d) + t =~= decimal((m / 10) as nat) + tail@);
        m = m / 10;
    }
    let mut cs: Vec<char> = Vec::new();
    cs.push(digit(m));
    cs.append(&mut tail);
    assert(cs@ =~= decimal(n as nat));
    string_of(&cs)
}

pub open spec fn is_digit(c: char) -> bool {
    '0' <= c <= '9'
}

/// The number that a run of decimal digits writes.
pub open spec fn digits_value(s: Seq<char>) -> int
    decreases s.len(),
{
    if s.len() == 0 {
        0
    } else {
        digits_value(s.drop_last()) * 10 + (s.last() as int - '0' as int)
    }
}

/// What remains of a number's text once an optional leading `+` is taken off.
pub open spec fn unsigned_digits(s: Seq<char>) -> Seq<char> {
    if s.len() > 0 && s[0] == '+' {
        s.drop_first()
    } else {
        s
    }
}

/// The `usize` that `s` writes in decimal, as `str::parse::<usize>` reads it: an optional `+`,
/// then one or more digits, with a value that fits.
pub open spec fn parse_usize(s: Seq<char>) -> Option<usize> {
    let d = unsigned_digits(s);
    if d.len() > 0 && (forall|i: int| 0 <= i < d.len() ==> is_digit(#[trigger] d[i])) && digits_value(d)
        <= usize::MAX {
        Some(digits_value(d) as usize)
    } else {
        None
    }
}

pub fn parse_usize_chars(cs: &Vec<char>) -> (r: Option<usize>)
    ensures
        r == parse_usize(cs@),
{
    let n = cs.len();
    let start: usize = if n > 0 && cs[0] == '+' {
        1
    } else {
        0
    };
    let ghost d = unsigned_digits(cs@);
    assert(d =~= cs@.subrange(start as int, n as int));
    if start == n {
        return None;
    }
    let mut acc: usize = 0;
    let mut overflow = false;
    let mut k: usize = start;
    assert(cs@.subrange(start as int, start as int) =~= Seq::<char>::empty());
    while k < n
        invariant
            start <= k <= n,
            n == cs.len(),
            d == cs@.subrange(start as int, n as int),
            d == unsigned_digits(cs@),
            forall|i: int| start <= i < k ==> is_digit(#[trigger] cs@[i]),
            !overflow ==> acc == digits_value(cs@.subrange(start as int, k as int)),
            overflow ==> digits_value(cs@.subrange(start as int, k as int)) > usize::MAX,
        decreases n - k,
    {
        let c = cs[k];
        if !('0' <= c && c <= '9') {
            assert(d[k - start] == c);
            assert(!(forall|i: int| 0 <= i < d.len() ==> is_digit(#[trigger] d[i])));
            return None;
        }
        let v = ((c as u32) - 48) as usize;
        assert(cs@.subrange(start as int, k + 1).drop_last() =~= cs@.subrange(
            start as int,
            k as int,
        ));
        if !overflow {
            match acc.checked_mul(10) {
                Some(t) => match t.checked_add(v) {
                    Some(u) => {
                        acc = u;
                    },
                    None => {
                        overflow = true;
                    },
                },
                None => {
                    overflow = true;
                },
            }
        }
        k = k + 1;
    }
    assert forall|i: int| 0 <= i < d.len() implies is_digit(#[trigger] d[i]) by {
        assert(d[i] == cs@[start + i]);
    }
    if overflow {
        None
    } else {
        Some(acc)
    }
}

/// `s` with every `s` character taken out.
pub open spec fn without_letter_s(s: Seq<char>) -> Seq<char> {
    s.filter(|c: char| c != 's')
}

pub fn drop_letter_s(s: &str) -> (r: Vec<char>)
    ensures
        r@ == without_letter_s(s@),
{
    let cs = chars_of(s);
    let mut r: Vec<char> = Vec::new();
    let mut k: usize = 0;
    proof {
        reveal(Seq::filter);
    }
    assert(cs@.take(0) =~= Seq::<char>::empty());
    while k < cs.len()
        invariant
            k <= cs.len(),
            cs@ == s@,
            r@ == without_letter_s(cs@.take(k as int)),
        decreases cs.len() - k,
    {
        proof {
            reveal(Seq::filter);
        }
        assert(cs@.take(k + 1).drop_last() =~= cs@.take(k as int));
        assert(cs@.take(k + 1).last() == cs@[k as int]);
        if cs[k] != 's' {
            r.push(cs[k]);
        }
        k = k + 1;
    }
    assert(cs@.take(cs.len() as int) =~= cs@);
    r
}

} // verus!
