//! Text primitives: white space, decimal numbers, words and searches over
//! the characters of a string.
use vstd::prelude::*;
use vstd::string::*;

verus! {

/// Whether `c` is white space, that is has Unicode's `White_Space` property
/// (the characters that `char::is_whitespace` accepts).
pub open spec fn is_space(c: char) -> bool {
    let v = c as u32;
    ||| 0x9 <= v <= 0xD
    ||| v == 0x20
    ||| v == 0x85
    ||| v == 0xA0
    ||| v == 0x1680
    ||| 0x2000 <= v <= 0x200A
    ||| v == 0x2028
    ||| v == 0x2029
    ||| v == 0x202F
    ||| v == 0x205F
    ||| v == 0x3000
}

/// Whether `c` is one of the ASCII digits `0` to `9`.
pub open spec fn is_digit(c: char) -> bool {
    '0' <= c <= '9'
}

/// The value of the digit `c`.
pub open spec fn digit_value(c: char) -> int {
    c as int - '0' as int
}

/// The digit that shows `d`, for `d` below ten.
pub open spec fn digit_char(d: int) -> char {
    ('0' as int + d) as char
}

/// Whether every character of `s` is a digit.
pub open spec fn all_digits(s: Seq<char>) -> bool {
    forall|i: int| 0 <= i < s.len() ==> is_digit(#[trigger] s[i])
}

/// The number that the digits `s` write in base ten.
pub open spec fn digits_value(s: Seq<char>) -> nat
    decreases s.len(),
{
    if s.len() == 0 {
        0
    } else {
        (digits_value(s.drop_last()) * 10 + digit_value(s.last())) as nat
    }
}

/// The base-ten digits of `n`, without leading zeros.
pub open spec fn decimal(n: nat) -> Seq<char>
    decreases n,
{
    if n < 10 {
        seq![digit_char(n as int)]
    } else {
        decimal(n / 10).push(digit_char((n % 10) as int))
    }
}

/// What `str::parse::<u16>` gives for `s`: an optional `+`, then one or
/// more digits whose value fits in a `u16`.
pub open spec fn parse_u16_spec(s: Seq<char>) -> Option<u16> {
    let d = if s.len() > 0 && s[0] == '+' { s.drop_first() } else { s };
    if d.len() > 0 && all_digits(d) && digits_value(d) <= u16::MAX {
        Some(digits_value(d) as u16)
    } else {
        None
    }
}

/// The end of the run of non-space characters of `s` that starts at `i`.
pub open spec fn word_end(s: Seq<char>, i: int) -> int
    decreases s.len() - i,
{
    if 0 <= i < s.len() && !is_space(s[i]) {
        word_end(s, i + 1)
    } else {
        i
    }
}

/// The words of `s` from position `i` on: the maximal runs of non-space
/// characters, in order.
pub open spec fn words_from(s: Seq<char>, i: int) -> Seq<Seq<char>>
    decreases s.len() - i,
{
    if i < 0 || i >= s.len() {
        Seq::empty()
    } else if is_space(s[i]) {
        words_from(s, i + 1)
    } else {
        let e = word_end(s, i);
        proof {
            lemma_word_end_bounds(s, i);
        }
        seq![s.subrange(i, e)] + words_from(s, e)
    }
}

/// The white-space separated words of `s`, as `str::split_whitespace`
/// yields them.
pub open spec fn words(s: Seq<char>) -> Seq<Seq<char>> {
    words_from(s, 0)
}

/// A word ends after its start and no later than the end of the text.
pub proof fn lemma_word_end_bounds(s: Seq<char>, i: int)
    requires
        0 <= i <= s.len(),
    ensures
        i <= word_end(s, i) <= s.len(),
        i < s.len() && !is_space(s[i]) ==> i < word_end(s, i),
    decreases s.len() - i,
{
    if i < s.len() && !is_space(s[i]) {
        lemma_word_end_bounds(s, i + 1);
    }
}

/// A word that runs from `i` to `j` ends at `j`.
proof fn lemma_word_end_at(s: Seq<char>, i: int, j: int)
    requires
        0 <= i <= j <= s.len(),
        forall|k: int| i <= k < j ==> !is_space(#[trigger] s[k]),
        j == s.len() || is_space(s[j]),
    ensures
        word_end(s, i) == j,
    decreases j - i,
{
    if i < j {
        lemma_word_end_at(s, i + 1, j);
    }
}

/// Skipping white space does not change the words that follow.
pub proof fn lemma_skip_spaces(s: Seq<char>, i: int, j: int)
    requires
        0 <= i <= j <= s.len(),
        forall|k: int| i <= k < j ==> is_space(#[trigger] s[k]),
    ensures
        words_from(s, i) == words_from(s, j),
    decreases j - i,
{
    if i < j {
        lemma_skip_spaces(s, i + 1, j);
    }
}

/// The words from a word's start are that word and the words after it.
pub proof fn lemma_word_then_rest(s: Seq<char>, i: int, j: int)
    requires
        0 <= i < j <= s.len(),
        forall|k: int| i <= k < j ==> !is_space(#[trigger] s[k]),
        j == s.len() || is_space(s[j]),
    ensures
        words_from(s, i) == seq![s.subrange(i, j)] + words_from(s, j),
{
    lemma_word_end_at(s, i, j);
}

/// A digit's value is its position after `0`.
proof fn lemma_digit_char(d: int)
    requires
        0 <= d < 10,
    ensures
        is_digit(digit_char(d)),
        digit_value(digit_char(d)) == d,
        digit_char(d) != '+',
{
}

/// The digits of a prefix never write a larger number than the whole.
proof fn lemma_digits_prefix(d: Seq<char>, m: int)
    requires
        0 <= m <= d.len(),
        all_digits(d),
    ensures
        digits_value(d.take(m)) <= digits_value(d),
    decreases d.len(),
{
    if m < d.len() {
        lemma_digits_prefix(d.drop_last(), m);
        assert(d.drop_last().take(m) =~= d.take(m));
    } else {
        assert(d.take(m) =~= d);
    }
}

/// The decimal digits of `n` read back as `n`.
pub proof fn lemma_decimal_digits(n: nat)
    ensures
        decimal(n).len() > 0,
        all_digits(decimal(n)),
        digits_value(decimal(n)) == n,
        decimal(n)[0] != '+',
    decreases n,
{
    if n < 10 {
        lemma_digit_char(n as int);
        assert(decimal(n).drop_last() =~= Seq::<char>::empty());
        assert(digits_value(Seq::<char>::empty()) == 0);
        assert(decimal(n).last() == digit_char(n as int));
        assert(digits_value(decimal(n)) == digits_value(decimal(n).drop_last()) * 10 + digit_value(decimal(n).last()));
    } else {
        lemma_decimal_digits(n / 10);
        lemma_digit_char((n % 10) as int);
        assert(decimal(n).drop_last() =~= decimal(n / 10));
        assert(decimal(n).last() == digit_char((n % 10) as int));
        assert((n / 10) * 10 + n % 10 == n) by (nonlinear_arith);
        assert(digits_value(decimal(n)) == digits_value(decimal(n).drop_last()) * 10 + digit_value(decimal(n).last()));
    }
}

/// Reading a number written in decimal gives the number back.
pub proof fn lemma_parse_decimal(p: u16)
    ensures
        parse_u16_spec(decimal(p as nat)) == Some(p),
{
    lemma_decimal_digits(p as nat);
}

/// The first `c` of `s` is at `i` when none comes before `i` and `s[i]` is
/// one (or there is none when `i` is the end).
pub proof fn lemma_index_of_first_is(s: Seq<char>, c: char, i: int)
    requires
        0 <= i <= s.len(),
        forall|k: int| 0 <= k < i ==> s[k] != c,
        i == s.len() || s[i] == c,
    ensures
        s.index_of_first(c) == if i < s.len() {
            Some(i)
        } else {
            None::<int>
        },
{
    s.index_of_first_ensures(c);
    match s.index_of_first(c) {
        Some(j) => {
            if j < i {
                assert(s[j] != c);
            } else if j > i {
                assert(s[i] != c);
            }
        },
        None => {
            if i < s.len() {
                assert(s.contains(c));
            }
        },
    }
}

/// Digits are not white space.
pub proof fn lemma_digit_not_space(c: char)
    requires
        is_digit(c),
    ensures
        !is_space(c),
{
}

/// Appends `c` to `s` (`String::push`).
#[verifier::external_body]
fn push_char(s: &mut String, c: char)
    ensures
        final(s)@ == old(s)@.push(c),
{
    s.push(c);
}

/// Whether `c` is white space.
pub fn char_is_space(c: char) -> (b: bool)
    ensures
        b == is_space(c),
{
    let v = c as u32;
    (0x9 <= v && v <= 0xD) || v == 0x20 || v == 0x85 || v == 0xA0 || v == 0x1680 || (0x2000 <= v
        && v <= 0x200A) || v == 0x2028 || v == 0x2029 || v == 0x202F || v == 0x205F || v == 0x3000
}

/// Appends the decimal digits of `n` to `s`.
pub fn push_decimal(s: &mut String, n: u64)
    ensures
        final(s)@ == old(s)@ + decimal(n as nat),
    decreases n,
{
    if n >= 10 {
        push_decimal(s, n / 10);
    }
    let d: u8 = (n % 10) as u8;
    let c = (48u8 + d) as char;
    assert(c == digit_char((n % 10) as int));
    push_char(s, c);
    assert(decimal(n as nat) == if n < 10 {
        seq![digit_char(n as int)]
    } else {
        decimal((n / 10) as nat).push(digit_char((n % 10) as int))
    });
}

/// The characters of `s`, in order.
pub fn chars_of(s: &str) -> (v: Vec<char>)
    ensures
        v@ == s@,
{
    let mut v: Vec<char> = Vec::new();
    for c in it: s.chars()
        invariant
            it.seq() == s@,
            v@ == s@.take(it.index() as int),
    {
        v.push(c);
        assert(v@ =~= s@.take(it.index() + 1));
    }
    assert(s@.take(s@.len() as int) =~= s@);
    v
}

/// The characters of `s` before the first `stop`, or all of them where
/// there is none.
pub fn chars_before(s: &str, stop: char) -> (v: Vec<char>)
    ensures
        v@ == match s@.index_of_first(stop) {
            Some(i) => s@.take(i),
            None => s@,
        },
{
    let mut v: Vec<char> = Vec::new();
    for c in it: s.chars()
        invariant
            it.seq() == s@,
            v@.len() == it.index(),
            v@ == s@.take(it.index() as int),
            forall|k: int| 0 <= k < v@.len() ==> s@[k] != stop,
    {
        if c == stop {
            proof {
                lemma_index_of_first_is(s@, stop, v@.len() as int);
            }
            return v;
        }
        v.push(c);
        assert(v@ =~= s@.take(it.index() + 1));
    }
    proof {
        lemma_index_of_first_is(s@, stop, s@.len() as int);
    }
    assert(s@.take(s@.len() as int) =~= s@);
    v
}

/// The string of the characters of `cs` from `from` to `to`.
pub fn string_of(cs: &[char], from: usize, to: usize) -> (r: String)
    requires
        from <= to <= cs@.len(),
    ensures
        r@ == cs@.subrange(from as int, to as int),
{
    let mut r = String::new();
    let mut i = from;
    while i < to
        invariant
            from <= i <= to <= cs@.len(),
            r@ == cs@.subrange(from as int, i as int),
        decreases to - i,
    {
        push_char(&mut r, cs[i]);
        assert(r@ =~= cs@.subrange(from as int, i + 1));
        i = i + 1;
    }
    r
}

/// Parses the characters of `cs` from `from` to `to` as `str::parse::<u16>`
/// does.
pub fn parse_u16_range(cs: &[char], from: usize, to: usize) -> (r: Option<u16>)
    requires
        from <= to <= cs@.len(),
    ensures
        r == parse_u16_spec(cs@.subrange(from as int, to as int)),
{
    let ghost t = cs@.subrange(from as int, to as int);
    let mut i = from;
    if from < to && cs[from] == '+' {
        i = from + 1;
    }
    let ghost d = cs@.subrange(i as int, to as int);
    assert(d =~= if t.len() > 0 && t[0] == '+' { t.drop_first() } else { t });
    if i == to {
        return None;
    }
    let start = i;
    let mut value: u32 = 0;
    while i < to
        invariant
            from <= start <= i <= to <= cs@.len(),
            d == cs@.subrange(start as int, to as int),
            t == cs@.subrange(from as int, to as int),
            d == if t.len() > 0 && t[0] == '+' { t.drop_first() } else { t },
            d.len() > 0,
            all_digits(cs@.subrange(start as int, i as int)),
            value == digits_value(cs@.subrange(start as int, i as int)),
            value <= u16::MAX,
        decreases to - i,
    {
        let c = cs[i];
        let ghost pre = cs@.subrange(start as int, i + 1);
        assert(pre.drop_last() =~= cs@.subrange(start as int, i as int));
        assert(pre.last() == c);
        if !('0' <= c && c <= '9') {
            assert(d[i - start] == c);
            return None;
        }
        let dv = (c as u32) - ('0' as u32);
        value = value * 10 + dv;
        assert(value == digits_value(pre));
        if value > 65535 {
            proof {
                if all_digits(d) {
                    assert(d.take(i + 1 - start) =~= pre);
                    lemma_digits_prefix(d, i + 1 - start);
                }
            }
            return None;
        }
        i = i + 1;
    }
    assert(cs@.subrange(start as int, i as int) =~= d);
    Some(value as u16)
}

/// The end of the white space of `cs` that starts at `from`, looking no
/// further than `to`.
pub fn skip_spaces(cs: &[char], from: usize, to: usize) -> (r: usize)
    requires
        from <= to <= cs@.len(),
    ensures
        from <= r <= to,
        forall|k: int| from <= k < r ==> is_space(#[trigger] cs@[k]),
        r == to || !is_space(cs@[r as int]),
{
    let mut i = from;
    while i < to
        invariant
            from <= i <= to <= cs@.len(),
            forall|k: int| from <= k < i ==> is_space(#[trigger] cs@[k]),
        decreases to - i,
    {
        if !char_is_space(cs[i]) {
            return i;
        }
        i = i + 1;
    }
    i
}

/// The end of the word of `cs` that starts at `from`, looking no further
/// than `to`.
pub fn skip_word(cs: &[char], from: usize, to: usize) -> (r: usize)
    requires
        from <= to <= cs@.len(),
    ensures
        from <= r <= to,
        forall|k: int| from <= k < r ==> !is_space(#[trigger] cs@[k]),
        r == to || is_space(cs@[r as int]),
{
    let mut i = from;
    while i < to
        invariant
            from <= i <= to <= cs@.len(),
            forall|k: int| from <= k < i ==> !is_space(#[trigger] cs@[k]),
        decreases to - i,
    {
        if char_is_space(cs[i]) {
            return i;
        }
        i = i + 1;
    }
    i
}

/// The position of the first `c` of `cs` from `from` on, looking no further
/// than `to`; `to` where there is none.
pub fn find_char(cs: &[char], from: usize, to: usize, c: char) -> (r: usize)
    requires
        from <= to <= cs@.len(),
    ensures
        from <= r <= to,
        forall|k: int| from <= k < r ==> cs@[k] != c,
        r == to || cs@[r as int] == c,
{
    let mut i = from;
    while i < to
        invariant
            from <= i <= to <= cs@.len(),
            forall|k: int| from <= k < i ==> cs@[k] != c,
        decreases to - i,
    {
        if cs[i] == c {
            return i;
        }
        i = i + 1;
    }
    i
}

/// Whether the characters of `p` begin `cs`.
pub fn has_prefix(cs: &[char], p: &str) -> (b: bool)
    ensures
        b == p@.is_prefix_of(cs@),
{
    let pc = chars_of(p);
    let n = cs.len();
    let m = pc.len();
    if m > n {
        return false;
    }
    let mut i: usize = 0;
    while i < m
        invariant
            i <= m <= n,
            n == cs@.len(),
            m == p@.len(),
            pc@ == p@,
            forall|k: int| 0 <= k < i ==> p@[k] == cs@[k],
        decreases m - i,
    {
        if pc[i] != cs[i] {
            assert(p@[i as int] != cs@.subrange(0, m as int)[i as int]);
            return false;
        }
        i = i + 1;
    }
    assert(p@ =~= cs@.subrange(0, m as int));
    true
}

} // verus!
