//! Character-level text helpers: decimal numbers, padding and whitespace.
use vstd::prelude::*;

verus! {

/// `String::push` appends one character at the end of the string.
pub assume_specification[ String::push ](s: &mut String, ch: char)
    ensures
        final(s)@ == old(s)@.push(ch),
;

/// `String::pop` removes the last character and returns it, or returns
/// `None` and leaves the string as it is when it is empty.
pub assume_specification[ String::pop ](s: &mut String) -> (r: Option<char>)
    ensures
        old(s)@.len() == 0 ==> r is None && final(s)@ == old(s)@,
        old(s)@.len() > 0 ==> r == Some(old(s)@.last()) && final(s)@ == old(s)@.drop_last(),
;

/// The ASCII character of a decimal digit.
pub open spec fn digit_char(d: nat) -> char {
    (48 + d) as char
}

/// Decimal representation of `n` without leading zeros (`0` is `"0"`).
pub open spec fn decimal(n: nat) -> Seq<char>
    decreases n,
{
    if n < 10 {
        seq![digit_char(n)]
    } else {
        decimal(n / 10).push(digit_char(n % 10))
    }
}

/// The decimal digits of `n` are ASCII digits that denote `n`: reading them
/// back gives `n`, and there is at least one.
pub proof fn lemma_decimal_reads_back(n: nat)
    ensures
        decimal(n).len() >= 1,
        all_digits(decimal(n)),
        digits_value(decimal(n)) == n,
    decreases n,
{
    if n < 10 {
        let d = decimal(n);
        assert(d.drop_last() =~= Seq::<char>::empty());
        assert(digits_value(d.drop_last()) == 0);
        assert(d.last() == digit_char(n));
        assert(digit_value(digit_char(n)) == n);
        assert(digits_value(d) == digits_value(d.drop_last()) * 10 + digit_value(d.last()));
    } else {
        lemma_decimal_reads_back(n / 10);
        let d = decimal(n);
        assert(d.drop_last() == decimal(n / 10));
        assert(digit_value(digit_char(n % 10)) == n % 10);
        assert(d.last() == digit_char(n % 10));
        assert((n / 10) * 10 + n % 10 == n) by (nonlinear_arith);
        assert(digits_value(d) == digits_value(d.drop_last()) * 10 + digit_value(d.last()));
        assert forall|i: int| 0 <= i < d.len() implies is_digit_char(#[trigger] d[i]) by {
            if i < d.len() - 1 {
                assert(d[i] == decimal(n / 10)[i]);
            }
        }
    }
}

/// Different numbers have different decimal representations.
pub proof fn lemma_decimal_injective(n: nat, m: nat)
    ensures
        decimal(n) == decimal(m) ==> n == m,
{
    lemma_decimal_reads_back(n);
    lemma_decimal_reads_back(m);
}

/// Appends the decimal representation of `n` to `out`.
pub fn push_decimal(out: &mut String, n: u64)
    ensures
        final(out)@ == old(out)@ + decimal(n as nat),
    decreases n,
{
    if n >= 10 {
        push_decimal(out, n / 10);
    }
    let d: u8 = (n % 10) as u8;
    let c: char = (48u8 + d) as char;
    out.push(c);
}


/// The characters of `s`, in order.
pub fn chars_of(s: &str) -> (v: Vec<char>)
    ensures
        v@ == s@,
{
    let mut v: Vec<char> = Vec::new();
    for c in it: s.chars()
        invariant
            v@ == it.seq().take(it.index() as int),
    {
        v.push(c);
    }
    v
}


/// Unicode `White_Space` characters, as `char::is_whitespace` classifies them.
pub open spec fn is_white_space(c: char) -> bool {
    let u = c as u32;
    ||| 0x09 <= u <= 0x0d
    ||| u == 0x20
    ||| u == 0x85
    ||| u == 0xa0
    ||| u == 0x1680
    ||| 0x2000 <= u <= 0x200a
    ||| u == 0x2028
    ||| u == 0x2029
    ||| u == 0x202f
    ||| u == 0x205f
    ||| u == 0x3000
}

/// Space, tab, line feed, carriage return, no-break space and the
/// ideographic space are white space; letters, digits and punctuation of
/// ASCII are not.
pub proof fn lemma_white_space_examples(c: char)
    ensures
        is_white_space(' ') && is_white_space('\t') && is_white_space('\n') && is_white_space('\r'),
        is_white_space('\u{a0}') && is_white_space('\u{3000}') && is_white_space('\u{2028}'),
        0x21 <= c as u32 <= 0x7e ==> !is_white_space(c),
{
}

/// Whether `c` is a Unicode white-space character.
pub fn is_whitespace(c: char) -> (b: bool)
    ensures
        b == is_white_space(c),
{
    let u = c as u32;
    (0x09 <= u && u <= 0x0d) || u == 0x20 || u == 0x85 || u == 0xa0 || u == 0x1680 || (0x2000
        <= u && u <= 0x200a) || u == 0x2028 || u == 0x2029 || u == 0x202f || u == 0x205f || u
        == 0x3000
}

/// The maximal runs of non-white-space characters of `s`, left to right
/// (what `str::split_whitespace` yields).
pub open spec fn words(s: Seq<char>) -> Seq<Seq<char>>
    decreases s.len(),
{
    if s.len() == 0 {
        seq![]
    } else {
        let prev = words(s.drop_last());
        let c = s.last();
        if is_white_space(c) {
            prev
        } else if s.len() > 1 && !is_white_space(s[s.len() - 2]) {
            prev.update(prev.len() - 1, prev.last().push(c))
        } else {
            prev.push(seq![c])
        }
    }
}

/// Every word is a non-empty run without white space, and a text that
/// ends with a non-white-space character has at least one word.
pub proof fn lemma_words_are_runs(s: Seq<char>)
    ensures
        forall|i: int| 0 <= i < words(s).len() ==> (#[trigger] words(s)[i]).len() > 0,
        forall|i: int, j: int|
            0 <= i < words(s).len() && 0 <= j < words(s)[i].len() ==> !is_white_space(#[trigger] words(s)[i][j]),
        s.len() > 0 && !is_white_space(s.last()) ==> words(s).len() > 0,
    decreases s.len(),
{
    if s.len() > 0 {
        lemma_words_are_runs(s.drop_last());
        let prev = words(s.drop_last());
        let c = s.last();
        if !is_white_space(c) && s.len() > 1 && !is_white_space(s[s.len() - 2]) {
            assert(s.drop_last().last() == s[s.len() - 2]);
            let w = words(s);
            assert forall|i: int, j: int|
                0 <= i < w.len() && 0 <= j < w[i].len() implies !is_white_space(#[trigger] w[i][j]) by {
                if i == w.len() - 1 && j == w[i].len() - 1 {
                } else if i == w.len() - 1 {
                    assert(w[i][j] == prev.last()[j]);
                } else {
                    assert(w[i] == prev[i]);
                }
            }
        } else if !is_white_space(c) {
            let w = words(s);
            assert forall|i: int, j: int|
                0 <= i < w.len() && 0 <= j < w[i].len() implies !is_white_space(#[trigger] w[i][j]) by {
                if i < w.len() - 1 {
                    assert(w[i] == prev[i]);
                }
            }
        }
    }
}

/// A non-empty text without white space is one word.
pub proof fn lemma_single_word(s: Seq<char>)
    requires
        s.len() > 0,
        forall|i: int| 0 <= i < s.len() ==> !is_white_space(#[trigger] s[i]),
    ensures
        words(s) == seq![s],
    decreases s.len(),
{
    if s.len() == 1 {
        assert(s.drop_last() =~= Seq::<char>::empty());
        assert(words(s.drop_last()) =~= Seq::<Seq<char>>::empty());
        assert(seq![s.last()] =~= s);
    } else {
        lemma_single_word(s.drop_last());
        assert(s.drop_last().push(s.last()) =~= s);
        assert(!is_white_space(s[s.len() - 2]));
        assert(words(s) =~= seq![s]);
    }
}

/// White space separates words: a text made of `s`, a white-space
/// character and `t` has the words of `s` followed by the words of `t`.
pub proof fn lemma_words_split_at_white_space(s: Seq<char>, c: char, t: Seq<char>)
    requires
        is_white_space(c),
    ensures
        words(s.push(c) + t) == words(s) + words(t),
    decreases t.len(),
{
    let whole = s.push(c) + t;
    if t.len() == 0 {
        assert(whole =~= s.push(c));
        assert(whole.drop_last() =~= s);
        assert(words(s) + words(t) =~= words(s));
    } else {
        lemma_words_split_at_white_space(s, c, t.drop_last());
        assert(whole.drop_last() =~= s.push(c) + t.drop_last());
        let x = t.last();
        assert(whole.last() == x);
        let left_prev = words(s.push(c) + t.drop_last());
        let right_prev = words(t.drop_last());
        if is_white_space(x) {
            assert(words(whole) == left_prev);
        } else if t.len() > 1 && !is_white_space(t[t.len() - 2]) {
            assert(whole[whole.len() - 2] == t[t.len() - 2]);
            assert(t.drop_last().last() == t[t.len() - 2]);
            lemma_words_are_runs(t.drop_last());
            assert(right_prev.len() > 0);
            assert(words(whole) =~= words(s) + words(t));
        } else {
            if t.len() == 1 {
                assert(whole[whole.len() - 2] == c);
            } else {
                assert(whole[whole.len() - 2] == t[t.len() - 2]);
            }
            assert(words(whole) =~= words(s) + words(t));
        }
    }
}

/// Splits `s` into its white-space separated words.
pub fn split_whitespace(s: &Vec<char>) -> (out: Vec<Vec<char>>)
    ensures
        out.deep_view() == words(s@),
{
    let n = s.len();
    let mut out: Vec<Vec<char>> = Vec::new();
    let mut cur: Vec<char> = Vec::new();
    let mut in_word = false;
    assert(s@.take(0) =~= Seq::<char>::empty());
    for i in 0..n
        invariant
            n == s.len(),
            in_word == (i > 0 && !is_white_space(s@[i - 1])),
            in_word ==> words(s@.take(i as int)) == out.deep_view().push(cur@),
            !in_word ==> words(s@.take(i as int)) == out.deep_view(),
            !in_word ==> cur@.len() == 0,
    {
        let c = s[i];
        assert(s@.take(i + 1).drop_last() =~= s@.take(i as int));
        assert(s@.take(i + 1).last() == c);
        if is_whitespace(c) {
            if in_word {
                let ghost before = out.deep_view();
                let ghost wv = cur@;
                let w = cur;
                assert(w.deep_view() =~= wv);
                out.push(w);
                assert(out.deep_view() =~= before.push(wv));
                cur = Vec::new();
                in_word = false;
            }
        } else {
            if !in_word {
                assert(cur@ =~= Seq::<char>::empty());
            }
            cur.push(c);
            in_word = true;
        }
    }
    if in_word {
        let ghost before = out.deep_view();
        let ghost wv = cur@;
        assert(cur.deep_view() =~= wv);
        out.push(cur);
        assert(out.deep_view() =~= before.push(wv));
    }
    assert(s@.take(n as int) =~= s@);
    out
}


/// Whether `c` is one of the ASCII digits `0` to `9`.
pub open spec fn is_digit_char(c: char) -> bool {
    '0' <= c <= '9'
}

/// The value of the ASCII digit `c`.
pub open spec fn digit_value(c: char) -> nat {
    (c as nat - 48) as nat
}

/// Whether every character of `s` is an ASCII digit.
pub open spec fn all_digits(s: Seq<char>) -> bool {
    forall|i: int| 0 <= i < s.len() ==> is_digit_char(#[trigger] s[i])
}

/// The number that the decimal digits `s` denote.
pub open spec fn digits_value(s: Seq<char>) -> nat
    decreases s.len(),
{
    if s.len() == 0 {
        0
    } else {
        digits_value(s.drop_last()) * 10 + digit_value(s.last())
    }
}

/// The digits of an unsigned number after an optional leading `+`.
pub open spec fn unsigned_digits(s: Seq<char>) -> Seq<char> {
    if s.len() > 0 && s[0] == '+' {
        s.drop_first()
    } else {
        s
    }
}

/// What `str::parse::<usize>` gives: a value when `s` is an optional `+`
/// followed by at least one ASCII digit and the value fits in `usize`.
pub open spec fn parse_usize(s: Seq<char>) -> Option<usize> {
    let d = unsigned_digits(s);
    if d.len() > 0 && all_digits(d) && digits_value(d) <= usize::MAX {
        Some(digits_value(d) as usize)
    } else {
        None
    }
}

/// Parsing reads back every number written in decimal, with or without a
/// leading `+`; it refuses the empty text, a lone `+`, and any text with a
/// character other than a digit after the optional `+` (a `-` sign
/// included).
pub proof fn lemma_parse_reads_numbers(n: nat, s: Seq<char>, i: int)
    requires
        0 <= i < s.len(),
    ensures
        n <= usize::MAX ==> parse_usize(decimal(n)) == Some(n as usize),
        n <= usize::MAX ==> parse_usize(seq!['+'] + decimal(n)) == Some(n as usize),
        parse_usize(Seq::empty()) is None,
        parse_usize(seq!['+']) is None,
        !is_digit_char(s[i]) && !(i == 0 && s[0] == '+') ==> parse_usize(s) is None,
        s[0] == '-' ==> parse_usize(s) is None,
{
    lemma_decimal_reads_back(n);
    let d = decimal(n);
    assert(d[0] != '+');
    assert((seq!['+'] + d).drop_first() =~= d);
    assert(seq!['+'].drop_first() =~= Seq::<char>::empty());
    let u = unsigned_digits(s);
    if !is_digit_char(s[i]) && !(i == 0 && s[0] == '+') {
        if s[0] == '+' {
            assert(u[i - 1] == s[i]);
        } else {
            assert(u[i] == s[i]);
        }
    }
    if s[0] == '-' {
        assert(u[0] == '-');
    }
}

proof fn lemma_digits_value_prefix(s: Seq<char>, k: int)
    requires
        all_digits(s),
        0 <= k <= s.len(),
    ensures
        digits_value(s.take(k)) <= digits_value(s),
    decreases s.len(),
{
    if k < s.len() {
        assert(s.drop_last().take(k) =~= s.take(k));
        lemma_digits_value_prefix(s.drop_last(), k);
    } else {
        assert(s.take(k) =~= s);
    }
}

/// Parses `s` as an unsigned decimal number, as `str::parse::<usize>` does.
pub fn parse_usize_chars(s: &Vec<char>) -> (r: Option<usize>)
    ensures
        r == parse_usize(s@),
{
    let n = s.len();
    let start: usize = if n > 0 && s[0] == '+' { 1 } else { 0 };
    let ghost d = unsigned_digits(s@);
    assert(d =~= s@.subrange(start as int, n as int));
    if start == n {
        return None;
    }
    let mut acc: usize = 0;
    let mut i: usize = start;
    assert(d.take(0) =~= Seq::<char>::empty());
    while i < n
        invariant
            start <= i <= n,
            n == s.len(),
            d == s@.subrange(start as int, n as int),
            d == unsigned_digits(s@),
            d.len() > 0,
            all_digits(d.take(i - start)),
            acc == digits_value(d.take(i - start)),
        decreases n - i,
    {
        let c = s[i];
        if !('0' <= c && c <= '9') {
            assert(d[i - start] == c);
            return None;
        }
        let dv: usize = (c as u32 - 48) as usize;
        let ghost k = i - start;
        assert(d.take(k + 1).drop_last() =~= d.take(k));
        assert(d.take(k + 1).last() == c);
        match acc.checked_mul(10) {
            None => {
                proof {
                    if all_digits(d) {
                        lemma_digits_value_prefix(d, k + 1);
                    }
                }
                return None;
            },
            Some(m) => match m.checked_add(dv) {
                None => {
                    proof {
                        if all_digits(d) {
                            lemma_digits_value_prefix(d, k + 1);
                        }
                    }
                    return None;
                },
                Some(v) => {
                    acc = v;
                },
            },
        }
        i = i + 1;
    }
    assert(d.take(n - start) =~= d);
    Some(acc)
}


/// `count` copies of `c`.
pub open spec fn repeat_char(c: char, count: nat) -> Seq<char> {
    Seq::new(count, |i: int| c)
}

/// `text` padded on the right with spaces to at least `width` characters,
/// as the format `{:<width}` lays it out.
pub open spec fn pad_right(text: Seq<char>, width: nat) -> Seq<char> {
    if text.len() < width {
        text + repeat_char(' ', (width - text.len()) as nat)
    } else {
        text
    }
}

/// Padding keeps the text in front and fills with spaces up to the width;
/// a text at least as wide as the width is left as it is.
pub proof fn lemma_padding(text: Seq<char>, width: nat)
    ensures
        pad_right(text, width).len() == if text.len() < width { width } else { text.len() },
        pad_right(text, width).subrange(0, text.len() as int) == text,
        forall|i: int| text.len() <= i < pad_right(text, width).len() ==> #[trigger] pad_right(text, width)[i] == ' ',
{
    assert(pad_right(text, width).subrange(0, text.len() as int) =~= text);
}

/// Appends `count` copies of `c` to `out`.
pub fn push_repeat(out: &mut String, c: char, count: usize)
    ensures
        final(out)@ == old(out)@ + repeat_char(c, count as nat),
{
    let ghost start = out@;
    for i in 0..count
        invariant
            out@ == start + repeat_char(c, i as nat),
    {
        out.push(c);
        assert(start + repeat_char(c, (i + 1) as nat) =~= (start + repeat_char(c, i as nat)).push(
            c,
        ));
    }
}

/// Appends `text` padded with spaces to `width` characters.
pub fn push_padded(out: &mut String, text: &str, width: usize)
    ensures
        final(out)@ == old(out)@ + pad_right(text@, width as nat),
{
    let ghost start = out@;
    out.append(text);
    let len = chars_of(text).len();
    if len < width {
        push_repeat(out, ' ', width - len);
        assert(start + pad_right(text@, width as nat) =~= start + text@ + repeat_char(
            ' ',
            (width - len) as nat,
        ));
    } else {
        assert(start + pad_right(text@, width as nat) =~= start + text@);
    }
}

/// Appends the characters of `v` to `out`.
pub fn push_chars(out: &mut String, v: &Vec<char>)
    ensures
        final(out)@ == old(out)@ + v@,
{
    let ghost start = out@;
    for i in 0..v.len()
        invariant
            out@ == start + v@.take(i as int),
    {
        out.push(v[i]);
        assert(v@.take(i + 1) =~= v@.take(i as int).push(v@[i as int]));
        assert(start + v@.take(i + 1) =~= (start + v@.take(i as int)).push(v@[i as int]));
    }
    assert(v@.take(v.len() as int) =~= v@);
}

} // verus!
