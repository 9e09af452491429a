//! Small text helpers shared by the widgets, the player and the OBS client:
//! appending characters and rendering numbers in decimal.
use vstd::prelude::*;

verus! {

/// The character that stands for the decimal digit `d` (`0 <= d < 10`).
pub open spec fn digit_char(d: nat) -> char {
    (48 + d) as char
}

/// The digit that the character `c` stands for (meaningful for `'0'..='9'`).
pub open spec fn char_digit(c: char) -> int {
    (c as int) - 48
}

/// Whether `c` is one of `'0'..='9'`.
pub open spec fn is_digit(c: char) -> bool {
    48 <= (c as int) <= 57
}

/// The decimal representation of `n`, without leading zeros (`"0"` for zero).
pub open spec fn decimal(n: nat) -> Seq<char>
    decreases n,
{
    if n < 10 {
        seq![digit_char(n)]
    } else {
        decimal(n / 10).push(digit_char(n % 10))
    }
}

/// The number that a sequence of decimal digits denotes.
pub open spec fn digits_value(s: Seq<char>) -> int
    decreases s.len(),
{
    if s.len() == 0 {
        0
    } else {
        10 * digits_value(s.drop_last()) + char_digit(s.last())
    }
}

/// Every character of `decimal(n)` is a digit, it is never empty, and reading
/// it back gives `n`.
pub proof fn lemma_decimal_reads_back(n: nat)
    ensures
        decimal(n).len() > 0,
        forall|i: int| 0 <= i < decimal(n).len() ==> is_digit(#[trigger] decimal(n)[i]),
        digits_value(decimal(n)) == n,
    decreases n,
{
    if n >= 10 {
        lemma_decimal_reads_back(n / 10);
        let d = decimal(n / 10);
        assert(decimal(n).drop_last() =~= d);
        assert(char_digit(digit_char(n % 10)) == n % 10);
        assert(decimal(n).last() == digit_char(n % 10));
        assert(digits_value(decimal(n)) == 10 * digits_value(d) + char_digit(digit_char(n % 10)));
        assert(n == 10 * (n / 10) + n % 10);
    } else {
        assert(char_digit(digit_char(n)) == n);
        assert(seq![digit_char(n)].drop_last() =~= Seq::<char>::empty());
        assert(digits_value(Seq::<char>::empty()) == 0);
    }
}

/// Two numbers with the same decimal representation are equal.
pub proof fn lemma_decimal_injective(a: nat, b: nat)
    requires
        decimal(a) == decimal(b),
    ensures
        a == b,
{
    lemma_decimal_reads_back(a);
    lemma_decimal_reads_back(b);
}

/// Whether `c` has the Unicode `White_Space` property.
pub open spec fn is_white_space(c: char) -> bool {
    let u = c as int;
    ||| 0x09 <= u <= 0x0d
    ||| u == 0x20
    ||| u == 0x85
    ||| u == 0xa0
    ||| u == 0x1680
    ||| 0x2000 <= u <= 0x200a
    ||| u == 0x2028
    ||| u == 0x2029
    ||| u == 0x202f
    ||| u == 0x205f
    ||| u == 0x3000
}

/// `s` without its leading whitespace.
pub open spec fn trim_start(s: Seq<char>) -> Seq<char>
    decreases s.len(),
{
    if s.len() > 0 && is_white_space(s[0]) {
        trim_start(s.drop_first())
    } else {
        s
    }
}

/// `s` without its trailing whitespace.
pub open spec fn trim_end(s: Seq<char>) -> Seq<char>
    decreases s.len(),
{
    if s.len() > 0 && is_white_space(s.last()) {
        trim_end(s.drop_last())
    } else {
        s
    }
}

/// `s` without its leading and trailing whitespace.
pub open spec fn trim_whitespace(s: Seq<char>) -> Seq<char> {
    trim_end(trim_start(s))
}

/// Whitespace after text with a character that is not whitespace stays
/// behind when leading whitespace is cut; after text of whitespace alone, the
/// whole text goes.
proof fn lemma_trim_start_append(s: Seq<char>, t: Seq<char>)
    ensures
        trim_start(s + t) == (if trim_start(s).len() == 0 {
            trim_start(t)
        } else {
            trim_start(s) + t
        }),
    decreases s.len(),
{
    if s.len() == 0 {
        assert(s + t =~= t);
    } else {
        assert((s + t)[0] == s[0]);
        if is_white_space(s[0]) {
            assert((s + t).drop_first() =~= s.drop_first() + t);
            lemma_trim_start_append(s.drop_first(), t);
        }
    }
}

/// Trailing whitespace, such as the newline that ends a file's last line,
/// makes no difference to the trimmed text.
pub proof fn lemma_trim_ignores_trailing_white_space(s: Seq<char>, c: char)
    requires
        is_white_space(c),
    ensures
        trim_whitespace(s.push(c)) == trim_whitespace(s),
{
    lemma_trim_start_append(s, seq![c]);
    assert(s.push(c) =~= s + seq![c]);
    if trim_start(s).len() == 0 {
        let one = seq![c];
        assert(one.drop_first() =~= Seq::<char>::empty());
        assert(trim_start(one) == trim_start(Seq::<char>::empty()));
        assert(trim_start(Seq::<char>::empty()) =~= Seq::<char>::empty());
    } else {
        let x = trim_start(s) + seq![c];
        assert(x.last() == c);
        assert(x.drop_last() =~= trim_start(s));
    }
}

/// Text of whitespace alone is trimmed away entirely from the front.
proof fn lemma_trim_start_white_space(pre: Seq<char>)
    requires
        forall|i: int| 0 <= i < pre.len() ==> is_white_space(#[trigger] pre[i]),
    ensures
        trim_start(pre).len() == 0,
    decreases pre.len(),
{
    if pre.len() > 0 {
        lemma_trim_start_white_space(pre.drop_first());
    }
}

/// Whitespace after text that ends in a character that is not whitespace is
/// trimmed away from the end, and nothing more.
proof fn lemma_trim_end_white_space_suffix(s: Seq<char>, suf: Seq<char>)
    requires
        s.len() > 0,
        !is_white_space(s.last()),
        forall|i: int| 0 <= i < suf.len() ==> is_white_space(#[trigger] suf[i]),
    ensures
        trim_end(s + suf) == s,
    decreases suf.len(),
{
    if suf.len() == 0 {
        assert(s + suf =~= s);
    } else {
        assert((s + suf).last() == suf.last());
        assert((s + suf).drop_last() =~= s + suf.drop_last());
        lemma_trim_end_white_space_suffix(s, suf.drop_last());
    }
}

/// Trimming removes exactly the whitespace around a text: text that begins
/// and ends with characters that are not whitespace comes back whole, the
/// whitespace inside it included.
pub proof fn lemma_trim_keeps_inner_text(pre: Seq<char>, s: Seq<char>, suf: Seq<char>)
    requires
        forall|i: int| 0 <= i < pre.len() ==> is_white_space(#[trigger] pre[i]),
        forall|i: int| 0 <= i < suf.len() ==> is_white_space(#[trigger] suf[i]),
        s.len() > 0,
        !is_white_space(s[0]),
        !is_white_space(s.last()),
    ensures
        trim_whitespace(pre + s + suf) == s,
{
    lemma_trim_start_white_space(pre);
    assert(pre + s + suf =~= pre + (s + suf));
    lemma_trim_start_append(pre, s + suf);
    assert((s + suf)[0] == s[0]);
    assert(trim_start(s + suf) == s + suf);
    lemma_trim_end_white_space_suffix(s, suf);
}

/// Appends one character to a string.
#[verifier::external_body]
pub(crate) fn push_char(s: &mut String, c: char)
    ensures
        final(s)@ == old(s)@.push(c),
{
    s.push(c);
}

/// Appends the decimal representation of `n` to `s`.
pub fn push_decimal(s: &mut String, n: u64)
    ensures
        final(s)@ == old(s)@ + decimal(n as nat),
    decreases n,
{
    if n >= 10 {
        push_decimal(s, n / 10);
    }
    let d: u8 = (n % 10) as u8;
    let c: char = (48u8 + d) as char;
    assert(c == digit_char((n % 10) as nat));
    push_char(s, c);
    proof {
        if n >= 10 {
            assert(decimal(n as nat) == decimal((n / 10) as nat).push(digit_char((n % 10) as nat)));
        }
    }
    assert(s@ =~= old(s)@ + decimal(n as nat));
}

} // verus!
