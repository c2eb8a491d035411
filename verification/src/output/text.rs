use vstd::prelude::*;

verus! {

/// The decimal digit for `d` (taken modulo ten).
pub open spec fn digit_char(d: nat) -> char {
    let d = d % 10;
    if d == 0 {
        '0'
    } else if d == 1 {
        '1'
    } else if d == 2 {
        '2'
    } else if d == 3 {
        '3'
    } else if d == 4 {
        '4'
    } else if d == 5 {
        '5'
    } else if d == 6 {
        '6'
    } else if d == 7 {
        '7'
    } else if d == 8 {
        '8'
    } else {
        '9'
    }
}

/// The decimal notation of `n`, without leading zeros.
pub open spec fn dec_text(n: nat) -> Seq<char>
    decreases n,
{
    if n < 10 {
        seq![digit_char(n)]
    } else {
        dec_text(n / 10).push(digit_char(n % 10))
    }
}

/// The decimal notation of `v`, with a leading `-` when it is negative.
pub open spec fn signed_text(v: int) -> Seq<char> {
    if v < 0 {
        seq!['-'] + dec_text((-v) as nat)
    } else {
        dec_text(v as nat)
    }
}

/// `true` or `false`.
pub open spec fn bool_text(b: bool) -> Seq<char> {
    if b {
        seq!['t', 'r', 'u', 'e']
    } else {
        seq!['f', 'a', 'l', 's', 'e']
    }
}

/// How `escape_string::escape` writes one character: the control
/// characters BEL, BS, TAB, LF, VT, FF and CR, the space and the backslash
/// become a backslash followed by a letter (or by the space or backslash
/// itself); every other character stands for itself.
pub open spec fn escape_char(c: char) -> Seq<char> {
    if c == '\x07' {
        seq!['\\', 'a']
    } else if c == '\x08' {
        seq!['\\', 'b']
    } else if c == '\t' {
        seq!['\\', 't']
    } else if c == '\n' {
        seq!['\\', 'n']
    } else if c == '\x0b' {
        seq!['\\', 'v']
    } else if c == '\x0c' {
        seq!['\\', 'f']
    } else if c == '\r' {
        seq!['\\', 'r']
    } else if c == ' ' {
        seq!['\\', ' ']
    } else if c == '\\' {
        seq!['\\', '\\']
    } else {
        seq![c]
    }
}

/// The text `s` escaped character by character.
pub open spec fn escaped(s: Seq<char>) -> Seq<char>
    decreases s.len(),
{
    if s.len() == 0 {
        Seq::empty()
    } else {
        escaped(s.drop_last()) + escape_char(s.last())
    }
}

/// The text `s` with each escaped space (a backslash followed by a space)
/// turned back into a plain space, scanning from the left.
pub open spec fn unescape_spaces(s: Seq<char>) -> Seq<char>
    decreases s.len(),
{
    if s.len() < 2 {
        s
    } else if s[0] == '\\' && s[1] == ' ' {
        seq![' '] + unescape_spaces(s.subrange(2, s.len() as int))
    } else {
        seq![s[0]] + unescape_spaces(s.subrange(1, s.len() as int))
    }
}

/// Appends one character (`String::push`).
#[verifier::external_body]
pub(crate) fn push_char(out: &mut String, c: char)
    ensures
        final(out)@ == old(out)@.push(c),
{
    out.push(c);
}

/// Escapes a text with `escape_string::escape`, which maps each character
/// as `escape_char` states and copies the others unchanged.
#[verifier::external_body]
pub(crate) fn escape_text(s: &str) -> (r: String)
    ensures
        r@ == escaped(s@),
{
    escape_string::escape(s).into_owned()
}

/// The digit character for a number below ten.
fn digit(d: u64) -> (c: char)
    requires
        d < 10,
    ensures
        c == digit_char(d as nat),
{
    match d {
        0 => '0',
        1 => '1',
        2 => '2',
        3 => '3',
        4 => '4',
        5 => '5',
        6 => '6',
        7 => '7',
        8 => '8',
        _ => '9',
    }
}

/// Appends the decimal notation of `n`.
pub fn write_u64(out: &mut String, n: u64)
    ensures
        final(out)@ == old(out)@ + dec_text(n as nat),
    decreases n,
{
    if n >= 10 {
        write_u64(out, n / 10);
    }
    push_char(out, digit(n % 10));
}

/// Appends the decimal notation of `v`, with a `-` when it is negative.
pub fn write_i64(out: &mut String, v: i64)
    ensures
        final(out)@ == old(out)@ + signed_text(v as int),
{
    if v < 0 {
        push_char(out, '-');
        let m: i128 = 0i128 - (v as i128);
        write_u64(out, m as u64);
    } else {
        write_u64(out, v as u64);
    }
}

/// Appends `true` or `false`.
pub fn write_bool(out: &mut String, b: bool)
    ensures
        final(out)@ == old(out)@ + bool_text(b),
{
    if b {
        push_char(out, 't');
        push_char(out, 'r');
        push_char(out, 'u');
        push_char(out, 'e');
    } else {
        push_char(out, 'f');
        push_char(out, 'a');
        push_char(out, 'l');
        push_char(out, 's');
        push_char(out, 'e');
    }
}

/// `s` with each escaped space turned back into a plain space.
pub fn unescape_spaces_of(s: &str) -> (r: String)
    ensures
        r@ == unescape_spaces(s@),
{
    let n = s.unicode_len();
    let mut out = String::new();
    let mut i: usize = 0;
    assert(s@.subrange(0, n as int) =~= s@);
    assert(out@ + unescape_spaces(s@) =~= unescape_spaces(s@));
    while i < n
        invariant
            n == s@.len(),
            i <= n,
            out@ + unescape_spaces(s@.subrange(i as int, n as int)) == unescape_spaces(s@),
        decreases n - i,
    {
        let c = s.get_char(i);
        let ghost rest = s@.subrange(i as int, n as int);
        if c == '\\' && i + 1 < n && s.get_char(i + 1) == ' ' {
            assert(rest.subrange(2, rest.len() as int) =~= s@.subrange(i + 2, n as int));
            push_char(&mut out, ' ');
            i = i + 2;
        } else {
            assert(rest.subrange(1, rest.len() as int) =~= s@.subrange(i + 1, n as int));
            push_char(&mut out, c);
            i = i + 1;
        }
    }
    assert(s@.subrange(n as int, n as int) =~= Seq::<char>::empty());
    out
}

} // verus!

verus! {

/// The value of a decimal digit character: its distance from `'0'`.
pub open spec fn digit_value(c: char) -> int {
    (c as int) - ('0' as int)
}

/// Whether `c` is one of the characters `'0'` to `'9'`.
pub open spec fn is_digit(c: char) -> bool {
    '0' as int <= c as int <= '9' as int
}

/// The number that a sequence of decimal digits denotes, read from the
/// left.
pub open spec fn read_unsigned(s: Seq<char>) -> int
    decreases s.len(),
{
    if s.len() == 0 {
        0
    } else {
        read_unsigned(s.drop_last()) * 10 + digit_value(s.last())
    }
}

/// The number that a decimal text denotes, with a leading `-` for a
/// negative one.
pub open spec fn read_signed(s: Seq<char>) -> int {
    if s.len() > 0 && s[0] == '-' {
        -read_unsigned(s.drop_first())
    } else {
        read_unsigned(s)
    }
}

/// Law: the decimal notation of `n` is a non-empty run of digits that
/// reads back as `n`.
pub proof fn lemma_dec_text_reads_back(n: nat)
    ensures
        dec_text(n).len() > 0,
        forall|i: int| 0 <= i < dec_text(n).len() ==> is_digit(#[trigger] dec_text(n)[i]),
        read_unsigned(dec_text(n)) == n,
    decreases n,
{
    let d = n % 10;
    assert(digit_value(digit_char(d)) == d && is_digit(digit_char(d))) by {
        assert('0' as int == 48);
        assert('9' as int == 57);
        assert('1' as int == 49);
        assert('2' as int == 50);
        assert('3' as int == 51);
        assert('4' as int == 52);
        assert('5' as int == 53);
        assert('6' as int == 54);
        assert('7' as int == 55);
        assert('8' as int == 56);
    }
    if n >= 10 {
        lemma_dec_text_reads_back(n / 10);
        let t = dec_text(n);
        assert(t.drop_last() =~= dec_text(n / 10));
        vstd::arithmetic::div_mod::lemma_fundamental_div_mod(n as int, 10);
        assert(read_unsigned(t) == read_unsigned(t.drop_last()) * 10 + digit_value(t.last()));
        assert forall|i: int| 0 <= i < t.len() implies is_digit(#[trigger] t[i]) by {
            if i < t.len() - 1 {
                assert(t[i] == dec_text(n / 10)[i]);
            }
        }
    } else {
        vstd::arithmetic::div_mod::lemma_small_mod(n, 10);
        assert(dec_text(n).drop_last() =~= Seq::<char>::empty());
        assert(read_unsigned(dec_text(n)) == read_unsigned(dec_text(n).drop_last()) * 10
            + digit_value(dec_text(n).last()));
    }
}

/// Law: the signed decimal notation of `v` reads back as `v`, and starts
/// with `-` exactly when `v` is negative.
pub proof fn lemma_signed_text_reads_back(v: int)
    ensures
        read_signed(signed_text(v)) == v,
        signed_text(v).len() > 0,
        (signed_text(v)[0] == '-') <==> v < 0,
{
    if v < 0 {
        lemma_dec_text_reads_back((-v) as nat);
        assert(signed_text(v).drop_first() =~= dec_text((-v) as nat));
    } else {
        lemma_dec_text_reads_back(v as nat);
        assert(is_digit(dec_text(v as nat)[0]));
        assert('-' as int == 45) by {}
    }
}

} // verus!
