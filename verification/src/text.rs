//! Building the strings that the library shows: decimal numbers and line
//! endings.

use vstd::prelude::*;
use vstd::string::StringExecFns;

verus! {

/// The character that writes the decimal digit `d`.
pub open spec fn digit_char(d: nat) -> char {
    if d == 0 {
        '0'
    } else if d == 1 {
        '1'
    } else if d == 2 {
        '2'
    } else if d == 3 {
        '3'
    } else if d == 4 {
        '4'
    } else if d == 5 {
        '5'
    } else if d == 6 {
        '6'
    } else if d == 7 {
        '7'
    } else if d == 8 {
        '8'
    } else {
        '9'
    }
}

/// `n` written in decimal, without leading zeros (`0` is written `"0"`).
pub open spec fn decimal(n: nat) -> Seq<char>
    decreases n,
{
    if n < 10 {
        seq![digit_char(n)]
    } else {
        decimal(n / 10).push(digit_char(n % 10))
    }
}

/// `s` with every line feed written as a carriage return and a line feed.
pub open spec fn with_crlf(s: Seq<char>) -> Seq<char>
    decreases s.len(),
{
    if s.len() == 0 {
        seq![]
    } else {
        with_crlf(s.drop_last()) + if s.last() == '\n' {
            seq!['\r', '\n']
        } else {
            seq![s.last()]
        }
    }
}

/// Line-feed conversion works character by character: converting a
/// concatenation converts each part, a line feed becomes a carriage return
/// and a line feed, and every other character stays as it is.
pub proof fn lemma_crlf_by_character(a: Seq<char>, b: Seq<char>, c: char)
    ensures
        with_crlf(a + b) == with_crlf(a) + with_crlf(b),
        with_crlf(seq!['\n']) == seq!['\r', '\n'],
        c != '\n' ==> with_crlf(seq![c]) == seq![c],
        with_crlf(Seq::<char>::empty()) == Seq::<char>::empty(),
    decreases b.len(),
{
    if b.len() == 0 {
        assert(a + b =~= a);
        assert(with_crlf(a) + with_crlf(b) =~= with_crlf(a));
    } else {
        lemma_crlf_by_character(a, b.drop_last(), c);
        assert((a + b).drop_last() =~= a + b.drop_last());
        assert((a + b).last() == b.last());
        let tail = if b.last() == '\n' {
            seq!['\r', '\n']
        } else {
            seq![b.last()]
        };
        assert(with_crlf(a + b) == with_crlf(a + b.drop_last()) + tail);
        assert(with_crlf(b) == with_crlf(b.drop_last()) + tail);
        assert(with_crlf(a) + with_crlf(b.drop_last()) + tail =~= with_crlf(a) + (with_crlf(
            b.drop_last(),
        ) + tail));
    }
    let e = Seq::<char>::empty();
    assert(with_crlf(e) =~= e);
    assert(seq!['\n'].drop_last() =~= e);
    assert(seq!['\n'].last() == '\n');
    assert(seq![c].drop_last() =~= e);
    assert(seq![c].last() == c);
    assert(with_crlf(seq!['\n']) =~= seq!['\r', '\n']);
    if c != '\n' {
        assert(with_crlf(seq![c]) =~= seq![c]);
    }
}

/// The number that a run of decimal digits writes.
pub open spec fn digits_value(ds: Seq<char>) -> int
    decreases ds.len(),
{
    if ds.len() == 0 {
        0
    } else {
        digits_value(ds.drop_last()) * 10 + ((ds.last() as int) - ('0' as int))
    }
}

/// Whether `c` is one of the characters `0` to `9`.
pub open spec fn is_digit(c: char) -> bool {
    '0' as int <= c as int <= '9' as int
}

/// The digit character of `d` stands for `d`.
proof fn lemma_digit_char_value(d: nat)
    requires
        d < 10,
    ensures
        (digit_char(d) as int) - ('0' as int) == d,
        is_digit(digit_char(d)),
{
}

/// `decimal(n)` writes `n`: it is a non-empty run of the digits `0` to `9`
/// whose value is `n`, with no leading zero unless `n` is zero.
pub proof fn lemma_decimal_writes_n(n: nat)
    ensures
        decimal(n).len() > 0,
        forall|i: int| 0 <= i < decimal(n).len() ==> is_digit(#[trigger] decimal(n)[i]),
        digits_value(decimal(n)) == n,
        n > 0 ==> decimal(n)[0] != '0',
    decreases n,
{
    let d = decimal(n);
    lemma_digit_char_value(n % 10);
    if n < 10 {
        assert(d.drop_last() =~= Seq::<char>::empty());
        assert(digits_value(Seq::<char>::empty()) == 0);
    } else {
        lemma_decimal_writes_n(n / 10);
        assert(d.drop_last() =~= decimal(n / 10));
        assert(d[0] == decimal(n / 10)[0]);
        assert forall|i: int| 0 <= i < d.len() implies is_digit(#[trigger] d[i]) by {
            if i < d.len() - 1 {
                assert(d[i] == decimal(n / 10)[i]);
            }
        }
    }
}

/// Appends one character: `String::push` of std.
#[verifier::external_body]
pub(crate) fn push_char(s: &mut String, c: char)
    ensures
        final(s)@ == old(s)@.push(c),
{
    s.push(c);
}

fn digit(d: usize) -> (c: char)
    requires
        d < 10,
    ensures
        c == digit_char(d as nat),
{
    match d {
        0 => '0',
        1 => '1',
        2 => '2',
        3 => '3',
        4 => '4',
        5 => '5',
        6 => '6',
        7 => '7',
        8 => '8',
        _ => '9',
    }
}

/// Appends `n` in decimal to `s`.
pub fn push_decimal(s: &mut String, n: usize)
    ensures
        final(s)@ == old(s)@ + decimal(n as nat),
    decreases n,
{
    if n >= 10 {
        push_decimal(s, n / 10);
    }
    push_char(s, digit(n % 10));
    proof {
        if n >= 10 {
            assert(old(s)@ + decimal(n as nat) =~= old(s)@ + decimal((n / 10) as nat) + seq![
                digit_char((n % 10) as nat),
            ]);
        } else {
            assert(old(s)@ + decimal(n as nat) =~= old(s)@.push(digit_char((n % 10) as nat)));
        }
    }
}

/// `n` in decimal, as `format!("{}", n)` writes it.
pub fn decimal_string(n: usize) -> (r: String)
    ensures
        r@ == decimal(n as nat),
{
    let mut s = String::new();
    push_decimal(&mut s, n);
    assert(s@ =~= decimal(n as nat));
    s
}

/// The characters of `s`, in order.
pub fn chars_of(s: &str) -> (r: Vec<char>)
    ensures
        r@ == s@,
{
    let mut v: Vec<char> = Vec::new();
    for c in it: s.chars()
        invariant
            it.seq() == s@,
            v@ == s@.take(it.index()),
    {
        let ghost i = it.index();
        v.push(c);
        proof {
            assert(s@.take(i + 1) =~= s@.take(i).push(c));
        }
    }
    assert(s@.take(s@.len() as int) =~= s@);
    v
}

/// Appends `text` to `s`, each line feed written as a carriage return and a line feed.
pub fn push_with_crlf(s: &mut String, text: &str)
    ensures
        final(s)@ == old(s)@ + with_crlf(text@),
{
    let ghost start = s@;
    for c in it: text.chars()
        invariant
            it.seq() == text@,
            s@ == start + with_crlf(text@.take(it.index())),
    {
        let ghost i = it.index();
        if c == '\n' {
            push_char(s, '\r');
            push_char(s, '\n');
        } else {
            push_char(s, c);
        }
        proof {
            assert(text@.take(i + 1).drop_last() =~= text@.take(i));
            assert(text@.take(i + 1).last() == c);
        }
    }
    assert(text@.take(text@.len() as int) =~= text@);
}

} // verus!
