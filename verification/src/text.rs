//! String primitives the library relies on.

use vstd::prelude::*;

verus! {

/// `str`'s `==` from the standard library: two string slices are equal
/// exactly when they hold the same characters in the same order.
#[verifier::external_body]
pub(crate) fn str_eq(a: &str, b: &str) -> (r: bool)
    ensures
        r == (a@ == b@),
{
    a == b
}

/// `String::push` from the standard library: appends one character.
#[verifier::external_body]
pub(crate) fn push_char(out: &mut String, c: char)
    ensures
        final(out)@ == old(out)@.push(c),
{
    out.push(c);
}

/// The decimal digit of a number below ten.
pub open spec fn digit(d: nat) -> char {
    if d == 0 {
        '0'
    } else if d == 1 {
        '1'
    } else if d == 2 {
        '2'
    } else if d == 3 {
        '3'
    } else if d == 4 {
        '4'
    } else if d == 5 {
        '5'
    } else if d == 6 {
        '6'
    } else if d == 7 {
        '7'
    } else if d == 8 {
        '8'
    } else {
        '9'
    }
}

/// A natural number in decimal, without leading zeros.
pub open spec fn decimal(n: nat) -> Seq<char>
    decreases n,
{
    if n < 10 {
        seq![digit(n)]
    } else {
        decimal(n / 10).push(digit(n % 10))
    }
}

/// A count of hundredths with two decimals, as in `12.05` or `-0.30`.
pub open spec fn hundredths(v: int) -> Seq<char> {
    let m = if v < 0 {
        (-v) as nat
    } else {
        v as nat
    };
    (if v < 0 {
        seq!['-']
    } else {
        Seq::<char>::empty()
    }) + decimal(m / 100) + seq!['.', digit((m / 10) % 10), digit(m % 10)]
}

/// A count of hundredths in its shortest form, as in `3`, `2.5` or `-0.25`.
pub open spec fn shortest(v: int) -> Seq<char> {
    let m = if v < 0 {
        (-v) as nat
    } else {
        v as nat
    };
    (if v < 0 {
        seq!['-']
    } else {
        Seq::<char>::empty()
    }) + decimal(m / 100) + (if m % 100 == 0 {
        Seq::<char>::empty()
    } else if m % 10 == 0 {
        seq!['.', digit((m / 10) % 10)]
    } else {
        seq!['.', digit((m / 10) % 10), digit(m % 10)]
    })
}

/// A text with backslashes, double quotes and line feeds escaped for JSON.
pub open spec fn escaped(s: Seq<char>) -> Seq<char>
    decreases s.len(),
{
    if s.len() == 0 {
        Seq::empty()
    } else {
        let c = s.last();
        escaped(s.drop_last()) + (if c == '\\' {
            seq!['\\', '\\']
        } else if c == '"' {
            seq!['\\', '"']
        } else if c == '\n' {
            seq!['\\', 'n']
        } else {
            seq![c]
        })
    }
}

fn digit_char(d: u8) -> (c: char)
    requires
        d < 10,
    ensures
        c == digit(d as nat),
{
    if d == 0 {
        '0'
    } else if d == 1 {
        '1'
    } else if d == 2 {
        '2'
    } else if d == 3 {
        '3'
    } else if d == 4 {
        '4'
    } else if d == 5 {
        '5'
    } else if d == 6 {
        '6'
    } else if d == 7 {
        '7'
    } else if d == 8 {
        '8'
    } else {
        '9'
    }
}

/// Appends a number in decimal.
pub fn push_decimal(out: &mut String, n: u128)
    ensures
        final(out)@ == old(out)@ + decimal(n as nat),
    decreases n,
{
    if n >= 10 {
        push_decimal(out, n / 10);
    }
    push_char(out, digit_char((n % 10) as u8));
    proof {
        if n >= 10 {
            assert(out@ =~= old(out)@ + decimal(n as nat));
        } else {
            assert(out@ =~= old(out)@ + decimal(n as nat));
        }
    }
}

/// Appends a count of hundredths with two decimals.
pub fn push_hundredths(out: &mut String, v: i64)
    ensures
        final(out)@ == old(out)@ + hundredths(v as int),
{
    let m: u128 = if v < 0 {
        push_char(out, '-');
        (-(v as i128)) as u128
    } else {
        v as u128
    };
    push_decimal(out, m / 100);
    push_char(out, '.');
    push_char(out, digit_char(((m / 10) % 10) as u8));
    push_char(out, digit_char((m % 10) as u8));
    assert(out@ =~= old(out)@ + hundredths(v as int));
}

/// Appends a count of hundredths in its shortest form.
pub fn push_shortest(out: &mut String, v: i64)
    ensures
        final(out)@ == old(out)@ + shortest(v as int),
{
    let m: u128 = if v < 0 {
        push_char(out, '-');
        (-(v as i128)) as u128
    } else {
        v as u128
    };
    push_decimal(out, m / 100);
    if m % 100 != 0 {
        push_char(out, '.');
        push_char(out, digit_char(((m / 10) % 10) as u8));
        if m % 10 != 0 {
            push_char(out, digit_char((m % 10) as u8));
        }
    }
    assert(out@ =~= old(out)@ + shortest(v as int));
}

/// Appends a text, escaped for JSON.
pub fn push_escaped(out: &mut String, input: &str)
    ensures
        final(out)@ == old(out)@ + escaped(input@),
{
    let n = input.unicode_len();
    let mut i: usize = 0;
    assert(input@.take(0) =~= Seq::<char>::empty());
    assert(out@ =~= old(out)@ + escaped(input@.take(0)));
    while i < n
        invariant
            i <= n,
            n == input@.len(),
            out@ == old(out)@ + escaped(input@.take(i as int)),
        decreases n - i,
    {
        let c = input.get_char(i);
        if c == '\\' {
            push_char(out, '\\');
            push_char(out, '\\');
        } else if c == '"' {
            push_char(out, '\\');
            push_char(out, '"');
        } else if c == '\n' {
            push_char(out, '\\');
            push_char(out, 'n');
        } else {
            push_char(out, c);
        }
        proof {
            let next = input@.take(i + 1);
            assert(next.drop_last() =~= input@.take(i as int));
            assert(next.last() == c);
            assert(out@ =~= old(out)@ + escaped(next));
        }
        i = i + 1;
    }
    assert(input@.take(n as int) =~= input@);
}

/// Escapes backslashes, double quotes and line feeds for JSON.
pub fn escape_json(input: &str) -> (out: String)
    ensures
        out@ == escaped(input@),
{
    let mut out = String::new();
    push_escaped(&mut out, input);
    assert(out@ =~= escaped(input@));
    out
}

/// The character sequences of a list of strings.
pub open spec fn views(v: Seq<String>) -> Seq<Seq<char>> {
    Seq::new(v.len(), |i: int| v[i]@)
}

} // verus!
