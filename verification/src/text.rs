//! Rendering of numbers as text.

use vstd::prelude::*;
use vstd::string::*;

verus! {

/// The character that stands for the digit `d` in bases up to sixteen.
pub open spec fn digit_char(d: int) -> char {
    if d == 0 {
        '0'
    } else if d == 1 {
        '1'
    } else if d == 2 {
        '2'
    } else if d == 3 {
        '3'
    } else if d == 4 {
        '4'
    } else if d == 5 {
        '5'
    } else if d == 6 {
        '6'
    } else if d == 7 {
        '7'
    } else if d == 8 {
        '8'
    } else if d == 9 {
        '9'
    } else if d == 10 {
        'a'
    } else if d == 11 {
        'b'
    } else if d == 12 {
        'c'
    } else if d == 13 {
        'd'
    } else if d == 14 {
        'e'
    } else {
        'f'
    }
}

/// The decimal digits of `n`, most significant first, without leading zeros.
pub open spec fn decimal(n: nat) -> Seq<char>
    decreases n,
{
    if n < 10 {
        seq![digit_char(n as int)]
    } else {
        decimal(n / 10).push(digit_char((n % 10) as int))
    }
}

/// The last `width` hexadecimal digits of `n`, most significant first.
pub open spec fn hexadecimal(n: nat, width: nat) -> Seq<char>
    decreases width,
{
    if width == 0 {
        Seq::empty()
    } else {
        hexadecimal(n / 16, (width - 1) as nat).push(digit_char((n % 16) as int))
    }
}

/// `count` copies of `fill`.
pub open spec fn repeated(fill: char, count: int) -> Seq<char> {
    Seq::new(
        if count > 0 {
            count as nat
        } else {
            0
        },
        |i: int| fill,
    )
}

/// `text` moved to the right edge of a field of `width` characters, the room
/// before it taken by `fill`; a longer text is left as it is.
pub open spec fn right_aligned(text: Seq<char>, width: int, fill: char) -> Seq<char> {
    repeated(fill, width - text.len()) + text
}

/// `text` at the left edge of a field of `width` characters, the room after
/// it taken by spaces; a longer text is left as it is.
pub open spec fn left_aligned(text: Seq<char>, width: int) -> Seq<char> {
    text + repeated(' ', width - text.len())
}

/// Appends one character to `text`.
///
/// The body calls `String::push`, and the contract is taken on trust from
/// its documentation: the character is put at the end of the string, and
/// what the string held before stays as it was.
#[verifier::external_body]
pub(crate) fn push_char(text: &mut String, c: char)
    ensures
        final(text)@ == old(text)@.push(c),
{
    text.push(c);
}

/// The text of one digit.
fn digit_text(d: u8) -> (text: &'static str)
    requires
        d < 16,
    ensures
        text@ == seq![digit_char(d as int)],
{
    let text = match d {
        0 => "0",
        1 => "1",
        2 => "2",
        3 => "3",
        4 => "4",
        5 => "5",
        6 => "6",
        7 => "7",
        8 => "8",
        9 => "9",
        10 => "a",
        11 => "b",
        12 => "c",
        13 => "d",
        14 => "e",
        _ => "f",
    };
    proof {
        reveal_strlit("0");
        reveal_strlit("1");
        reveal_strlit("2");
        reveal_strlit("3");
        reveal_strlit("4");
        reveal_strlit("5");
        reveal_strlit("6");
        reveal_strlit("7");
        reveal_strlit("8");
        reveal_strlit("9");
        reveal_strlit("a");
        reveal_strlit("b");
        reveal_strlit("c");
        reveal_strlit("d");
        reveal_strlit("e");
        reveal_strlit("f");
        assert(text@ =~= seq![digit_char(d as int)]);
    }
    text
}

/// The number of decimal digits of `n`.
fn decimal_len(n: usize) -> (len: usize)
    ensures
        len == decimal(n as nat).len(),
        1 <= len <= n + 1,
    decreases n,
{
    if n < 10 {
        1
    } else {
        let shorter = decimal_len(n / 10);
        shorter + 1
    }
}

/// Appends the decimal digits of `n` to `text`.
pub fn push_decimal(text: &mut String, n: usize)
    ensures
        final(text)@ == old(text)@ + decimal(n as nat),
    decreases n,
{
    if n >= 10 {
        push_decimal(text, n / 10);
    }
    let last: u8 = (n % 10) as u8;
    text.append(digit_text(last));
    proof {
        assert(final(text)@ =~= old(text)@ + decimal(n as nat));
    }
}

/// Appends `count` copies of a one-character text to `text`.
fn push_repeated(text: &mut String, fill: &str, count: usize)
    requires
        fill@.len() == 1,
    ensures
        final(text)@ == old(text)@ + repeated(fill@[0], count as int),
{
    let mut done: usize = 0;
    while done < count
        invariant
            done <= count,
            fill@.len() == 1,
            text@ == old(text)@ + repeated(fill@[0], done as int),
        decreases count - done,
    {
        text.append(fill);
        done = done + 1;
        proof {
            assert(text@ =~= old(text)@ + repeated(fill@[0], done as int));
        }
    }
}

/// Appends `n` in decimal to `text`, right-aligned in a field of `width`
/// characters that zeros fill if `zeros` is set, spaces if not.
pub fn push_decimal_aligned(text: &mut String, n: usize, width: usize, zeros: bool)
    ensures
        final(text)@ == old(text)@ + right_aligned(
            decimal(n as nat),
            width as int,
            if zeros {
                '0'
            } else {
                ' '
            },
        ),
{
    let len = decimal_len(n);
    let room: usize = if width > len {
        width - len
    } else {
        0
    };
    proof {
        reveal_strlit("0");
        reveal_strlit(" ");
    }
    if zeros {
        push_repeated(text, "0", room);
    } else {
        push_repeated(text, " ", room);
    }
    push_decimal(text, n);
    proof {
        let fill = if zeros {
            '0'
        } else {
            ' '
        };
        assert(repeated(fill, room as int) =~= repeated(fill, width - len));
        assert(final(text)@ =~= old(text)@ + right_aligned(decimal(n as nat), width as int, fill));
    }
}

/// Appends `name` to `text`, left-aligned in a field of `width` characters.
pub fn push_left_aligned(text: &mut String, name: &str, width: usize)
    ensures
        final(text)@ == old(text)@ + left_aligned(name@, width as int),
{
    let len = name.unicode_len();
    let room: usize = if width > len {
        width - len
    } else {
        0
    };
    text.append(name);
    proof {
        reveal_strlit(" ");
    }
    push_repeated(text, " ", room);
    proof {
        assert(repeated(' ', room as int) =~= repeated(' ', width - len));
        assert(final(text)@ =~= old(text)@ + left_aligned(name@, width as int));
    }
}

/// Appends the last `width` hexadecimal digits of `n` to `text`.
pub fn push_hexadecimal(text: &mut String, n: u64, width: usize)
    ensures
        final(text)@ == old(text)@ + hexadecimal(n as nat, width as nat),
    decreases width,
{
    if width > 0 {
        push_hexadecimal(text, n / 16, width - 1);
        let last: u8 = (n % 16) as u8;
        text.append(digit_text(last));
    }
    proof {
        assert(final(text)@ =~= old(text)@ + hexadecimal(n as nat, width as nat));
    }
}

} // verus!
