//! Names of the files that a rendered animation is written to, and the test
//! that tells an animation from a still image by its file name.

use vstd::prelude::*;
use vstd::string::StrSliceExecFns;

verus! {

/// The character of a decimal digit.
pub open spec fn digit_char(digit: int) -> char {
    if digit == 0 {
        '0'
    } else if digit == 1 {
        '1'
    } else if digit == 2 {
        '2'
    } else if digit == 3 {
        '3'
    } else if digit == 4 {
        '4'
    } else if digit == 5 {
        '5'
    } else if digit == 6 {
        '6'
    } else if digit == 7 {
        '7'
    } else if digit == 8 {
        '8'
    } else {
        '9'
    }
}

/// The decimal digits of `value`, the most significant first.
pub open spec fn decimal_digits(value: nat) -> Seq<char>
    decreases value,
{
    if value < 10 {
        seq![digit_char(value as int)]
    } else {
        decimal_digits(value / 10).push(digit_char((value % 10) as int))
    }
}

/// The decimal digits of `value`, with zeros in front up to four digits.
pub open spec fn padded_index(value: nat) -> Seq<char> {
    let digits = decimal_digits(value);
    if digits.len() >= 4 {
        digits
    } else {
        Seq::new((4 - digits.len()) as nat, |i: int| '0') + digits
    }
}

/// The name of the file that frame `index` is written to: `frame_`, the
/// index in at least four digits, and `.txt`.
pub open spec fn frame_file_name_spec(index: nat) -> Seq<char> {
    seq!['f', 'r', 'a', 'm', 'e', '_'] + padded_index(index) + seq!['.', 't', 'x', 't']
}

/// Computes [`digit_char`].
fn digit_of(digit: usize) -> (out: char)
    requires
        digit < 10,
    ensures
        out == digit_char(digit as int),
{
    if digit == 0 {
        '0'
    } else if digit == 1 {
        '1'
    } else if digit == 2 {
        '2'
    } else if digit == 3 {
        '3'
    } else if digit == 4 {
        '4'
    } else if digit == 5 {
        '5'
    } else if digit == 6 {
        '6'
    } else if digit == 7 {
        '7'
    } else if digit == 8 {
        '8'
    } else {
        '9'
    }
}

/// The name of the file that frame `index` is written to.
pub fn frame_file_name(index: usize) -> (out: String)
    ensures
        out@ == frame_file_name_spec(index as nat),
{
    // The digits are found from the least significant one.
    let mut reversed: Vec<char> = Vec::new();
    let mut rest: usize = index;
    reversed.push(digit_of(rest % 10));
    rest = rest / 10;
    let ghost mut done: nat = index as nat;
    proof {
        reveal_with_fuel(decimal_digits, 2);
    }
    while rest > 0
        invariant
            reversed@.len() >= 1,
            rest == done / 10,
            reversed@.reverse() + Seq::<char>::empty() == reversed@.reverse(),
            decimal_digits(index as nat) == if done < 10 {
                reversed@.reverse()
            } else {
                decimal_digits(done / 10) + reversed@.reverse()
            },
        decreases rest,
    {
        let ghost prior = reversed@;
        let ghost before = done;
        reversed.push(digit_of(rest % 10));
        proof {
            done = rest as nat;
            let digit = digit_char((rest % 10) as int);
            assert(reversed@.reverse() =~= seq![digit] + prior.reverse());
            if done < 10 {
                assert(decimal_digits(done) =~= seq![digit]);
                assert(decimal_digits(before / 10) + prior.reverse() =~= reversed@.reverse());
            } else {
                assert(decimal_digits(done) == decimal_digits(done / 10).push(digit));
                assert(decimal_digits(before / 10) + prior.reverse() =~= decimal_digits(done / 10)
                    + reversed@.reverse());
            }
        }
        rest = rest / 10;
    }
    let ghost digits = decimal_digits(index as nat);
    assert(digits =~= reversed@.reverse());
    let mut name = String::new();
    name.push('f');
    name.push('r');
    name.push('a');
    name.push('m');
    name.push('e');
    name.push('_');
    assert(name@ =~= seq!['f', 'r', 'a', 'm', 'e', '_']);
    let count = reversed.len();
    let mut padding: usize = count;
    while padding < 4
        invariant
            count <= padding,
            count == digits.len(),
            count >= 4 ==> padding == count,
            count < 4 ==> padding <= 4,
            name@ == seq!['f', 'r', 'a', 'm', 'e', '_'] + Seq::new(
                (padding - count) as nat,
                |i: int| '0',
            ),
        decreases 4 - padding,
    {
        name.push('0');
        padding += 1;
        assert(name@ =~= seq!['f', 'r', 'a', 'm', 'e', '_'] + Seq::new(
            (padding - count) as nat,
            |i: int| '0',
        ));
    }
    let ghost head = name@;
    let mut position: usize = count;
    while position > 0
        invariant
            position <= count,
            count == reversed@.len(),
            digits == reversed@.reverse(),
            name@ == head + digits.subrange(0, count - position),
        decreases position,
    {
        position -= 1;
        name.push(reversed[position]);
        assert(name@ =~= head + digits.subrange(0, count - position));
    }
    assert(digits.subrange(0, count as int) =~= digits);
    let ghost stem = name@;
    name.push('.');
    name.push('t');
    name.push('x');
    name.push('t');
    assert(name@ =~= stem + seq!['.', 't', 'x', 't']);
    assert(stem =~= seq!['f', 'r', 'a', 'm', 'e', '_'] + padded_index(index as nat));
    name
}

/// The lower-case form of an ASCII letter; any other character as it is.
pub open spec fn ascii_lower(ch: char) -> char {
    if 'A' <= ch && ch <= 'Z' {
        ((ch as u8) + 32) as char
    } else {
        ch
    }
}

/// Whether a file name extension names an animated image: `gif`, in any
/// mixture of upper and lower case.
pub open spec fn is_gif_extension_spec(extension: Seq<char>) -> bool {
    extension.len() == 3 && ascii_lower(extension[0]) == 'g' && ascii_lower(extension[1]) == 'i'
        && ascii_lower(extension[2]) == 'f'
}

/// Whether a file name extension names an animated image.
pub fn is_gif_extension(extension: &str) -> (out: bool)
    ensures
        out == is_gif_extension_spec(extension@),
{
    if extension.unicode_len() != 3 {
        return false;
    }
    let first = extension.get_char(0);
    let second = extension.get_char(1);
    let third = extension.get_char(2);
    (first == 'g' || first == 'G') && (second == 'i' || second == 'I') && (third == 'f' || third
        == 'F')
}

} // verus!
