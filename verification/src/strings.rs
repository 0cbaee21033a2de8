//! Deterministic text building shared by diagnostics rendering and code
//! emission: decimal rendering of integers and escaping of text that is
//! embedded into a generated string literal.

use vstd::prelude::*;

verus! {

/// Relies on std's `String::push`: appends exactly the given character at
/// the end of the string.
pub assume_specification[ String::push ](s: &mut String, c: char)
    ensures
        final(s)@ == old(s)@.push(c),
;

/// The decimal digit character for a value below ten.
pub open spec fn digit_char(d: nat) -> char {
    if d == 0 {
        '0'
    } else if d == 1 {
        '1'
    } else if d == 2 {
        '2'
    } else if d == 3 {
        '3'
    } else if d == 4 {
        '4'
    } else if d == 5 {
        '5'
    } else if d == 6 {
        '6'
    } else if d == 7 {
        '7'
    } else if d == 8 {
        '8'
    } else {
        '9'
    }
}

/// Decimal notation of a natural number, most significant digit first.
pub open spec fn spec_u64_digits(n: nat) -> Seq<char>
    decreases n,
{
    if n < 10 {
        seq![digit_char(n)]
    } else {
        spec_u64_digits(n / 10).push(digit_char(n % 10))
    }
}

/// Decimal notation of an integer: a minus sign before the digits of the
/// magnitude when the value is negative.
pub open spec fn spec_i64_string(n: int) -> Seq<char> {
    if n >= 0 {
        spec_u64_digits(n as nat)
    } else {
        seq!['-'] + spec_u64_digits((-n) as nat)
    }
}

fn digit_to_char(d: u64) -> (r: char)
    requires
        d < 10,
    ensures
        r == digit_char(d as nat),
{
    if d == 0 {
        '0'
    } else if d == 1 {
        '1'
    } else if d == 2 {
        '2'
    } else if d == 3 {
        '3'
    } else if d == 4 {
        '4'
    } else if d == 5 {
        '5'
    } else if d == 6 {
        '6'
    } else if d == 7 {
        '7'
    } else if d == 8 {
        '8'
    } else {
        '9'
    }
}

/// Renders a natural number in decimal.
pub fn u64_to_string(n: u64) -> (r: String)
    ensures
        r@ == spec_u64_digits(n as nat),
    decreases n,
{
    if n < 10 {
        let mut s = String::new();
        s.push(digit_to_char(n));
        proof {
            assert(s@ =~= spec_u64_digits(n as nat));
        }
        s
    } else {
        let mut s = u64_to_string(n / 10);
        s.push(digit_to_char(n % 10));
        s
    }
}

/// Renders a signed integer in decimal.
pub fn i64_to_string(n: i64) -> (r: String)
    ensures
        r@ == spec_i64_string(n as int),
{
    if n >= 0 {
        u64_to_string(n as u64)
    } else {
        let m: u64 = if n == i64::MIN {
            9223372036854775808u64
        } else {
            (-n) as u64
        };
        proof {
            assert(m as nat == (-(n as int)) as nat);
        }
        let mut s = String::new();
        s.push('-');
        let digits = u64_to_string(m);
        let r = s.concat(digits.as_str());
        proof {
            assert(r@ =~= spec_i64_string(n as int));
        }
        r
    }
}

/// Whether a character is a decimal digit.
pub open spec fn is_digit_char(c: char) -> bool {
    48 <= c as int <= 57
}

/// The numeric value of a digit character.
pub open spec fn char_digit_val(c: char) -> int {
    c as int - 48
}

/// A nonempty, all-digit character sequence.
pub open spec fn is_digit_seq(s: Seq<char>) -> bool {
    s.len() > 0 && forall|i: int| 0 <= i < s.len() ==> is_digit_char(s[i])
}

/// The value of a digit sequence read in decimal.
pub open spec fn digits_value(s: Seq<char>) -> int
    decreases s.len(),
{
    if s.len() == 0 {
        0
    } else {
        digits_value(s.drop_last()) * 10 + char_digit_val(s.last())
    }
}

/// An integer token: digits, optionally preceded by a minus sign.
pub open spec fn is_int_token(s: Seq<char>) -> bool {
    is_digit_seq(s) || (s.len() >= 2 && s[0] == '-' && is_digit_seq(s.skip(1)))
}

/// The signed value of an integer token.
pub open spec fn int_token_value(s: Seq<char>) -> int {
    if s.len() > 0 && s[0] == '-' {
        -digits_value(s.skip(1))
    } else {
        digits_value(s)
    }
}

/// A digit sequence's value is never negative.
pub proof fn lemma_digits_value_nonneg(s: Seq<char>)
    requires
        forall|i: int| 0 <= i < s.len() ==> is_digit_char(s[i]),
    ensures
        digits_value(s) >= 0,
    decreases s.len(),
{
    if s.len() > 0 {
        lemma_digits_value_nonneg(s.drop_last());
    }
}

/// Extending a digit sequence never shrinks its value.
pub proof fn lemma_digits_value_prefix(s: Seq<char>, i: int, j: int)
    requires
        0 <= i <= j <= s.len(),
        forall|k: int| 0 <= k < s.len() ==> is_digit_char(s[k]),
    ensures
        digits_value(s.take(i)) <= digits_value(s.take(j)),
    decreases j - i,
{
    if i < j {
        lemma_digits_value_prefix(s, i, j - 1);
        assert(s.take(j).drop_last() =~= s.take(j - 1));
        assert(forall|k: int|
            0 <= k < s.take(j - 1).len() ==> is_digit_char(#[trigger] s.take(j - 1)[k]));
        lemma_digits_value_nonneg(s.take(j - 1));
        assert(digits_value(s.take(j)) == digits_value(s.take(j - 1)) * 10 + char_digit_val(
            s.take(j).last(),
        ));
        assert(digits_value(s.take(j - 1)) * 10 >= digits_value(s.take(j - 1)));
        assert(char_digit_val(s.take(j).last()) >= 0);
    }
}

/// Reads an integer token. Returns its value exactly when the text is an
/// integer token whose value fits a 64-bit signed integer; every other
/// text, and every out-of-range value, is refused.
pub fn parse_int_token(s: &str) -> (r: Option<i64>)
    ensures
        r is Some <==> is_int_token(s@) && -9223372036854775808 <= int_token_value(s@)
            <= 9223372036854775807,
        r is Some ==> r->Some_0 as int == int_token_value(s@),
{
    let len = s.unicode_len();
    if len == 0 {
        return Option::None;
    }
    let neg = s.get_char(0) == '-';
    let start: usize = if neg {
        1
    } else {
        0
    };
    if start >= len {
        return Option::None;
    }
    let cap: u64 = if neg {
        9223372036854775808
    } else {
        9223372036854775807
    };
    let ghost dpart = s@.skip(start as int);
    let mut acc: u64 = 0;
    let mut i: usize = start;
    proof {
        assert(dpart.take(0) =~= Seq::<char>::empty());
    }
    while i < len
        invariant
            len == s@.len(),
            start <= i <= len,
            start < len,
            start == 0 || start == 1,
            neg ==> start == 1 && s@[0] == '-',
            !neg ==> start == 0 && s@[0] != '-',
            cap == if neg {
                9223372036854775808u64
            } else {
                9223372036854775807u64
            },
            dpart == s@.skip(start as int),
            forall|k: int| 0 <= k < i - start ==> is_digit_char(dpart[k]),
            acc as int == digits_value(dpart.take(i - start)),
            acc <= cap,
        decreases len - i,
    {
        let c = s.get_char(i);
        let u = c as u32;
        if u < 48 || u > 57 {
            proof {
                assert(dpart[i - start] == s@[i as int]);
                assert(!is_digit_char(s@[i as int]));
                assert(!is_digit_seq(dpart));
                if is_int_token(s@) {
                    if neg {
                        assert(is_digit_seq(s@.skip(1)));
                    } else {
                        assert(is_digit_seq(s@));
                        assert(s@.skip(0) =~= s@);
                    }
                }
            }
            return Option::None;
        }
        let d = (u - 48) as u64;
        proof {
            assert(dpart[i - start] == s@[i as int]);
            assert(is_digit_char(s@[i as int]));
            assert(d as int == char_digit_val(s@[i as int]));
            assert(dpart.take(i - start + 1).drop_last() =~= dpart.take(i - start));
            assert(dpart.take(i - start + 1).last() == dpart[i - start]);
        }
        if acc > cap / 10 || (acc == cap / 10 && d > cap % 10) {
            proof {
                let grown = digits_value(dpart.take(i - start + 1));
                assert(grown == acc as int * 10 + d as int);
                assert(cap as int == (cap as int / 10) * 10 + cap as int % 10);
                assert(grown > cap as int);
                assert(forall|k: int|
                    0 <= k < dpart.take(i - start + 1).len() ==> is_digit_char(
                        #[trigger] dpart.take(i - start + 1)[k],
                    ));
                if is_int_token(s@) && -9223372036854775808 <= int_token_value(s@)
                    <= 9223372036854775807 {
                    if neg {
                        assert(is_digit_seq(s@.skip(1)));
                        assert(dpart == s@.skip(1));
                        lemma_digits_value_prefix(dpart, i - start + 1, dpart.len() as int);
                        assert(dpart.take(dpart.len() as int) =~= dpart);
                        assert(int_token_value(s@) == -digits_value(dpart));
                        assert(digits_value(dpart) > cap as int);
                        assert(false);
                    } else {
                        assert(is_digit_seq(s@));
                        assert(s@.skip(0) =~= s@);
                        assert(dpart == s@);
                        lemma_digits_value_prefix(dpart, i - start + 1, dpart.len() as int);
                        assert(dpart.take(dpart.len() as int) =~= dpart);
                        assert(int_token_value(s@) == digits_value(dpart));
                        assert(digits_value(dpart) > cap as int);
                        assert(false);
                    }
                }
            }
            return Option::None;
        }
        proof {
            assert(acc as int * 10 + d as int <= cap as int) by {
                assert(cap as int == (cap as int / 10) * 10 + cap as int % 10);
            }
        }
        acc = acc * 10 + d;
        i = i + 1;
    }
    proof {
        assert(dpart.take(i - start) =~= dpart);
        assert(is_digit_seq(dpart));
        if neg {
            assert(dpart == s@.skip(1));
            assert(is_int_token(s@));
            assert(int_token_value(s@) == -(acc as int));
        } else {
            assert(s@.skip(0) =~= s@);
            assert(dpart == s@);
            assert(is_int_token(s@));
            assert(int_token_value(s@) == acc as int);
        }
    }
    if neg {
        if acc == 9223372036854775808 {
            Option::Some(i64::MIN)
        } else {
            Option::Some(-(acc as i64))
        }
    } else {
        Option::Some(acc as i64)
    }
}

/// How one character is written inside a generated double-quoted literal:
/// quotes, backslashes, newlines and tabs take an escape, everything else
/// stands as itself.
pub open spec fn escape_char(c: char) -> Seq<char> {
    if c == '"' {
        seq!['\\', '"']
    } else if c == '\\' {
        seq!['\\', '\\']
    } else if c == '\n' {
        seq!['\\', 'n']
    } else if c == '\t' {
        seq!['\\', 't']
    } else {
        seq![c]
    }
}

/// The escaped form of the first `i` characters of `s`.
pub open spec fn spec_escape_upto(s: Seq<char>, i: int) -> Seq<char>
    decreases i,
{
    if i <= 0 {
        Seq::empty()
    } else {
        spec_escape_upto(s, i - 1) + escape_char(s[i - 1])
    }
}

/// The escaped form of a whole text.
pub open spec fn spec_escape(s: Seq<char>) -> Seq<char> {
    spec_escape_upto(s, s.len() as int)
}

/// Escapes a text for embedding inside a generated double-quoted literal.
pub fn escape_for_literal(s: &str) -> (r: String)
    ensures
        r@ == spec_escape(s@),
{
    let len = s.unicode_len();
    let mut acc = String::new();
    let mut i: usize = 0;
    proof {
        assert(acc@ =~= spec_escape_upto(s@, 0));
    }
    while i < len
        invariant
            len == s@.len(),
            i <= len,
            acc@ == spec_escape_upto(s@, i as int),
        decreases len - i,
    {
        let c = s.get_char(i);
        if c == '"' {
            acc.push('\\');
            acc.push('"');
        } else if c == '\\' {
            acc.push('\\');
            acc.push('\\');
        } else if c == '\n' {
            acc.push('\\');
            acc.push('n');
        } else if c == '\t' {
            acc.push('\\');
            acc.push('t');
        } else {
            acc.push(c);
        }
        proof {
            assert(acc@ =~= spec_escape_upto(s@, i + 1));
        }
        i = i + 1;
    }
    acc
}

} // verus!
