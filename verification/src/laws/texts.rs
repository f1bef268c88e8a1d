//! Promises on texts: white space, lines, numbers, parts.
use vstd::prelude::*;

use crate::text::all_digits;
use crate::text::decimal;
use crate::text::digits_value;
use crate::text::has_part;
use crate::text::is_digit;
use crate::text::is_white_space;
use crate::text::law_decimal_reads_back;
use crate::text::lemma_first_of_is;
use crate::text::lines;
use crate::text::occurs_at;
use crate::text::parsed_unsigned;
use crate::text::trim;
use crate::text::trim_end;
use crate::text::trim_start;
use crate::text::without_plus;

verus! {

/// Among the first characters of Unicode, the blank and the five controls from the
/// tabulator to the carriage return are white space, and no others.
pub proof fn law_plain_white_space(c: char)
    requires
        (c as u32) < 128,
    ensures
        is_white_space(c) <==> c == ' ' || c == '\t' || c == '\n' || c == '\r' || c as u32 == 11
            || c as u32 == 12,
{
}

proof fn lemma_start_cut(s: Seq<char>) -> (a: int)
    ensures
        0 <= a <= s.len(),
        trim_start(s) == s.skip(a),
        forall|i: int| 0 <= i < a ==> is_white_space(#[trigger] s[i]),
        a < s.len() ==> !is_white_space(s[a]),
    decreases s.len(),
{
    if s.len() > 0 && is_white_space(s[0]) {
        let b = lemma_start_cut(s.skip(1));
        assert(s.skip(1).skip(b) =~= s.skip(b + 1));
        assert forall|i: int| 0 <= i < b + 1 implies is_white_space(#[trigger] s[i]) by {
            if i > 0 {
                assert(is_white_space(s.skip(1)[i - 1]));
            }
        }
        b + 1
    } else {
        assert(s.skip(0) =~= s);
        0
    }
}

proof fn lemma_end_cut(s: Seq<char>) -> (b: int)
    ensures
        0 <= b <= s.len(),
        trim_end(s) == s.take(b),
        forall|i: int| b <= i < s.len() ==> is_white_space(#[trigger] s[i]),
        b > 0 ==> !is_white_space(s[b - 1]),
    decreases s.len(),
{
    if s.len() > 0 && is_white_space(s.last()) {
        let b = lemma_end_cut(s.drop_last());
        assert(s.drop_last().take(b) =~= s.take(b));
        assert forall|i: int| b <= i < s.len() implies is_white_space(#[trigger] s[i]) by {
            if i < s.len() - 1 {
                assert(is_white_space(s.drop_last()[i]));
            }
        }
        b
    } else {
        assert(s.take(s.len() as int) =~= s);
        s.len() as int
    }
}

/// Trimming takes white space off both ends, and nothing else: what is left is a
/// part of the text with white space alone before it and behind it, and neither
/// starts nor ends with any.
pub proof fn law_trimming_cuts_white_space(s: Seq<char>) -> (from: int)
    ensures
        0 <= from,
        from + trim(s).len() <= s.len(),
        trim(s) == s.subrange(from, from + trim(s).len()),
        forall|i: int| 0 <= i < from ==> is_white_space(#[trigger] s[i]),
        forall|i: int| from + trim(s).len() <= i < s.len() ==> is_white_space(#[trigger] s[i]),
        trim(s).len() > 0 ==> !is_white_space(trim(s)[0]) && !is_white_space(trim(s).last()),
{
    let a = lemma_start_cut(s);
    let rest = s.skip(a);
    let b = lemma_end_cut(rest);
    assert(rest.take(b) =~= s.subrange(a, a + b));
    assert forall|i: int| a + b <= i < s.len() implies is_white_space(#[trigger] s[i]) by {
        assert(rest[i - a] == s[i]);
    }
    a
}

/// Every text is read line by line: no line in an empty text; one line where there
/// is no newline; and before a newline a line that does without a carriage return
/// that stands there.
pub proof fn law_lines_are_split_at_newlines(line: Seq<char>, rest: Seq<char>)
    requires
        !line.contains('\n'),
    ensures
        lines(Seq::empty()) == Seq::<Seq<char>>::empty(),
        line.len() > 0 ==> lines(line) == seq![line],
        lines(line + seq!['\r', '\n'] + rest) == seq![line] + lines(rest),
        (line.len() == 0 || line.last() != '\r') ==> lines(line + seq!['\n'] + rest) == seq![line]
            + lines(rest),
{
    let n = line.len() as int;
    assert forall|i: int| 0 <= i < n implies line[i] != '\n' by {
        assert(line.contains(line[i]));
    }
    lemma_first_of_is(line, '\n', '\n', n);
    let both = line + seq!['\r', '\n'] + rest;
    assert forall|i: int| 0 <= i < n + 1 implies both[i] != '\n' by {
        if i < n {
            assert(both[i] == line[i]);
        }
    }
    lemma_first_of_is(both, '\n', '\n', n + 1);
    assert(both.take(n + 1) =~= line.push('\r'));
    assert(line.push('\r').drop_last() =~= line);
    assert(both.skip(n + 2) =~= rest);
    let one = line + seq!['\n'] + rest;
    assert forall|i: int| 0 <= i < n implies one[i] != '\n' by {
        assert(one[i] == line[i]);
    }
    lemma_first_of_is(one, '\n', '\n', n);
    assert(one.take(n) =~= line);
    assert(one.skip(n + 1) =~= rest);
}

/// Numbers are read digit by digit, from the left: nothing is no number, a digit is
/// its value, a further digit multiplies by ten and adds, anything else spoils the
/// number, and so does a value above the limit. One plus sign may stand in front.
pub proof fn law_numbers_are_read_digit_by_digit(s: Seq<char>, c: char, max: nat)
    ensures
        parsed_unsigned(Seq::empty(), max) is None,
        parsed_unsigned(seq![c], max) == (if '0' <= c <= '9' && c as u32 - 48 <= max {
            Some((c as u32 - 48) as nat)
        } else {
            None
        }),
        parsed_unsigned(seq!['+', c], max) == parsed_unsigned(seq![c], max) || c == '+',
        parsed_unsigned(seq!['+', '+'], max) is None,
        s.len() > 0 && s != seq!['+'] ==> parsed_unsigned(s.push(c), max) == match parsed_unsigned(
            s,
            max,
        ) {
            Some(n) => if '0' <= c <= '9' && n * 10 + (c as u32 - 48) <= max {
                Some((n * 10 + (c as u32 - 48)) as nat)
            } else {
                None
            },
            None => None,
        },
{
    let none = Seq::<char>::empty();
    assert(without_plus(none) == none);
    let one = seq![c];
    assert(one.drop_last() =~= none);
    reveal_with_fuel(digits_value, 3);
    if c == '+' {
        assert(one.skip(1) =~= none);
        let two = seq!['+', '+'];
        assert(two.skip(1) =~= one);
        assert(!is_digit(two.skip(1)[0]));
    } else {
        assert(without_plus(one) == one);
        assert(one[0] == c);
        assert(is_digit(c) ==> all_digits(one));
    }
    assert(seq!['+', c].skip(1) =~= one);
    assert(!is_digit('+'));
    let pluses = seq!['+', '+'];
    assert(pluses.skip(1)[0] == '+');
    if s.len() > 0 && s != seq!['+'] {
        let longer = s.push(c);
        let body = without_plus(s);
        assert(without_plus(longer) =~= body.push(c));
        assert(body.push(c).drop_last() =~= body);
        if s[0] == '+' && s.len() == 1 {
            assert(s =~= seq!['+']);
        }
        assert(body.len() > 0);
        if all_digits(body) && is_digit(c) {
            assert forall|i: int| 0 <= i < body.push(c).len() implies is_digit(
                #[trigger] body.push(c)[i],
            ) by {
                if i < body.len() {
                    assert(is_digit(body[i]));
                }
            }
        }
        if all_digits(body.push(c)) {
            assert(is_digit(body.push(c)[body.len() as int]));
            assert forall|i: int| 0 <= i < body.len() implies is_digit(#[trigger] body[i]) by {
                assert(is_digit(body.push(c)[i]));
            }
        }
    }
}

/// Decimal notation is made of digits, has no zero in front of others, and reads
/// back as its number.
pub proof fn law_decimal_notation(n: nat)
    ensures
        decimal(n).len() > 0,
        forall|i: int| 0 <= i < decimal(n).len() ==> '0' <= #[trigger] decimal(n)[i] <= '9',
        decimal(n).len() > 1 ==> decimal(n)[0] != '0',
        parsed_unsigned(decimal(n), n) == Some(n),
    decreases n,
{
    law_decimal_reads_back(n, n);
    assert forall|i: int| 0 <= i < decimal(n).len() implies '0' <= #[trigger] decimal(n)[i]
        <= '9' by {
        assert(is_digit(decimal(n)[i]));
    }
    if n >= 10 {
        law_decimal_notation(n / 10);
        let front = decimal(n / 10);
        assert(decimal(n)[0] == front[0]);
        if n / 10 < 10 {
            assert(front[0] != '0');
        } else {
            law_decimal_notation(n / 10 / 10);
            assert(front.len() > 1);
        }
    }
}

/// A text has a part where it is something, that part, and something again.
pub proof fn law_part_stands_somewhere(whole: Seq<char>, part: Seq<char>)
    ensures
        has_part(whole, part) <==> exists|a: Seq<char>, b: Seq<char>|
            whole == #[trigger] (a + part + b),
{
    if has_part(whole, part) {
        let i = choose|i: int| occurs_at(whole, part, i);
        let a = whole.take(i);
        let b = whole.skip(i + part.len());
        assert(whole =~= a + part + b);
    }
    if exists|a: Seq<char>, b: Seq<char>| whole == #[trigger] (a + part + b) {
        let (a, b) = choose|a: Seq<char>, b: Seq<char>| whole == #[trigger] (a + part + b);
        let i = a.len() as int;
        assert(whole.subrange(i, i + part.len()) =~= part);
        assert(occurs_at(whole, part, i));
    }
}

} // verus!
