//! Text: what is taken off, put in, cut and joined.

use vstd::prelude::*;

use crate::secret::{is_pin, is_token, pin_of};
use crate::text::{
    decimal, digit, has_part, is_white, joined, lines_of, part_at, position, position_bounds,
    replaced, same_but_case, strip_prefixes, trim_end, trim_end_of, trim_start, trim_start_of,
    trimmed,
};

verus! {

/// White space is what the code points of Unicode's `White_Space` are.
pub proof fn white_space_by_code_point(c: char)
    ensures
        is_white(c) <==> (9 <= c as u32 <= 13 || c as u32 == 32 || c as u32 == 133 || c as u32
            == 160 || c as u32 == 5760 || 8192 <= c as u32 <= 8202 || c as u32 == 8232 || c as u32
            == 8233 || c as u32 == 8239 || c as u32 == 8287 || c as u32 == 12288),
{
}

proof fn start_of(s: Seq<char>) -> (k: int)
    ensures
        0 <= k <= s.len(),
        trim_start(s) == s.skip(k),
        forall|i: int| 0 <= i < k ==> is_white(#[trigger] s[i]),
        k < s.len() ==> !is_white(s[k]),
    decreases s.len(),
{
    if s.len() > 0 && is_white(s[0]) {
        let rest = s.drop_first();
        let k = start_of(rest);
        assert(rest.skip(k) =~= s.skip(k + 1));
        assert forall|i: int| 0 <= i < k + 1 implies is_white(#[trigger] s[i]) by {
            if i > 0 {
                assert(rest[i - 1] == s[i]);
            }
        }
        if k < rest.len() {
            assert(rest[k] == s[k + 1]);
        }
        k + 1
    } else {
        assert(s.skip(0) =~= s);
        0
    }
}

proof fn end_of(s: Seq<char>) -> (m: int)
    ensures
        0 <= m <= s.len(),
        trim_end(s) == s.take(m),
        forall|i: int| m <= i < s.len() ==> is_white(#[trigger] s[i]),
        m > 0 ==> !is_white(s[m - 1]),
    decreases s.len(),
{
    if s.len() > 0 && is_white(s.last()) {
        let rest = s.drop_last();
        let m = end_of(rest);
        assert(rest.take(m) =~= s.take(m));
        assert forall|i: int| m <= i < s.len() implies is_white(#[trigger] s[i]) by {
            if i < rest.len() {
                assert(rest[i] == s[i]);
            }
        }
        if m > 0 {
            assert(rest[m - 1] == s[m - 1]);
        }
        m
    } else {
        assert(s.take(s.len() as int) =~= s);
        s.len() as int
    }
}

/// Trimming takes off the white space at the ends, all of it, and nothing else.
pub proof fn trimming_takes_off_white_space(s: Seq<char>) -> (ends: (int, int))
    ensures
        0 <= ends.0 <= ends.1 <= s.len(),
        trimmed(s) == s.subrange(ends.0, ends.1),
        forall|i: int| 0 <= i < ends.0 ==> is_white(#[trigger] s[i]),
        forall|i: int| ends.1 <= i < s.len() ==> is_white(#[trigger] s[i]),
        ends.0 < ends.1 ==> !is_white(s[ends.0]) && !is_white(s[ends.1 - 1]),
{
    let k = start_of(s);
    let t = s.skip(k);
    let m = end_of(t);
    assert(t.take(m) =~= s.subrange(k, k + m));
    assert forall|i: int| k + m <= i < s.len() implies is_white(#[trigger] s[i]) by {
        assert(t[i - k] == s[i]);
    }
    if m > 0 {
        assert(t[m - 1] == s[k + m - 1]);
        assert(t[0] == s[k]);
    }
    (k, k + m)
}

/// Taking a character off the end takes off every copy of it there, and nothing else.
pub proof fn copies_are_taken_off_the_end(s: Seq<char>, c: char) -> (m: int)
    ensures
        0 <= m <= s.len(),
        trim_end_of(s, c) == s.take(m),
        forall|i: int| m <= i < s.len() ==> #[trigger] s[i] == c,
        m > 0 ==> s[m - 1] != c,
    decreases s.len(),
{
    if s.len() > 0 && s.last() == c {
        let rest = s.drop_last();
        let m = copies_are_taken_off_the_end(rest, c);
        assert(rest.take(m) =~= s.take(m));
        assert forall|i: int| m <= i < s.len() implies #[trigger] s[i] == c by {
            if i < rest.len() {
                assert(rest[i] == s[i]);
            }
        }
        m
    } else {
        assert(s.take(s.len() as int) =~= s);
        s.len() as int
    }
}

/// Taking a character off the start takes off every copy of it there, and nothing else.
pub proof fn copies_are_taken_off_the_start(s: Seq<char>, c: char) -> (k: int)
    ensures
        0 <= k <= s.len(),
        trim_start_of(s, c) == s.skip(k),
        forall|i: int| 0 <= i < k ==> #[trigger] s[i] == c,
        k < s.len() ==> s[k] != c,
    decreases s.len(),
{
    if s.len() > 0 && s[0] == c {
        let rest = s.drop_first();
        let k = copies_are_taken_off_the_start(rest, c);
        assert(rest.skip(k) =~= s.skip(k + 1));
        assert forall|i: int| 0 <= i < k + 1 implies #[trigger] s[i] == c by {
            if i > 0 {
                assert(rest[i - 1] == s[i]);
            }
        }
        if k < rest.len() {
            assert(rest[k] == s[k + 1]);
        }
        k + 1
    } else {
        assert(s.skip(0) =~= s);
        0
    }
}

/// Stripping a prefix takes off one copy after another, until there is none.
pub proof fn prefixes_are_stripped(s: Seq<char>, prefix: Seq<char>)
    requires
        prefix.len() > 0,
    ensures
        strip_prefixes(prefix + s, prefix) == strip_prefixes(s, prefix),
        !prefix.is_prefix_of(s) ==> strip_prefixes(s, prefix) == s,
        !prefix.is_prefix_of(strip_prefixes(s, prefix)),
        strip_prefixes(s, prefix).is_suffix_of(s),
    decreases s.len(),
{
    let whole = prefix + s;
    assert(whole.subrange(0, prefix.len() as int) =~= prefix);
    assert(prefix.is_prefix_of(whole));
    assert(whole.skip(prefix.len() as int) =~= s);
    if prefix.is_prefix_of(s) {
        let rest = s.skip(prefix.len() as int);
        prefixes_are_stripped(rest, prefix);
        let end = strip_prefixes(rest, prefix);
        assert(s.subrange(s.len() - end.len(), s.len() as int) =~= rest.subrange(
            rest.len() - end.len(),
            rest.len() as int,
        ));
    } else {
        assert(s.subrange(0, s.len() as int) =~= s);
    }
}

/// Whether `part` stands in `s` from `i` on.
pub open spec fn stands_at(s: Seq<char>, part: Seq<char>, i: int) -> bool {
    0 <= i && i + part.len() <= s.len() && s.subrange(i, i + part.len()) == part
}

/// Whether `part` stands in `s` from `i` on, and nowhere else.
pub open spec fn stands_only_at(s: Seq<char>, part: Seq<char>, i: int) -> bool {
    stands_at(s, part, i) && forall|j: int| j != i ==> !#[trigger] stands_at(s, part, j)
}

/// Whether `part` stands nowhere in `s`.
pub open spec fn stands_nowhere(s: Seq<char>, part: Seq<char>) -> bool {
    forall|j: int| !#[trigger] stands_at(s, part, j)
}

/// A part is found in a text exactly where the text is something, the part, and
/// something.
pub proof fn parts_are_found(a: Seq<char>, part: Seq<char>, b: Seq<char>, s: Seq<char>)
    ensures
        has_part(a + part + b, part),
        has_part(s, part) <==> !stands_nowhere(s, part),
{
    let whole = a + part + b;
    let at = a.len() as int;
    assert(whole.subrange(at, at + part.len()) =~= part);
    assert(part_at(whole, part, a.len() as int));
    if has_part(s, part) {
        let i = choose|i: int| part_at(s, part, i);
        assert(stands_at(s, part, i));
    }
    if !stands_nowhere(s, part) {
        let i = choose|i: int| stands_at(s, part, i);
        assert(part_at(s, part, i));
    }
}

/// Replacing puts the new text where the old one stands first, keeps what is
/// before it, and goes on behind it.
pub proof fn first_part_is_replaced(
    a: Seq<char>,
    from: Seq<char>,
    b: Seq<char>,
    to: Seq<char>,
)
    requires
        from.len() > 0,
        forall|i: int| 0 <= i < a.len() ==> !#[trigger] stands_at(a + from + b, from, i),
    ensures
        replaced(a + from + b, from, to) == a + to + replaced(b, from, to),
    decreases a.len(),
{
    let s = a + from + b;
    if a.len() == 0 {
        assert(s =~= from + b);
        assert(s.subrange(0, from.len() as int) =~= from);
        assert(from.is_prefix_of(s));
        assert(s.skip(from.len() as int) =~= b);
        assert(a + to =~= to);
    } else {
        assert(!stands_at(s, from, 0));
        assert(!from.is_prefix_of(s));
        let rest = a.drop_first();
        assert(s.drop_first() =~= rest + from + b);
        assert forall|i: int| 0 <= i < rest.len() implies !#[trigger] stands_at(
            rest + from + b,
            from,
            i,
        ) by {
            assert((rest + from + b).subrange(i, i + from.len()) =~= s.subrange(
                i + 1,
                i + 1 + from.len(),
            ));
            assert(!stands_at(s, from, i + 1));
        }
        first_part_is_replaced(rest, from, b, to);
        assert(seq![s[0]] + (rest + to + replaced(b, from, to)) =~= a + to + replaced(b, from, to));
    }
}

/// Replacing what stands nowhere changes nothing.
pub proof fn nothing_is_replaced(s: Seq<char>, from: Seq<char>, to: Seq<char>)
    requires
        from.len() > 0,
        stands_nowhere(s, from),
    ensures
        replaced(s, from, to) == s,
    decreases s.len(),
{
    if s.len() > 0 {
        assert(!stands_at(s, from, 0));
        assert(!from.is_prefix_of(s));
        let rest = s.drop_first();
        assert forall|j: int| !#[trigger] stands_at(rest, from, j) by {
            if stands_at(rest, from, j) {
                assert(rest.subrange(j, j + from.len()) =~= s.subrange(j + 1, j + 1 + from.len()));
                assert(stands_at(s, from, j + 1));
            }
        }
        nothing_is_replaced(rest, from, to);
        assert(seq![s[0]] + rest =~= s);
    }
}

/// Replacing what stands in one place changes that place only.
pub proof fn only_part_is_replaced(a: Seq<char>, from: Seq<char>, b: Seq<char>, to: Seq<char>)
    requires
        from.len() > 0,
        stands_only_at(a + from + b, from, a.len() as int),
    ensures
        replaced(a + from + b, from, to) == a + to + b,
{
    let s = a + from + b;
    first_part_is_replaced(a, from, b, to);
    assert forall|j: int| !#[trigger] stands_at(b, from, j) by {
        if stands_at(b, from, j) {
            let i: int = a.len() + from.len() + j;
            assert(s.subrange(i, i + from.len()) =~= b.subrange(j, j + from.len()));
            assert(stands_at(s, from, i));
        }
    }
    nothing_is_replaced(b, from, to);
}

/// Where part `i` starts when the parts are joined.
pub open spec fn offset_of(parts: Seq<Seq<char>>, sep: Seq<char>, i: int) -> int
    decreases i,
{
    if i <= 0 {
        0
    } else {
        offset_of(parts, sep, i - 1) + parts[i - 1].len() + sep.len()
    }
}

proof fn offset_of_start(parts: Seq<Seq<char>>, more: Seq<Seq<char>>, sep: Seq<char>, i: int)
    requires
        i <= parts.len() <= more.len(),
        forall|j: int| 0 <= j < parts.len() ==> parts[j] == more[j],
    ensures
        offset_of(parts, sep, i) == offset_of(more, sep, i),
    decreases i,
{
    if i > 0 {
        offset_of_start(parts, more, sep, i - 1);
    }
}

proof fn joined_length(parts: Seq<Seq<char>>, sep: Seq<char>)
    requires
        parts.len() > 0,
    ensures
        joined(parts, sep).len() + sep.len() == offset_of(parts, sep, parts.len() as int),
    decreases parts.len(),
{
    if parts.len() == 1 {
        reveal_with_fuel(offset_of, 2);
    } else {
        let before = parts.drop_last();
        joined_length(before, sep);
        offset_of_start(before, parts, sep, before.len() as int);
    }
}

proof fn part_of_start(start: Seq<char>, whole: Seq<char>, part: Seq<char>, at: int)
    requires
        stands_at(start, part, at),
        start.is_prefix_of(whole),
    ensures
        stands_at(whole, part, at),
{
    assert(whole.subrange(at, at + part.len()) =~= start.subrange(at, at + part.len())) by {
        assert(start =~= whole.subrange(0, start.len() as int));
    }
}

proof fn joined_part(parts: Seq<Seq<char>>, sep: Seq<char>, i: int)
    requires
        0 <= i < parts.len(),
    ensures
        stands_at(joined(parts, sep), parts[i], offset_of(parts, sep, i)),
        i < parts.len() - 1 ==> stands_at(
            joined(parts, sep),
            sep,
            offset_of(parts, sep, i) + parts[i].len(),
        ),
    decreases parts.len(),
{
    let whole = joined(parts, sep);
    let n = parts.len() as int;
    if n == 1 {
        assert(whole.subrange(0, whole.len() as int) =~= whole);
    } else {
        let before = parts.drop_last();
        let start = joined(before, sep);
        joined_length(before, sep);
        offset_of_start(before, parts, sep, n - 1);
        let at = offset_of(parts, sep, n - 1);
        assert(at == start.len() + sep.len());
        if i == n - 1 {
            assert(whole.subrange(at, at + parts[i].len()) =~= parts[i]);
        } else {
            offset_of_start(before, parts, sep, i);
            assert(before[i] == parts[i]);
            joined_part(before, sep, i);
            assert(whole.subrange(0, start.len() as int) =~= start);
            part_of_start(start, whole, parts[i], offset_of(parts, sep, i));
            let end = offset_of(parts, sep, i) + parts[i].len();
            if i < n - 2 {
                part_of_start(start, whole, sep, end);
            } else {
                assert(end == start.len());
                assert(whole.subrange(end, end + sep.len()) =~= sep);
            }
        }
    }
}

/// Joining keeps every part whole, one behind another with the separator in
/// between, and adds nothing else.
pub proof fn joining_keeps_every_part(parts: Seq<Seq<char>>, sep: Seq<char>)
    ensures
        parts.len() == 0 ==> joined(parts, sep).len() == 0,
        parts.len() > 0 ==> joined(parts, sep).len() + sep.len() == offset_of(
            parts,
            sep,
            parts.len() as int,
        ),
        forall|i: int|
            0 <= i < parts.len() ==> stands_at(
                joined(parts, sep),
                #[trigger] parts[i],
                offset_of(parts, sep, i),
            ),
        forall|i: int|
            0 <= i < parts.len() - 1 ==> stands_at(
                joined(parts, sep),
                sep,
                offset_of(parts, sep, i) + (#[trigger] parts[i]).len(),
            ),
{
    if parts.len() > 0 {
        joined_length(parts, sep);
    }
    assert forall|i: int| 0 <= i < parts.len() implies stands_at(
        joined(parts, sep),
        #[trigger] parts[i],
        offset_of(parts, sep, i),
    ) by {
        joined_part(parts, sep, i);
    }
    assert forall|i: int| 0 <= i < parts.len() - 1 implies stands_at(
        joined(parts, sep),
        sep,
        offset_of(parts, sep, i) + (#[trigger] parts[i]).len(),
    ) by {
        joined_part(parts, sep, i);
    }
}

/// Two lists of parts are joined by joining each and putting the separator in between.
pub proof fn lists_are_joined(a: Seq<Seq<char>>, b: Seq<Seq<char>>, t: Seq<char>, sep: Seq<char>)
    requires
        a.len() > 0,
        b.len() > 0,
    ensures
        joined(seq![t], sep) == t,
        joined(a.push(t), sep) == joined(a, sep) + sep + t,
        joined(a + b, sep) == joined(a, sep) + sep + joined(b, sep),
    decreases b.len(),
{
    assert(a.push(t).drop_last() =~= a);
    assert((a + b).drop_last() =~= a + b.drop_last());
    if b.len() == 1 {
        assert(a + b.drop_last() =~= a);
        assert(joined(b, sep) == b[0]);
    } else {
        lists_are_joined(a, b.drop_last(), t, sep);
        assert(joined(a, sep) + sep + (joined(b.drop_last(), sep) + sep + b.last()) =~= joined(
            a,
            sep,
        ) + sep + joined(b.drop_last(), sep) + sep + b.last());
    }
}

/// A text is cut into lines before each line feed, or before the carriage
/// return in front of it.
pub proof fn lines_are_cut_at_line_feeds(line: Seq<char>, rest: Seq<char>)
    requires
        forall|i: int| 0 <= i < line.len() ==> line[i] != '\n',
    ensures
        lines_of(Seq::empty()) == Seq::<Seq<char>>::empty(),
        line.len() > 0 ==> lines_of(line) == seq![line],
        !(line.len() > 0 && line.last() == '\r') ==> lines_of(line + seq!['\n'] + rest) == seq![
            line,
        ] + lines_of(rest),
        lines_of(line + seq!['\r', '\n'] + rest) == seq![line] + lines_of(rest),
{
    position_bounds(line, '\n');
    first_line(line, rest);
    let with_cr = line.push('\r');
    first_line(with_cr, rest);
    assert(with_cr.drop_last() =~= line);
    assert(line + seq!['\r', '\n'] + rest =~= with_cr + seq!['\n'] + rest);
}

proof fn first_line(line: Seq<char>, rest: Seq<char>)
    requires
        forall|i: int| 0 <= i < line.len() ==> line[i] != '\n',
    ensures
        lines_of(line + seq!['\n'] + rest) == seq![
            if line.len() > 0 && line.last() == '\r' {
                line.drop_last()
            } else {
                line
            },
        ] + lines_of(rest),
{
    let text = line + seq!['\n'] + rest;
    let end = line.len() as int;
    position_bounds(text, '\n');
    assert(text[end] == '\n');
    assert forall|i: int| 0 <= i < end implies text[i] != '\n' by {
        assert(text[i] == line[i]);
    }
    assert(position(text, '\n') == end);
    assert(text.take(end) =~= line);
    assert(text.skip(end + 1) =~= rest);
}

/// The number that a row of decimal digits spells.
pub open spec fn number_spelled(s: Seq<char>) -> int
    decreases s.len(),
{
    if s.len() == 0 {
        0
    } else {
        10 * number_spelled(s.drop_last()) + (s.last() as int - 48)
    }
}

/// A number in decimal spells that number, in digits, without a zero in front.
pub proof fn decimal_spells_the_number(n: nat)
    ensures
        number_spelled(decimal(n)) == n,
        decimal(n).len() > 0,
        forall|i: int| 0 <= i < decimal(n).len() ==> 48 <= #[trigger] decimal(n)[i] as int <= 57,
        decimal(n).len() > 1 ==> decimal(n)[0] as int != 48,
    decreases n,
{
    let s = decimal(n);
    if n < 10 {
        assert(s.drop_last() =~= Seq::<char>::empty());
        reveal_with_fuel(number_spelled, 2);
    } else {
        let before = decimal(n / 10);
        decimal_spells_the_number(n / 10);
        assert(s.drop_last() =~= before);
        assert(s.last() == digit(n % 10));
        assert forall|i: int| 0 <= i < s.len() implies 48 <= #[trigger] s[i] as int <= 57 by {
            if i < before.len() {
                assert(s[i] == before[i]);
            }
        }
        assert(s[0] == before[0]);
        if before.len() == 1 {
            assert(before.drop_last() =~= Seq::<char>::empty());
            reveal_with_fuel(number_spelled, 2);
            assert(before.last() == before[0]);
            assert(n / 10 > 0);
        }
    }
}

proof fn zero_in_front(s: Seq<char>)
    ensures
        number_spelled(seq!['0'] + s) == number_spelled(s),
    decreases s.len(),
{
    let longer = seq!['0'] + s;
    if s.len() == 0 {
        assert(longer.drop_last() =~= Seq::<char>::empty());
        reveal_with_fuel(number_spelled, 2);
    } else {
        assert(longer.drop_last() =~= seq!['0'] + s.drop_last());
        zero_in_front(s.drop_last());
    }
}

proof fn padding_spells(s: Seq<char>, width: nat)
    ensures
        number_spelled(crate::secret::zero_padded(s, width)) == number_spelled(s),
    decreases width - s.len(),
{
    if s.len() < width {
        zero_in_front(s);
        padding_spells(seq!['0'] + s, width);
    }
}

/// The PIN of a number spells that number in six digits.
pub proof fn pin_spells_its_number(n: nat)
    requires
        n < 1_000_000,
    ensures
        number_spelled(pin_of(n)) == n,
        pin_of(n).len() == 6,
        forall|i: int| 0 <= i < 6 ==> 48 <= #[trigger] pin_of(n)[i] as int <= 57,
        is_pin(pin_of(n)),
{
    decimal_spells_the_number(n);
    padding_spells(decimal(n), 6);
    crate::secret::pins_are_six_digits(n, n);
}

/// What can be a PIN spells a number below one million in six digits.
pub proof fn pins_are_numbers(s: Seq<char>)
    requires
        is_pin(s),
    ensures
        s.len() == 6,
        0 <= number_spelled(s) < 1_000_000,
        forall|i: int| 0 <= i < 6 ==> 48 <= #[trigger] s[i] as int <= 57,
{
    let n = choose|n: nat| n < 1_000_000 && s == #[trigger] pin_of(n);
    pin_spells_its_number(n);
}

/// A token is thirty-two ASCII letters and digits.
pub proof fn tokens_are_letters_and_digits(s: Seq<char>)
    ensures
        is_token(s) <==> s.len() == 32 && forall|i: int|
            0 <= i < s.len() ==> (48 <= #[trigger] s[i] as int <= 57 || 65 <= s[i] as int <= 90
                || 97 <= s[i] as int <= 122),
{
}

/// Two characters that are the same letter in either case.
pub open spec fn same_letter(a: char, b: char) -> bool {
    ||| a == b
    ||| 65 <= a as int <= 90 && b as int == a as int + 32
    ||| 65 <= b as int <= 90 && a as int == b as int + 32
}

/// Two texts are the same but for case exactly where they are so letter by letter.
pub proof fn case_is_told_letter_by_letter(a: Seq<char>, b: Seq<char>)
    ensures
        same_but_case(a, b) <==> a.len() == b.len() && forall|i: int|
            0 <= i < a.len() ==> same_letter(#[trigger] a[i], b[i]),
{
    let lower = |c: char| crate::text::ascii_lower(c);
    let x = a.map_values(lower);
    let y = b.map_values(lower);
    if same_but_case(a, b) {
        assert(x.len() == y.len());
        assert forall|i: int| 0 <= i < a.len() implies same_letter(#[trigger] a[i], b[i]) by {
            assert(x[i] == y[i]);
        }
    }
    if a.len() == b.len() && forall|i: int|
        0 <= i < a.len() ==> same_letter(#[trigger] a[i], b[i]) {
        assert forall|i: int| 0 <= i < a.len() implies x[i] == y[i] by {
            assert(same_letter(a[i], b[i]));
        }
        assert(x =~= y);
    }
}

} // verus!
