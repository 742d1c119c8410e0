//! GRUB menus as they are nested, and what is read of them.

use vstd::prelude::*;

use crate::grub::{
    after_char, after_line, after_lines, after_plain, boot_entries, declares, is_quote, kind_of,
    opened, title_of, title_unique, titles, unread, LineKind, Reading,
};
use crate::text::{
    is_white, joined, lines_of, position, position_bounds, trim_end, trim_start, trimmed,
    without_cr,
};

verus! {

/// The opening braces in the text, less the closing ones.
pub open spec fn brace_level(s: Seq<char>) -> int
    decreases s.len(),
{
    if s.len() == 0 {
        0
    } else {
        brace_level(s.drop_last()) + if s.last() == '{' {
            1int
        } else if s.last() == '}' {
            -1int
        } else {
            0int
        }
    }
}

/// Whether the braces of the text, counted on from `level`, never fall below zero.
pub open spec fn never_below(s: Seq<char>, level: int) -> bool {
    forall|k: int| 0 <= k <= s.len() ==> level + brace_level(#[trigger] s.take(k)) >= 0
}

/// Whether every brace that closes has one before it that opens, and none stays open.
pub open spec fn balanced(s: Seq<char>) -> bool {
    brace_level(s) == 0 && never_below(s, 0)
}

pub open spec fn all_white(s: Seq<char>) -> bool {
    forall|i: int| 0 <= i < s.len() ==> is_white(#[trigger] s[i])
}

/// A line that declares an entry or a submenu, without its keyword: what stands
/// before the keyword, between it and the title, the quotes, and what follows.
pub struct Header {
    pub indent: Seq<char>,
    pub gap: Seq<char>,
    pub open: char,
    pub title: Seq<char>,
    pub close: char,
    pub rest: Seq<char>,
}

/// The line that declares what `keyword` stands for.
pub open spec fn header_line(keyword: Seq<char>, h: Header) -> Seq<char> {
    h.indent + keyword + h.gap + seq![h.open] + h.title + seq![h.close] + h.rest
}

/// Whether the header can be written: white space around the keyword, a title
/// in quotes, and anything behind it on the line as long as a brace opens there.
pub open spec fn is_header(h: Header) -> bool {
    &&& all_white(h.indent) && !h.indent.contains('\n')
    &&& h.gap.len() > 0 && all_white(h.gap) && !h.gap.contains('\n')
    &&& is_quote(h.open) && is_quote(h.close)
    &&& h.title.len() > 0 && !h.title.contains('\n')
    &&& forall|i: int| 0 <= i < h.title.len() ==> !is_quote(#[trigger] h.title[i])
    &&& h.rest.contains('{') && !h.rest.contains('\n')
}

/// A piece of a menu, as a GRUB configuration nests them.
pub enum MenuItem {
    /// Command lines.
    Commands(Seq<Seq<char>>),
    /// A boot entry: its header, its commands and its last line.
    Entry(Header, Seq<Seq<char>>, Seq<char>),
    /// A submenu: its header, what it holds and its last line.
    Submenu(Header, Seq<MenuItem>, Seq<char>),
}

/// Whether the lines are commands: they declare nothing, and the braces in them
/// together are balanced.
pub open spec fn are_commands(lines: Seq<Seq<char>>) -> bool {
    &&& forall|k: int|
        0 <= k < lines.len() ==> !(#[trigger] lines[k]).contains('\n') && kind_of(
            trimmed(lines[k]),
        ) is Plain
    &&& balanced(as_text(lines))
}

/// Whether the line ends a block: a closing brace with white space around it.
pub open spec fn is_end(line: Seq<char>) -> bool {
    trimmed(line) == "}"@ && !line.contains('\n')
}

/// Whether the items can be written.
pub open spec fn can_write(items: Seq<MenuItem>) -> bool
    decreases items,
{
    forall|i: int|
        0 <= i < items.len() ==> match #[trigger] items[i] {
            MenuItem::Commands(lines) => are_commands(lines),
            MenuItem::Entry(h, commands, end) => is_header(h) && are_commands(commands) && is_end(
                end,
            ),
            MenuItem::Submenu(h, inner, end) => is_header(h) && can_write(inner) && is_end(end),
        }
}

/// The lines of the items, as a GRUB configuration holds them.
pub open spec fn written(items: Seq<MenuItem>) -> Seq<Seq<char>>
    decreases items,
{
    if items.len() == 0 {
        Seq::empty()
    } else {
        written(items.drop_last()) + match items.last() {
            MenuItem::Commands(lines) => lines,
            MenuItem::Entry(h, commands, end) => seq![header_line("menuentry"@, h)] + commands
                + seq![end],
            MenuItem::Submenu(h, inner, end) => seq![header_line("submenu"@, h)] + written(inner)
                + seq![end],
        }
    }
}

/// The lines one after another, each with a line feed.
pub open spec fn as_text(lines: Seq<Seq<char>>) -> Seq<char>
    decreases lines.len(),
{
    if lines.len() == 0 {
        Seq::empty()
    } else {
        lines[0].push('\n') + as_text(lines.drop_first())
    }
}

/// The path of every entry among the items, below the submenus `parents`.
pub open spec fn paths(parents: Seq<Seq<char>>, items: Seq<MenuItem>) -> Seq<Seq<char>>
    decreases items,
{
    if items.len() == 0 {
        Seq::empty()
    } else {
        paths(parents, items.drop_last()) + match items.last() {
            MenuItem::Commands(_) => Seq::empty(),
            MenuItem::Entry(h, _, _) => seq![joined(parents.push(h.title), ">"@)],
            MenuItem::Submenu(h, inner, _) => paths(parents.push(h.title), inner),
        }
    }
}

/// Whether the text is a menu of its own: it ends with a line, its braces are
/// balanced, and each line that declares something opens one brace.
pub open spec fn is_whole_menu(text: Seq<char>) -> bool {
    &&& text.len() > 0 ==> text.last() == '\n'
    &&& balanced(text)
    &&& declares_plainly(lines_of(text))
}

/// Whether each line that declares something opens one brace more than it closes.
pub open spec fn declares_plainly(lines: Seq<Seq<char>>) -> bool {
    forall|i: int|
        0 <= i < lines.len() ==> kind_of(trimmed(#[trigger] lines[i])) is Plain || brace_level(
            lines[i],
        ) == 1
}

/// Lines are read one after another: the ones, and then the others.
pub proof fn after_lines_sum(r: Reading, a: Seq<Seq<char>>, b: Seq<Seq<char>>)
    ensures
        after_lines(r, a + b) == after_lines(after_lines(r, a), b),
    decreases b.len(),
{
    if b.len() == 0 {
        assert(a + b =~= a);
    } else {
        assert((a + b).drop_last() =~= a + b.drop_last());
        after_lines_sum(r, a, b.drop_last());
    }
}

proof fn after_one_line(r: Reading, line: Seq<char>)
    ensures
        after_lines(r, seq![line]) == after_line(r, line),
{
    assert(seq![line].drop_last() =~= Seq::<Seq<char>>::empty());
    reveal_with_fuel(after_lines, 2);
}

proof fn after_first_line(r: Reading, lines: Seq<Seq<char>>)
    requires
        lines.len() > 0,
    ensures
        after_lines(r, lines) == after_lines(after_line(r, lines[0]), lines.drop_first()),
{
    assert(lines =~= seq![lines[0]] + lines.drop_first());
    after_lines_sum(r, seq![lines[0]], lines.drop_first());
    after_one_line(r, lines[0]);
}

proof fn after_plain_sum(r: Reading, a: Seq<char>, b: Seq<char>)
    ensures
        after_plain(r, a + b) == after_plain(after_plain(r, a), b),
    decreases b.len(),
{
    if b.len() == 0 {
        assert(a + b =~= a);
    } else {
        assert((a + b).drop_last() =~= a + b.drop_last());
        after_plain_sum(r, a, b.drop_last());
    }
}

proof fn after_one_char(r: Reading, c: char)
    ensures
        after_plain(r, seq![c]) == after_char(r, c),
{
    assert(seq![c].drop_last() =~= Seq::<char>::empty());
    reveal_with_fuel(after_plain, 2);
}

/// White space at the ends of a line does not matter to its braces.
proof fn plain_trimmed(r: Reading, line: Seq<char>)
    ensures
        after_plain(r, trimmed(line)) == after_plain(r, line),
{
    plain_trim_start(r, line);
    plain_trim_end(r, trim_start(line));
}

proof fn plain_trim_start(r: Reading, line: Seq<char>)
    ensures
        after_plain(r, trim_start(line)) == after_plain(r, line),
    decreases line.len(),
{
    if line.len() > 0 && is_white(line[0]) {
        plain_trim_start(r, line.drop_first());
        assert(line =~= seq![line[0]] + line.drop_first());
        after_plain_sum(r, seq![line[0]], line.drop_first());
        after_one_char(r, line[0]);
    }
}

proof fn plain_trim_end(r: Reading, line: Seq<char>)
    ensures
        after_plain(r, trim_end(line)) == after_plain(r, line),
    decreases line.len(),
{
    if line.len() > 0 && is_white(line.last()) {
        plain_trim_end(r, line.drop_last());
    }
}

/// White space at the end of a line does not matter.
proof fn trimmed_end(s: Seq<char>)
    requires
        s.len() > 0,
        is_white(s.last()),
    ensures
        trimmed(s.drop_last()) == trimmed(s),
    decreases s.len(),
{
    if is_white(s[0]) {
        if s.len() == 1 {
            assert(s.drop_last() =~= s.drop_first());
        } else {
            trimmed_end(s.drop_first());
            assert(s.drop_first().drop_last() =~= s.drop_last().drop_first());
        }
    }
}

/// A carriage return at the end of a line does not matter.
proof fn line_without_cr(r: Reading, line: Seq<char>)
    ensures
        trimmed(without_cr(line)) == trimmed(line),
        after_line(r, without_cr(line)) == after_line(r, line),
{
    if line.len() > 0 && line.last() == '\r' {
        trimmed_end(line);
    }
}

/// A text of lines is read line by line.
pub proof fn reading_of_text(r: Reading, lines: Seq<Seq<char>>)
    requires
        forall|k: int| 0 <= k < lines.len() ==> !(#[trigger] lines[k]).contains('\n'),
    ensures
        after_lines(r, lines_of(as_text(lines))) == after_lines(r, lines),
    decreases lines.len(),
{
    if lines.len() == 0 {
        assert(lines_of(as_text(lines)) =~= lines);
    } else {
        let rest = lines.drop_first();
        let first = lines[0];
        let text = as_text(lines);
        let end = first.len() as int;
        assert forall|k: int| 0 <= k < rest.len() implies !(#[trigger] rest[k]).contains('\n') by {
            assert(rest[k] == lines[k + 1]);
        }
        line_end(text, end, first, as_text(rest));
        let read = lines_of(text);
        assert(read.drop_first() =~= lines_of(as_text(rest)));
        after_first_line(r, read);
        after_first_line(r, lines);
        line_without_cr(r, first);
        reading_of_text(after_line(r, first), rest);
    }
}

/// The first line of a text, and the lines behind it.
proof fn line_end(text: Seq<char>, end: int, first: Seq<char>, rest: Seq<char>)
    requires
        !first.contains('\n'),
        end == first.len(),
        text == first.push('\n') + rest,
    ensures
        lines_of(text) == seq![without_cr(first)] + lines_of(rest),
        position(text, '\n') == end,
{
    position_bounds(text, '\n');
    assert(text[end] == '\n');
    assert forall|i: int| 0 <= i < end implies text[i] != '\n' by {
        assert(text[i] == first[i]);
    }
    assert(position(text, '\n') == end);
    assert(text.take(end) =~= first);
    assert(text.skip(end + 1) =~= rest);
}

/// Command lines are read character by character.
proof fn reading_of_commands(r: Reading, lines: Seq<Seq<char>>)
    requires
        forall|k: int| 0 <= k < lines.len() ==> kind_of(trimmed(#[trigger] lines[k])) is Plain,
    ensures
        after_lines(r, lines) == after_plain(r, as_text(lines)),
    decreases lines.len(),
{
    if lines.len() > 0 {
        let rest = lines.drop_first();
        let first = lines[0];
        assert forall|k: int| 0 <= k < rest.len() implies kind_of(
            trimmed(#[trigger] rest[k]),
        ) is Plain by {
            assert(rest[k] == lines[k + 1]);
        }
        let next = after_line(r, first);
        after_first_line(r, lines);
        plain_trimmed(r, first);
        assert(first.push('\n').drop_last() =~= first);
        assert(after_plain(r, first.push('\n')) == next);
        after_plain_sum(r, first.push('\n'), as_text(rest));
        reading_of_commands(next, rest);
    }
}

/// Whether the reading stands inside the innermost of its submenus.
spec fn inside(r: Reading) -> bool {
    &&& r.parents.len() == r.depths.len()
    &&& r.depths.len() > 0 ==> r.depth > r.depths.last()
}

/// Braces that open before they close end no submenu.
proof fn braces_of_commands(r: Reading, s: Seq<char>)
    requires
        inside(r),
        never_below(s, 0),
    ensures
        after_plain(r, s) == (Reading { depth: r.depth + brace_level(s), ..r }),
    decreases s.len(),
{
    if s.len() > 0 {
        let before = s.drop_last();
        assert forall|k: int| 0 <= k <= before.len() implies brace_level(#[trigger] before.take(k))
            >= 0 by {
            assert(before.take(k) =~= s.take(k));
        }
        braces_of_commands(r, before);
        assert(s.take(s.len() as int) =~= s);
    }
}

proof fn commands(r: Reading, lines: Seq<Seq<char>>)
    requires
        inside(r),
        are_commands(lines),
    ensures
        after_lines(r, lines) == r,
{
    assert forall|k: int| 0 <= k < lines.len() implies kind_of(
        trimmed(#[trigger] lines[k]),
    ) is Plain by {
        assert(!lines[k].contains('\n'));
    }
    reading_of_commands(r, lines);
    braces_of_commands(r, as_text(lines));
}

/// The text between the white space at its ends.
proof fn trimmed_is_middle(s: Seq<char>, n: int, p: int) -> (m: int)
    requires
        0 <= n <= p < s.len(),
        forall|i: int| 0 <= i < n ==> is_white(#[trigger] s[i]),
        !is_white(s[n]),
        !is_white(s[p]),
    ensures
        p < m <= s.len(),
        trimmed(s) == s.subrange(n, m),
    decreases s.len(),
{
    if n > 0 {
        assert(is_white(s[0]));
        let t = s.drop_first();
        assert forall|i: int| 0 <= i < n - 1 implies is_white(#[trigger] t[i]) by {
            assert(t[i] == s[i + 1]);
        }
        let m = trimmed_is_middle(t, n - 1, p - 1);
        assert(t.subrange(n - 1, m) =~= s.subrange(n, m + 1));
        m + 1
    } else {
        let m = end_of_text(s, p);
        assert(s.take(m) =~= s.subrange(0, m));
        m
    }
}

proof fn end_of_text(s: Seq<char>, p: int) -> (m: int)
    requires
        0 <= p < s.len(),
        !is_white(s[p]),
    ensures
        p < m <= s.len(),
        trim_end(s) == s.take(m),
    decreases s.len(),
{
    if is_white(s.last()) {
        let m = end_of_text(s.drop_last(), p);
        assert(s.drop_last().take(m) =~= s.take(m));
        m
    } else {
        assert(s.take(s.len() as int) =~= s);
        s.len() as int
    }
}

proof fn header_title(keyword: Seq<char>, h: Header)
    requires
        keyword.len() > 0,
        !is_white(keyword[0]),
        is_header(h),
    ensures
        title_of(keyword, trimmed(header_line(keyword, h))) == Some(h.title),
        opened(trimmed(header_line(keyword, h))) == 1,
        trimmed(header_line(keyword, h)).len() > 0,
        trimmed(header_line(keyword, h))[0] == keyword[0],
{
    let line = header_line(keyword, h);
    let n = h.indent.len() as int;
    let open = n + keyword.len() + h.gap.len();
    let close = open + 1 + h.title.len();
    let brace = choose|i: int| 0 <= i < h.rest.len() && h.rest[i] == '{';
    let p = close + 1 + brace;
    assert(line[n] == keyword[0]);
    assert(line[p] == '{');
    assert(line[open] == h.open);
    assert(line[close] == h.close);
    assert forall|i: int| 0 <= i < n implies is_white(#[trigger] line[i]) by {
        assert(line[i] == h.indent[i]);
    }
    let m = trimmed_is_middle(line, n, p);
    let t = trimmed(line);
    assert(t == line.subrange(n, m));
    assert(t[p - n] == '{');
    assert(t.subrange(0, 0 + keyword.len() as int) =~= keyword);
    assert forall|i: int| keyword.len() <= i < open - n implies is_white(#[trigger] t[i]) by {
        assert(t[i] == h.gap[i - keyword.len()]);
    }
    assert forall|i: int| open - n < i < close - n implies !is_quote(#[trigger] t[i]) by {
        assert(t[i] == h.title[i - (open - n) - 1]);
    }
    assert(declares(keyword, t, 0, open - n, close - n));
    assert(t.subrange(open - n + 1, close - n) =~= h.title);
    assert(titles(keyword, t, h.title));
    title_unique(keyword, t, h.title, title_of(keyword, t)->0);
}

proof fn other_keyword(keyword: Seq<char>, line: Seq<char>)
    requires
        keyword.len() > 0,
        line.len() > 0,
        !is_white(line[0]),
        line[0] != keyword[0],
    ensures
        title_of(keyword, line) is None,
{
    assert forall|t: Seq<char>| !titles(keyword, line, t) by {
        assert forall|s: int, o: int, c: int| !declares(keyword, line, s, o, c) by {
            if declares(keyword, line, s, o, c) {
                assert(line.subrange(s, s + keyword.len())[0] == line[s]);
            }
        }
    }
}

proof fn entry_header(h: Header)
    requires
        is_header(h),
    ensures
        kind_of(trimmed(header_line("menuentry"@, h))) == LineKind::Entry(h.title),
        opened(trimmed(header_line("menuentry"@, h))) == 1,
{
    reveal_strlit("menuentry");
    reveal_strlit("submenu");
    header_title("menuentry"@, h);
    other_keyword("submenu"@, trimmed(header_line("menuentry"@, h)));
}

proof fn submenu_header(h: Header)
    requires
        is_header(h),
    ensures
        kind_of(trimmed(header_line("submenu"@, h))) == LineKind::Submenu(h.title),
        opened(trimmed(header_line("submenu"@, h))) == 1,
{
    reveal_strlit("submenu");
    header_title("submenu"@, h);
}

proof fn short_line_declares_nothing(keyword: Seq<char>, line: Seq<char>)
    requires
        line.len() <= 1,
    ensures
        title_of(keyword, line) is None,
{
    assert forall|t: Seq<char>| !titles(keyword, line, t) by {
        assert forall|s: int, o: int, c: int| !declares(keyword, line, s, o, c) by {}
    }
}

proof fn end_line(r: Reading, end: Seq<char>)
    requires
        is_end(end),
    ensures
        after_line(r, end) == after_char(r, '}'),
{
    reveal_strlit("}");
    let line = trimmed(end);
    assert(line =~= seq!['}']);
    short_line_declares_nothing("submenu"@, line);
    short_line_declares_nothing("menuentry"@, line);
    after_one_char(r, '}');
}

/// What a block does to the reading: its first line, its body, its last line.
proof fn block(
    before: Reading,
    first: Seq<char>,
    entered: Reading,
    body: Seq<Seq<char>>,
    read: Reading,
    end: Seq<char>,
)
    requires
        after_line(before, first) == entered,
        after_lines(entered, body) == read,
        is_end(end),
    ensures
        after_lines(before, seq![first] + body + seq![end]) == after_char(read, '}'),
{
    let last = seq![end];
    assert(seq![first] + body + last =~= seq![first] + (body + last));
    after_lines_sum(before, seq![first], body + last);
    after_one_line(before, first);
    after_lines_sum(entered, body, last);
    after_one_line(read, end);
    end_line(read, end);
}

proof fn entry_block(r: Reading, h: Header, body: Seq<Seq<char>>, end: Seq<char>)
    requires
        inside(r),
        is_header(h),
        are_commands(body),
        is_end(end),
    ensures
        after_lines(r, seq![header_line("menuentry"@, h)] + body + seq![end]) == (Reading {
            entries: r.entries.push(joined(r.parents.push(h.title), ">"@)),
            ..r
        }),
{
    let entered = Reading {
        entries: r.entries.push(joined(r.parents.push(h.title), ">"@)),
        depth: r.depth + 1,
        ..r
    };
    entry_header(h);
    commands(entered, body);
    block(r, header_line("menuentry"@, h), entered, body, entered, end);
}

/// The reading inside a submenu.
spec fn entered(r: Reading, title: Seq<char>) -> Reading {
    Reading {
        parents: r.parents.push(title),
        depths: r.depths.push(r.depth),
        depth: r.depth + 1,
        ..r
    }
}

proof fn submenu_block(
    r: Reading,
    h: Header,
    body: Seq<Seq<char>>,
    found: Seq<Seq<char>>,
    end: Seq<char>,
)
    requires
        inside(r),
        is_header(h),
        is_end(end),
        after_lines(entered(r, h.title), body) == (Reading {
            entries: r.entries + found,
            ..entered(r, h.title)
        }),
    ensures
        after_lines(r, seq![header_line("submenu"@, h)] + body + seq![end]) == (Reading {
            entries: r.entries + found,
            ..r
        }),
{
    let read = Reading { entries: r.entries + found, ..entered(r, h.title) };
    submenu_header(h);
    block(r, header_line("submenu"@, h), entered(r, h.title), body, read, end);
    assert(read.parents.drop_last() =~= r.parents);
    assert(read.depths.drop_last() =~= r.depths);
}

proof fn reading_of_items(r: Reading, items: Seq<MenuItem>)
    requires
        can_write(items),
        inside(r),
    ensures
        after_lines(r, written(items)) == (Reading {
            entries: r.entries + paths(r.parents, items),
            ..r
        }),
    decreases items,
{
    if items.len() == 0 {
        assert(r.entries + paths(r.parents, items) =~= r.entries);
    } else {
        let rest = items.drop_last();
        assert forall|i: int| 0 <= i < rest.len() implies rest[i] == items[i] by {}
        assert(can_write(rest));
        reading_of_items(r, rest);
        let before = Reading { entries: r.entries + paths(r.parents, rest), ..r };
        let item = items[items.len() - 1];
        let goal = r.entries + paths(r.parents, items);
        match item {
            MenuItem::Commands(lines) => {
                after_lines_sum(r, written(rest), lines);
                commands(before, lines);
                assert(goal =~= before.entries);
            },
            MenuItem::Entry(h, body, end) => {
                after_lines_sum(
                    r,
                    written(rest),
                    seq![header_line("menuentry"@, h)] + body + seq![end],
                );
                entry_block(before, h, body, end);
                assert(goal =~= before.entries.push(joined(r.parents.push(h.title), ">"@)));
            },
            MenuItem::Submenu(h, inner, end) => {
                after_lines_sum(
                    r,
                    written(rest),
                    seq![header_line("submenu"@, h)] + written(inner) + seq![end],
                );
                reading_of_items(entered(before, h.title), inner);
                let found = paths(r.parents.push(h.title), inner);
                submenu_block(before, h, written(inner), found, end);
                assert(goal =~= before.entries + found);
            },
        }
    }
}

spec fn are_lines(lines: Seq<Seq<char>>) -> bool {
    forall|k: int| 0 <= k < lines.len() ==> !(#[trigger] lines[k]).contains('\n')
}

proof fn header_is_one_line(keyword: Seq<char>, h: Header)
    requires
        !keyword.contains('\n'),
        is_header(h),
    ensures
        !header_line(keyword, h).contains('\n'),
{
    no_line_feed(h.indent, keyword);
    no_line_feed(h.indent + keyword, h.gap);
    no_line_feed(h.indent + keyword + h.gap, seq![h.open]);
    no_line_feed(h.indent + keyword + h.gap + seq![h.open], h.title);
    no_line_feed(h.indent + keyword + h.gap + seq![h.open] + h.title, seq![h.close]);
    no_line_feed(h.indent + keyword + h.gap + seq![h.open] + h.title + seq![h.close], h.rest);
}

proof fn no_line_feed(a: Seq<char>, b: Seq<char>)
    requires
        !a.contains('\n'),
        !b.contains('\n'),
    ensures
        !(a + b).contains('\n'),
{
    assert forall|i: int| 0 <= i < (a + b).len() implies (a + b)[i] != '\n' by {
        if i < a.len() {
            assert((a + b)[i] == a[i]);
        } else {
            assert((a + b)[i] == b[i - a.len()]);
        }
    }
}

proof fn block_lines(first: Seq<char>, body: Seq<Seq<char>>, end: Seq<char>)
    requires
        !first.contains('\n'),
        are_lines(body),
        is_end(end),
    ensures
        are_lines(seq![first] + body + seq![end]),
{
}

proof fn written_lines(items: Seq<MenuItem>)
    requires
        can_write(items),
    ensures
        are_lines(written(items)),
    decreases items,
{
    if items.len() > 0 {
        let rest = items.drop_last();
        assert forall|i: int| 0 <= i < rest.len() implies rest[i] == items[i] by {}
        assert(can_write(rest));
        written_lines(rest);
        let item = items[items.len() - 1];
        reveal_strlit("menuentry");
        reveal_strlit("submenu");
        match item {
            MenuItem::Commands(lines) => {},
            MenuItem::Entry(h, body, end) => {
                header_is_one_line("menuentry"@, h);
                block_lines(header_line("menuentry"@, h), body, end);
            },
            MenuItem::Submenu(h, inner, end) => {
                header_is_one_line("submenu"@, h);
                written_lines(inner);
                block_lines(header_line("submenu"@, h), written(inner), end);
            },
        }
    }
}

/// Reading back a menu that was written down gives the path of each of its
/// entries, in order: a closing brace always ends the block that it closes, so
/// an entry is listed below exactly the submenus that enclose it.
pub proof fn entries_of_written_menu(items: Seq<MenuItem>)
    requires
        can_write(items),
    ensures
        boot_entries(as_text(written(items))) == paths(Seq::empty(), items),
{
    written_lines(items);
    reading_of_text(unread(), written(items));
    reading_of_items(unread(), items);
    assert(unread().entries + paths(Seq::empty(), items) =~= paths(Seq::empty(), items));
}

/// Whether the numbers grow.
spec fn growing(q: Seq<int>) -> bool {
    forall|i: int, j: int| 0 <= i < j < q.len() ==> q[i] < q[j]
}

/// Whether the submenus of the reading were declared at growing depths, and
/// none at the depth that is reached.
spec fn nested(r: Reading) -> bool {
    inside(r) && growing(r.depths)
}

/// Whether, besides, no submenu was declared below depth zero.
spec fn well_nested(r: Reading) -> bool {
    nested(r) && forall|i: int| 0 <= i < r.depths.len() ==> #[trigger] r.depths[i] >= 0
}

proof fn nesting_after_plain(r: Reading, s: Seq<char>)
    requires
        well_nested(r),
        never_below(s, r.depth),
    ensures
        well_nested(after_plain(r, s)),
        after_plain(r, s).depth == r.depth + brace_level(s),
    decreases s.len(),
{
    if s.len() > 0 {
        let before = s.drop_last();
        assert forall|k: int| 0 <= k <= before.len() implies r.depth + brace_level(
            #[trigger] before.take(k),
        ) >= 0 by {
            assert(before.take(k) =~= s.take(k));
        }
        nesting_after_plain(r, before);
        assert(s.take(s.len() as int) =~= s);
    }
}

proof fn level_of_sum(a: Seq<char>, b: Seq<char>)
    ensures
        brace_level(a + b) == brace_level(a) + brace_level(b),
    decreases b.len(),
{
    if b.len() == 0 {
        assert(a + b =~= a);
    } else {
        assert((a + b).drop_last() =~= a + b.drop_last());
        level_of_sum(a, b.drop_last());
    }
}

/// A line without its carriage return has the same braces.
proof fn level_without_cr(line: Seq<char>)
    ensures
        brace_level(without_cr(line)) == brace_level(line),
{
}

proof fn opens_a_brace(s: Seq<char>)
    requires
        brace_level(s) > 0,
    ensures
        s.contains('{'),
    decreases s.len(),
{
    if s.len() > 0 {
        if s.last() == '{' {
            assert(s[s.len() - 1] == '{');
        } else {
            opens_a_brace(s.drop_last());
            let i = choose|i: int| 0 <= i < s.drop_last().len() && s.drop_last()[i] == '{';
            assert(s[i] == '{');
        }
    }
}

proof fn level_of_trimmed(s: Seq<char>)
    ensures
        brace_level(trimmed(s)) == brace_level(s),
{
    level_of_trim_start(s);
    level_of_trim_end(trim_start(s));
}

proof fn level_of_trim_start(s: Seq<char>)
    ensures
        brace_level(trim_start(s)) == brace_level(s),
    decreases s.len(),
{
    if s.len() > 0 && is_white(s[0]) {
        level_of_trim_start(s.drop_first());
        assert(s =~= seq![s[0]] + s.drop_first());
        level_of_sum(seq![s[0]], s.drop_first());
        assert(seq![s[0]].drop_last() =~= Seq::<char>::empty());
        reveal_with_fuel(brace_level, 2);
    }
}

proof fn level_of_trim_end(s: Seq<char>)
    ensures
        brace_level(trim_end(s)) == brace_level(s),
    decreases s.len(),
{
    if s.len() > 0 && is_white(s.last()) {
        level_of_trim_end(s.drop_last());
    }
}

proof fn nesting_after_line(r: Reading, line: Seq<char>)
    requires
        well_nested(r),
        r.depth >= 0,
        never_below(line, r.depth),
        kind_of(trimmed(line)) is Plain || brace_level(line) == 1,
    ensures
        well_nested(after_line(r, line)),
        after_line(r, line).depth == r.depth + brace_level(line),
{
    if kind_of(trimmed(line)) is Plain {
        plain_trimmed(r, line);
        nesting_after_plain(r, line);
    } else {
        level_of_trimmed(line);
        opens_a_brace(trimmed(line));
    }
}

proof fn nesting_after_text(r: Reading, text: Seq<char>)
    requires
        well_nested(r),
        text.len() > 0 ==> text.last() == '\n',
        declares_plainly(lines_of(text)),
        never_below(text, r.depth),
    ensures
        well_nested(after_lines(r, lines_of(text))),
        after_lines(r, lines_of(text)).depth == r.depth + brace_level(text),
    decreases text.len(),
{
    assert(text.take(0) =~= Seq::<char>::empty());
    if text.len() > 0 {
        let end = position(text, '\n');
        position_bounds(text, '\n');
        assert(text[text.len() - 1] == '\n');
        let first = text.take(end);
        let rest = text.skip(end + 1);
        let start = text.take(end + 1);
        let line = without_cr(first);
        let all = lines_of(text);
        assert(all[0] == line);
        assert(all.drop_first() =~= lines_of(rest));
        level_without_cr(first);
        assert(start.drop_last() =~= first);
        assert(text =~= start + rest);
        level_of_sum(start, rest);
        assert forall|k: int| 0 <= k <= line.len() implies r.depth + brace_level(
            #[trigger] line.take(k),
        ) >= 0 by {
            assert(line.take(k) =~= text.take(k));
        }
        nesting_after_line(r, line);
        let next = after_line(r, line);
        assert forall|k: int| 0 <= k <= rest.len() implies next.depth + brace_level(
            #[trigger] rest.take(k),
        ) >= 0 by {
            assert(text.take(end + 1 + k) =~= start + rest.take(k));
            level_of_sum(start, rest.take(k));
        }
        assert forall|i: int| 0 <= i < lines_of(rest).len() implies kind_of(
            trimmed(#[trigger] lines_of(rest)[i]),
        ) is Plain || brace_level(lines_of(rest)[i]) == 1 by {
            assert(lines_of(rest)[i] == all[i + 1]);
        }
        if rest.len() > 0 {
            assert(rest.last() == text.last());
        }
        nesting_after_text(next, rest);
        after_first_line(r, all);
    }
}

/// The entries met before do not matter to what is read next.
proof fn entries_are_added(e: Seq<Seq<char>>, r: Reading, lines: Seq<Seq<char>>)
    ensures
        after_lines(Reading { entries: e + r.entries, ..r }, lines) == (Reading {
            entries: e + after_lines(r, lines).entries,
            ..after_lines(r, lines)
        }),
    decreases lines.len(),
{
    if lines.len() > 0 {
        entries_are_added(e, r, lines.drop_last());
        let at = after_lines(r, lines.drop_last());
        let line = trimmed(lines.last());
        match kind_of(line) {
            LineKind::Submenu(_) => {},
            LineKind::Entry(title) => {
                let path = joined(at.parents.push(title), ">"@);
                assert((e + at.entries).push(path) =~= e + at.entries.push(path));
            },
            LineKind::Plain => {
                entries_beside_braces(e, at, line);
            },
        }
    }
}

proof fn entries_beside_braces(e: Seq<Seq<char>>, r: Reading, s: Seq<char>)
    ensures
        after_plain(Reading { entries: e + r.entries, ..r }, s) == (Reading {
            entries: e + after_plain(r, s).entries,
            ..after_plain(r, s)
        }),
    decreases s.len(),
{
    if s.len() > 0 {
        entries_beside_braces(e, r, s.drop_last());
    }
}

/// A text behind whole lines has its own lines behind theirs.
pub proof fn lines_of_sum(a: Seq<char>, b: Seq<char>)
    requires
        a.len() > 0 ==> a.last() == '\n',
    ensures
        lines_of(a + b) == lines_of(a) + lines_of(b),
    decreases a.len(),
{
    if a.len() == 0 {
        assert(a + b =~= b);
        assert(lines_of(a) + lines_of(b) =~= lines_of(b));
    } else {
        let end = position(a, '\n');
        position_bounds(a, '\n');
        assert(a[a.len() - 1] == '\n');
        let first = a.take(end);
        let rest = a.skip(end + 1);
        assert(!first.contains('\n')) by {
            assert forall|i: int| 0 <= i < first.len() implies first[i] != '\n' by {
                assert(first[i] == a[i]);
            }
        }
        assert(a =~= first.push('\n') + rest);
        assert(a + b =~= first.push('\n') + (rest + b));
        line_end(a, end, first, rest);
        line_end(a + b, end, first, rest + b);
        if rest.len() > 0 {
            assert(rest.last() == a.last());
        }
        lines_of_sum(rest, b);
        assert(lines_of(a + b) =~= lines_of(a) + lines_of(b));
    }
}

/// A menu of its own does not matter to what follows it: the entries of the two
/// texts together are those of the one and then those of the other.
pub proof fn whole_menus_stand_alone(a: Seq<char>, b: Seq<char>)
    requires
        is_whole_menu(a),
    ensures
        boot_entries(a + b) == boot_entries(a) + boot_entries(b),
{
    lines_of_sum(a, b);
    after_lines_sum(unread(), lines_of(a), lines_of(b));
    assert forall|k: int| 0 <= k <= a.len() implies unread().depth + brace_level(
        #[trigger] a.take(k),
    ) >= 0 by {}
    nesting_after_text(unread(), a);
    let end = after_lines(unread(), lines_of(a));
    if end.depths.len() > 0 {
        assert(end.depths[end.depths.len() - 1] >= 0);
    }
    assert(end.parents =~= unread().parents);
    assert(end.depths =~= unread().depths);
    assert(end.entries + unread().entries =~= end.entries);
    entries_are_added(end.entries, unread(), lines_of(b));
}

/// Whether each line that declares something opens one block: one brace more
/// opens than closes on it, and none closes that did not open on it.
pub open spec fn opens_blocks(lines: Seq<Seq<char>>) -> bool {
    forall|i: int|
        0 <= i < lines.len() ==> kind_of(trimmed(#[trigger] lines[i])) is Plain || opens_block(
            lines[i],
        )
}

/// Whether the line opens one block.
pub open spec fn opens_block(line: Seq<char>) -> bool {
    brace_level(line) == 1 && never_below(line, 0)
}

/// Whether line `s` declares a submenu whose block encloses line `k`: between
/// the two lines no brace closes that did not open there.
pub open spec fn encloses(lines: Seq<Seq<char>>, s: int, k: int) -> bool {
    &&& 0 <= s < k <= lines.len()
    &&& kind_of(trimmed(lines[s])) is Submenu
    &&& never_below(as_text(lines.subrange(s + 1, k)), 0)
}

/// The lines among the first `m` that declare a submenu around line `k`, in order.
pub open spec fn around(lines: Seq<Seq<char>>, m: int, k: int) -> Seq<int>
    decreases m,
{
    if m <= 0 {
        Seq::empty()
    } else if encloses(lines, m - 1, k) {
        around(lines, m - 1, k).push(m - 1)
    } else {
        around(lines, m - 1, k)
    }
}

/// The title of the submenu that the line declares.
pub open spec fn submenu_of(line: Seq<char>) -> Seq<char> {
    match kind_of(trimmed(line)) {
        LineKind::Submenu(title) => title,
        _ => Seq::empty(),
    }
}

/// The titles of the submenus around line `k`, the outermost first.
pub open spec fn titles_around(lines: Seq<Seq<char>>, k: int) -> Seq<Seq<char>> {
    around(lines, k, k).map_values(|s: int| submenu_of(lines[s]))
}

/// The path of each entry that the first `n` lines declare: the titles of the
/// submenus around its line, the outermost first, and its own.
pub open spec fn nested_paths(lines: Seq<Seq<char>>, n: int) -> Seq<Seq<char>>
    decreases n,
{
    if n <= 0 {
        Seq::empty()
    } else {
        match kind_of(trimmed(lines[n - 1])) {
            LineKind::Entry(title) => nested_paths(lines, n - 1).push(
                joined(titles_around(lines, n - 1).push(title), ">"@),
            ),
            _ => nested_paths(lines, n - 1),
        }
    }
}

/// The braces of the lines before line `k`.
spec fn level_at(lines: Seq<Seq<char>>, k: int) -> int {
    brace_level(as_text(lines.take(k)))
}

/// The text of lines one after another is that of the ones and then of the others.
pub proof fn text_of_sum(a: Seq<Seq<char>>, b: Seq<Seq<char>>)
    ensures
        as_text(a + b) == as_text(a) + as_text(b),
    decreases a.len(),
{
    if a.len() == 0 {
        assert(a + b =~= b);
        assert(as_text(a) + as_text(b) =~= as_text(b));
    } else {
        assert((a + b).drop_first() =~= a.drop_first() + b);
        text_of_sum(a.drop_first(), b);
        assert(as_text(a + b) =~= as_text(a) + as_text(b));
    }
}

/// The text of lines with one more line at their end.
proof fn text_of_pushed(lines: Seq<Seq<char>>, line: Seq<char>)
    ensures
        as_text(lines.push(line)) == as_text(lines) + line.push('\n'),
        brace_level(as_text(lines.push(line))) == brace_level(as_text(lines)) + brace_level(line),
{
    let last = seq![line];
    assert(lines.push(line) =~= lines + last);
    text_of_sum(lines, last);
    assert(last.drop_first() =~= Seq::<Seq<char>>::empty());
    reveal_with_fuel(as_text, 2);
    assert(as_text(last) =~= line.push('\n'));
    assert(line.push('\n').drop_last() =~= line);
    level_of_sum(as_text(lines), line.push('\n'));
}

/// The braces between line `s`, which opens a block, and line `k`.
proof fn level_between(lines: Seq<Seq<char>>, s: int, k: int)
    requires
        0 <= s < k <= lines.len(),
    ensures
        level_at(lines, k) == level_at(lines, s) + brace_level(lines[s]) + brace_level(
            as_text(lines.subrange(s + 1, k)),
        ),
{
    assert(lines.take(k) =~= lines.take(s).push(lines[s]) + lines.subrange(s + 1, k));
    text_of_sum(lines.take(s).push(lines[s]), lines.subrange(s + 1, k));
    level_of_sum(as_text(lines.take(s).push(lines[s])), as_text(lines.subrange(s + 1, k)));
    text_of_pushed(lines.take(s), lines[s]);
}

/// A block encloses the next line where it encloses this one and this one does
/// not close it.
proof fn encloses_next(lines: Seq<Seq<char>>, s: int, k: int)
    requires
        0 <= s < k < lines.len(),
    ensures
        encloses(lines, s, k + 1) <==> encloses(lines, s, k) && never_below(
            lines[k],
            brace_level(as_text(lines.subrange(s + 1, k))),
        ),
{
    let line = lines[k];
    let before = as_text(lines.subrange(s + 1, k));
    let level = brace_level(before);
    let after = as_text(lines.subrange(s + 1, k + 1));
    assert(lines.subrange(s + 1, k + 1) =~= lines.subrange(s + 1, k).push(line));
    text_of_pushed(lines.subrange(s + 1, k), line);
    assert(after == before + line.push('\n'));
    if never_below(after, 0) {
        assert forall|m: int| 0 <= m <= before.len() implies 0 + brace_level(
            #[trigger] before.take(m),
        ) >= 0 by {
            assert(before.take(m) =~= after.take(m));
        }
        assert forall|m: int| 0 <= m <= line.len() implies level + brace_level(
            #[trigger] line.take(m),
        ) >= 0 by {
            assert(after.take(before.len() + m) =~= before + line.take(m));
            level_of_sum(before, line.take(m));
        }
    }
    if never_below(before, 0) && never_below(line, level) {
        assert forall|m: int| 0 <= m <= after.len() implies 0 + brace_level(
            #[trigger] after.take(m),
        ) >= 0 by {
            if m <= before.len() {
                assert(after.take(m) =~= before.take(m));
            } else if m - before.len() <= line.len() {
                assert(after.take(m) =~= before + line.take(m - before.len()));
                level_of_sum(before, line.take(m - before.len()));
            } else {
                assert(after.take(m) =~= after);
                assert(line.take(line.len() as int) =~= line);
            }
        }
    }
}

/// The lines around a line are fixed by which they are and by their order.
proof fn around_is(lines: Seq<Seq<char>>, m: int, k: int, q: Seq<int>)
    requires
        0 <= m,
        growing(q),
        forall|i: int| 0 <= i < q.len() ==> 0 <= #[trigger] q[i] < m && encloses(lines, q[i], k),
        forall|s: int| 0 <= s < m && #[trigger] encloses(lines, s, k) ==> q.contains(s),
    ensures
        around(lines, m, k) == q,
    decreases m,
{
    if m == 0 {
        if q.len() > 0 {
            assert(encloses(lines, q[0], k) && q[0] < m);
        }
        assert(q =~= Seq::empty());
    } else if encloses(lines, m - 1, k) {
        let i = choose|i: int| 0 <= i < q.len() && q[i] == m - 1;
        if i < q.len() - 1 {
            assert(q[i] < q[i + 1]);
        }
        let rest = q.drop_last();
        assert forall|j: int| 0 <= j < rest.len() implies 0 <= #[trigger] rest[j] < m - 1
            && encloses(lines, rest[j], k) by {
            assert(rest[j] == q[j]);
            assert(q[j] < q[q.len() - 1]);
        }
        assert forall|s: int| 0 <= s < m - 1 && #[trigger] encloses(
            lines,
            s,
            k,
        ) implies rest.contains(s) by {
            let j = choose|j: int| 0 <= j < q.len() && q[j] == s;
            assert(rest[j] == s);
        }
        around_is(lines, m - 1, k, rest);
        assert(rest.push(m - 1) =~= q);
    } else {
        assert forall|j: int| 0 <= j < q.len() implies 0 <= #[trigger] q[j] < m - 1 && encloses(
            lines,
            q[j],
            k,
        ) by {}
        around_is(lines, m - 1, k, q);
    }
}

/// Which lines are around a line.
proof fn around_has(lines: Seq<Seq<char>>, m: int, k: int)
    requires
        0 <= m,
    ensures
        growing(around(lines, m, k)),
        forall|i: int|
            0 <= i < around(lines, m, k).len() ==> 0 <= #[trigger] around(lines, m, k)[i] < m
                && encloses(lines, around(lines, m, k)[i], k),
        forall|s: int|
            0 <= s < m && #[trigger] encloses(lines, s, k) ==> around(lines, m, k).contains(s),
    decreases m,
{
    if m > 0 {
        around_has(lines, m - 1, k);
        let before = around(lines, m - 1, k);
        let q = around(lines, m, k);
        assert forall|s: int| 0 <= s < m && #[trigger] encloses(lines, s, k) implies q.contains(
            s,
        ) by {
            if s < m - 1 {
                let j = choose|j: int| 0 <= j < before.len() && before[j] == s;
                assert(q[j] == s);
            } else {
                assert(q[q.len() - 1] == s);
            }
        }
    }
}

/// A plain line ends the submenus whose depth its braces come back to.
proof fn ended_by_plain(r: Reading, s: Seq<char>) -> (left: int)
    requires
        nested(r),
    ensures
        0 <= left <= r.depths.len(),
        after_plain(r, s) == (Reading {
            parents: r.parents.take(left),
            depths: r.depths.take(left),
            depth: r.depth + brace_level(s),
            ..r
        }),
        nested(after_plain(r, s)),
        forall|i: int|
            0 <= i < r.depths.len() ==> (i < left <==> never_below(
                s,
                r.depth - #[trigger] r.depths[i] - 1,
            )),
    decreases s.len(),
{
    if s.len() == 0 {
        assert(r.parents.take(r.depths.len() as int) =~= r.parents);
        assert(r.depths.take(r.depths.len() as int) =~= r.depths);
        assert forall|i: int| 0 <= i < r.depths.len() implies never_below(
            s,
            r.depth - #[trigger] r.depths[i] - 1,
        ) by {
            assert(r.depths[i] <= r.depths.last());
            assert forall|k: int| 0 <= k <= s.len() implies r.depth - r.depths[i] - 1 + brace_level(
                #[trigger] s.take(k),
            ) >= 0 by {
                assert(s.take(k) =~= s);
            }
        }
        r.depths.len() as int
    } else {
        let shorter = s.drop_last();
        let stayed = ended_by_plain(r, shorter);
        let at = after_plain(r, shorter);
        let end = after_plain(r, s);
        let left = end.depths.len() as int;
        assert(at.depths.len() == stayed);
        assert(end.parents =~= r.parents.take(left));
        assert(end.depths =~= r.depths.take(left));
        assert forall|i: int| 0 <= i < r.depths.len() implies (i < left <==> never_below(
            s,
            r.depth - #[trigger] r.depths[i] - 1,
        )) by {
            let level = r.depth - r.depths[i] - 1;
            never_below_pushed(s, level);
            if i < stayed {
                assert(at.depths[i] == r.depths[i]);
                assert(at.depths[i] <= at.depths.last());
            }
        }
        left
    }
}

proof fn never_below_pushed(s: Seq<char>, level: int)
    requires
        s.len() > 0,
    ensures
        never_below(s, level) <==> never_below(s.drop_last(), level) && level + brace_level(s) >= 0,
{
    let shorter = s.drop_last();
    assert(s.take(s.len() as int) =~= s);
    if never_below(s, level) {
        assert forall|k: int| 0 <= k <= shorter.len() implies level + brace_level(
            #[trigger] shorter.take(k),
        ) >= 0 by {
            assert(shorter.take(k) =~= s.take(k));
        }
    }
    if never_below(shorter, level) && level + brace_level(s) >= 0 {
        assert forall|k: int| 0 <= k <= s.len() implies level + brace_level(#[trigger] s.take(k))
            >= 0 by {
            if k < s.len() {
                assert(s.take(k) =~= shorter.take(k));
            }
        }
    }
}

/// Whether the reading of the first `n` lines is what the nesting says.
spec fn reads_nesting(lines: Seq<Seq<char>>, n: int, r: Reading) -> bool {
    &&& nested(r)
    &&& r.entries == nested_paths(lines, n)
    &&& r.parents == titles_around(lines, n)
    &&& r.depths == around(lines, n, n).map_values(|s: int| level_at(lines, s))
    &&& r.depth == level_at(lines, n)
}

/// A line that declares something closes no block around it.
proof fn declaration_closes_nothing(lines: Seq<Seq<char>>, n: int)
    requires
        0 <= n < lines.len(),
        opens_block(lines[n]),
    ensures
        around(lines, n, n + 1) == around(lines, n, n),
{
    let q = around(lines, n, n);
    around_has(lines, n, n);
    assert forall|s: int| 0 <= s < n implies encloses(lines, s, n + 1) == #[trigger] encloses(
        lines,
        s,
        n,
    ) by {
        encloses_next(lines, s, n);
        let between = as_text(lines.subrange(s + 1, n));
        if encloses(lines, s, n) {
            assert(between.take(between.len() as int) =~= between);
            assert forall|k: int| 0 <= k <= lines[n].len() implies brace_level(between)
                + brace_level(#[trigger] lines[n].take(k)) >= 0 by {}
        }
    }
    assert forall|s: int| 0 <= s < n && #[trigger] encloses(lines, s, n + 1) implies q.contains(
        s,
    ) by {
        assert(encloses(lines, s, n));
    }
    around_is(lines, n, n + 1, q);
}

proof fn nesting_of_declaration(lines: Seq<Seq<char>>, n: int, r: Reading)
    requires
        0 <= n < lines.len(),
        reads_nesting(lines, n, r),
        !(kind_of(trimmed(lines[n])) is Plain),
        opens_block(lines[n]),
    ensures
        reads_nesting(lines, n + 1, after_line(r, lines[n])),
{
    let line = lines[n];
    level_of_trimmed(line);
    opens_a_brace(trimmed(line));
    declaration_closes_nothing(lines, n);
    assert(lines.take(n + 1) =~= lines.take(n).push(line));
    text_of_pushed(lines.take(n), line);
    let q = around(lines, n, n);
    let next = after_line(r, line);
    assert(lines.subrange(n + 1, n + 1) =~= Seq::<Seq<char>>::empty());
    let nothing = as_text(lines.subrange(n + 1, n + 1));
    assert forall|k: int| 0 <= k <= nothing.len() implies 0 + brace_level(
        #[trigger] nothing.take(k),
    ) >= 0 by {
        assert(nothing.take(k) =~= Seq::<char>::empty());
    }
    assert(never_below(nothing, 0));
    if kind_of(trimmed(line)) is Submenu {
        assert(encloses(lines, n, n + 1));
        assert(around(lines, n + 1, n + 1) == q.push(n));
    } else {
        assert(around(lines, n + 1, n + 1) == q);
    }
    assert(next.parents =~= titles_around(lines, n + 1));
    assert(next.depths =~= around(lines, n + 1, n + 1).map_values(|s: int| level_at(lines, s)));
    assert(growing(next.depths));
}

proof fn nesting_of_plain(lines: Seq<Seq<char>>, n: int, r: Reading)
    requires
        0 <= n < lines.len(),
        reads_nesting(lines, n, r),
        kind_of(trimmed(lines[n])) is Plain,
        opens_blocks(lines),
    ensures
        reads_nesting(lines, n + 1, after_line(r, lines[n])),
{
    let line = lines[n];
    plain_trimmed(r, line);
    let left = ended_by_plain(r, line);
    let q = around(lines, n, n);
    let rest = q.take(left);
    around_has(lines, n, n);
    assert(lines.take(n + 1) =~= lines.take(n).push(line));
    text_of_pushed(lines.take(n), line);
    assert forall|i: int| 0 <= i < q.len() implies (encloses(lines, #[trigger] q[i], n + 1) <==> i
        < left) by {
        let s = q[i];
        assert(encloses(lines, s, n));
        assert(r.depths[i] == level_at(lines, s));
        assert(opens_block(lines[s]));
        level_between(lines, s, n);
        encloses_next(lines, s, n);
    }
    assert forall|i: int| 0 <= i < rest.len() implies 0 <= #[trigger] rest[i] < n && encloses(
        lines,
        rest[i],
        n + 1,
    ) by {
        assert(rest[i] == q[i]);
    }
    assert forall|s: int| 0 <= s < n && #[trigger] encloses(lines, s, n + 1) implies rest.contains(
        s,
    ) by {
        encloses_next(lines, s, n);
        assert(encloses(lines, s, n));
        let i = choose|i: int| 0 <= i < q.len() && q[i] == s;
        assert(rest[i] == s);
    }
    around_is(lines, n, n + 1, rest);
    assert(!encloses(lines, n, n + 1));
    let next = after_line(r, line);
    assert(next.parents =~= titles_around(lines, n + 1));
    assert(next.depths =~= around(lines, n + 1, n + 1).map_values(|s: int| level_at(lines, s)));
}

proof fn nesting_of_lines(lines: Seq<Seq<char>>, n: int)
    requires
        0 <= n <= lines.len(),
        opens_blocks(lines),
    ensures
        reads_nesting(lines, n, after_lines(unread(), lines.take(n))),
    decreases n,
{
    if n == 0 {
        let r = unread();
        assert(lines.take(0) =~= Seq::<Seq<char>>::empty());
        assert(r.parents =~= titles_around(lines, 0));
        assert(r.depths =~= around(lines, 0, 0).map_values(|s: int| level_at(lines, s)));
    } else {
        nesting_of_lines(lines, n - 1);
        assert(lines.take(n).drop_last() =~= lines.take(n - 1));
        let r = after_lines(unread(), lines.take(n - 1));
        if kind_of(trimmed(lines[n - 1])) is Plain {
            nesting_of_plain(lines, n - 1, r);
        } else {
            nesting_of_declaration(lines, n - 1, r);
        }
    }
}

/// The path of an entry names exactly the submenus whose block encloses the
/// line that declares it, the outermost first, wherever the blocks end.
pub proof fn entries_stand_below_their_submenus(text: Seq<char>)
    requires
        opens_blocks(lines_of(text)),
    ensures
        boot_entries(text) == nested_paths(lines_of(text), lines_of(text).len() as int),
{
    let lines = lines_of(text);
    nesting_of_lines(lines, lines.len() as int);
    assert(lines.take(lines.len() as int) =~= lines);
}

} // verus!
