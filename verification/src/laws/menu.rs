//! Which lines of a GRUB configuration count, and how.

use vstd::prelude::*;

use crate::grub::{
    after_char, after_line, after_lines, after_plain, boot_entries, declares, is_quote, kind_of,
    opened, title_of, title_unique, titles, unread, LineKind, Reading,
};
use crate::laws::boot::can_be_title;
use crate::laws::text::lists_are_joined;
use crate::menu::{
    after_lines_sum, all_white, as_text, header_line, lines_of_sum, reading_of_text, Header,
};
use crate::text::{is_white, joined, lines_of, trimmed, trimmed_already};

verus! {

/// Whether the parts of the line are those of a declaration: white space before
/// the keyword and behind it, and a title without quotes between two quotes.
pub open spec fn has_shape(h: Header) -> bool {
    &&& all_white(h.indent)
    &&& h.gap.len() > 0 && all_white(h.gap)
    &&& h.open == '\'' || h.open == '"'
    &&& h.close == '\'' || h.close == '"'
    &&& h.title.len() > 0
    &&& forall|i: int| 0 <= i < h.title.len() ==> #[trigger] h.title[i] != '\'' && h.title[i] != '"'
}

proof fn shape_declares(keyword: Seq<char>, h: Header)
    requires
        keyword.len() > 0,
        !is_white(keyword[0]),
        has_shape(h),
    ensures
        title_of(keyword, header_line(keyword, h)) == Some(h.title),
{
    let line = header_line(keyword, h);
    let n = h.indent.len() as int;
    let open = n + keyword.len() + h.gap.len();
    let close = open + 1 + h.title.len();
    assert(line[open] == h.open);
    assert(line[close] == h.close);
    assert(line.subrange(n, n + keyword.len()) =~= keyword);
    assert forall|i: int| 0 <= i < n implies is_white(#[trigger] line[i]) by {
        assert(line[i] == h.indent[i]);
    }
    assert forall|i: int| n + keyword.len() <= i < open implies is_white(#[trigger] line[i]) by {
        assert(line[i] == h.gap[i - n - keyword.len()]);
    }
    assert forall|i: int| open < i < close implies !is_quote(#[trigger] line[i]) by {
        assert(line[i] == h.title[i - open - 1]);
    }
    assert(declares(keyword, line, n, open, close));
    assert(line.subrange(open + 1, close) =~= h.title);
    assert(titles(keyword, line, h.title));
    title_unique(keyword, line, h.title, title_of(keyword, line)->0);
}

proof fn declared_has_shape(keyword: Seq<char>, line: Seq<char>) -> (h: Header)
    requires
        title_of(keyword, line) is Some,
    ensures
        has_shape(h),
        line == header_line(keyword, h),
        title_of(keyword, line) == Some(h.title),
{
    let title = title_of(keyword, line)->0;
    let (start, open, close) = choose|start: int, open: int, close: int| #[trigger]
        declares(keyword, line, start, open, close) && title == line.subrange(open + 1, close);
    let h = Header {
        indent: line.take(start),
        gap: line.subrange(start + keyword.len(), open),
        open: line[open],
        title,
        close: line[close],
        rest: line.skip(close + 1),
    };
    assert(line.subrange(start, start + keyword.len()) == keyword);
    assert(line =~= header_line(keyword, h)) by {
        assert forall|i: int| 0 <= i < line.len() implies line[i] == header_line(keyword, h)[i] by {
            if start <= i < start + keyword.len() {
                assert(line.subrange(start, start + keyword.len())[i - start] == line[i]);
            }
        }
    }
    assert forall|i: int| 0 <= i < h.title.len() implies #[trigger] h.title[i] != '\'' && h.title[i]
        != '"' by {
        assert(!is_quote(line[open + 1 + i]));
    }
    h
}

proof fn keywords_differ(h: Header)
    requires
        has_shape(h),
    ensures
        title_of("submenu"@, header_line("menuentry"@, h)) is None,
{
    reveal_strlit("menuentry");
    reveal_strlit("submenu");
    let line = header_line("menuentry"@, h);
    if title_of("submenu"@, line) is Some {
        let other = declared_has_shape("submenu"@, line);
        let n = h.indent.len() as int;
        let m = other.indent.len() as int;
        assert(line[n] == 'm');
        assert(line[m] == 's');
        if n < m {
            assert(is_white(other.indent[n]));
        } else if m < n {
            assert(is_white(h.indent[m]));
        }
    }
}

/// A line declares an entry or a submenu exactly where it has the shape for it:
/// the keyword, white space and a title in quotes; the title is all between the
/// quotes, and what stands behind them does not matter.
pub proof fn lines_declare_by_their_shape(h: Header, line: Seq<char>)
    ensures
        has_shape(h) ==> kind_of(header_line("menuentry"@, h)) == LineKind::Entry(h.title),
        has_shape(h) ==> kind_of(header_line("submenu"@, h)) == LineKind::Submenu(h.title),
        kind_of(line) matches LineKind::Entry(title) ==> exists|k: Header| #[trigger]
            has_shape(k) && k.title == title && line == header_line("menuentry"@, k),
        kind_of(line) matches LineKind::Submenu(title) ==> exists|k: Header| #[trigger]
            has_shape(k) && k.title == title && line == header_line("submenu"@, k),
        kind_of(line) is Plain <==> forall|k: Header| #[trigger]
            has_shape(k) ==> line != header_line("menuentry"@, k) && line != header_line(
                "submenu"@,
                k,
            ),
{
    shape_gives_kind(h);
    if kind_of(line) is Entry {
        let k = declared_has_shape("menuentry"@, line);
        assert(has_shape(k));
    }
    if kind_of(line) is Submenu {
        let k = declared_has_shape("submenu"@, line);
        assert(has_shape(k));
    }
    assert forall|k: Header| #[trigger] has_shape(k) && kind_of(line) is Plain implies line
        != header_line("menuentry"@, k) && line != header_line("submenu"@, k) by {
        shape_gives_kind(k);
    }
}

proof fn shape_gives_kind(h: Header)
    ensures
        has_shape(h) ==> kind_of(header_line("menuentry"@, h)) == LineKind::Entry(h.title),
        has_shape(h) ==> kind_of(header_line("submenu"@, h)) == LineKind::Submenu(h.title),
{
    reveal_strlit("menuentry");
    reveal_strlit("submenu");
    if has_shape(h) {
        shape_declares("menuentry"@, h);
        shape_declares("submenu"@, h);
        keywords_differ(h);
    }
}

spec fn shifted(r: Reading, by: int) -> Reading {
    Reading { depths: r.depths.map_values(|d: int| d + by), depth: r.depth + by, ..r }
}

proof fn plain_shifted(r: Reading, by: int, line: Seq<char>)
    ensures
        after_plain(shifted(r, by), line) == shifted(after_plain(r, line), by),
    decreases line.len(),
{
    if line.len() > 0 {
        plain_shifted(r, by, line.drop_last());
        let at = after_plain(r, line.drop_last());
        let moved = shifted(at, by);
        if at.depths.len() > 0 {
            assert(moved.depths.drop_last() =~= shifted(
                Reading { depths: at.depths.drop_last(), ..at },
                by,
            ).depths);
        }
    }
}

proof fn lines_shifted(r: Reading, by: int, lines: Seq<Seq<char>>)
    ensures
        after_lines(shifted(r, by), lines) == shifted(after_lines(r, lines), by),
    decreases lines.len(),
{
    if lines.len() > 0 {
        lines_shifted(r, by, lines.drop_last());
        let at = after_lines(r, lines.drop_last());
        let line = trimmed(lines.last());
        plain_shifted(at, by, line);
        assert(shifted(at, by).depths.push(at.depth + by) =~= shifted(
            Reading { depths: at.depths.push(at.depth), ..at },
            by,
        ).depths);
    }
}

proof fn plain_outside(r: Reading, line: Seq<char>)
    requires
        r.entries == unread().entries,
        r.parents == unread().parents,
        r.depths == unread().depths,
    ensures
        after_plain(r, line) == (Reading { depth: after_plain(r, line).depth, ..r }),
    decreases line.len(),
{
    if line.len() > 0 {
        plain_outside(r, line.drop_last());
    }
}

proof fn lines_outside(lines: Seq<Seq<char>>)
    requires
        forall|i: int| 0 <= i < lines.len() ==> kind_of(trimmed(#[trigger] lines[i])) is Plain,
    ensures
        after_lines(unread(), lines) == (Reading {
            depth: after_lines(unread(), lines).depth,
            ..unread()
        }),
    decreases lines.len(),
{
    if lines.len() > 0 {
        let before = lines.drop_last();
        assert forall|i: int| 0 <= i < before.len() implies kind_of(
            trimmed(#[trigger] before[i]),
        ) is Plain by {
            assert(before[i] == lines[i]);
        }
        lines_outside(before);
        assert(kind_of(trimmed(lines[lines.len() - 1])) is Plain);
        plain_outside(after_lines(unread(), before), trimmed(lines.last()));
    }
}

/// Lines outside every submenu that declare nothing do not matter to what
/// follows them, whatever braces they open or close.
pub proof fn braces_outside_submenus_do_not_matter(a: Seq<char>, b: Seq<char>)
    requires
        a.len() > 0 ==> a.last() == '\n',
        forall|i: int|
            0 <= i < lines_of(a).len() ==> kind_of(trimmed(#[trigger] lines_of(a)[i])) is Plain,
    ensures
        boot_entries(a + b) == boot_entries(b),
{
    lines_of_sum(a, b);
    after_lines_sum(unread(), lines_of(a), lines_of(b));
    lines_outside(lines_of(a));
    let by = after_lines(unread(), lines_of(a)).depth;
    assert(unread().depths.map_values(|d: int| d + by) =~= unread().depths);
    lines_shifted(unread(), by, lines_of(b));
}

proof fn brace_is_plain(c: char)
    requires
        c == '{' || c == '}',
    ensures
        trimmed(seq![c]) == seq![c],
        kind_of(seq![c]) is Plain,
{
    trimmed_already(seq![c]);
    if title_of("submenu"@, seq![c]) is Some {
        let h = declared_has_shape("submenu"@, seq![c]);
        assert(header_line("submenu"@, h).len() >= 3);
    }
    if title_of("menuentry"@, seq![c]) is Some {
        let h = declared_has_shape("menuentry"@, seq![c]);
        assert(header_line("menuentry"@, h).len() >= 3);
    }
}

spec fn bare_header(title: Seq<char>) -> Header {
    Header {
        indent: Seq::empty(),
        gap: seq![' '],
        open: '\'',
        title,
        close: '\'',
        rest: Seq::empty(),
    }
}

/// The line that declares what the keyword stands for, without a brace.
pub open spec fn bare_line(keyword: Seq<char>, title: Seq<char>) -> Seq<char> {
    keyword + seq![' ', '\''] + title + seq!['\'']
}

proof fn bare_line_stays(keyword: Seq<char>, title: Seq<char>)
    requires
        keyword.len() > 0,
        !is_white(keyword[0]),
        !keyword.contains('{') && !keyword.contains('\n'),
        can_be_title(title),
        !title.contains('{'),
    ensures
        trimmed(bare_line(keyword, title)) == bare_line(keyword, title),
        header_line(keyword, bare_header(title)) == bare_line(keyword, title),
        opened(bare_line(keyword, title)) == 0,
        !bare_line(keyword, title).contains('\n'),
{
    let line = bare_line(keyword, title);
    assert(line[0] == keyword[0]);
    assert(line.last() == '\'');
    trimmed_already(line);
    assert(header_line(keyword, bare_header(title)) =~= line);
    bare_line_lacks(keyword, title, '{');
    assert(!title.contains('\n'));
    bare_line_lacks(keyword, title, '\n');
}

proof fn bare_header_has_shape(title: Seq<char>)
    requires
        can_be_title(title),
    ensures
        has_shape(bare_header(title)),
{
    assert(is_white(' '));
}

proof fn after_bare_submenu(r: Reading, title: Seq<char>)
    requires
        can_be_title(title),
        !title.contains('{'),
    ensures
        after_line(r, bare_line("submenu"@, title)) == (Reading {
            parents: r.parents.push(title),
            depths: r.depths.push(r.depth),
            ..r
        }),
        !bare_line("submenu"@, title).contains('\n'),
{
    reveal_strlit("submenu");
    bare_header_has_shape(title);
    bare_line_stays("submenu"@, title);
    shape_gives_kind(bare_header(title));
}

proof fn after_bare_entry(r: Reading, title: Seq<char>)
    requires
        can_be_title(title),
        !title.contains('{'),
    ensures
        after_line(r, bare_line("menuentry"@, title)) == (Reading {
            entries: r.entries.push(joined(r.parents.push(title), ">"@)),
            ..r
        }),
        !bare_line("menuentry"@, title).contains('\n'),
{
    reveal_strlit("menuentry");
    bare_header_has_shape(title);
    bare_line_stays("menuentry"@, title);
    shape_gives_kind(bare_header(title));
}

proof fn one_line_more(r: Reading, lines: Seq<Seq<char>>, line: Seq<char>)
    ensures
        after_lines(r, lines.push(line)) == after_line(after_lines(r, lines), line),
{
    assert(lines.push(line).drop_last() =~= lines);
}

proof fn bare_line_lacks(keyword: Seq<char>, title: Seq<char>, c: char)
    requires
        !keyword.contains(c),
        !title.contains(c),
        c != ' ' && c != '\'',
    ensures
        !bare_line(keyword, title).contains(c),
{
    let line = bare_line(keyword, title);
    if line.contains(c) {
        let i = choose|i: int| 0 <= i < line.len() && line[i] == c;
        let n = keyword.len() as int;
        if i < n {
            assert(keyword[i] == c);
        } else if n + 2 <= i < n + 2 + title.len() {
            assert(title[i - n - 2] == c);
        }
    }
}

/// A menu whose blocks open on lines of their own: an entry below a submenu, and
/// an entry behind it.
pub open spec fn menu_with_lone_braces(
    submenu: Seq<char>,
    inner: Seq<char>,
    outer: Seq<char>,
) -> Seq<Seq<char>> {
    seq![
        bare_line("submenu"@, submenu),
        seq!['{'],
        bare_line("menuentry"@, inner),
        seq!['{'],
        seq!['}'],
        seq!['}'],
        bare_line("menuentry"@, outer),
    ]
}

proof fn brace_line(r: Reading, c: char)
    requires
        c == '{' || c == '}',
    ensures
        after_line(r, seq![c]) == after_char(r, c),
{
    brace_is_plain(c);
    assert(seq![c].drop_last() =~= Seq::<char>::empty());
    reveal_with_fuel(after_plain, 2);
}

/// A block may open on a line of its own: the submenu still ends with its block.
pub proof fn blocks_may_open_on_lines_of_their_own(
    submenu: Seq<char>,
    inner: Seq<char>,
    outer: Seq<char>,
)
    requires
        can_be_title(submenu) && !submenu.contains('{'),
        can_be_title(inner) && !inner.contains('{'),
        can_be_title(outer) && !outer.contains('{'),
    ensures
        boot_entries(as_text(menu_with_lone_braces(submenu, inner, outer))) == seq![
            submenu + seq!['>'] + inner,
            outer,
        ],
{
    let none = Seq::<Seq<char>>::empty();
    let lines = menu_with_lone_braces(submenu, inner, outer);
    let one = none.push(bare_line("submenu"@, submenu));
    let two = one.push(seq!['{']);
    let three = two.push(bare_line("menuentry"@, inner));
    let four = three.push(seq!['{']);
    let five = four.push(seq!['}']);
    let six = five.push(seq!['}']);
    assert(lines =~= six.push(bare_line("menuentry"@, outer)));
    let r = unread();
    let r1 = after_lines(r, one);
    let r2 = after_lines(r, two);
    let r3 = after_lines(r, three);
    let r4 = after_lines(r, four);
    let r5 = after_lines(r, five);
    let r6 = after_lines(r, six);
    one_line_more(r, none, bare_line("submenu"@, submenu));
    one_line_more(r, one, seq!['{']);
    one_line_more(r, two, bare_line("menuentry"@, inner));
    one_line_more(r, three, seq!['{']);
    one_line_more(r, four, seq!['}']);
    one_line_more(r, five, seq!['}']);
    one_line_more(r, six, bare_line("menuentry"@, outer));
    after_bare_submenu(r, submenu);
    brace_line(r1, '{');
    after_bare_entry(r2, inner);
    brace_line(r3, '{');
    brace_line(r4, '}');
    brace_line(r5, '}');
    after_bare_entry(r6, outer);
    assert(r6.parents =~= none);
    lone_braces_are_lines(submenu, inner, outer);
    reading_of_text(r, lines);
    reveal_strlit(">");
    assert(">"@ =~= seq!['>']);
    lists_are_joined(seq![submenu], seq![submenu], inner, ">"@);
    lists_are_joined(seq![submenu], seq![submenu], submenu, ">"@);
    lists_are_joined(seq![submenu], seq![submenu], outer, ">"@);
    assert(r2.parents.push(inner) =~= seq![submenu].push(inner));
    assert(r6.parents.push(outer) =~= seq![outer]);
    assert(after_lines(r, lines).entries =~= seq![submenu + seq!['>'] + inner, outer]);
}

proof fn lone_braces_are_lines(submenu: Seq<char>, inner: Seq<char>, outer: Seq<char>)
    requires
        !bare_line("submenu"@, submenu).contains('\n'),
        !bare_line("menuentry"@, inner).contains('\n'),
        !bare_line("menuentry"@, outer).contains('\n'),
    ensures
        forall|k: int|
            0 <= k < menu_with_lone_braces(submenu, inner, outer).len() ==> !(
            #[trigger] menu_with_lone_braces(submenu, inner, outer)[k]).contains('\n'),
{
}

} // verus!
