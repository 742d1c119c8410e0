//! Boot entries of a GRUB configuration file.

use vstd::prelude::*;
use vstd::string::*;

use crate::text::{
    chars_of, is_white, join, joined, lines, lines_of, position, position_bounds, trim, trim_end,
    trim_start, trimmed, without_cr,
};

verus! {

/// What a line that declares a boot entry looks like; the title is the group.
pub const MENUENTRY_PATTERN: &'static str = r#"^\s*menuentry\s+['"]([^'"]+)['"]"#;

/// What a line that declares a submenu looks like; the title is the group.
pub const SUBMENU_PATTERN: &'static str = r#"^\s*submenu\s+['"]([^'"]+)['"]"#;

pub open spec fn is_quote(c: char) -> bool {
    c == '\'' || c == '"'
}

/// Whether `line` is white space, `keyword`, white space and a quoted title:
/// the keyword starts at `start`, and the quotes stand at `open` and `close`.
pub open spec fn declares(
    keyword: Seq<char>,
    line: Seq<char>,
    start: int,
    open: int,
    close: int,
) -> bool {
    &&& 0 <= start
    &&& start + keyword.len() < open
    &&& open + 1 < close < line.len()
    &&& line.subrange(start, start + keyword.len()) == keyword
    &&& is_quote(line[open])
    &&& is_quote(line[close])
    &&& forall|i: int| 0 <= i < start ==> is_white(#[trigger] line[i])
    &&& forall|i: int| start + keyword.len() <= i < open ==> is_white(#[trigger] line[i])
    &&& forall|i: int| open < i < close ==> !is_quote(#[trigger] line[i])
}

/// Whether `line` gives `title` to what `keyword` declares.
pub open spec fn titles(keyword: Seq<char>, line: Seq<char>, title: Seq<char>) -> bool {
    exists|start: int, open: int, close: int| #[trigger]
        declares(keyword, line, start, open, close) && title == line.subrange(open + 1, close)
}

/// The title that `line` gives to what `keyword` declares.
pub open spec fn title_of(keyword: Seq<char>, line: Seq<char>) -> Option<Seq<char>> {
    if exists|title: Seq<char>| titles(keyword, line, title) {
        Some(choose|title: Seq<char>| titles(keyword, line, title))
    } else {
        None
    }
}

/// A line declares at most one title.
pub proof fn title_unique(keyword: Seq<char>, line: Seq<char>, a: Seq<char>, b: Seq<char>)
    requires
        keyword.len() > 0,
        !is_white(keyword[0]),
        titles(keyword, line, a),
        titles(keyword, line, b),
    ensures
        a == b,
{
    let (s1, o1, c1) = choose|start: int, open: int, close: int| #[trigger]
        declares(keyword, line, start, open, close) && a == line.subrange(open + 1, close);
    let (s2, o2, c2) = choose|start: int, open: int, close: int| #[trigger]
        declares(keyword, line, start, open, close) && b == line.subrange(open + 1, close);
    assert(line.subrange(s1, s1 + keyword.len())[0] == line[s1]);
    assert(line.subrange(s2, s2 + keyword.len())[0] == line[s2]);
    assert(s1 == s2);
    assert(o1 == o2);
    assert(c1 == c2);
}

/// The text of the first group of `pattern` in `text`, by
/// `regex::Regex::captures`: some title exactly where the text has the shape
/// that the pattern spells out.
#[verifier::external_body]
fn first_group(pattern: &str, text: &str) -> (r: Option<String>)
    requires
        pattern@ == MENUENTRY_PATTERN@ || pattern@ == SUBMENU_PATTERN@,
    ensures
        pattern@ == MENUENTRY_PATTERN@ ==> match r {
            Some(title) => titles("menuentry"@, text@, title@),
            None => forall|title: Seq<char>| !titles("menuentry"@, text@, title),
        },
        pattern@ == SUBMENU_PATTERN@ ==> match r {
            Some(title) => titles("submenu"@, text@, title@),
            None => forall|title: Seq<char>| !titles("submenu"@, text@, title),
        },
{
    let regex = regex::Regex::new(pattern).unwrap();
    regex.captures(text).map(|found| found[1].to_string())
}

/// The title of the boot entry that the line declares.
fn entry_title(line: &str) -> (r: Option<String>)
    ensures
        r.deep_view() == title_of("menuentry"@, line@),
{
    let r = first_group(MENUENTRY_PATTERN, line);
    proof {
        reveal_strlit("menuentry");
        if let Some(title) = &r {
            title_unique("menuentry"@, line@, title@, title_of("menuentry"@, line@)->0);
        }
    }
    r
}

/// The title of the submenu that the line declares.
fn submenu_title(line: &str) -> (r: Option<String>)
    ensures
        r.deep_view() == title_of("submenu"@, line@),
{
    let r = first_group(SUBMENU_PATTERN, line);
    proof {
        reveal_strlit("submenu");
        if let Some(title) = &r {
            title_unique("submenu"@, line@, title@, title_of("submenu"@, line@)->0);
        }
    }
    r
}

/// What a trimmed line is to the menu.
pub enum LineKind {
    Submenu(Seq<char>),
    Entry(Seq<char>),
    Plain,
}

/// What the trimmed `line` is to the menu.
pub open spec fn kind_of(line: Seq<char>) -> LineKind {
    if let Some(title) = title_of("submenu"@, line) {
        LineKind::Submenu(title)
    } else if let Some(title) = title_of("menuentry"@, line) {
        LineKind::Entry(title)
    } else {
        LineKind::Plain
    }
}

/// How far the menu has been read: the entries met so far, the titles of the
/// submenus that enclose the next line, the brace depth at which each of them
/// was declared, and the brace depth reached.
pub struct Reading {
    pub entries: Seq<Seq<char>>,
    pub parents: Seq<Seq<char>>,
    pub depths: Seq<int>,
    pub depth: int,
}

/// The reading before the first line.
pub open spec fn unread() -> Reading {
    Reading { entries: Seq::empty(), parents: Seq::empty(), depths: Seq::empty(), depth: 0 }
}

/// The brace that a declaration opens on its own line.
pub open spec fn opened(line: Seq<char>) -> int {
    if line.contains('{') {
        1
    } else {
        0
    }
}

/// The reading after one character of a plain line: a closing brace that brings
/// the depth back to where the innermost submenu was declared ends that submenu.
pub open spec fn after_char(r: Reading, c: char) -> Reading {
    if c == '{' {
        Reading { depth: r.depth + 1, ..r }
    } else if c == '}' {
        let depth = r.depth - 1;
        if r.depths.len() > 0 && depth <= r.depths.last() {
            Reading { parents: r.parents.drop_last(), depths: r.depths.drop_last(), depth, ..r }
        } else {
            Reading { depth, ..r }
        }
    } else {
        r
    }
}

/// The reading after the characters of a plain line.
pub open spec fn after_plain(r: Reading, line: Seq<char>) -> Reading
    decreases line.len(),
{
    if line.len() == 0 {
        r
    } else {
        after_char(after_plain(r, line.drop_last()), line.last())
    }
}

/// The reading after one more line.
pub open spec fn after_line(r: Reading, line: Seq<char>) -> Reading {
    let line = trimmed(line);
    match kind_of(line) {
        LineKind::Submenu(title) => Reading {
            parents: r.parents.push(title),
            depths: r.depths.push(r.depth),
            depth: r.depth + opened(line),
            ..r
        },
        LineKind::Entry(title) => Reading {
            entries: r.entries.push(joined(r.parents.push(title), ">"@)),
            depth: r.depth + opened(line),
            ..r
        },
        LineKind::Plain => after_plain(r, line),
    }
}

/// The reading after the lines, one by one.
pub open spec fn after_lines(r: Reading, lines: Seq<Seq<char>>) -> Reading
    decreases lines.len(),
{
    if lines.len() == 0 {
        r
    } else {
        after_line(after_lines(r, lines.drop_last()), lines.last())
    }
}

/// The boot entries of a GRUB configuration: the title of each `menuentry`, in
/// order, behind the titles of the submenus around it, with `>` in between.
pub open spec fn boot_entries(text: Seq<char>) -> Seq<Seq<char>> {
    after_lines(unread(), lines_of(text)).entries
}

/// The number of characters in the lines together.
spec fn size(lines: Seq<Seq<char>>) -> nat
    decreases lines.len(),
{
    if lines.len() == 0 {
        0
    } else {
        size(lines.drop_last()) + lines.last().len()
    }
}

proof fn size_of_sum(a: Seq<Seq<char>>, b: Seq<Seq<char>>)
    ensures
        size(a + b) == size(a) + size(b),
    decreases b.len(),
{
    if b.len() == 0 {
        assert(a + b =~= a);
    } else {
        assert((a + b).drop_last() =~= a + b.drop_last());
        size_of_sum(a, b.drop_last());
    }
}

proof fn size_of_lines(text: Seq<char>)
    ensures
        size(lines_of(text)) <= text.len(),
    decreases text.len(),
{
    let end = position(text, '\n');
    position_bounds(text, '\n');
    reveal_with_fuel(size, 2);
    if text.len() == 0 {
    } else if end == text.len() {
        assert(lines_of(text).drop_last() =~= Seq::<Seq<char>>::empty());
    } else {
        let first = without_cr(text.take(end));
        size_of_lines(text.skip(end + 1));
        size_of_sum(seq![first], lines_of(text.skip(end + 1)));
        assert(seq![first].drop_last() =~= Seq::<Seq<char>>::empty());
    }
}

proof fn size_of_start(lines: Seq<Seq<char>>, n: int)
    requires
        0 <= n <= lines.len(),
    ensures
        size(lines.take(n)) <= size(lines),
{
    size_of_sum(lines.take(n), lines.skip(n));
    assert(lines.take(n) + lines.skip(n) =~= lines);
}

proof fn trimmed_length(s: Seq<char>)
    ensures
        trimmed(s).len() <= s.len(),
{
    trim_start_length(s);
    trim_end_length(trim_start(s));
}

proof fn trim_start_length(s: Seq<char>)
    ensures
        trim_start(s).len() <= s.len(),
    decreases s.len(),
{
    if s.len() > 0 && is_white(s[0]) {
        trim_start_length(s.drop_first());
    }
}

proof fn trim_end_length(s: Seq<char>)
    ensures
        trim_end(s).len() <= s.len(),
    decreases s.len(),
{
    if s.len() > 0 && is_white(s.last()) {
        trim_end_length(s.drop_last());
    }
}

/// The state of a walk over the lines of a menu.
struct MenuWalk {
    entries: Vec<String>,
    parents: Vec<String>,
    depths: Vec<i128>,
    depth: i128,
}

impl MenuWalk {
    spec fn reading(&self) -> Reading {
        Reading {
            entries: self.entries.deep_view(),
            parents: self.parents.deep_view(),
            depths: self.depths@.map_values(|d: i128| d as int),
            depth: self.depth as int,
        }
    }

    /// Whether every submenu has its depth, and no depth is further than
    /// `bound` from zero.
    spec fn well_formed(&self, bound: int) -> bool {
        &&& self.parents.len() == self.depths.len()
        &&& -bound <= self.depth <= bound
    }

    fn new() -> (r: MenuWalk)
        ensures
            r.reading() == unread(),
            r.well_formed(0),
    {
        let r = MenuWalk {
            entries: Vec::new(),
            parents: Vec::new(),
            depths: Vec::new(),
            depth: 0,
        };
        assert(r.reading().entries =~= unread().entries);
        assert(r.reading().parents =~= unread().parents);
        assert(r.reading().depths =~= unread().depths);
        r
    }

    fn scan(&mut self, line: &str, Ghost(bound): Ghost<int>)
        requires
            old(self).well_formed(bound),
            0 <= bound,
            bound + line@.len() <= u64::MAX,
        ensures
            final(self).reading() == after_plain(old(self).reading(), line@),
            final(self).well_formed(bound + line@.len()),
    {
        let v = chars_of(line);
        let ghost before = self.reading();
        let mut i: usize = 0;
        assert(line@.take(0) =~= Seq::<char>::empty());
        while i < v.len()
            invariant
                i <= v.len(),
                v@ == line@,
                0 <= bound,
                bound + line@.len() <= u64::MAX,
                self.well_formed(bound + i),
                self.reading() == after_plain(before, line@.take(i as int)),
            decreases v.len() - i,
        {
            assert(line@.take(i + 1).drop_last() =~= line@.take(i as int));
            let ghost at = self.reading();
            if v[i] == '{' {
                self.depth = self.depth + 1;
            } else if v[i] == '}' {
                self.depth = self.depth - 1;
                if self.depths.len() > 0 && self.depth <= self.depths[self.depths.len() - 1] {
                    self.parents.pop();
                    self.depths.pop();
                    assert(self.reading().parents =~= at.parents.drop_last());
                    assert(self.reading().depths =~= at.depths.drop_last());
                }
            }
            i += 1;
        }
        assert(line@.take(i as int) =~= line@);
    }

    fn line(&mut self, line: &str, Ghost(bound): Ghost<int>)
        requires
            old(self).well_formed(bound),
            0 <= bound,
            bound + line@.len() <= u64::MAX,
        ensures
            final(self).reading() == after_line(old(self).reading(), line@),
            final(self).well_formed(bound + line@.len()),
    {
        let trimmed_line = trim(line);
        proof {
            trimmed_length(line@);
        }
        let ghost before = self.reading();
        if let Some(title) = submenu_title(trimmed_line.as_str()) {
            let opens = has_brace(trimmed_line.as_str());
            proof {
                keyword_fits("submenu"@, trimmed(line@));
            }
            self.parents.push(title);
            self.depths.push(self.depth);
            if opens {
                self.depth = self.depth + 1;
            }
            assert(self.reading().parents =~= before.parents.push(title@));
            assert(self.reading().depths =~= before.depths.push(before.depth));
        } else if let Some(title) = entry_title(trimmed_line.as_str()) {
            let opens = has_brace(trimmed_line.as_str());
            proof {
                keyword_fits("menuentry"@, trimmed(line@));
            }
            self.parents.push(title);
            assert(self.parents.deep_view() =~= before.parents.push(title@));
            let path = join(&self.parents, ">");
            self.parents.pop();
            assert(self.parents.deep_view() =~= before.parents);
            self.entries.push(path);
            assert(self.reading().entries =~= before.entries.push(path@));
            if opens {
                self.depth = self.depth + 1;
            }
        } else {
            self.scan(trimmed_line.as_str(), Ghost(bound));
        }
    }
}

proof fn keyword_fits(keyword: Seq<char>, line: Seq<char>)
    requires
        title_of(keyword, line) is Some,
    ensures
        line.len() > 0,
{
    let title = choose|title: Seq<char>| titles(keyword, line, title);
    let (s, o, c) = choose|start: int, open: int, close: int| #[trigger]
        declares(keyword, line, start, open, close) && title == line.subrange(open + 1, close);
    assert(declares(keyword, line, s, o, c));
}

fn has_brace(line: &str) -> (r: bool)
    ensures
        r == line@.contains('{'),
{
    let v = chars_of(line);
    let mut i: usize = 0;
    while i < v.len()
        invariant
            i <= v.len(),
            v@ == line@,
            forall|j: int| 0 <= j < i ==> v[j] != '{',
        decreases v.len() - i,
    {
        if v[i] == '{' {
            assert(line@[i as int] == '{');
            return true;
        }
        i += 1;
    }
    false
}

/// The boot entries of a GRUB configuration, from its text.
pub fn parse_grub_entries(text: &str) -> (r: Vec<String>)
    ensures
        r.deep_view() == boot_entries(text@),
{
    let all = lines(text);
    let total: usize = text.unicode_len();
    let ghost model = lines_of(text@);
    proof {
        size_of_lines(text@);
    }
    let mut walk = MenuWalk::new();
    let mut i: usize = 0;
    assert(model.take(0) =~= Seq::<Seq<char>>::empty());
    while i < all.len()
        invariant
            i <= all.len(),
            all.deep_view() == model,
            size(model) <= total,
            walk.reading() == after_lines(unread(), model.take(i as int)),
            walk.well_formed(size(model.take(i as int)) as int),
        decreases all.len() - i,
    {
        proof {
            size_of_start(model, i + 1);
            assert(model.take(i + 1).drop_last() =~= model.take(i as int));
        }
        walk.line(all[i].as_str(), Ghost(size(model.take(i as int)) as int));
        i += 1;
    }
    assert(model.take(i as int) =~= model);
    walk.entries
}

/// The titles of the boot entries that the lines declare, in order.
pub open spec fn declared(lines: Seq<Seq<char>>) -> Seq<Seq<char>>
    decreases lines.len(),
{
    if lines.len() == 0 {
        Seq::empty()
    } else {
        match kind_of(trimmed(lines.last())) {
            LineKind::Entry(title) => declared(lines.drop_last()).push(title),
            _ => declared(lines.drop_last()),
        }
    }
}

/// Whether the path leads to an entry of this title: it is the title, or ends
/// in `>` and the title.
pub open spec fn leads_to(path: Seq<char>, title: Seq<char>) -> bool {
    path == title || (">"@ + title).is_suffix_of(path)
}

proof fn plain_keeps_entries(r: Reading, line: Seq<char>)
    ensures
        after_plain(r, line).entries == r.entries,
    decreases line.len(),
{
    if line.len() > 0 {
        plain_keeps_entries(r, line.drop_last());
    }
}

/// Every line that declares a boot entry gives one entry, whose path leads to
/// the declared title, in the order of the lines; no other line gives any.
pub proof fn one_entry_per_declaration(text: Seq<char>)
    ensures
        boot_entries(text).len() == declared(lines_of(text)).len(),
        forall|i: int|
            0 <= i < boot_entries(text).len() ==> leads_to(
                #[trigger] boot_entries(text)[i],
                declared(lines_of(text))[i],
            ),
{
    entries_are_declared(lines_of(text));
}

proof fn entries_are_declared(lines: Seq<Seq<char>>)
    ensures
        after_lines(unread(), lines).entries.len() == declared(lines).len(),
        forall|i: int|
            0 <= i < declared(lines).len() ==> leads_to(
                #[trigger] after_lines(unread(), lines).entries[i],
                declared(lines)[i],
            ),
    decreases lines.len(),
{
    if lines.len() > 0 {
        entries_are_declared(lines.drop_last());
        let before = after_lines(unread(), lines.drop_last());
        plain_keeps_entries(before, trimmed(lines.last()));
        if let LineKind::Entry(title) = kind_of(trimmed(lines.last())) {
            let path = joined(before.parents.push(title), ">"@);
            if before.parents.len() > 0 {
                assert(before.parents.push(title).drop_last() =~= before.parents);
                let above = joined(before.parents, ">"@);
                assert(path =~= above + (">"@ + title));
                assert(path.subrange(above.len() as int, path.len() as int) =~= ">"@ + title);
            }
            assert(leads_to(path, title));
        }
    }
}

} // verus!
