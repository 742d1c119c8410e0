//! The name of the operating system.

use vstd::prelude::*;
use vstd::string::*;

use crate::text::{
    lines, lines_of, starts_with, trim_end_matches, trim_end_of, trim_start_matches, trim_start_of,
};

verus! {

/// The name in a line of a release file, where the line gives it.
pub open spec fn name_in_line(line: Seq<char>) -> Option<Seq<char>> {
    if "PRETTY_NAME="@.is_prefix_of(line) {
        Some(trim_end_of(trim_start_of(line.skip("PRETTY_NAME="@.len() as int), '"'), '"'))
    } else {
        None
    }
}

/// The name in the lines of a release file: that of the first line that gives one.
pub open spec fn name_in_lines(lines: Seq<Seq<char>>) -> Option<Seq<char>>
    decreases lines.len(),
{
    if lines.len() == 0 {
        None
    } else if name_in_line(lines[0]) is Some {
        name_in_line(lines[0])
    } else {
        name_in_lines(lines.drop_first())
    }
}

/// The name of the operating system: the one in its release file, else `family`.
pub open spec fn os_name(release: Option<Seq<char>>, family: Seq<char>) -> Seq<char> {
    match release {
        Some(text) => match name_in_lines(lines_of(text)) {
            Some(name) => name,
            None => family,
        },
        None => family,
    }
}

/// The name in a line of a release file, where the line gives it.
fn line_name(line: &str) -> (r: Option<String>)
    ensures
        r.deep_view() == name_in_line(line@),
{
    proof {
        reveal_strlit("PRETTY_NAME=");
    }
    if starts_with(line, "PRETTY_NAME=") {
        let length = line.unicode_len();
        assert(line@.subrange(12, length as int) =~= line@.skip(12));
        let quoted = trim_start_matches(line.substring_char(12, length), '"');
        Some(trim_end_matches(quoted.as_str(), '"'))
    } else {
        None
    }
}

/// The name of the operating system, from the text of its release file, if
/// there is one, and the name of its family.
pub fn get_os_name(release: Option<&str>, family: &str) -> (r: String)
    ensures
        r@ == os_name(
            match release {
                Some(text) => Some(text@),
                None => None,
            },
            family@,
        ),
{
    if let Some(text) = release {
        let all = lines(text);
        let ghost model = lines_of(text@);
        let mut i: usize = 0;
        assert(model.skip(0) =~= model);
        while i < all.len()
            invariant
                i <= all.len(),
                release == Some(text),
                model == lines_of(text@),
                all.deep_view() == model,
                name_in_lines(model) == name_in_lines(model.skip(i as int)),
            decreases all.len() - i,
        {
            assert(model.skip(i as int)[0] == all[i as int]@);
            assert(model.skip(i as int).drop_first() =~= model.skip(i + 1));
            if let Some(name) = line_name(all[i].as_str()) {
                assert(name_in_lines(model) == Some(name@));
                return name;
            }
            i += 1;
        }
        assert(model.skip(i as int) =~= Seq::<Seq<char>>::empty());
    }
    family.to_string()
}

} // verus!
