//! Commands that the system is asked to run.

use vstd::prelude::*;

verus! {

/// A command line.
pub struct Command {
    pub program: String,
    pub args: Vec<String>,
}

impl Command {
    /// Whether this is the command line of `program` with `args`.
    pub open spec fn is(&self, program: Seq<char>, args: Seq<Seq<char>>) -> bool {
        self.program@ == program && self.args.deep_view() == args
    }
}

/// What came of a command.
pub enum CommandResult {
    /// It ran.
    Ran { success: bool, status: String },
    /// It could not be run.
    NotRun { reason: String, not_found: bool },
}

/// The command line of `program` with `args`.
pub fn command(program: &str, args: Vec<String>) -> (r: Command)
    ensures
        r.is(program@, args.deep_view()),
{
    Command { program: program.to_string(), args }
}

/// One word.
pub fn words1(a: &str) -> (r: Vec<String>)
    ensures
        r.deep_view() == seq![a@],
{
    let mut r: Vec<String> = Vec::new();
    r.push(a.to_string());
    assert(r.deep_view() =~= seq![a@]);
    r
}

/// Two words.
pub fn words2(a: &str, b: &str) -> (r: Vec<String>)
    ensures
        r.deep_view() == seq![a@, b@],
{
    let mut r = words1(a);
    let ghost before = r.deep_view();
    r.push(b.to_string());
    assert(r.deep_view() =~= before.push(b@));
    assert(r.deep_view() =~= seq![a@, b@]);
    r
}

/// Three words.
pub fn words3(a: &str, b: &str, c: &str) -> (r: Vec<String>)
    ensures
        r.deep_view() == seq![a@, b@, c@],
{
    let mut r = words2(a, b);
    let ghost before = r.deep_view();
    r.push(c.to_string());
    assert(r.deep_view() =~= before.push(c@));
    assert(r.deep_view() =~= seq![a@, b@, c@]);
    r
}

/// Four words.
pub fn words4(a: &str, b: &str, c: &str, d: &str) -> (r: Vec<String>)
    ensures
        r.deep_view() == seq![a@, b@, c@, d@],
{
    let mut r = words3(a, b, c);
    let ghost before = r.deep_view();
    r.push(d.to_string());
    assert(r.deep_view() =~= before.push(d@));
    assert(r.deep_view() =~= seq![a@, b@, c@, d@]);
    r
}

} // verus!
