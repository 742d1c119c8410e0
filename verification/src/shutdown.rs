//! Shutting the host down.

use vstd::prelude::*;

use crate::command::{command, words1, words2, words3, words4, Command, CommandResult};
use crate::text::concat;

verus! {

/// A way to shut the host down.
#[derive(Clone, Copy, Debug, PartialEq, Eq, Structural)]
pub enum Way {
    /// Windows: `shutdown`.
    Windows,
    /// Windows: `shutdown`, without waiting for programs.
    WindowsForced,
    Shutdown,
    Poweroff,
    Systemctl,
    Init,
}

/// The first way to try.
pub open spec fn first_way(on_windows: bool) -> Way {
    if on_windows {
        Way::Windows
    } else {
        Way::Shutdown
    }
}

/// The way to try when another has failed.
pub open spec fn next_way(way: Way) -> Option<Way> {
    match way {
        Way::Windows => Some(Way::WindowsForced),
        Way::WindowsForced => None,
        Way::Shutdown => Some(Way::Poweroff),
        Way::Poweroff => Some(Way::Systemctl),
        Way::Systemctl => Some(Way::Init),
        Way::Init => None,
    }
}

/// Whether the way is one of Windows.
pub open spec fn is_windows(way: Way) -> bool {
    way is Windows || way is WindowsForced
}

/// The program of a way.
pub open spec fn way_program(way: Way) -> Seq<char> {
    match way {
        Way::Windows => "shutdown"@,
        Way::WindowsForced => "shutdown"@,
        Way::Shutdown => "shutdown"@,
        Way::Poweroff => "poweroff"@,
        Way::Systemctl => "systemctl"@,
        Way::Init => "init"@,
    }
}

/// The arguments of a way.
pub open spec fn way_args(way: Way) -> Seq<Seq<char>> {
    match way {
        Way::Windows => seq!["/s"@, "/t"@, "0"@],
        Way::WindowsForced => seq!["/s"@, "/f"@, "/t"@, "0"@],
        Way::Shutdown => seq!["-h"@, "now"@],
        Way::Poweroff => Seq::empty(),
        Way::Systemctl => seq!["poweroff"@],
        Way::Init => seq!["0"@],
    }
}

/// What is noted where the way has run and failed, before the status.
pub open spec fn exited_note(way: Way) -> Seq<char> {
    match way {
        Way::Windows => Seq::empty(),
        Way::WindowsForced => Seq::empty(),
        Way::Shutdown => "shutdown -h now exited with status: "@,
        Way::Poweroff => "poweroff exited with status: "@,
        Way::Systemctl => "systemctl poweroff exited with status: "@,
        Way::Init => "init 0 exited with status: "@,
    }
}

/// What is noted where the way could not be run, before the reason.
pub open spec fn not_run_note(way: Way) -> Seq<char> {
    match way {
        Way::Windows => Seq::empty(),
        Way::WindowsForced => Seq::empty(),
        Way::Shutdown => "failed to run shutdown: "@,
        Way::Poweroff => "failed to run poweroff: "@,
        Way::Systemctl => "failed to run systemctl: "@,
        Way::Init => "failed to run init: "@,
    }
}

/// Whether the way has worked: on Windows it is enough that it ran.
pub open spec fn worked(way: Way, result: CommandResult) -> bool {
    match result {
        CommandResult::Ran { success, .. } => success || is_windows(way),
        CommandResult::NotRun { .. } => false,
    }
}

/// What is noted of a way that has not worked.
pub open spec fn note_of(way: Way, result: CommandResult) -> Seq<char> {
    match result {
        CommandResult::Ran { status, .. } => exited_note(way) + status@,
        CommandResult::NotRun { reason, .. } => not_run_note(way) + reason@,
    }
}

/// The way that is being tried, and what is noted of those before it.
pub struct ShutdownRun {
    pub way: Way,
    pub notes: Vec<String>,
}

/// What comes after a way to shut the host down.
pub enum ShutdownStep {
    /// Another way.
    Next(ShutdownRun),
    /// The host shuts down.
    Done,
    /// No way has worked.
    Failed(Vec<String>),
}

/// The first way to shut the host down.
pub fn trigger_shutdown(on_windows: bool) -> (r: ShutdownRun)
    ensures
        r.way == first_way(on_windows),
        r.notes@.len() == 0,
{
    ShutdownRun {
        way: if on_windows {
            Way::Windows
        } else {
            Way::Shutdown
        },
        notes: Vec::new(),
    }
}

/// The command line of a way.
pub fn way_command(way: Way) -> (r: Command)
    ensures
        r.is(way_program(way), way_args(way)),
{
    match way {
        Way::Windows => command("shutdown", words3("/s", "/t", "0")),
        Way::WindowsForced => command("shutdown", words4("/s", "/f", "/t", "0")),
        Way::Shutdown => command("shutdown", words2("-h", "now")),
        Way::Poweroff => {
            let r = command("poweroff", Vec::new());
            assert(r.args.deep_view() =~= Seq::<Seq<char>>::empty());
            r
        },
        Way::Systemctl => command("systemctl", words1("poweroff")),
        Way::Init => command("init", words1("0")),
    }
}

/// What is noted of a way that has not worked.
fn note(way: Way, result: &CommandResult) -> (r: String)
    ensures
        r@ == note_of(way, *result),
{
    match result {
        CommandResult::Ran { status, .. } => {
            let head = match way {
                Way::Windows => "",
                Way::WindowsForced => "",
                Way::Shutdown => "shutdown -h now exited with status: ",
                Way::Poweroff => "poweroff exited with status: ",
                Way::Systemctl => "systemctl poweroff exited with status: ",
                Way::Init => "init 0 exited with status: ",
            };
            proof {
                reveal_strlit("");
                assert(head@ =~= exited_note(way));
            }
            concat(head, status.as_str())
        },
        CommandResult::NotRun { reason, .. } => {
            let head = match way {
                Way::Windows => "",
                Way::WindowsForced => "",
                Way::Shutdown => "failed to run shutdown: ",
                Way::Poweroff => "failed to run poweroff: ",
                Way::Systemctl => "failed to run systemctl: ",
                Way::Init => "failed to run init: ",
            };
            proof {
                reveal_strlit("");
                assert(head@ =~= not_run_note(way));
            }
            concat(head, reason.as_str())
        },
    }
}

/// Whether this step comes after a way of which that came, with these notes on
/// the ways before it.
pub open spec fn goes_on(
    way: Way,
    notes: Seq<Seq<char>>,
    result: CommandResult,
    step: ShutdownStep,
) -> bool {
    if worked(way, result) {
        step is Done
    } else {
        match next_way(way) {
            Some(next) => step matches ShutdownStep::Next(run) && run.way == next
                && run.notes.deep_view() == notes.push(note_of(way, result)),
            None => step matches ShutdownStep::Failed(told) && told.deep_view() == notes.push(
                note_of(way, result),
            ),
        }
    }
}

impl ShutdownRun {
    /// What comes after the way that has been tried: nothing where it has
    /// worked, else the next way, or the notes on all of them.
    pub fn report(self, result: CommandResult) -> (r: ShutdownStep)
        ensures
            goes_on(self.way, self.notes.deep_view(), result, r),
    {
        let windows = match self.way {
            Way::Windows => true,
            Way::WindowsForced => true,
            _ => false,
        };
        if let CommandResult::Ran { success, .. } = &result {
            if *success || windows {
                return ShutdownStep::Done;
            }
        }
        let ghost before = self.notes.deep_view();
        let text = note(self.way, &result);
        let way = self.way;
        let mut notes = self.notes;
        notes.push(text);
        assert(notes.deep_view() =~= before.push(text@));
        match way {
            Way::Windows => ShutdownStep::Next(ShutdownRun { way: Way::WindowsForced, notes }),
            Way::Shutdown => ShutdownStep::Next(ShutdownRun { way: Way::Poweroff, notes }),
            Way::Poweroff => ShutdownStep::Next(ShutdownRun { way: Way::Systemctl, notes }),
            Way::Systemctl => ShutdownStep::Next(ShutdownRun { way: Way::Init, notes }),
            Way::WindowsForced => ShutdownStep::Failed(notes),
            Way::Init => ShutdownStep::Failed(notes),
        }
    }
}

} // verus!
