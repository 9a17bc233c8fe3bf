//! The descriptions of the commands.

use crate::order::names_equal;
use vstd::prelude::*;

verus! {

/// What the help says of one command.
#[derive(Debug, Clone, Copy, PartialEq, Eq)]
pub struct CommandInfo {
    /// The command's title.
    pub title: &'static str,
    /// What the command does.
    pub description: &'static str,
}

/// The title of `help`.
pub const HELP_TITLE: &'static str = "Help";

/// What the help says of `help`.
pub const HELP_TEXT: &'static str =
    "Displays all commands descriptions \n\
     if an argument is given, it gives the command description of the said argument";

/// The title of `exit`.
pub const EXIT_TITLE: &'static str = "Exit";

/// What the help says of `exit`.
pub const EXIT_TEXT: &'static str =
    "hey, you, yes you, if you can read this and understand it, \n\
     then there is no need for an explanation of what this command does";

/// The title of `echo`.
pub const ECHO_TITLE: &'static str = "Echo";

/// What the help says of `echo`.
pub const ECHO_TEXT: &'static str = "Repeats what you say, probably";

/// The title of `type`.
pub const TYPE_TITLE: &'static str = "Type";

/// What the help says of `type`.
pub const TYPE_TEXT: &'static str = "It just tells you if the command exists";

/// The title of `pwd`.
pub const PWD_TITLE: &'static str = "pwd";

/// What the help says of `pwd`.
pub const PWD_TEXT: &'static str = "Shows the location the program is ran in";

/// The title of `drive-space`.
pub const DRIVE_SPACE_TITLE: &'static str = "Drive Space";

/// What the help says of `drive-space`.
pub const DRIVE_SPACE_TEXT: &'static str =
    "Shows the amount of space in a drive, what else do you want?";

/// The title of `file-type-dist`.
pub const FILE_TYPE_DIST_TITLE: &'static str = "File Type Distribution";

/// What the help says of `file-type-dist`.
pub const FILE_TYPE_DIST_TEXT: &'static str =
    "Shows the distribution of the 10 file formats taking the largest space";

/// The title of `largest-files`.
pub const LARGEST_FILES_TITLE: &'static str = "Largest Files";

/// What the help says of `largest-files`.
pub const LARGEST_FILES_TEXT: &'static str = "Shows the top 10 largest files";

/// The title of `largest folder`.
pub const LARGEST_FOLDER_TITLE: &'static str = "Largest Folder";

/// What the help says of `largest folder`.
pub const LARGEST_FOLDER_TEXT: &'static str =
    "Shows the top 10 largest folders up to 3 levels deep \n\
     Excludes hidden folders (those starting with '.')";

/// The title of `recent-large-files`.
pub const RECENT_LARGE_FILES_TITLE: &'static str = "Recent Large Files";

/// What the help says of `recent-large-files`.
pub const RECENT_LARGE_FILES_TEXT: &'static str =
    "Shows most recent files within last 30 days that are large";

/// The title of `old-large-files`.
pub const OLD_LARGE_FILES_TITLE: &'static str = "Old Large Files";

/// What the help says of `old-large-files`.
pub const OLD_LARGE_FILES_TEXT: &'static str =
    "Shows older than 6 months files that are your m- i mean large";

/// The title of `full-drive-analysis`.
pub const FULL_DRIVE_ANALYSIS_TITLE: &'static str = "Full Drive Analysis";

/// What the help says of `full-drive-analysis`.
pub const FULL_DRIVE_ANALYSIS_TEXT: &'static str = "cant you read?";

/// The title of `temp-680089`.
pub const TEMP_TITLE: &'static str = "????????";

/// What the help says of `temp-680089`.
pub const TEMP_TEXT: &'static str = "";

/// How many commands the help describes.
pub const DESCRIBED_COMMANDS: usize = 13;

/// The name under which the help keeps its entry number `at`, counted
/// from 0.
pub open spec fn described_name(at: int) -> Seq<char> {
    if at == 0 {
        "help"@
    } else if at == 1 {
        "exit"@
    } else if at == 2 {
        "echo"@
    } else if at == 3 {
        "type"@
    } else if at == 4 {
        "pwd"@
    } else if at == 5 {
        "drive-space"@
    } else if at == 6 {
        "file-type-dist"@
    } else if at == 7 {
        "largest-files"@
    } else if at == 8 {
        "largest folder"@
    } else if at == 9 {
        "recent-large-files"@
    } else if at == 10 {
        "old-large-files"@
    } else if at == 11 {
        "full-drive-analysis"@
    } else {
        "temp-680089"@
    }
}

/// The entry number `at` of the help.
pub open spec fn described_info(at: int) -> CommandInfo {
    if at == 0 {
        CommandInfo { title: HELP_TITLE, description: HELP_TEXT }
    } else if at == 1 {
        CommandInfo { title: EXIT_TITLE, description: EXIT_TEXT }
    } else if at == 2 {
        CommandInfo { title: ECHO_TITLE, description: ECHO_TEXT }
    } else if at == 3 {
        CommandInfo { title: TYPE_TITLE, description: TYPE_TEXT }
    } else if at == 4 {
        CommandInfo { title: PWD_TITLE, description: PWD_TEXT }
    } else if at == 5 {
        CommandInfo { title: DRIVE_SPACE_TITLE, description: DRIVE_SPACE_TEXT }
    } else if at == 6 {
        CommandInfo { title: FILE_TYPE_DIST_TITLE, description: FILE_TYPE_DIST_TEXT }
    } else if at == 7 {
        CommandInfo { title: LARGEST_FILES_TITLE, description: LARGEST_FILES_TEXT }
    } else if at == 8 {
        CommandInfo { title: LARGEST_FOLDER_TITLE, description: LARGEST_FOLDER_TEXT }
    } else if at == 9 {
        CommandInfo { title: RECENT_LARGE_FILES_TITLE, description: RECENT_LARGE_FILES_TEXT }
    } else if at == 10 {
        CommandInfo { title: OLD_LARGE_FILES_TITLE, description: OLD_LARGE_FILES_TEXT }
    } else if at == 11 {
        CommandInfo { title: FULL_DRIVE_ANALYSIS_TITLE, description: FULL_DRIVE_ANALYSIS_TEXT }
    } else {
        CommandInfo { title: TEMP_TITLE, description: TEMP_TEXT }
    }
}

/// The place of a name among the entries of the help: the first entry kept
/// under that name from place `from` on, if there is one.
pub open spec fn place_of(name: Seq<char>, from: int) -> Option<int>
    decreases DESCRIBED_COMMANDS - from,
{
    if from < 0 || from >= DESCRIBED_COMMANDS {
        None
    } else if described_name(from) == name {
        Some(from)
    } else {
        place_of(name, from + 1)
    }
}

/// What the help says of the command of the given name, if it knows it.
pub open spec fn description_of(name: Seq<char>) -> Option<CommandInfo> {
    match place_of(name, 0) {
        Some(at) => Some(described_info(at)),
        None => None,
    }
}

/// The entry number `at` of the help: the name under which it is kept, and
/// what it says. The entries are counted from 0; past the last one the last
/// one is given again.
pub fn described(at: usize) -> (entry: (&'static str, CommandInfo))
    ensures
        entry.0@ == described_name(at as int),
        entry.1 == described_info(at as int),
{
    if at == 0 {
        ("help", CommandInfo { title: HELP_TITLE, description: HELP_TEXT })
    } else if at == 1 {
        ("exit", CommandInfo { title: EXIT_TITLE, description: EXIT_TEXT })
    } else if at == 2 {
        ("echo", CommandInfo { title: ECHO_TITLE, description: ECHO_TEXT })
    } else if at == 3 {
        ("type", CommandInfo { title: TYPE_TITLE, description: TYPE_TEXT })
    } else if at == 4 {
        ("pwd", CommandInfo { title: PWD_TITLE, description: PWD_TEXT })
    } else if at == 5 {
        ("drive-space", CommandInfo { title: DRIVE_SPACE_TITLE, description: DRIVE_SPACE_TEXT })
    } else if at == 6 {
        (
            "file-type-dist",
            CommandInfo { title: FILE_TYPE_DIST_TITLE, description: FILE_TYPE_DIST_TEXT },
        )
    } else if at == 7 {
        (
            "largest-files",
            CommandInfo { title: LARGEST_FILES_TITLE, description: LARGEST_FILES_TEXT },
        )
    } else if at == 8 {
        (
            "largest folder",
            CommandInfo { title: LARGEST_FOLDER_TITLE, description: LARGEST_FOLDER_TEXT },
        )
    } else if at == 9 {
        (
            "recent-large-files",
            CommandInfo { title: RECENT_LARGE_FILES_TITLE, description: RECENT_LARGE_FILES_TEXT },
        )
    } else if at == 10 {
        (
            "old-large-files",
            CommandInfo { title: OLD_LARGE_FILES_TITLE, description: OLD_LARGE_FILES_TEXT },
        )
    } else if at == 11 {
        (
            "full-drive-analysis",
            CommandInfo {
                title: FULL_DRIVE_ANALYSIS_TITLE,
                description: FULL_DRIVE_ANALYSIS_TEXT,
            },
        )
    } else {
        ("temp-680089", CommandInfo { title: TEMP_TITLE, description: TEMP_TEXT })
    }
}

/// What the help says of the command of the given name; `None` for a name
/// that it does not know.
pub fn command_description(name: &str) -> (info: Option<CommandInfo>)
    ensures
        info == description_of(name@),
{
    let mut at: usize = 0;
    while at < DESCRIBED_COMMANDS
        invariant
            at <= DESCRIBED_COMMANDS,
            place_of(name@, 0) == place_of(name@, at as int),
        decreases DESCRIBED_COMMANDS - at,
    {
        let entry = described(at);
        if names_equal(entry.0, name) {
            return Some(entry.1);
        }
        at = at + 1;
    }
    None
}

/// Everything that the help says, entry by entry.
pub fn all_descriptions() -> (all: Vec<CommandInfo>)
    ensures
        all@.len() == DESCRIBED_COMMANDS,
        forall|at: int| 0 <= at < DESCRIBED_COMMANDS ==> all@[at] == described_info(at),
{
    let mut all: Vec<CommandInfo> = Vec::new();
    let mut at: usize = 0;
    while at < DESCRIBED_COMMANDS
        invariant
            at <= DESCRIBED_COMMANDS,
            all@.len() == at,
            forall|i: int| 0 <= i < at ==> all@[i] == described_info(i),
        decreases DESCRIBED_COMMANDS - at,
    {
        let entry = described(at);
        all.push(entry.1);
        at = at + 1;
    }
    all
}

} // verus!
