//! What the command line decides: which command a line asks for, what
//! `echo` answers, and which volume a typed drive means.

use crate::file_types::{lowercase, lowercase_of};
use crate::order::names_equal;
use crate::types::text_of;
use vstd::prelude::*;
use vstd::string::StringExecFns;
use vstd::utf8::encode_utf8;

verus! {

/// The commands of the command line.
#[derive(Debug, Clone, Copy, PartialEq, Eq, Structural)]
pub enum CommandKind {
    /// An empty line.
    Empty,
    /// `exit`: leave, with the code given.
    Exit,
    /// `echo`: repeat the words.
    Echo,
    /// `pwd`: show the working directory.
    Pwd,
    /// `help`: describe one command or all.
    Help,
    /// `drive-space`: the space of a volume.
    DriveSpace,
    /// `file-type-dist`: the distribution by file type.
    FileTypeDist,
    /// `largest-files`: the largest files.
    LargestFiles,
    /// `largest-folder`: the largest folders.
    LargestFolder,
    /// `recent-large-files`: the large files modified lately.
    RecentLargeFiles,
    /// `old-large-files`: the large files not modified for long.
    OldLargeFiles,
    /// `full-drive-analysis`: the full report.
    FullDriveAnalysis,
    /// A first word that names no command.
    NotFound,
}

/// The command that the words of a line ask for. The first word names it;
/// `pwd` is a command only when it stands alone.
pub open spec fn kind_of(words: Seq<Seq<char>>) -> CommandKind {
    if words.len() == 0 {
        CommandKind::Empty
    } else if words[0] == "exit"@ {
        CommandKind::Exit
    } else if words[0] == "echo"@ {
        CommandKind::Echo
    } else if words[0] == "pwd"@ && words.len() == 1 {
        CommandKind::Pwd
    } else if words[0] == "help"@ {
        CommandKind::Help
    } else if words[0] == "drive-space"@ {
        CommandKind::DriveSpace
    } else if words[0] == "file-type-dist"@ {
        CommandKind::FileTypeDist
    } else if words[0] == "largest-files"@ {
        CommandKind::LargestFiles
    } else if words[0] == "largest-folder"@ {
        CommandKind::LargestFolder
    } else if words[0] == "recent-large-files"@ {
        CommandKind::RecentLargeFiles
    } else if words[0] == "old-large-files"@ {
        CommandKind::OldLargeFiles
    } else if words[0] == "full-drive-analysis"@ {
        CommandKind::FullDriveAnalysis
    } else {
        CommandKind::NotFound
    }
}

/// The texts of the words.
pub open spec fn texts(words: Seq<String>) -> Seq<Seq<char>> {
    Seq::new(words.len(), |i: int| words[i]@)
}

/// The words of a line: what stands between its white space, as the
/// standard library splits it.
pub uninterp spec fn words_of(line: Seq<char>) -> Seq<Seq<char>>;

/// Splits a line into its words with the standard library's
/// `str::split_whitespace`. Claimed of it, not proved: the words depend on
/// the line alone, which is what `words_of` names.
#[verifier::external_body]
fn split_words(line: &str) -> (words: Vec<String>)
    ensures
        texts(words@) == words_of(line@),
{
    line.split_whitespace().map(|word| word.to_owned()).collect()
}

/// Each of the words in lower case.
pub open spec fn lowered(words: Seq<Seq<char>>) -> Seq<Seq<char>> {
    Seq::new(words.len(), |i: int| lowercase_of(words[i]))
}

/// The words of a line, each in lower case: the form in which the command
/// line reads what was typed.
pub fn command_words(line: &str) -> (words: Vec<String>)
    ensures
        texts(words@) == lowered(words_of(line@)),
{
    let typed = split_words(line);
    let mut words: Vec<String> = Vec::new();
    let mut i: usize = 0;
    while i < typed.len()
        invariant
            i <= typed.len(),
            words@.len() == i,
            forall|j: int| 0 <= j < i ==> (#[trigger] words@[j])@ == lowercase_of(typed@[j]@),
        decreases typed.len() - i,
    {
        words.push(lowercase(typed[i].as_str()));
        i = i + 1;
    }
    proof {
        let all = texts(typed@);
        assert forall|j: int| 0 <= j < words@.len() implies texts(words@)[j] == lowered(all)[j] by {
            assert(all[j] == typed@[j]@);
        }
        assert(texts(words@) =~= lowered(all));
    }
    words
}

/// Tells which command the words of a line, in lower case, ask for.
pub fn command_kind(words: &Vec<String>) -> (kind: CommandKind)
    ensures
        kind == kind_of(texts(words@)),
{
    if words.len() == 0 {
        return CommandKind::Empty;
    }
    let first = words[0].as_str();
    assert(texts(words@)[0] == first@);
    if names_equal(first, "exit") {
        CommandKind::Exit
    } else if names_equal(first, "echo") {
        CommandKind::Echo
    } else if names_equal(first, "pwd") && words.len() == 1 {
        CommandKind::Pwd
    } else if names_equal(first, "help") {
        CommandKind::Help
    } else if names_equal(first, "drive-space") {
        CommandKind::DriveSpace
    } else if names_equal(first, "file-type-dist") {
        CommandKind::FileTypeDist
    } else if names_equal(first, "largest-files") {
        CommandKind::LargestFiles
    } else if names_equal(first, "largest-folder") {
        CommandKind::LargestFolder
    } else if names_equal(first, "recent-large-files") {
        CommandKind::RecentLargeFiles
    } else if names_equal(first, "old-large-files") {
        CommandKind::OldLargeFiles
    } else if names_equal(first, "full-drive-analysis") {
        CommandKind::FullDriveAnalysis
    } else {
        CommandKind::NotFound
    }
}

/// The words from position `from` on, with one blank between each two.
pub open spec fn spaced(words: Seq<Seq<char>>, from: int) -> Seq<char>
    decreases words.len() - from,
{
    if from < 0 || from >= words.len() {
        Seq::empty()
    } else if from == words.len() - 1 {
        words[from]
    } else {
        words[from] + " "@ + spaced(words, from + 1)
    }
}

/// The words after the first are "i am an idiot".
pub open spec fn is_confession(words: Seq<Seq<char>>) -> bool {
    words.len() == 5 && words[1] == "i"@ && words[2] == "am"@ && words[3] == "an"@ && words[4]
        == "idiot"@
}

/// What `echo` answers to a line: the words after the first, with one
/// blank between each two; a confession is confirmed.
pub open spec fn echo_of(words: Seq<Seq<char>>) -> Seq<char> {
    if is_confession(words) {
        "you are an idiot"@
    } else {
        spaced(words, 1)
    }
}

/// Says what `echo` answers to the words of a line, the first of which is
/// the command itself.
pub fn echo_reply(words: &Vec<String>) -> (reply: String)
    ensures
        reply@ == echo_of(texts(words@)),
{
    let ghost all = texts(words@);
    assert(forall|i: int| 0 <= i < words@.len() ==> all[i] == (#[trigger] words@[i])@);
    if words.len() == 5 && names_equal(words[1].as_str(), "i") && names_equal(
        words[2].as_str(),
        "am",
    ) && names_equal(words[3].as_str(), "an") && names_equal(words[4].as_str(), "idiot") {
        return "you are an idiot".to_owned();
    }
    let mut reply = String::new();
    if words.len() <= 1 {
        return reply;
    }
    let mut i: usize = words.len();
    while i > 1
        invariant
            all == texts(words@),
            2 <= words.len(),
            1 <= i <= words.len(),
            reply@ == spaced(all, i as int),
        decreases i,
    {
        i = i - 1;
        assert(all[i as int] == words@[i as int]@);
        if i == words.len() - 1 {
            reply = words[i].clone();
        } else {
            let mut longer = words[i].clone();
            longer.append(" ");
            longer.append(reply.as_str());
            reply = longer;
        }
    }
    reply
}

/// A text in upper case, as the standard library puts it.
pub uninterp spec fn uppercase_of(text: Seq<char>) -> Seq<char>;

/// Puts a text in upper case with the standard library's
/// `str::to_uppercase`. Claimed of it, not proved: the result depends on the
/// text alone, which is what `uppercase_of` names.
#[verifier::external_body]
fn uppercase(text: &str) -> (upper: String)
    ensures
        upper@ == uppercase_of(text@),
{
    text.to_uppercase()
}

/// The byte is an ASCII letter.
pub open spec fn is_letter(byte: u8) -> bool {
    (0x41 <= byte <= 0x5a) || (0x61 <= byte <= 0x7a)
}

/// The root that a drive, typed and put in upper case, means: a single
/// letter means that letter's root, a root of the form letter, colon, slash
/// means itself, and anything else means nothing.
pub open spec fn root_of(upper: Seq<char>) -> Option<Seq<char>> {
    let bytes = encode_utf8(upper);
    if bytes.len() == 1 && is_letter(bytes[0]) {
        Some(upper + ":/"@)
    } else if bytes.len() == 3 && is_letter(bytes[0]) && bytes[1] == 0x3a && bytes[2] == 0x2f {
        Some(upper)
    } else {
        None
    }
}

/// Tells whether a byte is an ASCII letter.
pub fn is_ascii_letter(byte: u8) -> (letter: bool)
    ensures
        letter == is_letter(byte),
{
    (0x41 <= byte && byte <= 0x5a) || (0x61 <= byte && byte <= 0x7a)
}

/// Names the root that a drive in upper case means: see `root_of`.
pub fn format_drive(upper: String) -> (root: Option<String>)
    ensures
        text_of(root) == root_of(upper@),
{
    let bytes = upper.as_str().as_bytes();
    if bytes.len() == 1 && is_ascii_letter(bytes[0]) {
        Some(upper.concat(":/"))
    } else if bytes.len() == 3 && is_ascii_letter(bytes[0]) && bytes[1] == 0x3a && bytes[2]
        == 0x2f {
        Some(upper)
    } else {
        None
    }
}

/// Names the root that a typed drive means, whatever its case: `c` and
/// `C:/` both mean `C:/`. `None` for what is no drive.
pub fn validate_and_format_drive(drive: &str) -> (root: Option<String>)
    ensures
        text_of(root) == root_of(uppercase_of(drive@)),
{
    format_drive(uppercase(drive))
}

} // verus!
