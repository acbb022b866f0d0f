//! The settings of a run and the lines that a run writes to the console.

use vstd::prelude::*;
use vstd::string::*;
use crate::model::Move;

verus! {

/// The settings of one run. They do not change once the run has begun.
#[derive(Clone, Debug, PartialEq, Eq)]
pub struct Config {
    /// The text that the base name of a file must contain for it to be moved.
    pub pattern: String,
    /// The root of the tree to scan.
    pub source_path: String,
    /// The directory that receives the files.
    pub target_path: String,
}

impl Default for Config {
    /// The empty pattern, which selects every file; the working directory
    /// as the source; and the empty path as the target, which names the
    /// working directory too.
    fn default() -> (c: Config)
        ensures
            c.pattern@ == Seq::<char>::empty(),
            c.source_path@ == seq!['.'],
            c.target_path@ == Seq::<char>::empty(),
    {
        proof {
            reveal_strlit("");
            reveal_strlit(".");
            assert(""@ =~= Seq::<char>::empty());
            assert("."@ =~= seq!['.']);
        }
        Config {
            pattern: String::from_str(""),
            source_path: String::from_str("."),
            target_path: String::from_str(""),
        }
    }
}

impl Config {
    /// The three lines that echo the settings: pattern, source, target.
    pub fn lines(&self) -> (lines: Vec<String>)
        ensures
            lines@.len() == 3,
            lines@[0]@ == "Pattern: "@ + self.pattern@,
            lines@[1]@ == "Source Path: "@ + self.source_path@,
            lines@[2]@ == "Target Path: "@ + self.target_path@,
    {
        let mut lines: Vec<String> = Vec::new();
        lines.push(String::from_str("Pattern: ").concat(self.pattern.as_str()));
        lines.push(String::from_str("Source Path: ").concat(self.source_path.as_str()));
        lines.push(String::from_str("Target Path: ").concat(self.target_path.as_str()));
        lines
    }
}

/// The line that names a directory to scan.
pub fn directory_line(path: &str) -> (line: String)
    ensures
        line@ == "Path: "@ + path@,
{
    String::from_str("Path: ").concat(path)
}

/// The line that names a file that is looked at.
pub fn checking_line(path: &str) -> (line: String)
    ensures
        line@ == "Checking file: "@ + path@,
{
    String::from_str("Checking file: ").concat(path)
}

impl Move {
    /// The line that names a file that is moved, and the directory that receives it.
    pub fn moving_line(&self) -> (line: String)
        ensures
            line@ == "Moving file: "@ + self.source@ + " to "@ + self.into@,
    {
        String::from_str("Moving file: ").concat(self.source.as_str()).concat(" to ").concat(
            self.into.as_str(),
        )
    }
}

} // verus!
