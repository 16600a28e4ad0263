//! The files that the program keeps.

use vstd::prelude::*;
use vstd::string::*;
use crate::text::{chars_of, spells};

verus! {

/// A file of the program.
#[derive(Clone, Copy, Debug, PartialEq, Eq, Structural)]
pub enum File {
    /// The tokens.
    Auth,
    /// The settings.
    Config,
}

/// How a file is written.
#[derive(Clone, Copy, Debug, PartialEq, Eq, Structural)]
pub enum WriteMode {
    /// What the file held is thrown away.
    Overwrite,
    /// What the file held stays.
    Append,
}

/// Why a file has no place.
#[derive(Clone, Copy, Debug, PartialEq, Eq, Structural)]
pub enum FileError {
    /// The operating system is none of those that the program knows.
    UnsupportedOs,
}

/// The directories below the home directory in which the files are kept
/// under the operating system `os`.
pub open spec fn folder_spec(os: Seq<char>) -> Result<Seq<Seq<char>>, FileError> {
    if os == "linux"@ || os == "macos"@ {
        Ok(seq![".config"@, "spotifyQL"@])
    } else if os == "windows"@ {
        Ok(seq!["AppData"@, "Local"@, "spotifyQL"@])
    } else {
        Err(FileError::UnsupportedOs)
    }
}

/// What a result with names holds, as mathematics sees it.
pub open spec fn names_outcome(r: Result<Vec<String>, FileError>) -> Result<
    Seq<Seq<char>>,
    FileError,
> {
    match r {
        Ok(names) => Ok(crate::text::texts_of(names@)),
        Err(e) => Err(e),
    }
}

impl File {
    /// The name of the file.
    pub open spec fn name_spec(self) -> Seq<char> {
        match self {
            File::Auth => "auth.json"@,
            File::Config => "config.json"@,
        }
    }

    /// The directories below the home directory in which the files are
    /// kept.
    pub fn folder_path(os: &str) -> (r: Result<Vec<String>, FileError>)
        ensures
            names_outcome(r) == folder_spec(os@),
    {
        let chars = chars_of(os);
        let word = chars.as_slice();
        let mut parts: Vec<String> = Vec::new();
        if spells(word, "linux") || spells(word, "macos") {
            parts.push(String::from_str(".config"));
            parts.push(String::from_str("spotifyQL"));
            assert(crate::text::texts_of(parts@) =~= seq![".config"@, "spotifyQL"@]);
            Ok(parts)
        } else if spells(word, "windows") {
            parts.push(String::from_str("AppData"));
            parts.push(String::from_str("Local"));
            parts.push(String::from_str("spotifyQL"));
            assert(crate::text::texts_of(parts@) =~= seq!["AppData"@, "Local"@, "spotifyQL"@]);
            Ok(parts)
        } else {
            Err(FileError::UnsupportedOs)
        }
    }

    /// The way to the file from the home directory: the directories and
    /// the name of the file.
    pub fn path(&self, os: &str) -> (r: Result<Vec<String>, FileError>)
        ensures
            names_outcome(r) == match folder_spec(os@) {
                Ok(folder) => Ok::<Seq<Seq<char>>, FileError>(folder.push(self.name_spec())),
                Err(e) => Err::<Seq<Seq<char>>, FileError>(e),
            },
    {
        let mut folder = File::folder_path(os)?;
        let ghost before = crate::text::texts_of(folder@);
        match self {
            File::Auth => folder.push(String::from_str("auth.json")),
            File::Config => folder.push(String::from_str("config.json")),
        }
        assert(crate::text::texts_of(folder@) =~= before.push(self.name_spec()));
        Ok(folder)
    }
}

impl WriteMode {
    /// Whether the file is emptied before it is written.
    pub fn truncates(&self) -> (r: bool)
        ensures
            r == (*self == WriteMode::Overwrite),
    {
        match self {
            WriteMode::Overwrite => true,
            WriteMode::Append => false,
        }
    }
}

} // verus!
