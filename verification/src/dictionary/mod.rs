//! Dictionaries: what they are, and their words, frequencies and accents.
pub mod yomitan;

use vstd::prelude::*;
use self::yomitan::YomitanDictionary;

verus! {

/// What a dictionary is.
#[derive(Debug)]
pub struct DictionaryInfo {
    /// The title of the dictionary.
    pub title: String,
    /// What the dictionary holds.
    pub description: String,
    pub source_language: Option<String>,
    pub target_language: Option<String>,
}

/// A word with its reading and its definition.
#[derive(Debug)]
pub struct DictionaryWord {
    pub word: String,
    pub reading: String,
    pub definition: String,
}

/// How frequent a word is.
#[derive(Clone, Debug)]
pub struct Frequency {
    pub word: String,
    pub reading: String,
    pub frequency: u32,
    pub display: Option<String>,
}

/// A pitch accent of a word: the position of the downstep.
#[derive(Clone, Debug)]
pub struct Accent {
    pub word: String,
    pub reading: String,
    pub position: u32,
}

/// A dictionary: what it is, and its words, frequencies and accents.
pub trait Dictionary {
    fn info(&self) -> DictionaryInfo;

    /// The words, or `None` where a definition cannot be rendered.
    fn words(&self, img_prefix: Option<String>) -> Option<Vec<DictionaryWord>>;

    fn frequencies(&self) -> Vec<Frequency>;

    fn accents(&self) -> Vec<Accent>;
}

/// Why a dictionary cannot be loaded.
#[derive(Debug)]
pub enum DictionaryError {
    /// The kind of dictionary at `path` is not known.
    UnknownType { path: String },
}

impl DictionaryError {
    /// The message that describes the error.
    pub fn to_string(&self) -> (r: String)
        ensures
            self matches DictionaryError::UnknownType { path } ==> r@ == "Failed to analyze the type of dictionary at '"@ + path@ + "'"@,
    {
        match self {
            DictionaryError::UnknownType { path } => {
                let mut message = String::new();
                message.append("Failed to analyze the type of dictionary at '");
                message.append(path.as_str());
                message.append("'");
                message
            },
        }
    }
}

/// The dictionary found at `path`, if one of a known kind was; else the
/// error that names the path.
pub fn load_dictionary(found: Option<YomitanDictionary>, path: &str) -> (r: Result<YomitanDictionary, DictionaryError>)
    ensures
        found is Some ==> r == Ok::<YomitanDictionary, DictionaryError>(found->0),
        found is None ==> (r matches Err(DictionaryError::UnknownType { path: p }) && p@ == path@),
{
    match found {
        Some(dictionary) => Ok(dictionary),
        None => Err(DictionaryError::UnknownType { path: path.to_owned() }),
    }
}

} // verus!
