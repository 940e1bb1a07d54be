//! The `load` command: choose, among the files that a pattern matched, the
//! models to load.

use vstd::prelude::*;

verus! {

/// The number of bytes at the start of a model's binary that must be there.
pub const HEADER_BYTES: usize = 64;

/// The settings of the `load` command.
#[derive(Debug, Clone)]
pub struct Load {
    pub match_filename: Option<String>,
    pub moc3: bool,
    pub pattern: String,
}

/// What is known of one path that the pattern matched.
#[derive(Debug, Clone)]
pub struct Found {
    /// The last component of the path, where it has one.
    pub file_name: Option<String>,
    /// Whether the path has a parent directory.
    pub has_parent: bool,
}

/// Why a runtime directory could not be opened.
#[derive(Debug, Clone, Copy, PartialEq, Eq, Structural)]
pub enum Refusal {
    /// The directory holds more than one model.
    MultipleModels,
    /// Anything else.
    Other,
}

/// What to do after a runtime directory was refused.
#[derive(Debug, Clone, Copy, PartialEq, Eq, Structural)]
pub enum Recovery {
    /// Load the model file itself.
    OpenModelFile,
    /// Give up with the error.
    Fail,
}

/// The recovery from a refusal: a directory with several models is no
/// failure, the matched file says which one is meant.
pub open spec fn recovery_of(refusal: Refusal) -> Recovery {
    match refusal {
        Refusal::MultipleModels => Recovery::OpenModelFile,
        Refusal::Other => Recovery::Fail,
    }
}

impl Load {
    /// The file name of a path differs from the one that is asked for. A path
    /// without a file name differs from none, and without a name asked for
    /// none differs.
    pub open spec fn is_mismatch(&self, found: Found) -> bool {
        match (found.file_name, self.match_filename) {
            (Some(file_name), Some(target)) => file_name@ != target@,
            _ => false,
        }
    }

    /// Whether the model of a path is loaded: its name is no mismatch, and it
    /// has a parent directory to load from.
    pub open spec fn selects(&self, found: Found) -> bool {
        !self.is_mismatch(found) && found.has_parent
    }

    /// The places, among the first `n` paths, of those whose model is loaded.
    pub open spec fn selection_of_prefix(&self, found: Seq<Found>, n: nat) -> Seq<usize>
        decreases n,
    {
        if n == 0 {
            Seq::empty()
        } else {
            let before = self.selection_of_prefix(found, (n - 1) as nat);
            if self.selects(found[n - 1]) {
                before.push((n - 1) as usize)
            } else {
                before
            }
        }
    }

    /// The places of all paths whose model is loaded, in order.
    pub open spec fn selection(&self, found: Seq<Found>) -> Seq<usize> {
        self.selection_of_prefix(found, found.len())
    }

    /// Tells whether the model of a path is loaded.
    pub fn considers(&self, found: &Found) -> (selected: bool)
        ensures
            selected == self.selects(*found),
    {
        let mismatch = match (&found.file_name, &self.match_filename) {
            (Some(file_name), Some(target)) => !(*file_name == *target),
            _ => false,
        };
        !mismatch && found.has_parent
    }

    /// Chooses the models to load: the places of the selected paths, in the
    /// order in which the pattern matched them.
    pub fn execute(&self, found: &Vec<Found>) -> (places: Vec<usize>)
        ensures
            places@ == self.selection(found@),
    {
        let mut places: Vec<usize> = Vec::new();
        for i in 0..found.len()
            invariant
                places@ == self.selection_of_prefix(found@, i as nat),
        {
            if self.considers(&found[i]) {
                places.push(i);
            }
        }
        places
    }

    /// Decides what follows when a runtime directory was refused.
    pub fn recover(refusal: Refusal) -> (recovery: Recovery)
        ensures
            recovery == recovery_of(refusal),
    {
        match refusal {
            Refusal::MultipleModels => Recovery::OpenModelFile,
            Refusal::Other => Recovery::Fail,
        }
    }

    /// Tells whether the binary of a loaded model holds a whole header.
    pub fn has_header(moc: &[u8]) -> (whole: bool)
        ensures
            whole == (moc@.len() >= HEADER_BYTES),
    {
        moc.len() >= HEADER_BYTES
    }
}

/// A parsed model binary; nothing is read from it here.
#[verifier::external_type_specification]
#[verifier::external_body]
pub struct ExModel(orphism::moc3::Model);

/// The error of the model parser; nothing is read from it here.
#[verifier::external_type_specification]
#[verifier::external_body]
pub struct ExModelError(orphism::moc3::Error);

/// `moc3::Model::read`, which `orphism` hands on under `orphism::moc3`:
/// parses the binary of a model. Nothing is claimed of what comes back.
pub assume_specification[ orphism::moc3::Model::read ](moc3: Vec<u8>) -> (outcome: Result<
    orphism::moc3::Model,
    orphism::moc3::Error,
>)
;

/// The `Debug` text of a parsed model, in its pretty form. Nothing is claimed
/// of the text.
#[verifier::external_body]
fn debug_text(model: &orphism::moc3::Model) -> (text: String) {
    format!("{model:#?}")
}

/// Why a model binary could not be shown.
#[derive(Debug)]
pub enum LoadError {
    /// The binary could not be parsed.
    Moc3(orphism::moc3::Error),
}

impl Load {
    /// What parsing and writing out gave, as the text to print or as failure.
    pub fn shown(outcome: Result<String, orphism::moc3::Error>) -> (result: Result<
        Option<String>,
        LoadError,
    >)
        ensures
            result == match outcome {
                Ok(text) => Ok::<Option<String>, LoadError>(Some(text)),
                Err(error) => Err::<Option<String>, LoadError>(LoadError::Moc3(error)),
            },
    {
        match outcome {
            Ok(text) => Ok(Some(text)),
            Err(error) => Err(LoadError::Moc3(error)),
        }
    }

    /// The text to print for the binary of a loaded model: none unless
    /// parsing is asked for, else the parsed model in full.
    pub fn show(&self, moc: Vec<u8>) -> (result: Result<Option<String>, LoadError>)
        ensures
            !self.moc3 ==> result == Ok::<Option<String>, LoadError>(None),
            self.moc3 ==> (result matches Ok(text) ==> text is Some),
    {
        if !self.moc3 {
            return Ok(None);
        }
        match orphism::moc3::Model::read(moc) {
            Ok(model) => Load::shown(Ok(debug_text(&model))),
            Err(error) => Load::shown(Err(error)),
        }
    }
}

} // verus!
