//! The `analyze` command: scan the binary of a model.

use crate::reader::ScanError;
use crate::report::{records_of, scan, Record};
use crate::segment::segmentation;
use crate::word::Endian;
use std::path::PathBuf;
use vstd::prelude::*;

verus! {

/// A path of the file system; nothing is read from it here.
#[verifier::external_type_specification]
#[verifier::external_body]
pub struct ExPathBuf(PathBuf);

/// `PathBuf::clone` gives a path equal to the one it was given.
pub assume_specification[ <PathBuf as Clone>::clone ](path: &PathBuf) -> (copy: PathBuf)
    ensures
        copy == *path,
;

/// The settings of one analysis.
#[derive(Debug, Clone)]
pub struct Analyze {
    pub endian: Endian,
    pub model_file: Option<PathBuf>,
    pub report_offset: u64,
    pub runtime_dir: Option<PathBuf>,
    pub start_at: u64,
}

/// Where the model comes from.
#[derive(Debug)]
pub enum ModelSource<'a> {
    /// The model file itself.
    ModelFile(&'a PathBuf),
    /// A directory that holds one model.
    RuntimeDir(&'a PathBuf),
}

/// Why no model source can be named.
#[derive(Debug, Clone, Copy, PartialEq, Eq, Structural)]
pub enum SourceError {
    /// Both a model file and a runtime directory were given.
    Both,
    /// Neither a model file nor a runtime directory was given.
    Neither,
}

impl Analyze {
    /// The place to load the model from: the one path that is given. Two
    /// paths, or none, name no source.
    pub fn source(&self) -> (source: Result<ModelSource<'_>, SourceError>)
        ensures
            match source {
                Ok(ModelSource::ModelFile(path)) => self.model_file == Some(*path)
                    && self.runtime_dir is None,
                Ok(ModelSource::RuntimeDir(path)) => self.runtime_dir == Some(*path)
                    && self.model_file is None,
                Err(SourceError::Both) => self.model_file is Some && self.runtime_dir is Some,
                Err(SourceError::Neither) => self.model_file is None && self.runtime_dir is None,
            },
    {
        match (&self.model_file, &self.runtime_dir) {
            (Some(_), Some(_)) => Err(SourceError::Both),
            (None, None) => Err(SourceError::Neither),
            (Some(path), None) => Ok(ModelSource::ModelFile(path)),
            (None, Some(path)) => Ok(ModelSource::RuntimeDir(path)),
        }
    }

    /// Scans the binary of the loaded model and gives the records to log.
    pub fn execute(self, moc: &[u8]) -> (result: Result<Vec<Record>, ScanError>)
        ensures
            self.start_at > moc@.len() <==> result is Err,
            result is Err ==> result == Err::<Vec<Record>, ScanError>(ScanError::SeekOutOfRange),
            result matches Ok(records) ==> records@ == records_of(
                moc@,
                segmentation(moc@, self.start_at as int),
                self.endian,
                self.report_offset,
            ),
    {
        scan(moc, self.start_at, self.endian, self.report_offset)
    }
}

} // verus!
