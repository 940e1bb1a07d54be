//! The commands of the tool, and the verbosity at which it logs.
//!
//! A command does no reading and no writing of its own. What it needs from
//! outside is handed to it as plain values, and what it gives back says what
//! is to be printed or written.

pub mod analyze;
pub mod caff;
pub mod load;

use crate::command::analyze::Analyze;
use crate::command::caff::{Archive, Caff, Outcome};
use crate::command::load::{Found, Load};
use crate::reader::ScanError;
use crate::report::{records_of, Record};
use crate::segment::segmentation;
use vstd::prelude::*;

verus! {

/// How much the tool logs; also the tier at which one record is written.
#[derive(Debug, Clone, Copy, PartialEq, Eq, Structural)]
pub enum LogLevel {
    Debug,
    Error,
    Info,
    Trace,
    Warn,
}

/// One invocation of the tool.
#[derive(Debug, Clone)]
pub struct Command {
    pub log_level: LogLevel,
    pub subcommand: Subcommand,
}

/// What the tool is asked to do.
#[derive(Debug, Clone)]
pub enum Subcommand {
    Analyze(Analyze),
    Caff(Caff),
    Load(Load),
}

/// What a command works on, once it has been fetched.
#[derive(Debug, Clone)]
pub enum Input {
    /// The binary of the model to analyze.
    Moc(Vec<u8>),
    /// The archive to look into.
    Archive(Archive),
    /// The paths that the pattern matched.
    Found(Vec<Found>),
}

/// What a command gives back.
#[derive(Debug, Clone)]
pub enum Output {
    /// The records of an analysis, in order.
    Records(Vec<Record>),
    /// The outcome of a look into an archive.
    Caff(Outcome),
    /// The places of the paths whose model is to be loaded.
    Selection(Vec<usize>),
}

/// Why a command gave nothing back.
#[derive(Debug, Clone, Copy, PartialEq, Eq, Structural)]
pub enum Failure {
    /// The scan could not begin.
    Scan(ScanError),
    /// The input is not of the kind that the command works on.
    WrongInput,
}

impl Command {
    /// What the command owes for an input: the result of its subcommand on an
    /// input of its kind, and a refusal of any other input.
    pub open spec fn owes(&self, input: Input, result: Result<Output, Failure>) -> bool {
        match (self.subcommand, input) {
            (Subcommand::Analyze(analyze), Input::Moc(moc)) => if analyze.start_at > moc@.len() {
                result == Err::<Output, Failure>(Failure::Scan(ScanError::SeekOutOfRange))
            } else {
                result matches Ok(Output::Records(records)) && records@ == records_of(
                    moc@,
                    segmentation(moc@, analyze.start_at as int),
                    analyze.endian,
                    analyze.report_offset,
                )
            },
            (Subcommand::Caff(caff), Input::Archive(archive)) => result matches Ok(
                Output::Caff(outcome),
            ) && caff.owes(archive, outcome),
            (Subcommand::Load(load), Input::Found(found)) => result matches Ok(
                Output::Selection(places),
            ) && places@ == load.selection(found@),
            _ => result == Err::<Output, Failure>(Failure::WrongInput),
        }
    }

    /// Runs the subcommand on its input.
    pub fn execute(self, input: &Input) -> (result: Result<Output, Failure>)
        ensures
            self.owes(*input, result),
    {
        match (self.subcommand, input) {
            (Subcommand::Analyze(analyze), Input::Moc(moc)) => match analyze.execute(
                moc.as_slice(),
            ) {
                Ok(records) => Ok(Output::Records(records)),
                Err(error) => Err(Failure::Scan(error)),
            },
            (Subcommand::Caff(caff), Input::Archive(archive)) => Ok(
                Output::Caff(caff.execute(archive)),
            ),
            (Subcommand::Load(load), Input::Found(found)) => Ok(
                Output::Selection(load.execute(found)),
            ),
            _ => Err(Failure::WrongInput),
        }
    }
}

} // verus!
