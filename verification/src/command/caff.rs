//! The `caff` command: look into an archive, list it, and plan what to
//! extract from it.

use crate::render::{append_digits, append_padded, digits, padded};
use crate::text::{ends_with, has_suffix, is_listed, texts};
use std::path::PathBuf;
use vstd::prelude::*;
use vstd::string::StringExecFns;

verus! {

/// One file of an archive: what the archive says of it, and its bytes.
#[derive(Debug, Clone)]
pub struct Member {
    pub file_name: String,
    pub tag: String,
    pub file_size: u32,
    pub data: Vec<u8>,
}

/// An archive that was read: its key and its files, in order.
#[derive(Debug, Clone)]
pub struct Archive {
    pub key: u32,
    pub members: Vec<Member>,
}

/// The settings of the `caff` command.
#[derive(Debug, Clone)]
pub struct Caff {
    pub archive: PathBuf,
    pub subcommand: Subcommand,
}

/// What to do with the archive.
#[derive(Debug, Clone)]
pub enum Subcommand {
    Extract(Extract),
    List(List),
    ShowKey(ShowKey),
}

/// What the command gives back: the text to print, or the files to write.
#[derive(Debug, Clone)]
pub enum Outcome {
    /// The steps of an extraction, in order.
    Extraction(Vec<Step>),
    /// The lines of a listing, in order.
    Listing(Vec<String>),
    /// The key, as text.
    Key(String),
}

impl Caff {
    /// What the command owes for an archive: the outcome of its subcommand.
    pub open spec fn owes(&self, archive: Archive, outcome: Outcome) -> bool {
        match self.subcommand {
            Subcommand::Extract(extract) => outcome matches Outcome::Extraction(steps)
                && step_views(steps@) == extract.plan(archive.members@),
            Subcommand::List(list) => outcome matches Outcome::Listing(lines) && texts(lines@)
                == list.listing(archive.members@),
            Subcommand::ShowKey(show) => outcome matches Outcome::Key(line) && line@ == key_text(
                show.format,
                show.prefix,
                archive.key,
            ),
        }
    }

    /// Runs the subcommand on the archive that was read.
    pub fn execute(&self, archive: &Archive) -> (outcome: Outcome)
        ensures
            self.owes(*archive, outcome),
    {
        match &self.subcommand {
            Subcommand::Extract(extract) => Outcome::Extraction(extract.execute(archive)),
            Subcommand::List(list) => Outcome::Listing(list.execute(archive)),
            Subcommand::ShowKey(show) => Outcome::Key(show.execute(archive)),
        }
    }
}

/// The notation in which the key is shown.
#[derive(Debug, Clone, Copy, PartialEq, Eq, Structural)]
pub enum KeyFormat {
    Bin,
    Dec,
    Hex,
}

/// Show the key of an archive.
#[derive(Debug, Clone)]
pub struct ShowKey {
    pub format: KeyFormat,
    pub prefix: bool,
}

/// The key as text. In binary and in hexadecimal all 32 bits are shown; with
/// a prefix, `0b` or `0x` stands in front, and without one two more zeros do.
/// Hexadecimal digits are upper case. Decimal has neither prefix nor padding.
pub open spec fn key_text(format: KeyFormat, prefix: bool, key: u32) -> Seq<char> {
    match format {
        KeyFormat::Bin => if prefix {
            seq!['0', 'b'] + padded(key as nat, 2, false, 32)
        } else {
            padded(key as nat, 2, false, 34)
        },
        KeyFormat::Dec => digits(key as nat, 10, false),
        KeyFormat::Hex => if prefix {
            seq!['0', 'x'] + padded(key as nat, 16, true, 8)
        } else {
            padded(key as nat, 16, true, 10)
        },
    }
}

impl ShowKey {
    /// Writes the key of the archive in the chosen notation.
    pub fn execute(&self, archive: &Archive) -> (line: String)
        ensures
            line@ == key_text(self.format, self.prefix, archive.key),
    {
        let key: u64 = archive.key as u64;
        let mut line = String::new();
        proof {
            reveal_strlit("0b");
            reveal_strlit("0x");
        }
        match self.format {
            KeyFormat::Bin => if self.prefix {
                line.append("0b");
                append_padded(&mut line, key, 2, false, 32);
            } else {
                append_padded(&mut line, key, 2, false, 34);
            },
            KeyFormat::Dec => {
                append_digits(&mut line, key, 10, false);
            },
            KeyFormat::Hex => if self.prefix {
                line.append("0x");
                append_padded(&mut line, key, 16, true, 8);
            } else {
                append_padded(&mut line, key, 16, true, 10);
            },
        }
        line
    }
}

/// List the files of an archive.
#[derive(Debug, Clone)]
pub struct List {
    pub header: bool,
    pub sizes: bool,
    pub tags: bool,
}

/// The column header of a listing.
pub open spec fn header_text(sizes: bool, tags: bool) -> Seq<char> {
    if sizes {
        if tags {
            "FILENAME\tSIZE\tTAG"@
        } else {
            "FILENAME\tSIZE"@
        }
    } else {
        if tags {
            "FILENAME\tTAG"@
        } else {
            "FILENAME"@
        }
    }
}

/// The line of one file: its name, then its size where sizes are asked for,
/// then its tag where tags are asked for and the file has one; a tab between
/// each two.
pub open spec fn member_text(sizes: bool, tags: bool, member: Member) -> Seq<char> {
    let size_column = if sizes {
        seq!['\t'] + digits(member.file_size as nat, 10, false)
    } else {
        Seq::empty()
    };
    let tag_column = if tags && member.tag@.len() > 0 {
        seq!['\t'] + member.tag@
    } else {
        Seq::empty()
    };
    member.file_name@ + size_column + tag_column
}

impl List {
    /// The lines of the listing: the header, where it is asked for, then one
    /// line for each file, in the order of the archive.
    pub open spec fn listing(&self, members: Seq<Member>) -> Seq<Seq<char>> {
        let body = Seq::new(members.len(), |i: int| member_text(self.sizes, self.tags, members[i]));
        if self.header {
            seq![header_text(self.sizes, self.tags)] + body
        } else {
            body
        }
    }

    /// Writes the listing of the archive.
    pub fn execute(&self, archive: &Archive) -> (lines: Vec<String>)
        ensures
            texts(lines@) == self.listing(archive.members@),
    {
        let mut lines: Vec<String> = Vec::new();
        if self.header {
            let header: &'static str = if self.sizes {
                if self.tags {
                    "FILENAME\tSIZE\tTAG"
                } else {
                    "FILENAME\tSIZE"
                }
            } else {
                if self.tags {
                    "FILENAME\tTAG"
                } else {
                    "FILENAME"
                }
            };
            lines.push(String::from_str(header));
        }
        let ghost head = texts(lines@);
        assert(head =~= if self.header {
            seq![header_text(self.sizes, self.tags)]
        } else {
            Seq::empty()
        });
        proof {
            reveal_strlit("\t");
        }
        for i in 0..archive.members.len()
            invariant
                "\t"@ == seq!['\t'],
                texts(lines@) == head + Seq::new(
                    i as nat,
                    |k: int| member_text(self.sizes, self.tags, archive.members@[k]),
                ),
        {
            let member: &Member = &archive.members[i];
            let ghost before = lines@;
            let mut line: String = member.file_name.clone();
            if self.sizes {
                line.append("\t");
                append_digits(&mut line, member.file_size as u64, 10, false);
            }
            if self.tags && !member.tag.as_str().is_empty() {
                line.append("\t");
                line.append(member.tag.as_str());
            }
            assert(line@ =~= member_text(self.sizes, self.tags, *member));
            lines.push(line);
            assert(texts(lines@) =~= texts(before).push(line@));
            assert(texts(lines@) =~= head + Seq::new(
                (i + 1) as nat,
                |k: int| member_text(self.sizes, self.tags, archive.members@[k]),
            ));
        }
        lines
    }
}

/// How far extraction goes in mending the ZIP data of the main file.
#[derive(Debug, Clone, Copy, PartialEq, Eq, Structural)]
pub enum ZipAutomagic {
    /// Write the bytes as they are.
    Off,
    /// Add the missing central directory.
    Fix,
    /// Add the directory, and name the file `.zip`.
    Rename,
    /// Add the directory, name the file `.zip`, and name the content after
    /// the file.
    Rewrite,
    /// Decompress the content in place of all that.
    Unpack,
}

/// Extract files from an archive.
#[derive(Debug, Clone)]
pub struct Extract {
    pub entries: Vec<String>,
    pub output: PathBuf,
    pub tagged: bool,
    pub verbose: bool,
    pub zip_automagic: ZipAutomagic,
}

/// What becomes of the bytes of a file on their way out.
#[derive(Debug, Clone, Copy, PartialEq, Eq, Structural)]
pub enum Treatment {
    /// The bytes are written as they are.
    Copy,
    /// The bytes hold one compressed ZIP entry, which is decompressed.
    Unpack,
    /// The bytes hold one ZIP entry, which gets a central directory.
    Synthesize,
    /// As `Synthesize`, and the entry is named after the file.
    Rewrite,
}

/// One file to write.
#[derive(Debug, Clone)]
pub struct Step {
    /// The place of the file in the archive.
    pub index: usize,
    /// The name to write the file under, below the output directory.
    pub file_name: String,
    /// The line to print first, if any.
    pub announcement: Option<String>,
    pub treatment: Treatment,
}

/// A step, with its texts as characters.
pub struct StepView {
    pub index: int,
    pub file_name: Seq<char>,
    pub announcement: Option<Seq<char>>,
    pub treatment: Treatment,
}

impl View for Step {
    type V = StepView;

    open spec fn view(&self) -> StepView {
        StepView {
            index: self.index as int,
            file_name: self.file_name@,
            announcement: match self.announcement {
                Some(line) => Some(line@),
                None => None,
            },
            treatment: self.treatment,
        }
    }
}

/// The views of the steps of a sequence.
pub open spec fn step_views(steps: Seq<Step>) -> Seq<StepView> {
    steps.map_values(|step: Step| step@)
}

/// The tag of the main file of an archive, the one that holds ZIP data.
pub open spec fn main_tag() -> Seq<char> {
    "main_xml"@
}

impl Extract {
    /// Whether a file is extracted. Without `tagged` the wanted names are
    /// file names; with it they are tags, and a file without a tag never
    /// qualifies. No wanted names at all means every one.
    pub open spec fn qualifies(&self, member: Member) -> bool {
        let subject = if self.tagged {
            member.tag@
        } else {
            member.file_name@
        };
        &&& self.tagged ==> member.tag@.len() > 0
        &&& self.entries@.len() == 0 || texts(self.entries@).contains(subject)
    }

    /// What becomes of the bytes: only the main file is treated as ZIP data.
    pub open spec fn treatment(&self, member: Member) -> Treatment {
        if member.tag@ == main_tag() {
            match self.zip_automagic {
                ZipAutomagic::Off => Treatment::Copy,
                ZipAutomagic::Fix | ZipAutomagic::Rename => Treatment::Synthesize,
                ZipAutomagic::Rewrite => Treatment::Rewrite,
                ZipAutomagic::Unpack => Treatment::Unpack,
            }
        } else {
            Treatment::Copy
        }
    }

    /// Whether `.zip` is added to the name: for the main file, when renaming
    /// is asked for and the name does not end so already.
    pub open spec fn adds_suffix(&self, member: Member) -> bool {
        &&& member.tag@ == main_tag()
        &&& self.zip_automagic == ZipAutomagic::Rename || self.zip_automagic
            == ZipAutomagic::Rewrite
        &&& !ends_with(member.file_name@, ".zip"@)
    }

    /// The name that a file is written under.
    pub open spec fn target_name(&self, member: Member) -> Seq<char> {
        if self.adds_suffix(member) {
            member.file_name@ + ".zip"@
        } else {
            member.file_name@
        }
    }

    /// The line that announces a file, where announcements are asked for.
    pub open spec fn announcement(&self, member: Member) -> Option<Seq<char>> {
        if self.verbose {
            Some(
                "extract: "@ + member.file_name@ + " ("@ + digits(member.file_size as nat, 10, false)
                    + " bytes)"@,
            )
        } else {
            None
        }
    }

    /// The step for the file at `index`.
    pub open spec fn step_of(&self, index: int, member: Member) -> StepView {
        StepView {
            index,
            file_name: self.target_name(member),
            announcement: self.announcement(member),
            treatment: self.treatment(member),
        }
    }

    /// The steps for the qualifying files among the first `n`, in order.
    pub open spec fn plan_of_prefix(&self, members: Seq<Member>, n: nat) -> Seq<StepView>
        decreases n,
    {
        if n == 0 {
            Seq::empty()
        } else {
            let before = self.plan_of_prefix(members, (n - 1) as nat);
            if self.qualifies(members[n - 1]) {
                before.push(self.step_of(n - 1, members[n - 1]))
            } else {
                before
            }
        }
    }

    /// The steps for all qualifying files, in the order of the archive.
    pub open spec fn plan(&self, members: Seq<Member>) -> Seq<StepView> {
        self.plan_of_prefix(members, members.len())
    }

    /// Tells whether a file is extracted.
    pub fn wants(&self, member: &Member) -> (wanted: bool)
        ensures
            wanted == self.qualifies(*member),
    {
        if self.tagged {
            !member.tag.as_str().is_empty() && (self.entries.len() == 0 || is_listed(
                &self.entries,
                &member.tag,
            ))
        } else {
            self.entries.len() == 0 || is_listed(&self.entries, &member.file_name)
        }
    }

    /// Plans the step for one file.
    pub fn step(&self, index: usize, member: &Member) -> (step: Step)
        ensures
            step@ == self.step_of(index as int, *member),
    {
        let main: bool = member.tag == String::from_str("main_xml");
        let renames: bool = match self.zip_automagic {
            ZipAutomagic::Rename | ZipAutomagic::Rewrite => true,
            _ => false,
        };
        let mut file_name: String = member.file_name.clone();
        if main && renames && !has_suffix(member.file_name.as_str(), ".zip") {
            file_name.append(".zip");
        }
        let treatment = if main {
            match self.zip_automagic {
                ZipAutomagic::Off => Treatment::Copy,
                ZipAutomagic::Fix | ZipAutomagic::Rename => Treatment::Synthesize,
                ZipAutomagic::Rewrite => Treatment::Rewrite,
                ZipAutomagic::Unpack => Treatment::Unpack,
            }
        } else {
            Treatment::Copy
        };
        let announcement = if self.verbose {
            let mut line = String::from_str("extract: ");
            line.append(member.file_name.as_str());
            line.append(" (");
            append_digits(&mut line, member.file_size as u64, 10, false);
            line.append(" bytes)");
            Some(line)
        } else {
            None
        };
        Step { index, file_name, announcement, treatment }
    }

    /// Plans the extraction: one step for each qualifying file, in the order
    /// of the archive.
    pub fn execute(&self, archive: &Archive) -> (steps: Vec<Step>)
        ensures
            step_views(steps@) == self.plan(archive.members@),
    {
        let mut steps: Vec<Step> = Vec::new();
        for i in 0..archive.members.len()
            invariant
                step_views(steps@) == self.plan_of_prefix(archive.members@, i as nat),
        {
            let member: &Member = &archive.members[i];
            if self.wants(member) {
                let step = self.step(i, member);
                steps.push(step);
            }
        }
        steps
    }
}

/// One parsed ZIP entry; nothing is read from it here.
#[verifier::external_type_specification]
#[verifier::external_body]
pub struct ExZipEntry(synthzip::Entry);

/// The error of the ZIP functions; nothing is read from it here.
#[verifier::external_type_specification]
#[verifier::external_body]
pub struct ExZipError(synthzip::Error);

/// `synthzip::Entry::read`, on bytes in memory: parses one ZIP entry from
/// the start of the bytes. Nothing is claimed of what comes back.
#[verifier::external_body]
fn read_entry(data: &[u8]) -> (outcome: Result<synthzip::Entry, synthzip::Error>) {
    synthzip::Entry::read(&mut std::io::Cursor::new(data))
}

/// `synthzip::Entry::decompress`: inflates the data of an entry. Nothing is
/// claimed of what comes back.
pub assume_specification[ synthzip::Entry::decompress ](entry: &synthzip::Entry) -> (outcome: Result<
    Vec<u8>,
    synthzip::Error,
>)
;

/// Sets the file name in the header of an entry, as `synthzip` lets its
/// users do by assignment. Nothing is claimed of the entry afterwards.
#[verifier::external_body]
fn rename_entry(entry: &mut synthzip::Entry, file_name: String) {
    entry.header.file_name = file_name;
}

/// What is to be written for one step.
#[derive(Debug)]
pub enum Content {
    /// These bytes.
    Bytes(Vec<u8>),
    /// This ZIP entry, followed by a central directory made for it.
    Zip(synthzip::Entry),
}

/// Why the content of a step could not be made.
#[derive(Debug)]
pub enum ExtractError {
    /// The bytes are no ZIP entry, or the entry could not be decompressed.
    Zip(synthzip::Error),
}

impl Treatment {
    /// What decompression gave, as content or as failure.
    pub fn unpacked(outcome: Result<Vec<u8>, synthzip::Error>) -> (result: Result<
        Content,
        ExtractError,
    >)
        ensures
            result == match outcome {
                Ok(bytes) => Ok::<Content, ExtractError>(Content::Bytes(bytes)),
                Err(error) => Err::<Content, ExtractError>(ExtractError::Zip(error)),
            },
    {
        match outcome {
            Ok(bytes) => Ok(Content::Bytes(bytes)),
            Err(error) => Err(ExtractError::Zip(error)),
        }
    }

    /// What parsing gave, as content or as failure.
    pub fn parsed(outcome: Result<synthzip::Entry, synthzip::Error>) -> (result: Result<
        Content,
        ExtractError,
    >)
        ensures
            result == match outcome {
                Ok(entry) => Ok::<Content, ExtractError>(Content::Zip(entry)),
                Err(error) => Err::<Content, ExtractError>(ExtractError::Zip(error)),
            },
    {
        match outcome {
            Ok(entry) => Ok(Content::Zip(entry)),
            Err(error) => Err(ExtractError::Zip(error)),
        }
    }

    /// Makes the content to write from the bytes of a file. `Copy` hands the
    /// bytes on untouched and never fails. The other treatments parse the
    /// bytes as one ZIP entry: `Unpack` gives the decompressed bytes, the
    /// others give the entry, which `Rewrite` first names `file_name`.
    pub fn apply(self, data: Vec<u8>, file_name: &String) -> (result: Result<Content, ExtractError>)
        ensures
            self == Treatment::Copy ==> result == Ok::<Content, ExtractError>(Content::Bytes(data)),
            self == Treatment::Unpack ==> (result matches Ok(content) ==> content is Bytes),
            self == Treatment::Synthesize || self == Treatment::Rewrite ==> (result matches Ok(
                content,
            ) ==> content is Zip),
    {
        match self {
            Treatment::Copy => Ok(Content::Bytes(data)),
            Treatment::Unpack => match read_entry(data.as_slice()) {
                Ok(entry) => Treatment::unpacked(entry.decompress()),
                Err(error) => Err(ExtractError::Zip(error)),
            },
            Treatment::Synthesize => Treatment::parsed(read_entry(data.as_slice())),
            Treatment::Rewrite => match read_entry(data.as_slice()) {
                Ok(entry) => {
                    let mut entry = entry;
                    rename_entry(&mut entry, file_name.clone());
                    Treatment::parsed(Ok(entry))
                },
                Err(error) => Treatment::parsed(Err(error)),
            },
        }
    }
}

} // verus!
