use blobscan::command::caff::{
    Archive, Caff, Content, Extract, ExtractError, KeyFormat, List, Member, Outcome, ShowKey, Step,
    Subcommand, Treatment, ZipAutomagic,
};
use std::path::PathBuf;

fn member(file_name: &str, tag: &str, data: &[u8]) -> Member {
    Member {
        file_name: file_name.to_string(),
        tag: tag.to_string(),
        file_size: data.len() as u32,
        data: data.to_vec(),
    }
}

fn archive() -> Archive {
    Archive {
        key: 0x00c0ffee,
        members: vec![
            member("model.cmo3", "main_xml", &[1, 2, 3]),
            member("icon.png", "", &[4; 70000]),
            member("notes.zip", "main_xml", &[]),
            member("texture.png", "tex", &[5, 6]),
        ],
    }
}

fn extract(entries: &[&str], tagged: bool, verbose: bool, zip_automagic: ZipAutomagic) -> Extract {
    Extract {
        entries: entries.iter().map(|e| e.to_string()).collect(),
        output: PathBuf::from("output"),
        tagged,
        verbose,
        zip_automagic,
    }
}

fn summary(steps: &[Step]) -> Vec<(usize, &str, Treatment)> {
    steps.iter().map(|s| (s.index, s.file_name.as_str(), s.treatment)).collect()
}

fn zip_entry(name: &str, crc: u32) -> Vec<u8> {
    let deflated = [1u8, 2, 0, 253, 255, 104, 105];
    let mut bytes = vec![0x50, 0x4b, 0x03, 0x04];
    bytes.extend(20u16.to_le_bytes());
    bytes.extend(0u16.to_le_bytes());
    bytes.extend(8u16.to_le_bytes());
    bytes.extend(0u16.to_le_bytes());
    bytes.extend(0u16.to_le_bytes());
    bytes.extend(crc.to_le_bytes());
    bytes.extend((deflated.len() as u32).to_le_bytes());
    bytes.extend(2u32.to_le_bytes());
    bytes.extend((name.len() as u16).to_le_bytes());
    bytes.extend(0u16.to_le_bytes());
    bytes.extend(name.as_bytes());
    bytes.extend(deflated);
    bytes
}

#[test]
fn key_is_shown_in_every_notation() {
    let archive = archive();
    let cases = [
        (KeyFormat::Bin, false, "0000000000110000001111111111101110"),
        (KeyFormat::Bin, true, "0b00000000110000001111111111101110"),
        (KeyFormat::Dec, false, "12648430"),
        (KeyFormat::Dec, true, "12648430"),
        (KeyFormat::Hex, false, "0000C0FFEE"),
        (KeyFormat::Hex, true, "0x00C0FFEE"),
    ];
    for (format, prefix, expected) in cases {
        assert_eq!(ShowKey { format, prefix }.execute(&archive), expected);
    }
}

#[test]
fn key_text_agrees_with_the_formatting_of_the_standard_library() {
    for key in [0u32, 1, 9, 10, 255, 0xabc, 0x8000_0000, 0x7fff_ffff, u32::MAX, 0xdead_beef] {
        let archive = Archive { key, members: vec![] };
        let show = |format, prefix| ShowKey { format, prefix }.execute(&archive);
        assert_eq!(show(KeyFormat::Bin, false), format!("{key:034b}"));
        assert_eq!(show(KeyFormat::Bin, true), format!("{key:#034b}"));
        assert_eq!(show(KeyFormat::Dec, false), format!("{key}"));
        assert_eq!(show(KeyFormat::Dec, true), format!("{key}"));
        assert_eq!(show(KeyFormat::Hex, false), format!("{key:010X?}"));
        assert_eq!(show(KeyFormat::Hex, true), format!("{key:#010X?}"));
    }
}

#[test]
fn listing_has_the_columns_that_are_asked_for() {
    let archive = archive();
    let list = |header, sizes, tags| List { header, sizes, tags }.execute(&archive);
    assert_eq!(
        list(true, false, false),
        vec!["FILENAME", "model.cmo3", "icon.png", "notes.zip", "texture.png"]
    );
    assert_eq!(
        list(true, true, false),
        vec!["FILENAME\tSIZE", "model.cmo3\t3", "icon.png\t70000", "notes.zip\t0", "texture.png\t2"]
    );
    assert_eq!(
        list(true, false, true),
        vec![
            "FILENAME\tTAG",
            "model.cmo3\tmain_xml",
            "icon.png",
            "notes.zip\tmain_xml",
            "texture.png\ttex"
        ]
    );
    assert_eq!(
        list(true, true, true),
        vec![
            "FILENAME\tSIZE\tTAG",
            "model.cmo3\t3\tmain_xml",
            "icon.png\t70000",
            "notes.zip\t0\tmain_xml",
            "texture.png\t2\ttex"
        ]
    );
    assert_eq!(
        list(false, true, true),
        vec!["model.cmo3\t3\tmain_xml", "icon.png\t70000", "notes.zip\t0\tmain_xml", "texture.png\t2\ttex"]
    );
}

#[test]
fn listing_of_an_empty_archive_is_the_header_alone() {
    let empty = Archive { key: 0, members: vec![] };
    assert_eq!(List { header: true, sizes: true, tags: false }.execute(&empty), vec!["FILENAME\tSIZE"]);
    assert_eq!(List { header: false, sizes: true, tags: true }.execute(&empty), Vec::<String>::new());
}

#[test]
fn size_column_is_the_size_that_the_archive_states() {
    let mut odd = member("a", "", &[1, 2, 3]);
    odd.file_size = u32::MAX;
    let archive = Archive { key: 0, members: vec![odd] };
    assert_eq!(List { header: false, sizes: true, tags: false }.execute(&archive), vec!["a\t4294967295"]);
}

#[test]
fn without_names_every_file_is_extracted() {
    let steps = extract(&[], false, false, ZipAutomagic::Unpack).execute(&archive());
    assert_eq!(
        summary(&steps),
        vec![
            (0, "model.cmo3", Treatment::Unpack),
            (1, "icon.png", Treatment::Copy),
            (2, "notes.zip", Treatment::Unpack),
            (3, "texture.png", Treatment::Copy),
        ]
    );
    assert!(steps.iter().all(|step| step.announcement.is_none()));
}

#[test]
fn names_select_files_by_file_name() {
    let steps = extract(&["texture.png", "model.cmo3", "tex"], false, false, ZipAutomagic::Off)
        .execute(&archive());
    assert_eq!(
        summary(&steps),
        vec![(0, "model.cmo3", Treatment::Copy), (3, "texture.png", Treatment::Copy)]
    );
    let steps = extract(&["main_xml"], false, false, ZipAutomagic::Off).execute(&archive());
    assert_eq!(summary(&steps), vec![]);
}

#[test]
fn tagged_names_select_files_by_tag() {
    let steps = extract(&["tex"], true, false, ZipAutomagic::Fix).execute(&archive());
    assert_eq!(summary(&steps), vec![(3, "texture.png", Treatment::Copy)]);
    let steps = extract(&["main_xml"], true, false, ZipAutomagic::Fix).execute(&archive());
    assert_eq!(
        summary(&steps),
        vec![(0, "model.cmo3", Treatment::Synthesize), (2, "notes.zip", Treatment::Synthesize)]
    );
    let steps = extract(&["icon.png"], true, false, ZipAutomagic::Fix).execute(&archive());
    assert_eq!(summary(&steps), vec![]);
}

#[test]
fn tagged_without_names_skips_files_without_a_tag() {
    let steps = extract(&[], true, false, ZipAutomagic::Off).execute(&archive());
    assert_eq!(
        summary(&steps),
        vec![
            (0, "model.cmo3", Treatment::Copy),
            (2, "notes.zip", Treatment::Copy),
            (3, "texture.png", Treatment::Copy),
        ]
    );
    let steps = extract(&[""], true, false, ZipAutomagic::Off).execute(&archive());
    assert_eq!(summary(&steps), vec![]);
}

#[test]
fn renaming_adds_the_suffix_to_the_main_file_only() {
    for (mode, treatment) in
        [(ZipAutomagic::Rename, Treatment::Synthesize), (ZipAutomagic::Rewrite, Treatment::Rewrite)]
    {
        let steps = extract(&[], false, false, mode).execute(&archive());
        assert_eq!(
            summary(&steps),
            vec![
                (0, "model.cmo3.zip", treatment),
                (1, "icon.png", Treatment::Copy),
                (2, "notes.zip", treatment),
                (3, "texture.png", Treatment::Copy),
            ]
        );
    }
    let members = vec![member("zip", "main_xml", &[]), member(".zip", "main_xml", &[]), member("a.ZIP", "main_xml", &[])];
    let steps = extract(&[], false, false, ZipAutomagic::Rename).execute(&Archive { key: 0, members });
    assert_eq!(
        summary(&steps),
        vec![
            (0, "zip.zip", Treatment::Synthesize),
            (1, ".zip", Treatment::Synthesize),
            (2, "a.ZIP.zip", Treatment::Synthesize),
        ]
    );
}

#[test]
fn every_mode_has_its_treatment() {
    let cases = [
        (ZipAutomagic::Off, Treatment::Copy, "model.cmo3"),
        (ZipAutomagic::Fix, Treatment::Synthesize, "model.cmo3"),
        (ZipAutomagic::Rename, Treatment::Synthesize, "model.cmo3.zip"),
        (ZipAutomagic::Rewrite, Treatment::Rewrite, "model.cmo3.zip"),
        (ZipAutomagic::Unpack, Treatment::Unpack, "model.cmo3"),
    ];
    for (mode, treatment, name) in cases {
        let steps = extract(&["model.cmo3"], false, false, mode).execute(&archive());
        assert_eq!(summary(&steps), vec![(0, name, treatment)]);
    }
}

#[test]
fn verbose_steps_announce_the_file() {
    let steps = extract(&[], false, true, ZipAutomagic::Rename).execute(&archive());
    let lines: Vec<&str> = steps.iter().map(|s| s.announcement.as_deref().unwrap()).collect();
    assert_eq!(
        lines,
        vec![
            "extract: model.cmo3 (3 bytes)",
            "extract: icon.png (70000 bytes)",
            "extract: notes.zip (0 bytes)",
            "extract: texture.png (2 bytes)",
        ]
    );
}

#[test]
fn single_steps_agree_with_the_plan() {
    let extract = extract(&["model.cmo3"], false, true, ZipAutomagic::Rewrite);
    let archive = archive();
    assert!(extract.wants(&archive.members[0]));
    assert!(!extract.wants(&archive.members[1]));
    let step = extract.step(0, &archive.members[0]);
    assert_eq!(step.index, 0);
    assert_eq!(step.file_name, "model.cmo3.zip");
    assert_eq!(step.treatment, Treatment::Rewrite);
    assert_eq!(step.announcement.as_deref(), Some("extract: model.cmo3 (3 bytes)"));
}

#[test]
fn copy_hands_the_bytes_on() {
    let name = String::from("any");
    for data in [vec![], vec![1u8, 2, 3], zip_entry("inner", 0)] {
        match Treatment::Copy.apply(data.clone(), &name) {
            Ok(Content::Bytes(bytes)) => assert_eq!(bytes, data),
            other => panic!("bytes were expected, not {other:?}"),
        }
    }
}

#[test]
fn unpack_inflates_the_entry() {
    let name = String::from("any");
    match Treatment::Unpack.apply(zip_entry("inner", 0), &name) {
        Ok(Content::Bytes(bytes)) => assert_eq!(bytes, b"hi"),
        other => panic!("bytes were expected, not {other:?}"),
    }
}

#[test]
fn unpack_fails_on_what_is_no_entry() {
    let name = String::from("any");
    for data in [vec![], vec![1u8, 2, 3, 4, 5], b"PK\x03\x04".to_vec()] {
        assert!(matches!(Treatment::Unpack.apply(data.clone(), &name), Err(ExtractError::Zip(_))));
        assert!(matches!(Treatment::Synthesize.apply(data.clone(), &name), Err(ExtractError::Zip(_))));
        assert!(matches!(Treatment::Rewrite.apply(data, &name), Err(ExtractError::Zip(_))));
    }
    let mut cut = zip_entry("inner", 0);
    cut.pop();
    assert!(matches!(Treatment::Unpack.apply(cut, &name), Err(ExtractError::Zip(_))));
}

#[test]
fn synthesize_keeps_the_name_and_rewrite_changes_it() {
    let name = String::from("model.cmo3");
    match Treatment::Synthesize.apply(zip_entry("inner", 7), &name) {
        Ok(Content::Zip(entry)) => {
            assert_eq!(entry.header.file_name, "inner");
            assert_eq!(entry.data, vec![1u8, 2, 0, 253, 255, 104, 105]);
        }
        other => panic!("an entry was expected, not {other:?}"),
    }
    match Treatment::Rewrite.apply(zip_entry("inner", 7), &name) {
        Ok(Content::Zip(entry)) => {
            assert_eq!(entry.header.file_name, "model.cmo3");
            assert_eq!(entry.header.crc32_of_uncompressed_data, 7);
            assert_eq!(entry.data, vec![1u8, 2, 0, 253, 255, 104, 105]);
        }
        other => panic!("an entry was expected, not {other:?}"),
    }
}

#[test]
fn unpacked_maps_both_outcomes() {
    assert!(matches!(Treatment::unpacked(Ok(vec![1, 2])), Ok(Content::Bytes(bytes)) if bytes == vec![1, 2]));
    let failure = synthzip::Error::BadSignatureInLocalFileHeader;
    assert!(matches!(
        Treatment::unpacked(Err(failure)),
        Err(ExtractError::Zip(synthzip::Error::BadSignatureInLocalFileHeader))
    ));
}

#[test]
fn caff_runs_its_subcommand() {
    let archive = archive();
    let caff = |subcommand| Caff { archive: PathBuf::from("model.cmo3"), subcommand };
    match caff(Subcommand::ShowKey(ShowKey { format: KeyFormat::Hex, prefix: true })).execute(&archive) {
        Outcome::Key(line) => assert_eq!(line, "0x00C0FFEE"),
        other => panic!("a key was expected, not {other:?}"),
    }
    match caff(Subcommand::List(List { header: false, sizes: false, tags: false })).execute(&archive) {
        Outcome::Listing(lines) => {
            assert_eq!(lines, vec!["model.cmo3", "icon.png", "notes.zip", "texture.png"])
        }
        other => panic!("a listing was expected, not {other:?}"),
    }
    match caff(Subcommand::Extract(extract(&["icon.png"], false, false, ZipAutomagic::Unpack)))
        .execute(&archive)
    {
        Outcome::Extraction(steps) => assert_eq!(summary(&steps), vec![(1, "icon.png", Treatment::Copy)]),
        other => panic!("steps were expected, not {other:?}"),
    }
}
