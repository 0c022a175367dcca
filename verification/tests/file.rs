use roster::ErrorKind;
use roster::Roster;
use roster::RosterError;
use roster::RosterFormat;
use roster::TableRecord;
use std::io::Write;

const DOCUMENT: &str = "<w:document><w:tbl><w:tr><w:tc>Captain</w:tc><w:tc>90</w:tc></w:tr><w:tr><w:tc>Total</w:tc></w:tr></w:tbl></w:document>";

fn cells(count: usize) -> Vec<String> {
    vec!["w:tc".to_string(); count]
}

fn tables_of_the_document() -> Vec<TableRecord> {
    vec![TableRecord { index: 1, rows: vec![cells(2), cells(1)], stray_cells: vec![] }]
}

fn archive(entries: &[(&str, &[u8])], method: zip::CompressionMethod) -> Vec<u8> {
    let mut writer = zip::ZipWriter::new(std::io::Cursor::new(Vec::new()));
    let options = zip::write::FileOptions::default().compression_method(method);
    for (name, data) in entries {
        writer.start_file(*name, options).unwrap();
        writer.write_all(data).unwrap();
    }
    writer.finish().unwrap().into_inner()
}

fn checksum(data: &[u8]) -> u32 {
    let mut sum: u32 = 0xffff_ffff;
    for byte in data {
        sum ^= *byte as u32;
        for _ in 0..8 {
            sum = if sum & 1 == 1 { (sum >> 1) ^ 0xedb8_8320 } else { sum >> 1 };
        }
    }
    !sum
}

/// An archive of one entry, stored as it is, put together byte by byte. The
/// flags and the extra field go into the entry's record in the directory.
fn archive_by_hand(data: &[u8], flags: u16, extra: &[u8]) -> Vec<u8> {
    let name = b"roster.ros";
    let sum = checksum(data);
    let mut bytes = Vec::new();
    // The entry: its header, its name, its data.
    bytes.extend_from_slice(&[0x50, 0x4b, 0x03, 0x04]);
    bytes.extend_from_slice(&20u16.to_le_bytes());
    bytes.extend_from_slice(&flags.to_le_bytes());
    bytes.extend_from_slice(&0u16.to_le_bytes());
    bytes.extend_from_slice(&0u16.to_le_bytes());
    bytes.extend_from_slice(&0x21u16.to_le_bytes());
    bytes.extend_from_slice(&sum.to_le_bytes());
    bytes.extend_from_slice(&(data.len() as u32).to_le_bytes());
    bytes.extend_from_slice(&(data.len() as u32).to_le_bytes());
    bytes.extend_from_slice(&(name.len() as u16).to_le_bytes());
    bytes.extend_from_slice(&0u16.to_le_bytes());
    bytes.extend_from_slice(name);
    bytes.extend_from_slice(data);
    // The directory: the record of the entry.
    let directory = bytes.len();
    bytes.extend_from_slice(&[0x50, 0x4b, 0x01, 0x02]);
    bytes.extend_from_slice(&20u16.to_le_bytes());
    bytes.extend_from_slice(&20u16.to_le_bytes());
    bytes.extend_from_slice(&flags.to_le_bytes());
    bytes.extend_from_slice(&0u16.to_le_bytes());
    bytes.extend_from_slice(&0u16.to_le_bytes());
    bytes.extend_from_slice(&0x21u16.to_le_bytes());
    bytes.extend_from_slice(&sum.to_le_bytes());
    bytes.extend_from_slice(&(data.len() as u32).to_le_bytes());
    bytes.extend_from_slice(&(data.len() as u32).to_le_bytes());
    bytes.extend_from_slice(&(name.len() as u16).to_le_bytes());
    bytes.extend_from_slice(&(extra.len() as u16).to_le_bytes());
    bytes.extend_from_slice(&0u16.to_le_bytes());
    bytes.extend_from_slice(&0u16.to_le_bytes());
    bytes.extend_from_slice(&0u16.to_le_bytes());
    bytes.extend_from_slice(&0u32.to_le_bytes());
    bytes.extend_from_slice(&0u32.to_le_bytes());
    bytes.extend_from_slice(name);
    bytes.extend_from_slice(extra);
    // The end of the directory.
    let size = bytes.len() - directory;
    bytes.extend_from_slice(&[0x50, 0x4b, 0x05, 0x06]);
    bytes.extend_from_slice(&0u16.to_le_bytes());
    bytes.extend_from_slice(&0u16.to_le_bytes());
    bytes.extend_from_slice(&1u16.to_le_bytes());
    bytes.extend_from_slice(&1u16.to_le_bytes());
    bytes.extend_from_slice(&(size as u32).to_le_bytes());
    bytes.extend_from_slice(&(directory as u32).to_le_bytes());
    bytes.extend_from_slice(&0u16.to_le_bytes());
    bytes
}

#[test]
fn an_archive_put_together_by_hand_is_read() {
    let packed = archive_by_hand(DOCUMENT.as_bytes(), 0, &[]);
    let roster = Roster::from_file(Some("rosz"), &packed).unwrap();
    assert_eq!(roster.tables, tables_of_the_document());
}

#[test]
fn an_extra_field_of_no_account_does_not_lock_an_entry() {
    let extra = [0x34, 0x12, 0x03, 0x00, 0xaa, 0xbb, 0xcc];
    let packed = archive_by_hand(DOCUMENT.as_bytes(), 0, &extra);
    let roster = Roster::from_file(Some("rosz"), &packed).unwrap();
    assert_eq!(roster.tables, tables_of_the_document());
}

#[test]
fn an_entry_with_an_encryption_field_and_no_encryption_flag_is_refused() {
    // The field of AES encryption: version 2, vendor "AE", strength 3, and
    // the method of the data, stored. The flag of encryption is not set.
    let extra = [0x01, 0x99, 0x07, 0x00, 0x02, 0x00, 0x41, 0x45, 0x03, 0x00, 0x00];
    let packed = archive_by_hand(DOCUMENT.as_bytes(), 0, &extra);
    let error = Roster::from_file(Some("rosz"), &packed).unwrap_err();
    assert_eq!(error.kind(), ErrorKind::Locked);
    assert!(matches!(error, RosterError::Locked(_)));
}

#[test]
fn an_entry_with_an_encryption_field_and_the_encryption_flag_is_refused() {
    let extra = [0x01, 0x99, 0x07, 0x00, 0x02, 0x00, 0x41, 0x45, 0x03, 0x00, 0x00];
    let packed = archive_by_hand(DOCUMENT.as_bytes(), 1, &extra);
    let error = Roster::from_file(Some("rosz"), &packed).unwrap_err();
    assert_eq!(error.kind(), ErrorKind::Archive);
    assert!(matches!(error, RosterError::Archive(zip::result::ZipError::UnsupportedArchive(_))));
}

#[test]
fn an_entry_marked_as_encrypted_is_refused() {
    let packed = archive_by_hand(DOCUMENT.as_bytes(), 1, &[]);
    let error = Roster::from_file(Some("rosz"), &packed).unwrap_err();
    assert_eq!(error.kind(), ErrorKind::Locked);
    assert!(matches!(error, RosterError::Locked(_)));
}

#[test]
fn the_two_extensions_name_the_two_formats() {
    assert_eq!(RosterFormat::from_extension(Some("ros")), Some(RosterFormat::Plain));
    assert_eq!(RosterFormat::from_extension(Some("rosz")), Some(RosterFormat::Zipped));
}

#[test]
fn other_extensions_name_no_format() {
    assert_eq!(RosterFormat::from_extension(None), None);
    assert_eq!(RosterFormat::from_extension(Some("")), None);
    assert_eq!(RosterFormat::from_extension(Some("xml")), None);
    assert_eq!(RosterFormat::from_extension(Some("zip")), None);
    assert_eq!(RosterFormat::from_extension(Some("ro")), None);
    assert_eq!(RosterFormat::from_extension(Some("roszz")), None);
    assert_eq!(RosterFormat::from_extension(Some("ROS")), None);
    assert_eq!(RosterFormat::from_extension(Some("Rosz")), None);
    assert_eq!(RosterFormat::from_extension(Some(".ros")), None);
    assert_eq!(RosterFormat::from_extension(Some("ros ")), None);
}

#[test]
fn a_plain_file_is_read_as_text() {
    let roster = Roster::from_file(Some("ros"), DOCUMENT.as_bytes()).unwrap();
    assert_eq!(roster.tables, tables_of_the_document());
}

#[test]
fn a_plain_file_gives_what_its_text_gives() {
    let from_file = Roster::from_file(Some("ros"), DOCUMENT.as_bytes()).unwrap();
    let from_text = Roster::from_str(DOCUMENT).unwrap();
    assert_eq!(from_file, from_text);
}

#[test]
fn a_plain_file_that_is_no_text_is_refused() {
    let error = Roster::from_file(Some("ros"), &[0x3c, 0x77, 0xff, 0x3e]).unwrap_err();
    assert_eq!(error.kind(), ErrorKind::InvalidText);
    assert!(matches!(error, RosterError::InvalidText(_)));
}

#[test]
fn a_plain_file_with_text_beyond_ascii_is_read() {
    let text = "<w:tbl><w:tr><w:tc>Épée — 5″</w:tc></w:tr></w:tbl>";
    let roster = Roster::from_file(Some("ros"), text.as_bytes()).unwrap();
    assert_eq!(roster.tables, vec![TableRecord { index: 1, rows: vec![cells(1)], stray_cells: vec![] }]);
}

#[test]
fn a_plain_file_with_malformed_markup_is_refused() {
    let error = Roster::from_file(Some("ros"), b"<w:tbl></w:tr>").unwrap_err();
    assert_eq!(error.kind(), ErrorKind::Markup);
}

#[test]
fn an_empty_plain_file_has_no_tables() {
    let roster = Roster::from_file(Some("ros"), b"").unwrap();
    assert!(roster.tables.is_empty());
}

#[test]
fn a_file_with_another_extension_is_refused() {
    let error = Roster::from_file(Some("xml"), DOCUMENT.as_bytes()).unwrap_err();
    assert_eq!(error.kind(), ErrorKind::UnknownExtension);
    assert!(matches!(error, RosterError::UnknownExtension));
}

#[test]
fn a_file_without_an_extension_is_refused() {
    let error = Roster::from_file(None, DOCUMENT.as_bytes()).unwrap_err();
    assert_eq!(error.kind(), ErrorKind::UnknownExtension);
}

#[test]
fn a_file_with_an_unknown_extension_is_refused_whatever_it_holds() {
    let packed = archive(&[("roster.ros", DOCUMENT.as_bytes())], zip::CompressionMethod::Deflated);
    assert_eq!(Roster::from_file(Some("zip"), &packed).unwrap_err().kind(), ErrorKind::UnknownExtension);
    assert_eq!(Roster::from_file(Some("ROSZ"), &packed).unwrap_err().kind(), ErrorKind::UnknownExtension);
    assert_eq!(Roster::from_file(Some("txt"), &[0xff]).unwrap_err().kind(), ErrorKind::UnknownExtension);
}

#[test]
fn a_zipped_file_is_unpacked_and_read() {
    let packed = archive(&[("roster.ros", DOCUMENT.as_bytes())], zip::CompressionMethod::Deflated);
    assert!(packed != DOCUMENT.as_bytes());
    let roster = Roster::from_file(Some("rosz"), &packed).unwrap();
    assert_eq!(roster.tables, tables_of_the_document());
}

#[test]
fn a_zipped_file_whose_entry_is_stored_as_it_is_is_read() {
    let packed = archive(&[("roster.ros", DOCUMENT.as_bytes())], zip::CompressionMethod::Stored);
    let roster = Roster::from_file(Some("rosz"), &packed).unwrap();
    assert_eq!(roster.tables, tables_of_the_document());
}

#[test]
fn only_the_first_entry_of_an_archive_is_read() {
    let other = b"<w:tbl></w:tbl><w:tbl></w:tbl>";
    let packed = archive(&[("first.ros", DOCUMENT.as_bytes()), ("second.ros", other)], zip::CompressionMethod::Deflated);
    let roster = Roster::from_file(Some("rosz"), &packed).unwrap();
    assert_eq!(roster.tables, tables_of_the_document());
    let packed = archive(&[("first.ros", other), ("second.ros", DOCUMENT.as_bytes())], zip::CompressionMethod::Deflated);
    let roster = Roster::from_file(Some("rosz"), &packed).unwrap();
    assert_eq!(roster.tables.len(), 2);
}

#[test]
fn a_zipped_file_that_is_no_archive_is_refused() {
    let error = Roster::from_file(Some("rosz"), DOCUMENT.as_bytes()).unwrap_err();
    assert_eq!(error.kind(), ErrorKind::Archive);
    assert!(matches!(error, RosterError::Archive(_)));
    let error = Roster::from_file(Some("rosz"), b"").unwrap_err();
    assert_eq!(error.kind(), ErrorKind::Archive);
}

#[test]
fn an_archive_without_entries_is_refused() {
    let packed = archive(&[], zip::CompressionMethod::Deflated);
    let error = Roster::from_file(Some("rosz"), &packed).unwrap_err();
    assert_eq!(error.kind(), ErrorKind::Archive);
    assert!(matches!(error, RosterError::Archive(zip::result::ZipError::FileNotFound)));
}

#[test]
fn an_archive_whose_entry_is_no_text_is_refused() {
    let packed = archive(&[("roster.ros", &[0x3c, 0x77, 0xff, 0x3e])], zip::CompressionMethod::Deflated);
    let error = Roster::from_file(Some("rosz"), &packed).unwrap_err();
    assert_eq!(error.kind(), ErrorKind::Archive);
}

#[test]
fn an_archive_that_is_cut_short_is_refused() {
    let packed = archive(&[("roster.ros", DOCUMENT.as_bytes())], zip::CompressionMethod::Deflated);
    let error = Roster::from_file(Some("rosz"), &packed[..packed.len() / 2]).unwrap_err();
    assert_eq!(error.kind(), ErrorKind::Archive);
}

#[test]
fn an_archive_with_malformed_markup_is_refused_for_its_markup() {
    let packed = archive(&[("roster.ros", b"<w:tbl><w:tr></w:tbl>")], zip::CompressionMethod::Deflated);
    let error = Roster::from_file(Some("rosz"), &packed).unwrap_err();
    assert_eq!(error.kind(), ErrorKind::Markup);
}

#[test]
fn an_archive_with_an_open_table_is_refused_for_the_table() {
    let packed = archive(&[("roster.ros", b"<w:tbl><w:tr>")], zip::CompressionMethod::Deflated);
    let error = Roster::from_file(Some("rosz"), &packed).unwrap_err();
    assert_eq!(error.kind(), ErrorKind::UnterminatedTable);
}

#[test]
fn the_same_file_gives_the_same_tables_again() {
    let packed = archive(&[("roster.ros", DOCUMENT.as_bytes())], zip::CompressionMethod::Deflated);
    let first = Roster::from_file(Some("rosz"), &packed).unwrap();
    let second = Roster::from_file(Some("rosz"), &packed).unwrap();
    assert_eq!(first, second);
}

#[test]
fn each_error_has_its_kind() {
    assert_eq!(RosterError::UnknownExtension.kind(), ErrorKind::UnknownExtension);
    assert_eq!(RosterError::UnterminatedTable.kind(), ErrorKind::UnterminatedTable);
    assert_eq!(RosterError::Archive(zip::result::ZipError::FileNotFound).kind(), ErrorKind::Archive);
    assert_eq!(RosterError::Locked(zip::result::InvalidPassword).kind(), ErrorKind::Locked);
    assert_eq!(RosterError::Markup(quick_xml::Error::TextNotFound).kind(), ErrorKind::Markup);
    let invalid = std::str::from_utf8(&[0xff]).unwrap_err();
    assert_eq!(RosterError::InvalidText(invalid).kind(), ErrorKind::InvalidText);
}
