use std::io::{Cursor, Read, Write};

use zip_localizer::{process_bytes, TransformError};

fn make_zip(entries: &[(&str, &[u8])]) -> Vec<u8> {
    let mut w = zip::ZipWriter::new(Cursor::new(Vec::new()));
    for (name, data) in entries {
        w.start_file(*name, zip::write::SimpleFileOptions::default()).unwrap();
        w.write_all(data).unwrap();
    }
    w.finish().unwrap().into_inner()
}

fn read_entries(bytes: &[u8]) -> Vec<(String, Vec<u8>)> {
    let mut a = zip::ZipArchive::new(Cursor::new(bytes.to_vec())).unwrap();
    let names: Vec<String> = a.file_names().map(|s| s.to_string()).collect();
    let mut out = Vec::new();
    for name in names {
        let mut f = a.by_name(&name).unwrap();
        let mut buf = Vec::new();
        f.read_to_end(&mut buf).unwrap();
        out.push((name, buf));
    }
    out
}

#[test]
fn end_to_end_minimal_archive() {
    let src = make_zip(&[("main.abc123.bundle.js", "Далее".as_bytes())]);
    let out = process_bytes(src).unwrap();
    let entries = read_entries(&out);
    assert_eq!(entries.len(), 1);
    assert_eq!(entries[0].0, "main.abc123.bundle.js");
    assert_eq!(entries[0].1, "Далі".as_bytes());
}

#[test]
fn other_entries_are_preserved_byte_identical() {
    let blob: Vec<u8> = (0u16..600).map(|x| (x % 251) as u8).collect();
    let src = make_zip(&[
        ("assets/logo.png", &blob[..]),
        ("main.7f9.bundle.js", "Показатель: Далее".as_bytes()),
        ("readme.txt", b"hello world"),
        ("styles/site.css", b"body { color: red }"),
    ]);
    let out = process_bytes(src).unwrap();
    let entries = read_entries(&out);
    assert_eq!(entries.len(), 4);
    // Untouched entries keep their order; the target is appended last.
    assert_eq!(entries[0].0, "assets/logo.png");
    assert_eq!(entries[0].1, blob);
    assert_eq!(entries[1].0, "readme.txt");
    assert_eq!(entries[1].1, b"hello world");
    assert_eq!(entries[2].0, "styles/site.css");
    assert_eq!(entries[2].1, b"body { color: red }");
    assert_eq!(entries[3].0, "main.7f9.bundle.js");
    assert_eq!(entries[3].1, "Показник: Далі".as_bytes());
}

#[test]
fn escaped_target_is_decoded_then_localized() {
    let src = make_zip(&[(
        "main.abc.bundle.js",
        b"\\u0414\\u0430\\u043b\\u0435\\u0435 ok".as_slice(),
    )]);
    let out = process_bytes(src).unwrap();
    let entries = read_entries(&out);
    assert_eq!(entries[0].1, "Далі ok".as_bytes());
}

#[test]
fn no_matching_entry_is_not_found() {
    let src = make_zip(&[("index.html", b"<html></html>"), ("app.js", b"var x;")]);
    assert_eq!(process_bytes(src).unwrap_err(), TransformError::NotFound);
}

#[test]
fn empty_archive_is_not_found() {
    let src = make_zip(&[]);
    assert_eq!(process_bytes(src).unwrap_err(), TransformError::NotFound);
}

#[test]
fn first_matching_entry_wins() {
    let src = make_zip(&[
        ("main.one.bundle.js", "Далее".as_bytes()),
        ("main.two.bundle.js", b"untouched"),
    ]);
    let out = process_bytes(src).unwrap();
    let entries = read_entries(&out);
    assert_eq!(entries[0].0, "main.two.bundle.js");
    assert_eq!(entries[0].1, b"untouched");
    assert_eq!(entries[1].0, "main.one.bundle.js");
    assert_eq!(entries[1].1, "Далі".as_bytes());
}

#[test]
fn nested_target_path_matches() {
    let src = make_zip(&[("static/js/main.0a1.bundle.js", b"Powered by".as_slice())]);
    let out = process_bytes(src).unwrap();
    let entries = read_entries(&out);
    assert_eq!(entries[0].0, "static/js/main.0a1.bundle.js");
    assert_eq!(entries[0].1, b"");
}

#[test]
fn malformed_input_is_archive_open_error() {
    let garbage: Vec<u8> = (0u16..300).map(|x| (x * 7 % 256) as u8).collect();
    assert_eq!(process_bytes(garbage).unwrap_err(), TransformError::ArchiveOpenError);
    assert_eq!(process_bytes(Vec::new()).unwrap_err(), TransformError::ArchiveOpenError);
}

#[test]
fn non_utf8_target_is_invalid_text() {
    let src = make_zip(&[("main.x.bundle.js", &[0xff, 0xfe, 0x00][..])]);
    assert_eq!(process_bytes(src).unwrap_err(), TransformError::InvalidText);
}

#[test]
fn truncated_escape_in_target_is_invalid_escape() {
    let src = make_zip(&[("main.x.bundle.js", b"text\\u12".as_slice())]);
    assert_eq!(process_bytes(src).unwrap_err(), TransformError::InvalidEscape);
}
