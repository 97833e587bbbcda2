use fuzzija::extract::{
    delimited_text_documents, documents_from_records, extract_documents, first_csv_name,
    fixed_file_documents, fixed_line_document, has_csv_extension, read_by_name_from_zip,
    read_first_csv_from_zip, ExtractionError,
};
use fuzzija::text::{line_ranges, slice_line, trimmed};
use fuzzija::tpconfig::{source_configs, FieldSpec, Position};
use std::io::Write;

fn zip_of(members: &[(&str, &[u8])]) -> Vec<u8> {
    let mut writer = zip::ZipWriter::new(std::io::Cursor::new(Vec::new()));
    for (name, data) in members {
        writer.start_file(*name, zip::write::SimpleFileOptions::default()).unwrap();
        writer.write_all(data).unwrap();
    }
    writer.finish().unwrap().into_inner()
}

fn fixed(name: &'static str, start: usize, end: usize) -> FieldSpec {
    FieldSpec { name, tokenized: true, position: Position::Fixed(start, end) }
}

fn column(name: &'static str, index: usize) -> FieldSpec {
    FieldSpec { name, tokenized: true, position: Position::Index(index) }
}

#[test]
fn slice_line_takes_trimmed_character_range() {
    let line = String::from("0001123456780001ACME    ");
    assert_eq!(slice_line(&line, (4, 12)), Some(String::from("12345678")));
    assert_eq!(slice_line(&line, (13, 23)), Some(String::from("001ACME")));
    assert_eq!(slice_line(&line, (16, 24)), Some(String::from("ACME")));
}

#[test]
fn slice_line_errors_on_short_line() {
    let line = String::from("0001ACME");
    assert_eq!(slice_line(&line, (4, 12)), None);
    assert_eq!(slice_line(&line, (4, 8)), Some(String::from("ACME")));
    assert_eq!(slice_line(&line, (6, 4)), None);
}

#[test]
fn slice_line_counts_characters_not_bytes() {
    let line = String::from("\u{10d}\u{161}  Ko\u{17e}a  x");
    assert_eq!(slice_line(&line, (2, 10)), Some(String::from("Ko\u{17e}a")));
}

#[test]
fn trimming_removes_unicode_white_space_only() {
    let chars: Vec<char> = "\u{a0}\t a b \u{3000}\n".chars().collect();
    assert_eq!(trimmed(&chars, 0, chars.len()), String::from("a b"));
    let blank: Vec<char> = "   ".chars().collect();
    assert_eq!(trimmed(&blank, 0, 3), String::new());
    let inner: Vec<char> = "x_y".chars().collect();
    assert_eq!(trimmed(&inner, 0, 3), String::from("x_y"));
}

#[test]
fn example_line_gives_vat_id_and_name() {
    let fields = vec![fixed("vat_id", 4, 12), fixed("name", 13, 23)];
    let doc = fixed_line_document(&fields, &String::from("0001123456780001ACME    ")).unwrap();
    assert_eq!(doc, vec![String::from("12345678"), String::from("001ACME")]);
    let fields = vec![fixed("vat_id", 4, 12), fixed("name", 16, 24)];
    let doc = fixed_line_document(&fields, &String::from("0001123456780001ACME    ")).unwrap();
    assert_eq!(doc, vec![String::from("12345678"), String::from("ACME")]);
}

#[test]
fn lines_split_like_buffered_lines() {
    let b = b"ab\r\ncd\n\nef";
    let ranges = line_ranges(b);
    let lines: Vec<&[u8]> = ranges.iter().map(|(f, t)| &b[*f..*t]).collect();
    assert_eq!(lines, vec![&b"ab"[..], &b"cd"[..], &b""[..], &b"ef"[..]]);
    assert_eq!(line_ranges(b"x\n").len(), 1);
    assert_eq!(line_ranges(b"").len(), 0);
    let last = line_ranges(b"x\r\ny\r");
    assert_eq!(last, vec![(0, 1), (3, 5)]);
}

#[test]
fn fixed_file_skips_undecodable_and_short_lines() {
    let fields = vec![fixed("a", 0, 2), fixed("b", 2, 4)];
    let data = b"1122\n\xff\xfe34\n12\n 5 6\r\n";
    let docs = fixed_file_documents(&fields, data);
    assert_eq!(
        docs,
        vec![
            vec![String::from("11"), String::from("22")],
            vec![String::from("5"), String::from("6")],
        ]
    );
}

#[test]
fn header_record_is_never_a_document() {
    let fields = vec![column("company_id", 0), column("company_name", 1)];
    let records = vec![
        Some(vec![String::from("id"), String::from("name")]),
        Some(vec![String::from("1"), String::from("Acme")]),
        None,
        Some(vec![String::from("2")]),
        Some(vec![String::from("3"), String::from("Beta"), String::from("x")]),
    ];
    let docs = documents_from_records(&fields, &records);
    assert_eq!(
        docs,
        vec![
            vec![String::from("1"), String::from("Acme")],
            vec![String::from("3"), String::from("Beta")],
        ]
    );
    assert_eq!(documents_from_records(&fields, &records), docs);
    assert_eq!(documents_from_records(&fields, &vec![]), Vec::<Vec<String>>::new());
}

#[test]
fn delimited_text_maps_columns_to_fields() {
    let fields = vec![column("company_name", 1), column("company_id", 0)];
    let docs = delimited_text_documents(&fields, "id,name\n7,\"Acme, d.o.o.\"\n8,Beta\n");
    assert_eq!(
        docs,
        vec![
            vec![String::from("Acme, d.o.o."), String::from("7")],
            vec![String::from("Beta"), String::from("8")],
        ]
    );
    assert!(delimited_text_documents(&fields, "id,name\n").is_empty());
}

#[test]
fn csv_names_are_recognised() {
    assert!(has_csv_extension(&String::from("data.csv")));
    assert!(!has_csv_extension(&String::from("data.csv.txt")));
    assert!(!has_csv_extension(&String::from("csv")));
    let names = vec![String::from("readme.txt"), String::from("a.csv"), String::from("b.csv")];
    assert_eq!(first_csv_name(&names), Some(1));
    assert_eq!(first_csv_name(&vec![String::from("x.txt")]), None);
}

#[test]
fn zip_member_is_read_by_name() {
    let archive = zip_of(&[("a.txt", b"first"), ("b.txt", b"second")]);
    assert_eq!(read_by_name_from_zip(&archive, "b.txt"), Ok(b"second".to_vec()));
    assert_eq!(read_by_name_from_zip(&archive, "c.txt"), Err(ExtractionError::Archive));
    assert_eq!(read_by_name_from_zip(b"not a zip", "a.txt"), Err(ExtractionError::Archive));
}

#[test]
fn first_csv_member_is_decoded_from_windows_1252() {
    let archive = zip_of(&[("notes.txt", b"x"), ("reg.csv", b"id,name\n1,Ko\xe8a\n"), ("z.csv", b"")]);
    assert_eq!(read_first_csv_from_zip(&archive), Ok(String::from("id,name\n1,Ko\u{e8}a\n")));
    let none = zip_of(&[("notes.txt", b"x")]);
    assert_eq!(read_first_csv_from_zip(&none), Err(ExtractionError::NoCsvMember));
    assert_eq!(read_first_csv_from_zip(b"junk"), Err(ExtractionError::Archive));
}

#[test]
fn artifact_is_read_by_the_source_layout() {
    let sources = source_configs();
    let mut line = String::from("00");
    line.push_str("12345678 ");
    line.push_str(&format!("{:<61}", "Janez Novak"));
    line.push_str(&format!("{:<112}", "Ljubljana"));
    let archive = zip_of(&[("DURS_zavezanci_FO.txt", line.as_bytes())]);
    let docs = extract_documents(&sources[1], &archive).unwrap();
    assert_eq!(
        docs,
        vec![vec![String::from("12345678"), String::from("Janez Novak"), String::from("Ljubljana")]]
    );
    let register = zip_of(&[("prs.csv", b"MATICNA,NAZIV\n5000,Podjetje\n")]);
    let docs = extract_documents(&sources[3], &register).unwrap();
    assert_eq!(docs, vec![vec![String::from("5000"), String::from("Podjetje")]]);
    assert_eq!(extract_documents(&sources[2], &register), Err(ExtractionError::NoStrategy));
    assert_eq!(extract_documents(&sources[0], &register), Err(ExtractionError::Archive));
}
