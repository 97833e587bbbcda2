//! Field extraction: raw archive bytes to documents, one document per record,
//! by either of the two layouts a source can have.
use crate::text::{
    decode_line, line_chars, line_ranges, line_text, ranges_view, slice_spec,
    split_lines, trim, trimmed,
};
use crate::tpconfig::{field_positions, kind_strategy, Position, SourceConfig, Strategy};
use vstd::prelude::*;

verus! {

/// A document: the values of a source's fields, in the order of its fields.
pub type FieldValues = Vec<String>;

/// Why a source's artifact yielded no documents.
#[derive(Debug, Clone, Copy, PartialEq, Eq, Structural)]
pub enum ExtractionError {
    /// The archive could not be read, or lacks the member asked for.
    Archive,
    /// The archive holds no member whose name ends in `.csv`.
    NoCsvMember,
    /// The delimited file is not text in the legacy single-byte encoding.
    Undecodable,
    /// The source's kind has no extraction strategy.
    NoStrategy,
}

#[verifier::external_type_specification]
#[verifier::external_body]
pub struct ExZipError(zip::result::ZipError);

/// The names of the members of a zip archive, in the order of its central
/// directory; `None` when the bytes are not a readable archive.
pub uninterp spec fn zip_names(archive: Seq<u8>) -> Option<Seq<Seq<char>>>;

/// The contents of the member `name` of a zip archive; `None` when the
/// archive cannot be read or has no such member, or the member cannot be
/// unpacked.
pub uninterp spec fn zip_member(archive: Seq<u8>, name: Seq<char>) -> Option<Seq<u8>>;

/// What `WINDOWS_1252.decode` makes of bytes; `None` when it reports errors.
pub uninterp spec fn windows_1252_text(b: Seq<u8>) -> Option<Seq<char>>;

/// What the `csv` reader, reading every record as data, yields: one entry per
/// record, `None` for a record it reports an error on.
pub uninterp spec fn csv_records(text: Seq<char>) -> Seq<Option<Seq<Seq<char>>>>;

/// The views of strings.
pub open spec fn strings_view(v: Seq<String>) -> Seq<Seq<char>> {
    v.map_values(|s: String| s@)
}

/// The views of documents.
pub open spec fn documents_view(v: Seq<FieldValues>) -> Seq<Seq<Seq<char>>> {
    v.map_values(|d: FieldValues| strings_view(d@))
}

/// The views of records.
pub open spec fn records_view(v: Seq<Option<Vec<String>>>) -> Seq<Option<Seq<Seq<char>>>> {
    v.map_values(
        |r: Option<Vec<String>>|
            match r {
                Some(cols) => Some(strings_view(cols@)),
                None => None,
            },
    )
}

/// Relies on `zip::ZipArchive::new` and `file_names`: the member names of the archive.
#[verifier::external_body]
fn zip_file_names(archive: &[u8]) -> (r: Result<Vec<String>, zip::result::ZipError>)
    ensures
        r is Ok <==> zip_names(archive@) is Some,
        r matches Ok(names) ==> Some(strings_view(names@)) == zip_names(archive@),
{
    let zip = zip::ZipArchive::new(std::io::Cursor::new(archive))?;
    Ok(zip.file_names().map(String::from).collect())
}

/// Relies on `zip::ZipArchive::by_name` and `Read::read_to_end`: the unpacked member `name`.
#[verifier::external_body]
fn zip_read_member(archive: &[u8], name: &str) -> (r: Result<Vec<u8>, zip::result::ZipError>)
    ensures
        r is Ok <==> zip_member(archive@, name@) is Some,
        r matches Ok(b) ==> Some(b@) == zip_member(archive@, name@),
{
    let mut zip = zip::ZipArchive::new(std::io::Cursor::new(archive))?;
    let mut member = zip.by_name(name)?;
    let mut buffer = Vec::new();
    std::io::Read::read_to_end(&mut member, &mut buffer)?;
    Ok(buffer)
}

/// Relies on `encoding_rs::Encoding::decode` with `WINDOWS_1252`: the decoded
/// text, unless the decoder reports errors.
#[verifier::external_body]
fn decode_windows_1252(b: &[u8]) -> (r: Option<String>)
    ensures
        r is Some <==> windows_1252_text(b@) is Some,
        r matches Some(s) ==> Some(s@) == windows_1252_text(b@),
{
    let (text, _, had_errors) = encoding_rs::WINDOWS_1252.decode(b);
    if had_errors {
        None
    } else {
        Some(text.into_owned())
    }
}

/// Relies on `csv::Reader::records`, with no header row: every record, each
/// one either its fields or `None` where the reader reported an error.
#[verifier::external_body]
fn parse_csv(text: &str) -> (r: Vec<Option<Vec<String>>>)
    ensures
        records_view(r@) == csv_records(text@),
{
    let mut reader = csv::ReaderBuilder::new().has_headers(false).from_reader(text.as_bytes());
    reader.records().map(|rec| rec.ok().map(|rec| rec.iter().map(String::from).collect())).collect()
}

/// The value of a field in a line, by a fixed position.
pub open spec fn fixed_value(p: Position, line: Seq<char>) -> Option<Seq<char>> {
    match p {
        Position::Fixed(start, end) => slice_spec(line, start as int, end as int),
        Position::Index(_) => None,
    }
}

/// The value of a field in a delimited record, by a column.
pub open spec fn column_value(p: Position, cols: Seq<Seq<char>>) -> Option<Seq<char>> {
    match p {
        Position::Index(c) => if c < cols.len() {
            Some(cols[c as int])
        } else {
            None
        },
        Position::Fixed(_, _) => None,
    }
}

/// The document of a line: every field's trimmed range; `None` when the
/// line is too short for a field.
pub open spec fn fixed_document(pos: Seq<Position>, line: Seq<char>) -> Option<Seq<Seq<char>>> {
    if forall|k: int| 0 <= k < pos.len() ==> (#[trigger] fixed_value(pos[k], line)) is Some {
        Some(Seq::new(pos.len(), |k: int| fixed_value(pos[k], line)->0))
    } else {
        None
    }
}

/// The document of a delimited record: every field's column; `None` when
/// the record lacks a column.
pub open spec fn column_document(pos: Seq<Position>, cols: Seq<Seq<char>>) -> Option<
    Seq<Seq<char>>,
> {
    if forall|k: int| 0 <= k < pos.len() ==> (#[trigger] column_value(pos[k], cols)) is Some {
        Some(Seq::new(pos.len(), |k: int| column_value(pos[k], cols)->0))
    } else {
        None
    }
}

/// The entries of `s` that are there, in order.
pub open spec fn present<A>(s: Seq<Option<A>>) -> Seq<A>
    decreases s.len(),
{
    if s.len() == 0 {
        seq![]
    } else {
        let before = present(s.drop_last());
        match s.last() {
            Some(a) => before.push(a),
            None => before,
        }
    }
}

/// The document of a line's bytes: `None` when they are not text or the
/// line is too short.
pub open spec fn line_document(pos: Seq<Position>, l: Seq<u8>) -> Option<Seq<Seq<char>>> {
    match line_text(l) {
        Some(t) => fixed_document(pos, t),
        None => None,
    }
}

/// The documents of a fixed-position file: one for each line that is text
/// and long enough, in order.
pub open spec fn fixed_documents(pos: Seq<Position>, b: Seq<u8>) -> Seq<Seq<Seq<char>>> {
    present(split_lines(b).map_values(|l: Seq<u8>| line_document(pos, l)))
}

/// The document of a record, if it was read and has every column.
pub open spec fn record_document(pos: Seq<Position>, r: Option<Seq<Seq<char>>>) -> Option<
    Seq<Seq<char>>,
> {
    match r {
        Some(cols) => column_document(pos, cols),
        None => None,
    }
}

/// The documents of delimited records: the first record is the header and
/// yields none; each later record that was read and has every column
/// yields one, in order.
pub open spec fn delimited_documents(
    pos: Seq<Position>,
    records: Seq<Option<Seq<Seq<char>>>>,
) -> Seq<Seq<Seq<char>>> {
    if records.len() == 0 {
        seq![]
    } else {
        present(records.drop_first().map_values(|r| record_document(pos, r)))
    }
}

proof fn lemma_present_step<A>(s: Seq<Option<A>>, i: int)
    requires
        0 <= i < s.len(),
    ensures
        present(s.subrange(0, i + 1)) == match s[i] {
            Some(a) => present(s.subrange(0, i)).push(a),
            None => present(s.subrange(0, i)),
        },
{
    assert(s.subrange(0, i + 1).drop_last() =~= s.subrange(0, i));
}

/// The document of one line, by the fixed positions of `fields`.
pub fn fixed_line_document(fields: &Vec<crate::tpconfig::FieldSpec>, line: &String) -> (r: Option<
    FieldValues,
>)
    ensures
        r is Some <==> fixed_document(field_positions(fields@), line@) is Some,
        r matches Some(d) ==> Some(strings_view(d@)) == fixed_document(
            field_positions(fields@),
            line@,
        ),
{
    let ghost pos = field_positions(fields@);
    let cs = line_chars(line);
    let mut doc: Vec<String> = Vec::new();
    let mut k: usize = 0;
    while k < fields.len()
        invariant
            k <= fields@.len(),
            pos == field_positions(fields@),
            cs@ == line@,
            doc@.len() == k,
            forall|j: int| 0 <= j < k ==> (#[trigger] fixed_value(pos[j], line@)) is Some,
            forall|j: int| 0 <= j < k ==> (#[trigger] doc@[j])@ == fixed_value(pos[j], line@)->0,
        decreases fields@.len() - k,
    {
        match fields[k].position {
            Position::Fixed(start, end) => {
                if start <= end && end <= cs.len() {
                    doc.push(trimmed(cs.as_slice(), start, end));
                } else {
                    assert(fixed_value(pos[k as int], line@) is None);
                    return None;
                }
            },
            Position::Index(_) => {
                assert(fixed_value(pos[k as int], line@) is None);
                return None;
            },
        }
        k = k + 1;
    }
    assert(strings_view(doc@) =~= Seq::new(pos.len(), |j: int| fixed_value(pos[j], line@)->0));
    Some(doc)
}

/// The document of one delimited record, by the columns of `fields`.
pub fn column_record_document(fields: &Vec<crate::tpconfig::FieldSpec>, cols: &Vec<String>) -> (r:
    Option<FieldValues>)
    ensures
        r is Some <==> column_document(field_positions(fields@), strings_view(cols@)) is Some,
        r matches Some(d) ==> Some(strings_view(d@)) == column_document(
            field_positions(fields@),
            strings_view(cols@),
        ),
{
    let ghost pos = field_positions(fields@);
    let ghost cv = strings_view(cols@);
    let mut doc: Vec<String> = Vec::new();
    let mut k: usize = 0;
    while k < fields.len()
        invariant
            k <= fields@.len(),
            pos == field_positions(fields@),
            cv == strings_view(cols@),
            doc@.len() == k,
            forall|j: int| 0 <= j < k ==> (#[trigger] column_value(pos[j], cv)) is Some,
            forall|j: int| 0 <= j < k ==> (#[trigger] doc@[j])@ == column_value(pos[j], cv)->0,
        decreases fields@.len() - k,
    {
        match fields[k].position {
            Position::Index(c) => {
                if c < cols.len() {
                    doc.push(cols[c].clone());
                } else {
                    assert(column_value(pos[k as int], cv) is None);
                    return None;
                }
            },
            Position::Fixed(_, _) => {
                assert(column_value(pos[k as int], cv) is None);
                return None;
            },
        }
        k = k + 1;
    }
    assert(strings_view(doc@) =~= Seq::new(pos.len(), |j: int| column_value(pos[j], cv)->0));
    Some(doc)
}

/// The documents of a fixed-position file: one per line that is UTF-8 text
/// long enough for every field; other lines are skipped.
pub fn fixed_file_documents(fields: &Vec<crate::tpconfig::FieldSpec>, bytes: &[u8]) -> (r: Vec<
    FieldValues,
>)
    ensures
        documents_view(r@) == fixed_documents(field_positions(fields@), bytes@),
{
    let ghost pos = field_positions(fields@);
    let ranges = line_ranges(bytes);
    let ghost lines = split_lines(bytes@);
    let ghost docs = lines.map_values(|l: Seq<u8>| line_document(pos, l));
    assert(ranges_view(bytes@, ranges@).len() == lines.len());
    let mut out: Vec<FieldValues> = Vec::new();
    let mut i: usize = 0;
    while i < ranges.len()
        invariant
            i <= ranges@.len(),
            ranges@.len() == lines.len(),
            pos == field_positions(fields@),
            ranges_view(bytes@, ranges@) == lines,
            lines == split_lines(bytes@),
            docs == lines.map_values(|l: Seq<u8>| line_document(pos, l)),
            forall|k: int|
                0 <= k < ranges@.len() ==> (#[trigger] ranges@[k]).0 <= ranges@[k].1
                    <= bytes@.len(),
            documents_view(out@) == present(docs.subrange(0, i as int)),
        decreases ranges@.len() - i,
    {
        let (from, to) = ranges[i];
        let line_bytes = &bytes[from..to];
        assert(line_bytes@ == lines[i as int]) by {
            assert(ranges_view(bytes@, ranges@)[i as int] == bytes@.subrange(from as int, to as int));
        }
        let ghost before = out@;
        match decode_line(line_bytes) {
            Some(line) => {
                match fixed_line_document(fields, &line) {
                    Some(d) => {
                        out.push(d);
                        assert(documents_view(out@) =~= documents_view(before).push(strings_view(d@)));
                    },
                    None => {},
                }
            },
            None => {},
        }
        proof {
            lemma_present_step(docs, i as int);
        }
        i = i + 1;
    }
    assert(docs.subrange(0, i as int) =~= docs);
    out
}

/// The documents of delimited records: the first record is the header and
/// yields none; later records that were read and have every column yield
/// one each, in order.
pub fn documents_from_records(
    fields: &Vec<crate::tpconfig::FieldSpec>,
    records: &Vec<Option<Vec<String>>>,
) -> (r: Vec<FieldValues>)
    ensures
        documents_view(r@) == delimited_documents(field_positions(fields@), records_view(records@)),
{
    let ghost pos = field_positions(fields@);
    let ghost rv = records_view(records@);
    let mut out: Vec<FieldValues> = Vec::new();
    if records.len() == 0 {
        return out;
    }
    let ghost docs = rv.drop_first().map_values(|r| record_document(pos, r));
    let mut i: usize = 1;
    assert(docs.subrange(0, 0) =~= Seq::<Option<Seq<Seq<char>>>>::empty());
    while i < records.len()
        invariant
            1 <= i <= records@.len(),
            pos == field_positions(fields@),
            rv == records_view(records@),
            docs == rv.drop_first().map_values(|r| record_document(pos, r)),
            documents_view(out@) == present(docs.subrange(0, i - 1)),
        decreases records@.len() - i,
    {
        let ghost before = out@;
        match &records[i] {
            Some(cols) => {
                assert(rv[i as int] == Some(strings_view(cols@)));
                match column_record_document(fields, cols) {
                    Some(d) => {
                        out.push(d);
                        assert(documents_view(out@) =~= documents_view(before).push(strings_view(d@)));
                    },
                    None => {},
                }
            },
            None => {},
        }
        proof {
            lemma_present_step(docs, i - 1);
        }
        i = i + 1;
    }
    assert(docs.subrange(0, i - 1) =~= docs);
    out
}

/// The documents of a delimited text with a header row.
pub fn delimited_text_documents(fields: &Vec<crate::tpconfig::FieldSpec>, text: &str) -> (r: Vec<
    FieldValues,
>)
    ensures
        documents_view(r@) == delimited_documents(field_positions(fields@), csv_records(text@)),
{
    let records = parse_csv(text);
    documents_from_records(fields, &records)
}

/// The member `file_path` of a zip archive.
pub fn read_by_name_from_zip(archive: &[u8], file_path: &str) -> (r: Result<
    Vec<u8>,
    ExtractionError,
>)
    ensures
        r is Ok <==> zip_member(archive@, file_path@) is Some,
        r matches Ok(b) ==> Some(b@) == zip_member(archive@, file_path@),
        r matches Err(e) ==> e == ExtractionError::Archive,
{
    match zip_read_member(archive, file_path) {
        Ok(b) => Ok(b),
        Err(_) => Err(ExtractionError::Archive),
    }
}

/// Whether a member name ends in `.csv`.
pub open spec fn is_csv_name(name: Seq<char>) -> bool {
    &&& name.len() >= 4
    &&& name[name.len() - 4] == '.'
    &&& name[name.len() - 3] == 'c'
    &&& name[name.len() - 2] == 's'
    &&& name[name.len() - 1] == 'v'
}

/// Whether a member name ends in `.csv`.
pub fn has_csv_extension(name: &String) -> (r: bool)
    ensures
        r == is_csv_name(name@),
{
    let cs = line_chars(name);
    let n = cs.len();
    n >= 4 && cs[n - 4] == '.' && cs[n - 3] == 'c' && cs[n - 2] == 's' && cs[n - 1] == 'v'
}

/// The place of the first name that ends in `.csv`.
pub fn first_csv_name(names: &Vec<String>) -> (r: Option<usize>)
    ensures
        r matches Some(i) ==> i < names@.len() && is_csv_name(names@[i as int]@) && forall|j: int|
            0 <= j < i ==> !is_csv_name(#[trigger] names@[j]@),
        r is None ==> forall|j: int| 0 <= j < names@.len() ==> !is_csv_name(#[trigger] names@[j]@),
{
    let mut i: usize = 0;
    while i < names.len()
        invariant
            i <= names@.len(),
            forall|j: int| 0 <= j < i ==> !is_csv_name(#[trigger] names@[j]@),
        decreases names@.len() - i,
    {
        if has_csv_extension(&names[i]) {
            return Some(i);
        }
        i = i + 1;
    }
    None
}

/// The first name in `names` that ends in `.csv`.
pub open spec fn first_csv(names: Seq<Seq<char>>) -> Option<Seq<char>> {
    if exists|i: int| 0 <= i < names.len() && is_csv_name(#[trigger] names[i]) {
        let i = choose|i: int|
            0 <= i < names.len() && is_csv_name(#[trigger] names[i]) && forall|j: int|
                0 <= j < i ==> !is_csv_name(#[trigger] names[j]);
        Some(names[i])
    } else {
        None
    }
}

/// What reading the first `.csv` member of an archive yields: its text, or
/// why there is none.
pub open spec fn first_csv_text(archive: Seq<u8>) -> Result<Seq<char>, ExtractionError> {
    match zip_names(archive) {
        None => Err(ExtractionError::Archive),
        Some(names) => match first_csv(names) {
            None => Err(ExtractionError::NoCsvMember),
            Some(name) => match zip_member(archive, name) {
                None => Err(ExtractionError::Archive),
                Some(b) => match windows_1252_text(b) {
                    None => Err(ExtractionError::Undecodable),
                    Some(t) => Ok(t),
                },
            },
        },
    }
}

/// The text of the first member of a zip archive whose name ends in `.csv`,
/// decoded from Windows-1252.
pub fn read_first_csv_from_zip(archive: &[u8]) -> (r: Result<String, ExtractionError>)
    ensures
        r matches Ok(t) ==> first_csv_text(archive@) == Ok::<Seq<char>, ExtractionError>(t@),
        r matches Err(e) ==> first_csv_text(archive@) == Err::<Seq<char>, ExtractionError>(e),
{
    let names = match zip_file_names(archive) {
        Ok(names) => names,
        Err(_) => return Err(ExtractionError::Archive),
    };
    let ghost nv = strings_view(names@);
    match first_csv_name(&names) {
        None => {
            assert(first_csv(nv) is None) by {
                assert forall|i: int| 0 <= i < nv.len() implies !is_csv_name(#[trigger] nv[i]) by {
                    assert(nv[i] == names@[i]@);
                }
            }
            Err(ExtractionError::NoCsvMember)
        },
        Some(i) => {
            assert(first_csv(nv) == Some(names@[i as int]@)) by {
                assert(nv[i as int] == names@[i as int]@);
                assert forall|j: int| 0 <= j < i implies !is_csv_name(#[trigger] nv[j]) by {
                    assert(nv[j] == names@[j]@);
                }
                let c = choose|c: int|
                    0 <= c < nv.len() && is_csv_name(#[trigger] nv[c]) && forall|j: int|
                        0 <= j < c ==> !is_csv_name(#[trigger] nv[j]);
                if c < i {
                    assert(nv[c] == names@[c]@);
                }
                if c > i {
                    assert(!is_csv_name(nv[i as int]));
                }
            }
            let bytes = match zip_read_member(archive, names[i].as_str()) {
                Ok(b) => b,
                Err(_) => return Err(ExtractionError::Archive),
            };
            match decode_windows_1252(bytes.as_slice()) {
                Some(text) => Ok(text),
                None => Err(ExtractionError::Undecodable),
            }
        },
    }
}

/// The documents that a source's downloaded archive holds, read by the
/// strategy of the source's kind.
pub open spec fn artifact_documents(c: SourceConfig, archive: Seq<u8>) -> Result<
    Seq<Seq<Seq<char>>>,
    ExtractionError,
> {
    let pos = field_positions(c.fields@);
    match kind_strategy(c.kind) {
        None => Err(ExtractionError::NoStrategy),
        Some(Strategy::FixedPosition) => match c.zip_file_path {
            None => Ok(seq![]),
            Some(member) => match zip_member(archive, member@) {
                None => Err(ExtractionError::Archive),
                Some(b) => Ok(fixed_documents(pos, b)),
            },
        },
        Some(Strategy::DelimitedWithHeader) => match first_csv_text(archive) {
            Err(e) => Err(e),
            Ok(t) => Ok(delimited_documents(pos, csv_records(t))),
        },
    }
}

/// Reads a source's downloaded archive into documents. A fixed-position
/// source with no member named yields none.
pub fn extract_documents(source: &SourceConfig, archive: &[u8]) -> (r: Result<
    Vec<FieldValues>,
    ExtractionError,
>)
    ensures
        r matches Ok(d) ==> artifact_documents(*source, archive@) == Ok::<
            Seq<Seq<Seq<char>>>,
            ExtractionError,
        >(documents_view(d@)),
        r matches Err(e) ==> artifact_documents(*source, archive@) == Err::<
            Seq<Seq<Seq<char>>>,
            ExtractionError,
        >(e),
{
    match source.kind.strategy() {
        None => Err(ExtractionError::NoStrategy),
        Some(Strategy::FixedPosition) => match source.zip_file_path {
            None => {
                let d: Vec<FieldValues> = Vec::new();
                assert(documents_view(d@) =~= Seq::<Seq<Seq<char>>>::empty());
                Ok(d)
            },
            Some(member) => {
                let b = read_by_name_from_zip(archive, member)?;
                Ok(fixed_file_documents(&source.fields, b.as_slice()))
            },
        },
        Some(Strategy::DelimitedWithHeader) => {
            let text = read_first_csv_from_zip(archive)?;
            Ok(delimited_text_documents(&source.fields, text.as_str()))
        },
    }
}

/// The header never becomes a document: delimited records that differ only
/// in their first record yield the same documents, and each document is
/// the column mapping of a record after the first.
pub proof fn lemma_header_never_emitted(
    pos: Seq<Position>,
    records: Seq<Option<Seq<Seq<char>>>>,
    other: Seq<Option<Seq<Seq<char>>>>,
)
    requires
        records.len() > 0,
        other.len() > 0,
        records.drop_first() == other.drop_first(),
    ensures
        delimited_documents(pos, records) == delimited_documents(pos, other),
        forall|k: int|
            0 <= k < delimited_documents(pos, records).len() ==> exists|i: int|
                1 <= i < records.len() && record_document(pos, #[trigger] records[i]) == Some(
                    #[trigger] delimited_documents(pos, records)[k],
                ),
{
    let docs = records.drop_first().map_values(|r| record_document(pos, r));
    lemma_present_from(docs);
    assert forall|k: int| 0 <= k < delimited_documents(pos, records).len() implies exists|i: int|
        1 <= i < records.len() && record_document(pos, #[trigger] records[i]) == Some(
            #[trigger] delimited_documents(pos, records)[k],
        ) by {
        let j = choose|j: int| 0 <= j < docs.len() && docs[j] == Some(present(docs)[k]);
        assert(records[j + 1] == records.drop_first()[j]);
    }
}

/// Each entry of `present(s)` is an entry of `s`.
proof fn lemma_present_from<A>(s: Seq<Option<A>>)
    ensures
        forall|k: int|
            0 <= k < present(s).len() ==> exists|j: int| 0 <= j < s.len() && s[j] == Some(#[trigger] present(s)[k]),
    decreases s.len(),
{
    if s.len() > 0 {
        lemma_present_from(s.drop_last());
        let p = present(s.drop_last());
        assert forall|k: int| 0 <= k < present(s).len() implies exists|j: int|
            0 <= j < s.len() && s[j] == Some(#[trigger] present(s)[k]) by {
            if k < p.len() {
                let j = choose|j: int| 0 <= j < s.drop_last().len() && s.drop_last()[j] == Some(p[k]);
                assert(s[j] == s.drop_last()[j]);
                assert(present(s)[k] == p[k]);
            } else {
                assert(s[s.len() - 1] == Some(present(s)[k]));
            }
        }
    }
}

/// Whether every position is a fixed range that fits in `line`.
pub open spec fn fits(pos: Seq<Position>, line: Seq<char>) -> bool {
    forall|k: int|
        0 <= k < pos.len() ==> (#[trigger] pos[k] matches Position::Fixed(s, e) && s <= e && e
            <= line.len())
}

proof fn lemma_fitting_line(pos: Seq<Position>, line: Seq<char>)
    requires
        fits(pos, line),
    ensures
        fixed_document(pos, line) is Some,
        forall|k: int|
            0 <= k < pos.len() ==> (#[trigger] pos[k] matches Position::Fixed(s, e) && fixed_document(
                pos,
                line,
            )->0[k] == trim(line.subrange(s as int, e as int))),
{
    assert forall|k: int| 0 <= k < pos.len() implies (#[trigger] fixed_value(pos[k], line)) is Some by {
        assert(pos[k] matches Position::Fixed(s, e) && s <= e && e <= line.len());
    }
}

/// The trimmed range of each field in a line of text.
pub open spec fn range_values(pos: Seq<Position>, line: Seq<char>) -> Seq<Seq<char>> {
    Seq::new(
        pos.len(),
        |k: int|
            match pos[k] {
                Position::Fixed(s, e) => trim(line.subrange(s as int, e as int)),
                Position::Index(_) => Seq::<char>::empty(),
            },
    )
}

/// The trimmed ranges of a line's bytes, when they are text.
pub open spec fn decodable_line_values(pos: Seq<Position>, l: Seq<u8>) -> Option<Seq<Seq<char>>> {
    match line_text(l) {
        Some(t) => Some(range_values(pos, t)),
        None => None,
    }
}

/// When every line that is text is long enough for every field, a
/// fixed-position file yields, in order, one document per line that is
/// text, and each field of it is that field's trimmed character range in
/// the line; lines that are not text are skipped.
pub proof fn lemma_fixed_file_values(pos: Seq<Position>, b: Seq<u8>)
    requires
        forall|i: int|
            0 <= i < split_lines(b).len() ==> (#[trigger] line_text(split_lines(b)[i]) matches Some(t)
                ==> fits(pos, t)),
    ensures
        fixed_documents(pos, b) == present(
            split_lines(b).map_values(|l: Seq<u8>| decodable_line_values(pos, l)),
        ),
{
    let lines = split_lines(b);
    let docs = lines.map_values(|l: Seq<u8>| line_document(pos, l));
    let vals = lines.map_values(|l: Seq<u8>| decodable_line_values(pos, l));
    assert forall|i: int| 0 <= i < lines.len() implies #[trigger] docs[i] == vals[i] by {
        if let Some(t) = line_text(lines[i]) {
            assert(line_text(lines[i]) matches Some(t) ==> fits(pos, t));
            lemma_fitting_line(pos, t);
            assert(fixed_document(pos, t)->0 =~= range_values(pos, t));
        }
    }
    assert(docs =~= vals);
}

} // verus!
