//! The full-text engine, tantivy, as the rest of the library sees it: opaque
//! handles and the few calls made on them.
use vstd::prelude::*;

verus! {

#[verifier::external_type_specification]
#[verifier::external_body]
pub struct ExIndex(tantivy::Index);

#[verifier::external_type_specification]
#[verifier::external_body]
pub struct ExIndexReader(tantivy::IndexReader);

#[verifier::external_type_specification]
#[verifier::external_body]
pub struct ExSchema(tantivy::schema::Schema);

#[verifier::external_type_specification]
#[verifier::external_body]
pub struct ExSchemaBuilder(tantivy::schema::SchemaBuilder);

#[verifier::external_type_specification]
#[verifier::external_body]
pub struct ExTantivyError(tantivy::TantivyError);

#[verifier::external_type_specification]
pub struct ExReloadPolicy(tantivy::ReloadPolicy);

/// The names of the fields added to a schema builder, in order.
pub uninterp spec fn builder_fields(b: tantivy::schema::SchemaBuilder) -> Seq<Seq<char>>;

/// Whether tantivy accepts `name` as a field name (`is_valid_field_name`).
pub open spec fn valid_field_name(name: Seq<char>) -> bool {
    name.len() > 0 && name[0] != '-'
}

/// Relies on `Schema::builder`: a builder with no fields.
#[verifier::external_body]
pub(crate) fn new_schema_builder() -> (r: tantivy::schema::SchemaBuilder)
    ensures
        builder_fields(r) == Seq::<Seq<char>>::empty(),
{
    tantivy::schema::Schema::builder()
}

/// Relies on `SchemaBuilder::add_text_field` with `STRING | STORED`: the field
/// is appended; a name that is already there or
/// that `FieldEntry::new` refuses would panic.
#[verifier::external_body]
pub(crate) fn add_keyword_field(b: &mut tantivy::schema::SchemaBuilder, name: &str)
    requires
        valid_field_name(name@),
        !builder_fields(*old(b)).contains(name@),
    ensures
        builder_fields(*final(b)) == builder_fields(*old(b)).push(name@),
{
    b.add_text_field(name, tantivy::schema::STRING | tantivy::schema::STORED);
}

/// Relies on `SchemaBuilder::add_text_field` with `TEXT | STORED`: as
/// `add_keyword_field`, for a field whose value is split into words.
#[verifier::external_body]
pub(crate) fn add_tokenized_field(b: &mut tantivy::schema::SchemaBuilder, name: &str)
    requires
        valid_field_name(name@),
        !builder_fields(*old(b)).contains(name@),
    ensures
        builder_fields(*final(b)) == builder_fields(*old(b)).push(name@),
{
    b.add_text_field(name, tantivy::schema::TEXT | tantivy::schema::STORED);
}

/// The names of a schema's fields, in order.
pub uninterp spec fn schema_fields(s: tantivy::schema::Schema) -> Seq<Seq<char>>;

/// Relies on `SchemaBuilder::build`: the schema has the builder's fields.
#[verifier::external_body]
pub(crate) fn build_schema(b: tantivy::schema::SchemaBuilder) -> (r: tantivy::schema::Schema)
    ensures
        schema_fields(r) == builder_fields(b),
{
    b.build()
}

/// The names of the fields of an index's schema (`Index::schema`), in order.
pub uninterp spec fn index_fields(i: tantivy::Index) -> Seq<Seq<char>>;

/// Relies on `MmapDirectory::open` and `Index::open_or_create`: the index in
/// the directory `dir`, created there with `schema` when there is none; an
/// error when the directory cannot be opened or the index there has another
/// schema (schemas are equal when their field entries, names included, are),
/// so an index handed back has the fields of `schema`.
#[verifier::external_body]
pub(crate) fn open_or_create_in_dir(dir: &str, schema: tantivy::schema::Schema) -> (r: Result<
    tantivy::Index,
    tantivy::TantivyError,
>)
    ensures
        r matches Ok(i) ==> index_fields(i) == schema_fields(schema),
{
    let directory = tantivy::directory::MmapDirectory::open(dir)?;
    tantivy::Index::open_or_create(directory, schema)
}

/// Relies on `Index::writer`, `IndexWriter::add_document` and
/// `IndexWriter::commit`: each document's values go to the fields named
/// `names`, in order, and all of them are committed at once. An error when a
/// name is not in the index's schema, another writer holds the index, the
/// budget is refused, or writing fails.
#[verifier::external_body]
pub(crate) fn write_and_commit(
    index: &tantivy::Index,
    names: &Vec<&str>,
    docs: &Vec<Vec<String>>,
    budget: usize,
) -> (r: Result<u64, tantivy::TantivyError>) {
    let schema = index.schema();
    let fields = names.iter().map(|n| schema.get_field(n)).collect::<Result<Vec<_>, _>>()?;
    let mut writer: tantivy::IndexWriter = index.writer(budget)?;
    for values in docs {
        let mut doc = tantivy::TantivyDocument::new();
        for (field, value) in fields.iter().zip(values) {
            doc.add_text(*field, value);
        }
        writer.add_document(doc)?;
    }
    writer.commit()
}

/// Relies on `Index::reader_builder` and `IndexReaderBuilder::try_into`: a
/// reader of the index with the given reload policy.
#[verifier::external_body]
pub(crate) fn open_reader(index: &tantivy::Index, policy: tantivy::ReloadPolicy) -> (r: Result<
    tantivy::IndexReader,
    tantivy::TantivyError,
>) {
    index.reader_builder().reload_policy(policy).try_into()
}

/// Relies on `IndexReader::searcher`, then, on that one searcher and the
/// index it belongs to: `QueryParser::parse_query` over every field of the
/// schema, `Searcher::search` with `TopDocs::with_limit`, and `Searcher::doc`
/// with `Document::to_json` for each hit. `with_limit` panics on a limit of
/// 0 and otherwise hands back at most `limit` hits, in the engine's ranking
/// order. Each score is handed back as its bit pattern.
#[verifier::external_body]
pub(crate) fn top_hits(reader: &tantivy::IndexReader, query: &str, limit: usize) -> (r: Result<
    Vec<(u32, String)>,
    tantivy::TantivyError,
>)
    requires
        limit >= 1,
    ensures
        r matches Ok(hits) ==> hits@.len() <= limit,
{
    let searcher = reader.searcher();
    let schema = searcher.index().schema();
    let fields = schema.fields().map(|(field, _)| field).collect();
    let parsed = tantivy::query::QueryParser::for_index(searcher.index(), fields).parse_query(query)?;
    let top = searcher.search(&parsed, &tantivy::collector::TopDocs::with_limit(limit))?;
    let mut hits = Vec::new();
    for (score, address) in top {
        let doc: tantivy::TantivyDocument = searcher.doc(address)?;
        hits.push((score.to_bits(), tantivy::Document::to_json(&doc, &schema)));
    }
    Ok(hits)
}

} // verus!
