//! One index per source: which directories they live in, how they are
//! opened, and how a source's documents are written into its index.
use crate::config::AppConfig;
use crate::engine::{
    add_keyword_field, add_tokenized_field, build_schema, builder_fields, new_schema_builder,
    index_fields, open_or_create_in_dir, open_reader, schema_fields, valid_field_name, write_and_commit,
};
use crate::extract::{artifact_documents, extract_documents, ExtractionError};
use crate::text::line_chars;
use crate::tpconfig::{field_names, is_indexed_source, kind_strategy, SourceConfig, Strategy};
use vstd::prelude::*;

verus! {

/// The index of each source, by its place in the source table; `None` for a
/// source that has none.
pub type IndexMap = Vec<Option<tantivy::Index>>;

/// The reader of each source's index, by its place in the source table.
pub type ReaderMap = Vec<Option<tantivy::IndexReader>>;

/// The memory budget of an index writer, in bytes.
pub const WRITER_BUDGET: usize = 100_000_000;

/// Why a source could not be indexed.
#[derive(Debug, Clone, Copy, PartialEq, Eq, Structural)]
pub enum IndexError {
    /// The source has no extraction strategy, or no index to write to.
    NotImplemented,
    /// No source has that place in the table.
    UnknownSource,
    /// The source's field names cannot make a schema.
    InvalidLayout,
    /// The source's artifact could not be read.
    Extraction(ExtractionError),
    /// The engine refused to open, write or commit.
    Engine,
}

/// Whether the field names can make a schema: each one valid, no two alike.
pub open spec fn valid_schema_names(names: Seq<Seq<char>>) -> bool {
    &&& forall|k: int| 0 <= k < names.len() ==> valid_field_name(#[trigger] names[k])
    &&& forall|a: int, b: int| 0 <= a < b < names.len() ==> names[a] != names[b]
}

/// Whether two strings hold the same characters.
pub fn same_text(a: &str, b: &str) -> (r: bool)
    ensures
        r == (a@ == b@),
{
    let x = line_chars(&a.to_owned());
    let y = line_chars(&b.to_owned());
    if x.len() != y.len() {
        return false;
    }
    let mut i: usize = 0;
    while i < x.len()
        invariant
            i <= x@.len(),
            x@.len() == y@.len(),
            x@ == a@,
            y@ == b@,
            forall|j: int| 0 <= j < i ==> x@[j] == y@[j],
        decreases x@.len() - i,
    {
        if x[i] != y[i] {
            return false;
        }
        i = i + 1;
    }
    assert(x@ =~= y@);
    true
}

/// Whether the fields' names can make a schema.
pub fn has_valid_names(fields: &Vec<crate::tpconfig::FieldSpec>) -> (r: bool)
    ensures
        r == valid_schema_names(field_names(fields@)),
{
    let ghost names = field_names(fields@);
    let mut i: usize = 0;
    while i < fields.len()
        invariant
            i <= fields@.len(),
            names == field_names(fields@),
            forall|k: int| 0 <= k < i ==> valid_field_name(#[trigger] names[k]),
            forall|a: int, b: int| 0 <= a < b < i ==> names[a] != names[b],
        decreases fields@.len() - i,
    {
        let name = line_chars(&fields[i].name.to_owned());
        if name.len() == 0 || name[0] == '-' {
            assert(names[i as int] == name@);
            return false;
        }
        let mut j: usize = 0;
        while j < i
            invariant
                j <= i < fields@.len(),
                names == field_names(fields@),
                forall|a: int| 0 <= a < j ==> names[a] != names[i as int],
            decreases i - j,
        {
            if same_text(fields[j].name, fields[i].name) {
                assert(names[j as int] == names[i as int]);
                return false;
            }
            j = j + 1;
        }
        i = i + 1;
    }
    true
}

/// The schema of a source's documents: one stored text field per field of
/// its layout, in order; `None` when the names cannot make one.
pub fn schema_for(fields: &Vec<crate::tpconfig::FieldSpec>) -> (r: Option<tantivy::schema::Schema>)
    ensures
        r is Some <==> valid_schema_names(field_names(fields@)),
        r matches Some(s) ==> schema_fields(s) == field_names(fields@),
{
    if !has_valid_names(fields) {
        return None;
    }
    let ghost names = field_names(fields@);
    let mut builder = new_schema_builder();
    let mut i: usize = 0;
    while i < fields.len()
        invariant
            i <= fields@.len(),
            names == field_names(fields@),
            valid_schema_names(names),
            builder_fields(builder) == names.subrange(0, i as int),
        decreases fields@.len() - i,
    {
        let f = fields[i];
        assert(f.name@ == names[i as int]);
        assert(!builder_fields(builder).contains(f.name@)) by {
            if builder_fields(builder).contains(f.name@) {
                let k = choose|k: int|
                    0 <= k < builder_fields(builder).len() && builder_fields(builder)[k]
                        == f.name@;
                assert(names[k] == names[i as int]);
            }
        }
        if f.tokenized {
            add_tokenized_field(&mut builder, f.name);
        } else {
            add_keyword_field(&mut builder, f.name);
        }
        assert(builder_fields(builder) =~= names.subrange(0, i + 1));
        i = i + 1;
    }
    assert(names.subrange(0, i as int) =~= names);
    Some(build_schema(builder))
}

/// Opens the index of a source in `dir`, creating it there with the
/// schema of the source's layout when there is none.
pub fn open_or_create_index(dir: &str, source: &SourceConfig) -> (r: Result<
    tantivy::Index,
    IndexError,
>)
    ensures
        !valid_schema_names(field_names(source.fields@)) <==> r == Err::<
            tantivy::Index,
            IndexError,
        >(IndexError::InvalidLayout),
        r matches Err(e) ==> e == IndexError::InvalidLayout || e == IndexError::Engine,
        r matches Ok(i) ==> index_fields(i) == field_names(source.fields@),
{
    match schema_for(&source.fields) {
        None => Err(IndexError::InvalidLayout),
        Some(schema) => match open_or_create_in_dir(dir, schema) {
            Ok(index) => Ok(index),
            Err(_) => Err(IndexError::Engine),
        },
    }
}

/// `a` followed by a slash and `b`: a path under a folder.
pub open spec fn join_path(a: Seq<char>, b: Seq<char>) -> Seq<char> {
    a + seq!['/'] + b
}

/// A path under a folder.
pub fn path_under(folder: &str, name: &str) -> (r: String)
    ensures
        r@ == join_path(folder@, name@),
{
    let slash = "/";
    proof {
        reveal_strlit("/");
    }
    let r = folder.to_owned().concat(slash).concat(name);
    assert(r@ =~= join_path(folder@, name@));
    r
}

/// What opening the indexes does: whether the whole indexes folder is
/// deleted first, and the directory each indexed source's index is opened in.
pub struct IndexPlan {
    pub delete_root: bool,
    /// By place in the source table; `None` for a source without an index.
    pub dirs: Vec<Option<String>>,
}

/// The directory of a source's index under the indexes folder.
pub open spec fn index_dir(root: Seq<char>, c: SourceConfig) -> Seq<char> {
    match c.index_path {
        Some(p) => join_path(root, p@),
        None => join_path(root, "unknown"@),
    }
}

/// The plan for opening the indexes: the folder is deleted first exactly
/// when a reindex is asked for, and each enabled source with fields gets a
/// directory under the folder.
pub open spec fn index_plan_spec(
    reindex: bool,
    root: Seq<char>,
    sources: Seq<SourceConfig>,
    plan: IndexPlan,
) -> bool {
    &&& plan.delete_root == reindex
    &&& plan.dirs@.len() == sources.len()
    &&& forall|i: int|
        0 <= i < sources.len() ==> (match #[trigger] plan.dirs@[i] {
            Some(d) => is_indexed_source(sources[i]) && d@ == index_dir(root, sources[i]),
            None => !is_indexed_source(sources[i]),
        })
}

/// Plans the opening of every source's index under the indexes folder.
pub fn plan_indexes(config: &AppConfig, sources: &Vec<SourceConfig>) -> (r: IndexPlan)
    ensures
        index_plan_spec(config.reindex, config.indexes_folder@, sources@, r),
{
    let mut dirs: Vec<Option<String>> = Vec::new();
    let mut i: usize = 0;
    while i < sources.len()
        invariant
            i <= sources@.len(),
            dirs@.len() == i,
            forall|k: int|
                0 <= k < i ==> (match #[trigger] dirs@[k] {
                    Some(d) => is_indexed_source(sources@[k]) && d@ == index_dir(
                        config.indexes_folder@,
                        sources@[k],
                    ),
                    None => !is_indexed_source(sources@[k]),
                }),
        decreases sources@.len() - i,
    {
        let s = &sources[i];
        if s.kind.is_enabled() && s.fields.len() > 0 {
            let sub = match s.index_path {
                Some(p) => p,
                None => "unknown",
            };
            dirs.push(Some(path_under(config.indexes_folder.as_str(), sub)));
        } else {
            dirs.push(None);
        }
        i = i + 1;
    }
    IndexPlan { delete_root: config.reindex, dirs }
}

/// What indexing a source does with its artifact, short of the engine's own
/// failures: the documents it writes, or why it writes none.
pub open spec fn index_outcome(
    sources: Seq<SourceConfig>,
    source: int,
    has_index: bool,
    archive: Seq<u8>,
) -> Result<nat, IndexError> {
    if !(0 <= source < sources.len()) {
        Err(IndexError::UnknownSource)
    } else if kind_strategy(sources[source].kind) is None || !has_index {
        Err(IndexError::NotImplemented)
    } else {
        match artifact_documents(sources[source], archive) {
            Err(e) => Err(IndexError::Extraction(e)),
            Ok(d) => Ok(d.len()),
        }
    }
}

/// Whether indexing a source writes nothing at all: it reads fixed-position
/// records but names no archive member to read them from.
pub open spec fn writes_nothing(c: SourceConfig) -> bool {
    kind_strategy(c.kind) == Some(Strategy::FixedPosition) && c.zip_file_path is None
}

/// The names of the fields, in order.
pub fn field_name_list(fields: &Vec<crate::tpconfig::FieldSpec>) -> (r: Vec<&'static str>)
    ensures
        r@.len() == fields@.len(),
        forall|k: int| 0 <= k < r@.len() ==> (#[trigger] r@[k])@ == field_names(fields@)[k],
{
    let mut names: Vec<&'static str> = Vec::new();
    let mut k: usize = 0;
    while k < fields.len()
        invariant
            k <= fields@.len(),
            names@.len() == k,
            forall|j: int| 0 <= j < k ==> (#[trigger] names@[j])@ == field_names(fields@)[j],
        decreases fields@.len() - k,
    {
        names.push(fields[k].name);
        k = k + 1;
    }
    names
}

/// Reads the artifact of the source at place `source` into documents and
/// writes them into its index, under the source's field names, with one
/// commit. On success, the number of documents written. Every error but
/// the engine's comes before the index is touched, and a source with no
/// member to read leaves its index alone.
pub fn index_source(
    sources: &Vec<SourceConfig>,
    source: usize,
    maybe_index: Option<&tantivy::Index>,
    archive: &[u8],
) -> (r: Result<usize, IndexError>)
    ensures
        r matches Ok(n) ==> index_outcome(sources@, source as int, maybe_index is Some, archive@)
            == Ok::<nat, IndexError>(n as nat),
        r matches Err(e) ==> e == IndexError::Engine || index_outcome(
            sources@,
            source as int,
            maybe_index is Some,
            archive@,
        ) == Err::<nat, IndexError>(e),
        index_outcome(sources@, source as int, maybe_index is Some, archive@) matches Err(e)
            ==> r == Err::<usize, IndexError>(e),
        index_outcome(sources@, source as int, maybe_index is Some, archive@) is Ok
            && writes_nothing(sources@[source as int]) ==> r == Ok::<usize, IndexError>(0),
{
    if source >= sources.len() {
        return Err(IndexError::UnknownSource);
    }
    let config = &sources[source];
    let index = match (config.kind.strategy(), maybe_index) {
        (Some(_), Some(index)) => index,
        _ => return Err(IndexError::NotImplemented),
    };
    let docs = match extract_documents(config, archive) {
        Ok(d) => d,
        Err(e) => return Err(IndexError::Extraction(e)),
    };
    if config.zip_file_path.is_none() {
        if let Some(Strategy::FixedPosition) = config.kind.strategy() {
            return Ok(0);
        }
    }
    let names = field_name_list(&config.fields);
    match write_and_commit(index, &names, &docs, WRITER_BUDGET) {
        Ok(_) => Ok(docs.len()),
        Err(_) => Err(IndexError::Engine),
    }
}

/// What indexing one source does depends on that source alone: on its own
/// entry in the table, its own index and its own archive. Another source
/// failing to collect, or anything else about the others, changes nothing.
pub proof fn lemma_index_outcome_is_per_source(
    sources: Seq<SourceConfig>,
    others: Seq<SourceConfig>,
    source: int,
    has_index: bool,
    archive: Seq<u8>,
)
    requires
        0 <= source < sources.len(),
        0 <= source < others.len(),
        sources[source] == others[source],
    ensures
        index_outcome(sources, source, has_index, archive) == index_outcome(
            others,
            source,
            has_index,
            archive,
        ),
{
}

/// A reader for every index, reloading some time after each commit. A
/// source whose reader the engine cannot open gets no reader; the others
/// still get theirs.
pub fn open_readers(indexes: &IndexMap) -> (r: ReaderMap)
    ensures
        r@.len() == indexes@.len(),
        forall|i: int| 0 <= i < indexes@.len() && (#[trigger] r@[i]) is Some ==> indexes@[i] is Some,
        forall|i: int| 0 <= i < indexes@.len() && (#[trigger] indexes@[i]) is None ==> r@[i] is None,
{
    let mut readers: ReaderMap = Vec::new();
    let mut i: usize = 0;
    while i < indexes.len()
        invariant
            i <= indexes@.len(),
            readers@.len() == i,
            forall|k: int| 0 <= k < i ==> ((#[trigger] readers@[k]) is Some ==> indexes@[k] is Some),
        decreases indexes@.len() - i,
    {
        match &indexes[i] {
            Some(index) => match open_reader(index, tantivy::ReloadPolicy::OnCommitWithDelay) {
                Ok(reader) => readers.push(Some(reader)),
                Err(_) => readers.push(None),
            },
            None => readers.push(None),
        }
        i = i + 1;
    }
    readers
}

/// Without a reindex, opening the indexes deletes nothing, and opening them
/// again opens the same directory for each source, with a schema of the
/// same fields, so what was committed there is opened again.
pub proof fn lemma_reopen_without_reindex(
    root: Seq<char>,
    sources: Seq<SourceConfig>,
    first: IndexPlan,
    second: IndexPlan,
)
    requires
        index_plan_spec(false, root, sources, first),
        index_plan_spec(false, root, sources, second),
    ensures
        !first.delete_root && !second.delete_root,
        first.dirs@.len() == second.dirs@.len(),
        forall|i: int|
            0 <= i < first.dirs@.len() ==> (#[trigger] first.dirs@[i] is Some <==> second.dirs@[i] is Some),
        forall|i: int|
            0 <= i < first.dirs@.len() && (#[trigger] first.dirs@[i]) is Some ==> first.dirs@[i]->0@
                == second.dirs@[i]->0@,
{
    assert forall|i: int| 0 <= i < first.dirs@.len() implies (#[trigger] first.dirs@[i] is Some
        <==> second.dirs@[i] is Some) by {
        assert(first.dirs@[i] is Some <==> is_indexed_source(sources[i]));
        assert(second.dirs@[i] is Some <==> is_indexed_source(sources[i]));
    }
    assert forall|i: int| 0 <= i < first.dirs@.len() && (#[trigger] first.dirs@[i]) is Some implies first.dirs@[i]->0@
        == second.dirs@[i]->0@ by {
        assert(first.dirs@[i]->0@ == index_dir(root, sources[i]));
        assert(second.dirs@[i] is Some);
        assert(second.dirs@[i]->0@ == index_dir(root, sources[i]));
    }
}

/// Two indexes opened for the same source, say before and after a reopen
/// without a reindex, have the same fields: those of the source's layout.
pub proof fn lemma_reopened_index_keeps_schema(
    source: SourceConfig,
    first: tantivy::Index,
    second: tantivy::Index,
)
    requires
        index_fields(first) == field_names(source.fields@),
        index_fields(second) == field_names(source.fields@),
    ensures
        index_fields(first) == index_fields(second),
{
}

/// With a reindex, the whole indexes folder is deleted before anything is
/// opened, and every source's index directory lies inside that folder, so
/// none survives from before.
pub proof fn lemma_reindex_drops_every_index(root: Seq<char>, sources: Seq<SourceConfig>, plan: IndexPlan)
    requires
        index_plan_spec(true, root, sources, plan),
    ensures
        plan.delete_root,
        forall|i: int|
            0 <= i < plan.dirs@.len() && (#[trigger] plan.dirs@[i]) is Some ==> plan.dirs@[i]->0@.len()
                > root.len() && plan.dirs@[i]->0@.subrange(0, root.len() as int) == root
                && plan.dirs@[i]->0@[root.len() as int] == '/',
{
    assert forall|i: int| 0 <= i < plan.dirs@.len() && (#[trigger] plan.dirs@[i]) is Some implies plan.dirs@[i]->0@.len()
        > root.len() && plan.dirs@[i]->0@.subrange(0, root.len() as int) == root
        && plan.dirs@[i]->0@[root.len() as int] == '/' by {
        let d = plan.dirs@[i]->0@;
        assert(d == index_dir(root, sources[i]));
        let sub = match sources[i].index_path {
            Some(p) => p@,
            None => "unknown"@,
        };
        assert(d == root + seq!['/'] + sub);
        assert(d.subrange(0, root.len() as int) =~= root);
    }
}

} // verus!
