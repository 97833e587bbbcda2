//! The table of registry sources: what each one is called, where its data
//! comes from, where it is kept, and how its records map onto fields.
use vstd::prelude::*;

verus! {

pub type SourceName = &'static str;

/// Which registry a source is, and so how its data is fetched and read.
#[derive(Debug, Copy, Clone, PartialEq, Eq, Structural)]
pub enum SourceKind {
    Disabled,
    PravneOsebe,
    FizicneOsebe,
    PoslovniRegisterSlovenije,
}

/// How the records of a source are read.
#[derive(Debug, Copy, Clone, PartialEq, Eq, Structural)]
pub enum Strategy {
    /// One record per line, each field a character range of the line.
    FixedPosition,
    /// A delimited file whose first record is a header, each field a column.
    DelimitedWithHeader,
}

/// The extraction strategy of a kind of source, if it has one.
pub open spec fn kind_strategy(kind: SourceKind) -> Option<Strategy> {
    match kind {
        SourceKind::PravneOsebe | SourceKind::FizicneOsebe => Some(Strategy::FixedPosition),
        SourceKind::PoslovniRegisterSlovenije => Some(Strategy::DelimitedWithHeader),
        SourceKind::Disabled => None,
    }
}

/// Whether sources of this kind take part in collection, indexing and search.
pub open spec fn kind_enabled(kind: SourceKind) -> bool {
    kind != SourceKind::Disabled
}

/// Whether the landing page of a source must be scraped for its archive link.
pub open spec fn kind_scraped(kind: SourceKind) -> bool {
    kind == SourceKind::PoslovniRegisterSlovenije
}

impl SourceKind {
    /// The name of the kind as it is shown to people.
    pub fn description(&self) -> (r: &'static str)
        ensures
            r@ == match *self {
                SourceKind::Disabled => "Disabled"@,
                SourceKind::PravneOsebe => "Pravne Osebe"@,
                SourceKind::FizicneOsebe => "Fizi\u{10d}ne Osebe"@,
                SourceKind::PoslovniRegisterSlovenije => "Poslovni Register Slovenije"@,
            },
    {
        match self {
            SourceKind::Disabled => "Disabled",
            SourceKind::PravneOsebe => "Pravne Osebe",
            SourceKind::FizicneOsebe => "Fizi\u{10d}ne Osebe",
            SourceKind::PoslovniRegisterSlovenije => "Poslovni Register Slovenije",
        }
    }

    pub fn strategy(&self) -> (r: Option<Strategy>)
        ensures
            r == kind_strategy(*self),
    {
        match self {
            SourceKind::PravneOsebe | SourceKind::FizicneOsebe => Some(Strategy::FixedPosition),
            SourceKind::PoslovniRegisterSlovenije => Some(Strategy::DelimitedWithHeader),
            SourceKind::Disabled => None,
        }
    }

    pub fn is_enabled(&self) -> (r: bool)
        ensures
            r == kind_enabled(*self),
    {
        match self {
            SourceKind::Disabled => false,
            _ => true,
        }
    }

    pub fn is_scraped(&self) -> (r: bool)
        ensures
            r == kind_scraped(*self),
    {
        match self {
            SourceKind::PoslovniRegisterSlovenije => true,
            _ => false,
        }
    }
}

/// Where a field's value lies in a record.
#[derive(Hash, Debug, Copy, Clone, PartialEq, Eq, Structural)]
pub enum Position {
    /// The characters `[start, end)` of a line.
    Fixed(usize, usize),
    /// A column of a delimited record.
    Index(usize),
}

/// One field of a source's documents.
#[derive(Debug, Copy, Clone)]
pub struct FieldSpec {
    pub name: &'static str,
    /// Whether the value is split into words for search (a name, an
    /// address) or kept whole (an identifier).
    pub tokenized: bool,
    pub position: Position,
}

/// One configured source.
#[derive(Debug, Clone)]
pub struct SourceConfig {
    pub name: SourceName,
    pub kind: SourceKind,
    pub source_url: &'static str,
    /// The member of the downloaded archive that holds fixed-position records.
    pub zip_file_path: Option<&'static str>,
    /// The file, under the storage folder, that the download is kept in.
    pub data_path: Option<&'static str>,
    /// The directory, under the indexes folder, of the source's index.
    pub index_path: Option<&'static str>,
    /// The fields of the source's documents; empty when it has no schema.
    pub fields: Vec<FieldSpec>,
}

/// The positions of the fields, in order.
pub open spec fn field_positions(fields: Seq<FieldSpec>) -> Seq<Position> {
    fields.map_values(|f: FieldSpec| f.position)
}

/// The names of the fields, in order.
pub open spec fn field_names(fields: Seq<FieldSpec>) -> Seq<Seq<char>> {
    fields.map_values(|f: FieldSpec| f.name@)
}

/// Whether a source is indexed: it is enabled and has fields.
pub open spec fn is_indexed_source(c: SourceConfig) -> bool {
    kind_enabled(c.kind) && c.fields@.len() > 0
}

fn field(name: &'static str, tokenized: bool, position: Position) -> (r: FieldSpec)
    ensures
        r.name == name,
        r.tokenized == tokenized,
        r.position == position,
{
    FieldSpec { name, tokenized, position }
}

/// A field as a value.
pub open spec fn field_spec(name: &'static str, tokenized: bool, position: Position) -> FieldSpec {
    FieldSpec { name, tokenized, position }
}

/// Whether `c` is the source with exactly these settings and fields.
pub open spec fn describes(
    c: SourceConfig,
    name: SourceName,
    kind: SourceKind,
    source_url: &'static str,
    zip_file_path: Option<&'static str>,
    data_path: Option<&'static str>,
    index_path: Option<&'static str>,
    fields: Seq<FieldSpec>,
) -> bool {
    &&& c.name == name
    &&& c.kind == kind
    &&& c.source_url == source_url
    &&& c.zip_file_path == zip_file_path
    &&& c.data_path == data_path
    &&& c.index_path == index_path
    &&& c.fields@ == fields
}

/// The sources this service knows, in a fixed order; a source is referred to
/// by its place in this table.
pub fn source_configs() -> (r: Vec<SourceConfig>)
    ensures
        r@.len() == 4,
        describes(
            r@[0],
            "Pravne Osebe",
            SourceKind::PravneOsebe,
            "https://fu.gov.si/fileadmin/prenosi/DURS_zavezanci_PO.zip",
            Some("DURS_zavezanci_PO.txt"),
            Some("pravne_osebe.zip"),
            Some("pravne_osebe"),
            seq![
                field_spec("vat_id", false, Position::Fixed(4, 12)),
                field_spec("company_id", false, Position::Fixed(13, 23)),
                field_spec("company_name", true, Position::Fixed(42, 143)),
                field_spec("address", true, Position::Fixed(143, 257)),
            ],
        ),
        describes(
            r@[1],
            "Fizi\u{10d}ne osebe",
            SourceKind::FizicneOsebe,
            "https://fu.gov.si/fileadmin/prenosi/DURS_zavezanci_FO.zip",
            Some("DURS_zavezanci_FO.txt"),
            Some("fizicne_osebe.zip"),
            Some("fizicne_osebe"),
            seq![
                field_spec("vat_id", false, Position::Fixed(2, 10)),
                field_spec("name", true, Position::Fixed(11, 72)),
                field_spec("address", true, Position::Fixed(72, 184)),
            ],
        ),
        describes(
            r@[2],
            "Fizi\u{10d}ne osebe (dejavnosti)",
            SourceKind::Disabled,
            "https://fu.gov.si/fileadmin/prenosi/DURS_zavezanci_DEJ.zip",
            None,
            Some("fizicne_osebe_dej.zip"),
            Some("fizicne_osebe_dej"),
            Seq::empty(),
        ),
        describes(
            r@[3],
            "Poslovni Register Slovenije",
            SourceKind::PoslovniRegisterSlovenije,
            "https://podatki.gov.si/dataset/poslovni-register-slovenije",
            None,
            Some("poslovni_register_slovenije.zip"),
            Some("poslovni_register_slovenije"),
            seq![
                field_spec("company_id", false, Position::Index(0)),
                field_spec("company_name", true, Position::Index(1)),
            ],
        ),
{
    let mut r: Vec<SourceConfig> = Vec::new();
    let mut pravne: Vec<FieldSpec> = Vec::new();
    pravne.push(field("vat_id", false, Position::Fixed(4, 12)));
    pravne.push(field("company_id", false, Position::Fixed(13, 23)));
    pravne.push(field("company_name", true, Position::Fixed(42, 143)));
    pravne.push(field("address", true, Position::Fixed(143, 257)));
    r.push(
        SourceConfig {
            name: "Pravne Osebe",
            kind: SourceKind::PravneOsebe,
            source_url: "https://fu.gov.si/fileadmin/prenosi/DURS_zavezanci_PO.zip",
            zip_file_path: Some("DURS_zavezanci_PO.txt"),
            data_path: Some("pravne_osebe.zip"),
            index_path: Some("pravne_osebe"),
            fields: pravne,
        },
    );
    let mut fizicne: Vec<FieldSpec> = Vec::new();
    fizicne.push(field("vat_id", false, Position::Fixed(2, 10)));
    fizicne.push(field("name", true, Position::Fixed(11, 72)));
    fizicne.push(field("address", true, Position::Fixed(72, 184)));
    r.push(
        SourceConfig {
            name: "Fizi\u{10d}ne osebe",
            kind: SourceKind::FizicneOsebe,
            source_url: "https://fu.gov.si/fileadmin/prenosi/DURS_zavezanci_FO.zip",
            zip_file_path: Some("DURS_zavezanci_FO.txt"),
            data_path: Some("fizicne_osebe.zip"),
            index_path: Some("fizicne_osebe"),
            fields: fizicne,
        },
    );
    r.push(
        SourceConfig {
            name: "Fizi\u{10d}ne osebe (dejavnosti)",
            kind: SourceKind::Disabled,
            source_url: "https://fu.gov.si/fileadmin/prenosi/DURS_zavezanci_DEJ.zip",
            zip_file_path: None,
            data_path: Some("fizicne_osebe_dej.zip"),
            index_path: Some("fizicne_osebe_dej"),
            fields: Vec::new(),
        },
    );
    let mut register: Vec<FieldSpec> = Vec::new();
    register.push(field("company_id", false, Position::Index(0)));
    register.push(field("company_name", true, Position::Index(1)));
    r.push(
        SourceConfig {
            name: "Poslovni Register Slovenije",
            kind: SourceKind::PoslovniRegisterSlovenije,
            source_url: "https://podatki.gov.si/dataset/poslovni-register-slovenije",
            zip_file_path: None,
            data_path: Some("poslovni_register_slovenije.zip"),
            index_path: Some("poslovni_register_slovenije"),
            fields: register,
        },
    );
    proof {
        assert(r@[0].fields@ =~= seq![
            field_spec("vat_id", false, Position::Fixed(4, 12)),
            field_spec("company_id", false, Position::Fixed(13, 23)),
            field_spec("company_name", true, Position::Fixed(42, 143)),
            field_spec("address", true, Position::Fixed(143, 257)),
        ]);
        assert(r@[1].fields@ =~= seq![
            field_spec("vat_id", false, Position::Fixed(2, 10)),
            field_spec("name", true, Position::Fixed(11, 72)),
            field_spec("address", true, Position::Fixed(72, 184)),
        ]);
        assert(r@[2].fields@ =~= Seq::<FieldSpec>::empty());
        assert(r@[3].fields@ =~= seq![
            field_spec("company_id", false, Position::Index(0)),
            field_spec("company_name", true, Position::Index(1)),
        ]);
    }
    r
}

/// The places in `sources` of the enabled sources, in table order.
pub fn available_sources(sources: &Vec<SourceConfig>) -> (r: Vec<usize>)
    ensures
        forall|k: int| 0 <= k < r@.len() ==> (#[trigger] r@[k]) < sources@.len(),
        forall|i: int|
            0 <= i < sources@.len() ==> (r@.contains(i as usize) <==> kind_enabled(
                #[trigger] sources@[i].kind,
            )),
        forall|a: int, b: int| 0 <= a < b < r@.len() ==> r@[a] < r@[b],
{
    let mut r: Vec<usize> = Vec::new();
    let mut i: usize = 0;
    while i < sources.len()
        invariant
            i <= sources@.len(),
            forall|k: int| 0 <= k < r@.len() ==> (#[trigger] r@[k]) < i,
            forall|j: int|
                0 <= j < i ==> (r@.contains(j as usize) <==> kind_enabled(
                    #[trigger] sources@[j].kind,
                )),
            forall|a: int, b: int| 0 <= a < b < r@.len() ==> r@[a] < r@[b],
        decreases sources@.len() - i,
    {
        let ghost old_r = r@;
        if sources[i].kind.is_enabled() {
            r.push(i);
        }
        proof {
            assert forall|j: int| 0 <= j <= i implies (r@.contains(j as usize) <==> kind_enabled(
                #[trigger] sources@[j].kind,
            )) by {
                if r@.contains(j as usize) {
                    let k = choose|k: int| 0 <= k < r@.len() && r@[k] == j as usize;
                    if k < old_r.len() {
                        assert(old_r[k] == j as usize);
                        assert(old_r.contains(j as usize));
                    }
                }
                if j < i && old_r.contains(j as usize) {
                    let k = choose|k: int| 0 <= k < old_r.len() && old_r[k] == j as usize;
                    assert(r@[k] == j as usize);
                }
                if j == i && kind_enabled(sources@[j].kind) {
                    assert(r@[r@.len() - 1] == j as usize);
                }
            }
        }
        i = i + 1;
    }
    r
}

} // verus!
