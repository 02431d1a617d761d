//! The mapping tables of the transpiler: from a type name of the source
//! language to a C++ type and the header that declares it, and from a
//! qualified name of the standard library to its header.
//!
//! Both tables are read from delimited text with `;` between the fields and
//! a header row. A table is an ordered list of entries; where a name occurs
//! more than once, its last entry counts.

use crate::tokenizer::{Token, TokenInfo, TokenView};
use vstd::prelude::*;

verus! {

/// A C++ type and the header that declares it.
#[derive(Debug)]
pub struct TypeInfo {
    pub name: String,
    pub library: String,
}

/// The mathematical content of a `TypeInfo`.
pub struct TypeInfoView {
    pub name: Seq<char>,
    pub library: Seq<char>,
}

impl View for TypeInfo {
    type V = TypeInfoView;

    open spec fn view(&self) -> TypeInfoView {
        TypeInfoView { name: self.name@, library: self.library@ }
    }
}

impl Clone for TypeInfo {
    fn clone(&self) -> (res: Self)
        ensures
            res@ == self@,
    {
        TypeInfo { name: self.name.clone(), library: self.library.clone() }
    }
}

/// One entry of the type table.
#[derive(Debug)]
pub struct TypeEntry {
    pub key: String,
    pub info: TypeInfo,
}

/// The mathematical content of a type entry.
pub struct TypeEntryView {
    pub key: Seq<char>,
    pub info: TypeInfoView,
}

impl View for TypeEntry {
    type V = TypeEntryView;

    open spec fn view(&self) -> TypeEntryView {
        TypeEntryView { key: self.key@, info: self.info@ }
    }
}

/// One entry of the table of standard-library names.
#[derive(Debug)]
pub struct StdEntry {
    pub key: String,
    pub library: String,
}

/// The mathematical content of a standard-library entry.
pub struct StdEntryView {
    pub key: Seq<char>,
    pub library: Seq<char>,
}

impl View for StdEntry {
    type V = StdEntryView;

    open spec fn view(&self) -> StdEntryView {
        StdEntryView { key: self.key@, library: self.library@ }
    }
}

/// The type table: entries in the order of their rows.
#[derive(Debug)]
pub struct TypeTable {
    pub entries: Vec<TypeEntry>,
}

impl View for TypeTable {
    type V = Seq<TypeEntryView>;

    open spec fn view(&self) -> Seq<TypeEntryView> {
        self.entries@.map_values(|e: TypeEntry| e@)
    }
}

/// The table of standard-library names: entries in the order of their rows.
#[derive(Debug)]
pub struct StdTable {
    pub entries: Vec<StdEntry>,
}

impl View for StdTable {
    type V = Seq<StdEntryView>;

    open spec fn view(&self) -> Seq<StdEntryView> {
        self.entries@.map_values(|e: StdEntry| e@)
    }
}

/// Why a table could not be loaded.
#[derive(Debug)]
pub enum MappingError {
    /// The file at the path could not be opened.
    OpenFailed(String),
    /// The record with the number, counted from one behind the header row,
    /// could not be read or has too few fields.
    MalformedRow(String, usize),
}

/// The mathematical content of a `MappingError`.
pub enum MappingErrorView {
    OpenFailed(Seq<char>),
    MalformedRow(Seq<char>, int),
}

impl View for MappingError {
    type V = MappingErrorView;

    open spec fn view(&self) -> MappingErrorView {
        match self {
            MappingError::OpenFailed(path) => MappingErrorView::OpenFailed(path@),
            MappingError::MalformedRow(path, row) => MappingErrorView::MalformedRow(path@, *row as int),
        }
    }
}

/// The line that reports a mapping error.
pub open spec fn error_message(error: MappingErrorView) -> Seq<char> {
    match error {
        MappingErrorView::OpenFailed(path) => "Mapping error: cannot open "@ + path,
        MappingErrorView::MalformedRow(path, row) => "Mapping error: malformed row "@
            + crate::text::digits(row) + " in "@ + path,
    }
}

impl MappingError {
    /// The line that reports the error.
    pub fn to_string(&self) -> (text: String)
        ensures
            text@ == error_message(self@),
    {
        let mut text = String::new();
        match self {
            MappingError::OpenFailed(path) => {
                text.append("Mapping error: cannot open ");
                text.append(path.as_str());
            },
            MappingError::MalformedRow(path, row) => {
                text.append("Mapping error: malformed row ");
                crate::text::write_digits(&mut text, *row as u64);
                text.append(" in ");
                text.append(path.as_str());
            },
        }
        assert(text@ =~= error_message(self@));
        text
    }
}

// ---------------------------------------------------------------------------
// Lookup
// ---------------------------------------------------------------------------

/// What the type table holds for a name: the last entry with that key.
pub open spec fn lookup_type(entries: Seq<TypeEntryView>, name: Seq<char>) -> Option<TypeInfoView>
    decreases entries.len(),
{
    if entries.len() == 0 {
        None
    } else if entries.last().key == name {
        Some(entries.last().info)
    } else {
        lookup_type(entries.drop_last(), name)
    }
}

/// What the table of standard-library names holds for a name: the header of
/// the last entry with that key.
pub open spec fn lookup_library(entries: Seq<StdEntryView>, name: Seq<char>) -> Option<Seq<char>>
    decreases entries.len(),
{
    if entries.len() == 0 {
        None
    } else if entries.last().key == name {
        Some(entries.last().library)
    } else {
        lookup_library(entries.drop_last(), name)
    }
}

/// The C++ type that a token names: the table's entry for the lexeme of an
/// identifier, nothing for any other token.
pub open spec fn translated(token: TokenView, types: Seq<TypeEntryView>) -> Option<TypeInfoView> {
    if token.token == Token::Identifier {
        lookup_type(types, token.lexeme)
    } else {
        None
    }
}

/// Looks a type name up. Names without an entry are no error: the caller
/// falls back to the name as written.
pub fn translate_type(token_info: &TokenInfo, types: &TypeTable) -> (res: Option<TypeInfo>)
    ensures
        match res {
            Some(info) => translated(token_info@, types@) == Some(info@),
            None => translated(token_info@, types@) is None,
        },
{
    if token_info.token != Token::Identifier {
        return None;
    }
    let mut i = types.entries.len();
    assert(types@.subrange(0, i as int) =~= types@);
    while i > 0
        invariant
            i <= types.entries@.len(),
            token_info.token == Token::Identifier,
            lookup_type(types@, token_info.lexeme@) == lookup_type(
                types@.subrange(0, i as int),
                token_info.lexeme@,
            ),
        decreases i,
    {
        let ghost rows = types@.subrange(0, i as int);
        i = i - 1;
        assert(rows.drop_last() == types@.subrange(0, i as int));
        assert(rows.last() == types.entries@[i as int]@);
        if types.entries[i].key == token_info.lexeme {
            return Some(types.entries[i].info.clone());
        }
    }
    assert(types@.subrange(0, 0).len() == 0);
    None
}

/// Looks the header of a qualified standard-library name up.
pub fn get_library(name: &str, std_names: &StdTable) -> (res: Option<String>)
    ensures
        match res {
            Some(library) => lookup_library(std_names@, name@) == Some(library@),
            None => lookup_library(std_names@, name@) is None,
        },
{
    let wanted = String::from_str(name);
    let mut i = std_names.entries.len();
    assert(std_names@.subrange(0, i as int) =~= std_names@);
    while i > 0
        invariant
            i <= std_names.entries@.len(),
            wanted@ == name@,
            lookup_library(std_names@, name@) == lookup_library(
                std_names@.subrange(0, i as int),
                name@,
            ),
        decreases i,
    {
        let ghost rows = std_names@.subrange(0, i as int);
        i = i - 1;
        assert(rows.drop_last() == std_names@.subrange(0, i as int));
        assert(rows.last() == std_names.entries@[i as int]@);
        if std_names.entries[i].key == wanted {
            return Some(std_names.entries[i].library.clone());
        }
    }
    assert(std_names@.subrange(0, 0).len() == 0);
    None
}

// ---------------------------------------------------------------------------
// Loading
// ---------------------------------------------------------------------------

/// The records that the `csv` crate reads from a text with `;` as delimiter,
/// behind the header row: the fields of each record, or nothing for a record
/// that the crate rejects.
pub uninterp spec fn csv_records(text: Seq<u8>) -> Seq<Option<Seq<Seq<char>>>>;

/// The fields of one record as sequences of characters.
pub open spec fn fields_view(fields: Vec<String>) -> Seq<Seq<char>> {
    fields@.map_values(|f: String| f@)
}

/// The records as sequences of fields.
pub open spec fn records_view(records: Seq<Option<Vec<String>>>) -> Seq<Option<Seq<Seq<char>>>> {
    records.map_values(
        |r: Option<Vec<String>>|
            match r {
                Some(fields) => Some(fields_view(fields)),
                None => None,
            },
    )
}

/// `csv::ReaderBuilder` with the delimiter `;`, reading from the bytes, and
/// the reader's `records`: the records behind the header row in order, each
/// with its fields as strings, or `None` where the reader returns an error
/// for the record. What comes back depends on the bytes alone.
#[verifier::external_body]
fn read_records(text: &[u8]) -> (records: Vec<Option<Vec<String>>>)
    ensures
        records_view(records@) == csv_records(text@),
{
    csv::ReaderBuilder::new()
        .delimiter(b';')
        .from_reader(text)
        .records()
        .map(|record| record.ok().map(|fields| fields.iter().map(String::from).collect()))
        .collect()
}

/// The record cannot be an entry with `width` fields.
pub open spec fn is_malformed(record: Option<Seq<Seq<char>>>, width: int) -> bool {
    match record {
        Some(fields) => fields.len() < width,
        None => true,
    }
}

/// The type entry that a record with three fields spells.
pub open spec fn type_entry_of(fields: Seq<Seq<char>>) -> TypeEntryView {
    TypeEntryView { key: fields[0], info: TypeInfoView { name: fields[1], library: fields[2] } }
}

/// The standard-library entry that a record with two fields spells.
pub open spec fn std_entry_of(fields: Seq<Seq<char>>) -> StdEntryView {
    StdEntryView { key: fields[0], library: fields[1] }
}

/// The outcome of loading a type table from records: one entry per record
/// in order, or the first record that is malformed.
pub open spec fn loads_types(
    path: Seq<char>,
    records: Seq<Option<Seq<Seq<char>>>>,
    res: Result<TypeTable, MappingError>,
) -> bool {
    match res {
        Ok(table) => {
            &&& table@.len() == records.len()
            &&& forall|i: int|
                0 <= i < records.len() ==> !is_malformed(#[trigger] records[i], 3) && table@[i]
                    == type_entry_of(records[i].unwrap())
        },
        Err(error) => exists|i: int|
            {
                &&& 0 <= i < records.len()
                &&& is_malformed(#[trigger] records[i], 3)
                &&& forall|j: int| 0 <= j < i ==> !is_malformed(#[trigger] records[j], 3)
                &&& error@ == MappingErrorView::MalformedRow(path, i + 1)
            },
    }
}

/// As `loads_types`, for the table of standard-library names.
pub open spec fn loads_std_names(
    path: Seq<char>,
    records: Seq<Option<Seq<Seq<char>>>>,
    res: Result<StdTable, MappingError>,
) -> bool {
    match res {
        Ok(table) => {
            &&& table@.len() == records.len()
            &&& forall|i: int|
                0 <= i < records.len() ==> !is_malformed(#[trigger] records[i], 2) && table@[i]
                    == std_entry_of(records[i].unwrap())
        },
        Err(error) => exists|i: int|
            {
                &&& 0 <= i < records.len()
                &&& is_malformed(#[trigger] records[i], 2)
                &&& forall|j: int| 0 <= j < i ==> !is_malformed(#[trigger] records[j], 2)
                &&& error@ == MappingErrorView::MalformedRow(path, i + 1)
            },
    }
}

/// Builds the type table from records of three fields: source name, C++
/// name, header. Fields behind the third are ignored.
pub fn types_from_records(path: &str, records: &Vec<Option<Vec<String>>>) -> (res: Result<
    TypeTable,
    MappingError,
>)
    ensures
        loads_types(path@, records_view(records@), res),
{
    let mut entries: Vec<TypeEntry> = Vec::new();
    let mut i: usize = 0;
    while i < records.len()
        invariant
            i <= records@.len(),
            entries@.len() == i,
            forall|j: int|
                0 <= j < i ==> !is_malformed(#[trigger] records_view(records@)[j], 3) && entries@[j]@
                    == type_entry_of(records_view(records@)[j].unwrap()),
        decreases records@.len() - i,
    {
        match &records[i] {
            Some(fields) => {
                if fields.len() < 3 {
                    assert(is_malformed(records_view(records@)[i as int], 3));
                    return Err(MappingError::MalformedRow(String::from_str(path), i + 1));
                }
                entries.push(
                    TypeEntry {
                        key: fields[0].clone(),
                        info: TypeInfo { name: fields[1].clone(), library: fields[2].clone() },
                    },
                );
            },
            None => {
                assert(is_malformed(records_view(records@)[i as int], 3));
                return Err(MappingError::MalformedRow(String::from_str(path), i + 1));
            },
        }
        i = i + 1;
    }
    Ok(TypeTable { entries })
}

/// Builds the table of standard-library names from records of two fields:
/// qualified name, header. Fields behind the second are ignored.
pub fn std_names_from_records(path: &str, records: &Vec<Option<Vec<String>>>) -> (res: Result<
    StdTable,
    MappingError,
>)
    ensures
        loads_std_names(path@, records_view(records@), res),
{
    let mut entries: Vec<StdEntry> = Vec::new();
    let mut i: usize = 0;
    while i < records.len()
        invariant
            i <= records@.len(),
            entries@.len() == i,
            forall|j: int|
                0 <= j < i ==> !is_malformed(#[trigger] records_view(records@)[j], 2) && entries@[j]@
                    == std_entry_of(records_view(records@)[j].unwrap()),
        decreases records@.len() - i,
    {
        match &records[i] {
            Some(fields) => {
                if fields.len() < 2 {
                    assert(is_malformed(records_view(records@)[i as int], 2));
                    return Err(MappingError::MalformedRow(String::from_str(path), i + 1));
                }
                entries.push(StdEntry { key: fields[0].clone(), library: fields[1].clone() });
            },
            None => {
                assert(is_malformed(records_view(records@)[i as int], 2));
                return Err(MappingError::MalformedRow(String::from_str(path), i + 1));
            },
        }
        i = i + 1;
    }
    Ok(StdTable { entries })
}

/// Loads the type table from the text of its file; `path` names the file in
/// errors.
pub fn init_types(path: &str, text: &[u8]) -> (res: Result<TypeTable, MappingError>)
    ensures
        loads_types(path@, csv_records(text@), res),
{
    let records = read_records(text);
    types_from_records(path, &records)
}

/// Loads the table of standard-library names from the text of its file;
/// `path` names the file in errors.
pub fn init_std_names(path: &str, text: &[u8]) -> (res: Result<StdTable, MappingError>)
    ensures
        loads_std_names(path@, csv_records(text@), res),
{
    let records = read_records(text);
    std_names_from_records(path, &records)
}

} // verus!
