//! The typed document tree that the table evaluator consumes.
//!
//! A document names its columns, fills a table of cells — each cell
//! either plain text or a generator identifier with optional metadata —
//! and declares the output shapes to render.  A surrounding program's
//! parser produces values of these types.

use vstd::prelude::*;

verus! {

/// Marks a column's values as personal data.
#[derive(Debug)]
pub struct Personal;

/// Marks a column as the primary timestamp.
#[derive(Debug)]
pub struct PrimaryTimestamp;

/// Both metadata marks together.
#[derive(Debug)]
pub struct PrimaryTimestampAndPersonal(pub PrimaryTimestamp, pub Personal);

/// The metadata marks a generator cell can carry.
#[derive(Debug)]
pub enum MetadataProperties {
    PrimaryTimestampAndPersonal(PrimaryTimestampAndPersonal),
    PrimaryTimestamp(PrimaryTimestamp),
    Personal(Personal),
}

/// The name of a generator identifier.
#[derive(Debug)]
pub struct MockagenId(pub String);

/// A reference to a generator identifier.
#[derive(Debug)]
pub struct MockagenIdentifier(pub MockagenId);

/// A generator reference with its optional metadata marks.
#[derive(Debug)]
pub struct MockagenIdAndMetadata(pub MockagenIdentifier, pub Option<MetadataProperties>);

/// Plain cell text.
#[derive(Debug)]
pub struct Text(pub String);

/// One table cell: a generator reference or plain text.
#[derive(Debug)]
pub enum RowValue {
    MockagenIdAndMetadata(MockagenIdAndMetadata),
    Text(Text),
}

/// An indented line of text in an output declaration.
#[derive(Debug)]
pub struct IndentedX4Text(pub Text);

/// The members a document output lists.
#[derive(Debug)]
pub struct DocumentMembers(pub Vec<IndentedX4Text>);

/// The JSON document format.
#[derive(Debug)]
pub struct Json;

/// A document output format.
#[derive(Debug)]
pub enum DocumentFormat {
    Json(Json),
}

/// An indented document format line.
#[derive(Debug)]
pub struct DocumentFormatIndented(pub DocumentFormat);

/// The formats a document output declares.
#[derive(Debug)]
pub struct DocumentFormats(pub Vec<DocumentFormatIndented>);

/// A document-shaped output declaration.
#[derive(Debug)]
pub struct OutputDocument(pub DocumentFormats, pub DocumentMembers);

/// The row values a tabular output lists.
#[derive(Debug)]
pub struct TabularRowValues(pub Vec<IndentedX4Text>);

/// The column names a tabular output lists.
#[derive(Debug)]
pub struct TabularColumnNames(pub Vec<IndentedX4Text>);

/// The comma-separated tabular format.
#[derive(Debug)]
pub struct Csv;

/// The tab-separated tabular format.
#[derive(Debug)]
pub struct Tsv;

/// A tabular output format.
#[derive(Debug)]
pub enum OutputTabularFormatType {
    Csv(Csv),
    Tsv(Tsv),
}

/// An indented tabular format line.
#[derive(Debug)]
pub struct TabularFormatTypeIndented(pub OutputTabularFormatType);

/// The formats a tabular output declares.
#[derive(Debug)]
pub struct TabularFormats(pub Vec<TabularFormatTypeIndented>);

/// A table-shaped output declaration.
#[derive(Debug)]
pub struct OutputTabular(pub TabularFormats, pub TabularColumnNames, pub TabularRowValues);

/// Any output declaration.
#[derive(Debug)]
pub enum OutputType {
    Tabular(OutputTabular),
    Document(OutputDocument),
}

/// The output declarations of one document.
#[derive(Debug)]
pub struct Outputs(pub Vec<OutputType>);

/// One table row of cells.
#[derive(Debug)]
pub struct Row(pub Vec<RowValue>);

/// The column names of a table.
#[derive(Debug)]
pub struct ColumnNames(pub Vec<Text>);

/// The divider under one column name.
#[derive(Debug)]
pub struct ColumnDivider;

/// The divider line under the column names.
#[derive(Debug)]
pub struct TableDivider(pub Vec<ColumnDivider>);

/// The head of a table: its column names and the divider line.
#[derive(Debug)]
pub struct Heading(pub ColumnNames, pub TableDivider);

/// A whole table: its head and its rows.
#[derive(Debug)]
pub struct Table(pub Heading, pub Vec<Row>);

/// A document's table.
#[derive(Debug)]
pub struct Schema(pub Table);

/// A document's title.
#[derive(Debug)]
pub struct Title(pub Text);

/// One document: title, table and output declarations.
#[derive(Debug)]
pub struct Document(pub Title, pub Schema, pub Outputs);

/// The documents of one source file.
#[derive(Debug)]
pub struct Documents(pub Vec<Document>);

/// The characters of an import path.
#[derive(Debug)]
pub struct PathChars(pub String);

/// The path of an imported generator definition file.
#[derive(Debug)]
pub struct Path(pub PathChars);

/// The imports at the head of a source file.
#[derive(Debug)]
pub struct ImportStatement(pub Vec<Path>);

/// A source file's optional leading properties block.
#[derive(Debug)]
pub struct Properties;

/// End of input.
#[derive(Debug)]
pub struct EOI;

/// A whole parsed document source file.
#[derive(Debug)]
pub struct Body(pub Option<Properties>, pub ImportStatement, pub Documents, pub EOI);

} // verus!
