//! Evaluating a document's table against a generator registry.
//!
//! A document's table is transposed into columns, each column is checked
//! to hold one kind of cell throughout — plain text or generator
//! references — and each generator column is resolved into a reusable
//! column generator.

use vstd::prelude::*;

use crate::bindings::{bcontains, bindings_wf, Bindings};
use crate::column::{
    colgen_wf, deps_closed, requested_covered, spec_missing, ColumnGenerator,
};
use crate::deps::name_views;
use crate::doc_ast::{MockagenIdAndMetadata, RowValue};
use crate::errors::MockagenError;
use crate::util::{rectangular, row_views, transpose, TransposeError};

verus! {

/// A column's title.
#[derive(Debug)]
pub struct ColumnHeading(pub String);

/// The cells of one column, all of one kind.
#[derive(Debug)]
pub enum ColumnData {
    Text(Vec<String>),
    MockagenIdAndMetadata(Vec<MockagenIdAndMetadata>),
}

/// One titled column of homogeneous cells.
#[derive(Debug)]
pub struct Column {
    pub heading: String,
    pub data: ColumnData,
}

/// A document-shaped output.
#[derive(Debug)]
pub struct DocumentOutput;

/// A table-shaped output.
#[derive(Debug)]
pub struct TabularOutput;

/// The formats of a table-shaped output.
#[derive(Debug)]
pub struct TabularFormats;

/// Any output shape.
#[derive(Debug)]
pub enum OutputType {
    Tabular(TabularOutput),
    Document(DocumentOutput),
}

/// A document reduced to its evaluated parts.
#[derive(Debug)]
pub struct Document {
    pub title: String,
    pub columns: Vec<Column>,
    pub outputs: Vec<OutputType>,
}

/// The generator definition files a document source imports.
#[derive(Debug)]
pub struct ImportStatement(pub Vec<String>);

/// A whole document source reduced to its evaluated parts.
#[derive(Debug)]
pub struct MockadocFile {
    pub import_statement: ImportStatement,
    pub documents: Vec<Document>,
}

/// A column mixes cells of different kinds.
#[derive(Debug)]
pub enum CollectVariantError {
    InconsistentEnumVariants,
}

/// Why a table could not be packed into columns.
#[derive(Debug)]
pub enum PackingErrorVariant {
    /// A column mixes text cells and generator cells; `row` is the first
    /// row whose cell kind differs from the first row's.
    InconsistentColumnTypes { column_number: usize, row: usize },
    /// The rows could not be transposed.
    InconsistentTableRowWidths(TransposeError),
}

/// Why a document could not be evaluated.
#[derive(Debug)]
pub enum EvaluationError {
    /// The generator registry rejected the request.
    MockagenError(MockagenError),
    /// The table's shape is unusable.
    Packing(PackingErrorVariant),
    /// A text column holds no generator references.
    TextColumnHasNoGenerators,
}

/// Whether a cell is plain text.
pub open spec fn cell_is_text(c: RowValue) -> bool {
    c is Text
}

/// Whether every cell of a column is of the same kind.
pub open spec fn column_homogeneous(cells: Seq<RowValue>) -> bool {
    ||| forall|i: int| 0 <= i < cells.len() ==> cell_is_text(#[trigger] cells[i])
    ||| forall|i: int| 0 <= i < cells.len() ==> !cell_is_text(#[trigger] cells[i])
}

/// Whether packed column data carries exactly the given cells: the text
/// of every text cell, or every generator reference, in row order.
pub open spec fn column_data_matches(data: ColumnData, cells: Seq<RowValue>) -> bool {
    match data {
        ColumnData::Text(ts) => ts@.len() == cells.len()
            && forall|i: int| 0 <= i < cells.len()
                ==> ((#[trigger] cells[i]) matches RowValue::Text(t) && ts@[i]@ == t.0@),
        ColumnData::MockagenIdAndMetadata(items) => items@.len() == cells.len()
            && forall|i: int| 0 <= i < cells.len()
                ==> ((#[trigger] cells[i]) matches RowValue::MockagenIdAndMetadata(m)
                    && items@[i] == m),
    }
}

/// The identifier names of a generator column's cells.
pub open spec fn item_id_views(items: Seq<MockagenIdAndMetadata>) -> Seq<Seq<char>> {
    items.map(|i: int, m: MockagenIdAndMetadata| m.0.0.0@)
}

/// The first row whose cell kind differs from the first row's, if any.
#[verifier::loop_isolation(false)]
fn first_kind_mismatch(cells: &Vec<RowValue>) -> (r: Option<usize>)
    requires
        cells@.len() > 0,
    ensures
        r matches Some(row) ==> 1 <= row < cells@.len()
            && cell_is_text(cells@[row as int]) != cell_is_text(cells@[0]),
        r is None <==> column_homogeneous(cells@),
{
    let first_text = matches!(cells[0], RowValue::Text(_));
    let n = cells.len();
    let mut i: usize = 1;
    while i < n
        invariant
            1 <= i <= n,
            n == cells@.len(),
            first_text == cell_is_text(cells@[0]),
            forall|j: int| 0 <= j < i
                ==> cell_is_text(#[trigger] cells@[j]) == cell_is_text(cells@[0]),
        decreases n - i,
    {
        let this_text = matches!(cells[i], RowValue::Text(_));
        if this_text != first_text {
            return Some(i);
        }
        i = i + 1;
    }
    proof {
        if cell_is_text(cells@[0]) {
            assert(forall|j: int| 0 <= j < n ==> cell_is_text(#[trigger] cells@[j]));
        } else {
            assert(forall|j: int| 0 <= j < n ==> !cell_is_text(#[trigger] cells@[j]));
        }
    }
    None
}

/// Packs one column's cells: all of them must be of the same kind;
/// fails exactly when kinds are mixed.
#[verifier::loop_isolation(false)]
pub fn parse_column(heading: String, cells: Vec<RowValue>) -> (r: Result<Column, CollectVariantError>)
    requires
        cells@.len() > 0,
    ensures
        r is Ok <==> column_homogeneous(cells@),
        r matches Ok(col) ==> col.heading@ == heading@
            && column_data_matches(col.data, cells@),
        r matches Err(e) ==> e is InconsistentEnumVariants,
{
    let ghost orig = cells@;
    let mut rest = cells;
    let n0 = rest.len();
    let first = rest.remove(0);
    match first {
        RowValue::Text(t) => {
            let mut texts: Vec<String> = Vec::new();
            texts.push(t.0);
            let mut i: usize = 1;
            while rest.len() > 0
                invariant
                    i >= 1,
                    n0 == orig.len(),
                    orig.len() == rest@.len() + i,
                    rest@ =~= orig.subrange(i as int, orig.len() as int),
                    texts@.len() == i,
                    forall|k: int| 0 <= k < i
                        ==> ((#[trigger] orig[k]) matches RowValue::Text(t)
                            && texts@[k]@ == t.0@),
                decreases rest@.len(),
            {
                let cell = rest.remove(0);
                match cell {
                    RowValue::Text(t) => {
                        texts.push(t.0);
                    },
                    RowValue::MockagenIdAndMetadata(_) => {
                        proof {
                            assert(!cell_is_text(orig[i as int]));
                            assert(cell_is_text(orig[0]));
                            assert(!column_homogeneous(orig));
                        }
                        return Err(CollectVariantError::InconsistentEnumVariants);
                    },
                }
                i = i + 1;
            }
            Ok(Column { heading, data: ColumnData::Text(texts) })
        },
        RowValue::MockagenIdAndMetadata(m) => {
            let mut items: Vec<MockagenIdAndMetadata> = Vec::new();
            items.push(m);
            let mut i: usize = 1;
            while rest.len() > 0
                invariant
                    i >= 1,
                    n0 == orig.len(),
                    orig.len() == rest@.len() + i,
                    rest@ =~= orig.subrange(i as int, orig.len() as int),
                    items@.len() == i,
                    forall|k: int| 0 <= k < i
                        ==> ((#[trigger] orig[k]) matches RowValue::MockagenIdAndMetadata(m)
                            && items@[k] == m),
                decreases rest@.len(),
            {
                let cell = rest.remove(0);
                match cell {
                    RowValue::MockagenIdAndMetadata(m) => {
                        items.push(m);
                    },
                    RowValue::Text(_) => {
                        proof {
                            assert(cell_is_text(orig[i as int]));
                            assert(!cell_is_text(orig[0]));
                            assert(!column_homogeneous(orig));
                        }
                        return Err(CollectVariantError::InconsistentEnumVariants);
                    },
                }
                i = i + 1;
            }
            Ok(Column { heading, data: ColumnData::MockagenIdAndMetadata(items) })
        },
    }
}

/// The cells of column `j` across all rows.
pub open spec fn table_column(rows: Seq<Vec<RowValue>>, j: int) -> Seq<RowValue> {
    Seq::new(rows.len(), |i: int| rows[i]@[j])
}

/// Turns a table of rows into titled homogeneous columns.  Fails exactly
/// when the table has no rows, its rows differ in width, or a column
/// mixes text cells with generator cells; every surplus heading or
/// column beyond the shorter of the two lists is dropped.
#[verifier::loop_isolation(false)]
pub fn transpose_table(column_headings: Vec<ColumnHeading>, data_rows: Vec<Vec<RowValue>>)
    -> (r: Result<Vec<Column>, PackingErrorVariant>)
    ensures
        r matches Ok(cols) ==> {
            &&& row_views(data_rows@).len() > 0
            &&& rectangular(row_views(data_rows@))
            &&& cols@.len() == vstd::math::min(
                column_headings@.len() as int, data_rows@[0]@.len() as int)
            &&& forall|j: int| 0 <= j < cols@.len()
                ==> column_homogeneous(table_column(data_rows@, j))
            &&& forall|j: int| 0 <= j < cols@.len() ==> {
                &&& (#[trigger] cols@[j]).heading@ == column_headings@[j].0@
                &&& column_data_matches(cols@[j].data, table_column(data_rows@, j))
            }
        },
        r matches Err(e) ==> match e {
            PackingErrorVariant::InconsistentTableRowWidths(_) =>
                data_rows@.len() == 0 || !rectangular(row_views(data_rows@)),
            PackingErrorVariant::InconsistentColumnTypes { column_number, row } =>
                column_number < column_headings@.len()
                    && (!column_homogeneous(table_column(data_rows@, column_number as int))
                        && (row < data_rows@.len()
                            && cell_is_text(table_column(data_rows@, column_number as int)[row as int])
                                != cell_is_text(table_column(data_rows@, column_number as int)[0]))),
        },
{
    let ghost rows0 = data_rows@;
    let cols = match transpose(data_rows) {
        Ok(cols) => cols,
        Err(e) => {
            return Err(PackingErrorVariant::InconsistentTableRowWidths(e));
        },
    };
    let ghost h = rows0.len();
    let n = if column_headings.len() < cols.len() {
        column_headings.len()
    } else {
        cols.len()
    };
    let mut out: Vec<Column> = Vec::new();
    let mut rest_headings = column_headings;
    let mut rest_cols = cols;
    let ghost headings0 = rest_headings@;
    let ghost cols0 = rest_cols@;
    let mut j: usize = 0;
    while j < n
        invariant
            n <= headings0.len(),
            n <= cols0.len(),
            j <= n,
            rows0.len() > 0,
            rectangular(row_views(rows0)),
            rest_headings@ =~= headings0.subrange(j as int, headings0.len() as int),
            rest_cols@ =~= cols0.subrange(j as int, cols0.len() as int),
            forall|c: int| 0 <= c < cols0.len() ==> (#[trigger] cols0[c])@ =~= table_column(rows0, c),
            out@.len() == j,
            forall|c: int| 0 <= c < j ==> column_homogeneous(table_column(rows0, c)),
            forall|c: int| 0 <= c < j ==> {
                &&& (#[trigger] out@[c]).heading@ == headings0[c].0@
                &&& column_data_matches(out@[c].data, table_column(rows0, c))
            },
        decreases n - j,
    {
        let heading = rest_headings.remove(0);
        let col_cells = rest_cols.remove(0);
        proof {
            assert(col_cells@ == cols0[j as int]@);
            assert(cols0[j as int]@ =~= table_column(rows0, j as int));
            assert(table_column(rows0, j as int).len() == rows0.len());
        }
        match first_kind_mismatch(&col_cells) {
            Some(row) => {
                proof {
                    assert(headings0 == column_headings@);
                    assert(!column_homogeneous(table_column(rows0, j as int)));
                }
                return Err(PackingErrorVariant::InconsistentColumnTypes { column_number: j, row });
            },
            None => {},
        }
        match parse_column(heading.0, col_cells) {
            Ok(col) => {
                out.push(col);
            },
            Err(_) => {
                // Unreachable: the column was just checked homogeneous.
                proof {
                    assert(false);
                }
                return Err(PackingErrorVariant::InconsistentColumnTypes { column_number: j, row: 0 });
            },
        }
        j = j + 1;
    }
    Ok(out)
}

/// Resolves one generator column against the registry; a text column
/// holds no generators and is refused.  Every unresolvable identifier of
/// the column is collected into one aggregate error rather than failing
/// fast on the first.
#[verifier::loop_isolation(false)]
pub fn evaluate_column(column: Column, generators: &Bindings)
    -> (r: Result<ColumnGenerator, EvaluationError>)
    requires
        bindings_wf(*generators),
    ensures
        r matches Ok(cg) ==> colgen_wf(cg, *generators),
        column.data is Text ==> (r matches Err(e) && e is TextColumnHasNoGenerators),
        column.data matches ColumnData::MockagenIdAndMetadata(items) ==> {
            &&& (r matches Ok(cg) ==> requested_covered(cg, item_id_views(items@)))
            &&& (r matches Err(e) ==> e matches EvaluationError::MockagenError(me)
                && (me matches MockagenError::EvaluationError(ee)
                    && (ee matches crate::errors::EvaluationError::MissingIdentifiers(mm)
                        && {
                            &&& mm@.len() > 0
                            &&& forall|i: int| 0 <= i < mm@.len()
                                ==> !bcontains(*generators, (#[trigger] mm@[i])@)
                            &&& (deps_closed(*generators) ==> name_views(mm@)
                                == spec_missing(*generators, item_id_views(items@)))
                        })))
            &&& (deps_closed(*generators) ==> (r is Err
                <==> spec_missing(*generators, item_id_views(items@)).len() > 0))
        },
{
    match column.data {
        ColumnData::Text(_) => Err(EvaluationError::TextColumnHasNoGenerators),
        ColumnData::MockagenIdAndMetadata(items) => {
            let mut ids: Vec<String> = Vec::new();
            let n = items.len();
            let mut i: usize = 0;
            while i < n
                invariant
                    n == items@.len(),
                    i <= n,
                    ids@.len() == i,
                    forall|k: int| 0 <= k < i ==> (#[trigger] ids@[k])@ == items@[k].0.0.0@,
                decreases n - i,
            {
                ids.push(items[i].0.0.0.clone());
                i = i + 1;
            }
            proof {
                assert(name_views(ids@) =~= item_id_views(items@));
            }
            match generators.make_column_generator(&ids) {
                Ok(cg) => Ok(cg),
                Err(e) => Err(EvaluationError::MockagenError(
                    MockagenError::EvaluationError(e),
                )),
            }
        },
    }
}

/// Evaluates one document's table against the registry: the table is
/// split into homogeneous columns, and every generator column is
/// resolved into a reusable column generator; text columns carry labels
/// and are passed over.
pub fn evaluate_document(document: crate::doc_ast::Document, generators: &Bindings)
    -> (r: Result<Vec<ColumnGenerator>, EvaluationError>)
    requires
        bindings_wf(*generators),
    ensures
        r matches Ok(cgs) ==> forall|i: int| 0 <= i < cgs@.len()
            ==> colgen_wf(#[trigger] cgs@[i], *generators),
{
    let crate::doc_ast::Document(
        _title,
        crate::doc_ast::Schema(crate::doc_ast::Table(heading, rows)),
        _outputs,
    ) = document;
    let crate::doc_ast::Heading(crate::doc_ast::ColumnNames(names), _) = heading;

    let mut headings: Vec<ColumnHeading> = Vec::new();
    let mut rest_names = names;
    while rest_names.len() > 0
        decreases rest_names@.len(),
    {
        let name = rest_names.remove(0);
        headings.push(ColumnHeading(name.0));
    }

    let mut cells: Vec<Vec<RowValue>> = Vec::new();
    let mut rest_rows = rows;
    while rest_rows.len() > 0
        decreases rest_rows@.len(),
    {
        let crate::doc_ast::Row(row_cells) = rest_rows.remove(0);
        cells.push(row_cells);
    }

    let columns = match transpose_table(headings, cells) {
        Ok(cols) => cols,
        Err(e) => {
            return Err(EvaluationError::Packing(e));
        },
    };

    let mut out: Vec<ColumnGenerator> = Vec::new();
    let mut rest_cols = columns;
    while rest_cols.len() > 0
        invariant
            bindings_wf(*generators),
            forall|i: int| 0 <= i < out@.len()
                ==> colgen_wf(#[trigger] out@[i], *generators),
        decreases rest_cols@.len(),
    {
        let column = rest_cols.remove(0);
        match &column.data {
            ColumnData::Text(_) => {},
            ColumnData::MockagenIdAndMetadata(_) => {
                let cg = match evaluate_column(column, generators) {
                    Ok(cg) => cg,
                    Err(e) => {
                        return Err(e);
                    },
                };
                out.push(cg);
            },
        }
    }
    Ok(out)
}

/// Evaluates every document of a parsed source against the registry;
/// the registry itself is assembled beforehand from the source's
/// imported generator definition files.
pub fn evaluate_mockadoc(documents: crate::doc_ast::Documents, generators: &Bindings)
    -> (r: Result<Vec<Vec<ColumnGenerator>>, EvaluationError>)
    requires
        bindings_wf(*generators),
    ensures
        r matches Ok(all) ==> forall|d: int, i: int|
            0 <= d < all@.len() && 0 <= i < (#[trigger] all@[d])@.len()
            ==> colgen_wf(#[trigger] all@[d]@[i], *generators),
{
    let crate::doc_ast::Documents(docs) = documents;
    let mut out: Vec<Vec<ColumnGenerator>> = Vec::new();
    let mut rest = docs;
    while rest.len() > 0
        invariant
            bindings_wf(*generators),
            forall|d: int, i: int| 0 <= d < out@.len() && 0 <= i < (#[trigger] out@[d])@.len()
                ==> colgen_wf(#[trigger] out@[d]@[i], *generators),
        decreases rest@.len(),
    {
        let document = rest.remove(0);
        let cgs = match evaluate_document(document, generators) {
            Ok(cgs) => cgs,
            Err(e) => {
                return Err(e);
            },
        };
        out.push(cgs);
    }
    Ok(out)
}

} // verus!
