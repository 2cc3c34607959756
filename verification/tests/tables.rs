//! Tables: transposition and column packing.

use mockagen::ast;
use mockagen::doc::{parse_column, transpose_table, Column, ColumnData, ColumnHeading, PackingErrorVariant};
use mockagen::doc_ast::{
    Body, ColumnNames, Document, Documents, Heading, MockagenId, MockagenIdAndMetadata,
    MockagenIdentifier, Outputs, Row, RowValue, Schema, Table, TableDivider, Text, Title,
};
use mockagen::{evaluate_mockagen, transpose, TransposeError};

#[test]
fn test_transpose() {
    let input = vec![
        vec!['Y', ' ', 'e', 't'],
        vec!['o', 's', ' ', '!'],
        vec!['u', 'e', 'i', '!'],
    ];

    let transposed = transpose(input).unwrap();

    assert_eq!(transposed[0], vec!['Y', 'o', 'u']);
    assert_eq!(transposed[1], vec![' ', 's', 'e']);
    assert_eq!(transposed[2], vec!['e', ' ', 'i']);
    assert_eq!(transposed[3], vec!['t', '!', '!']);
}

#[test]
fn test_transpose_empty() {
    let input: Vec<Vec<char>> = vec![];
    assert!(matches!(transpose(input), Err(TransposeError::EmptyInputCollection)));
}

#[test]
fn test_transpose_jagged() {
    let input = vec![vec![1, 2], vec![3, 4, 5]];
    match transpose(input) {
        Err(TransposeError::JaggedColumns(widths)) => {
            assert_eq!(widths, vec![2, 3]);
        }
        _ => panic!("expected jagged columns"),
    }
}

#[test]
fn test_collect_variant() {
    let vals = vec![
        RowValue::Text(Text("Soem text".into())),
        RowValue::Text(Text("Other text".into())),
        RowValue::Text(Text("Final text".into())),
    ];

    let column = parse_column("Notes".to_string(), vals).unwrap();

    assert_eq!(column.heading, "Notes");
    match column.data {
        ColumnData::Text(texts) => {
            assert_eq!(texts, vec!["Soem text", "Other text", "Final text"]);
        }
        ColumnData::MockagenIdAndMetadata(_) => panic!("expected a text column"),
    }
}

#[test]
fn test_parse_column_mixed_kinds() {
    let vals = vec![
        RowValue::Text(Text("label".into())),
        RowValue::MockagenIdAndMetadata(MockagenIdAndMetadata(
            MockagenIdentifier(MockagenId("age".into())),
            None,
        )),
    ];
    assert!(parse_column("Mixed".to_string(), vals).is_err());
}

#[test]
fn test_transpose_table_mixed_column() {
    let headings = vec![ColumnHeading("A".into())];
    let rows = vec![
        vec![RowValue::Text(Text("one".into()))],
        vec![RowValue::MockagenIdAndMetadata(MockagenIdAndMetadata(
            MockagenIdentifier(MockagenId("age".into())),
            None,
        ))],
    ];
    match transpose_table(headings, rows) {
        Err(PackingErrorVariant::InconsistentColumnTypes { column_number, row }) => {
            assert_eq!(column_number, 0);
            assert_eq!(row, 1);
        }
        _ => panic!("expected an inconsistent column"),
    }
}

#[test]
fn test_transpose_table_columns() {
    let headings = vec![ColumnHeading("L".into()), ColumnHeading("G".into())];
    let rows = vec![
        vec![
            RowValue::Text(Text("r1".into())),
            RowValue::MockagenIdAndMetadata(MockagenIdAndMetadata(
                MockagenIdentifier(MockagenId("age".into())),
                None,
            )),
        ],
        vec![
            RowValue::Text(Text("r2".into())),
            RowValue::MockagenIdAndMetadata(MockagenIdAndMetadata(
                MockagenIdentifier(MockagenId("name".into())),
                None,
            )),
        ],
    ];
    let cols: Vec<Column> = transpose_table(headings, rows).unwrap();
    assert_eq!(cols.len(), 2);
    assert_eq!(cols[0].heading, "L");
    assert!(matches!(cols[0].data, ColumnData::Text(_)));
    match &cols[1].data {
        ColumnData::MockagenIdAndMetadata(items) => {
            assert_eq!(items.len(), 2);
            assert_eq!(items[0].0 .0 .0, "age");
            assert_eq!(items[1].0 .0 .0, "name");
        }
        _ => panic!("expected a generator column"),
    }
}

#[test]
fn test_evaluate_document_rows() {
    // One definition: a literal city name.
    let defs = vec![ast::Definition::Single(ast::SingleDefinition::SingleVal(
        ast::SingleValDef(
            ast::Identifier("city".into()),
            ast::Value::Primitive(ast::PrimitiveValue::Literal(ast::LiteralValue(
                ast::StringLiteral(ast::StringContent("Leeds".into())),
            ))),
        ),
    ))];
    let bindings = evaluate_mockagen(ast::Body(None, defs, ast::EOI)).unwrap();

    let document = Document(
        Title(Text("Places".into())),
        Schema(Table(
            Heading(
                ColumnNames(vec![Text("Label".into()), Text("City".into())]),
                TableDivider(vec![]),
            ),
            vec![Row(vec![
                RowValue::Text(Text("row one".into())),
                RowValue::MockagenIdAndMetadata(MockagenIdAndMetadata(
                    MockagenIdentifier(MockagenId("city".into())),
                    None,
                )),
            ])],
        )),
        Outputs(vec![]),
    );

    let col_gens = mockagen::doc::evaluate_document(document, &bindings).unwrap();
    assert_eq!(col_gens.len(), 1);
    let row = bindings.generate_row(&col_gens[0]).unwrap();
    assert_eq!(row.len(), 1);
    assert_eq!(row[0].to_display_string(), "Leeds");
    // The body type for a whole document file is available for callers
    // that resolve imports before evaluation.
    let _ = Body(
        None,
        mockagen::doc_ast::ImportStatement(vec![]),
        Documents(vec![]),
        mockagen::doc_ast::EOI,
    );
}
