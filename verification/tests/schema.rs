use spacetime_client_sdk::errors::DecodeError;
use spacetime_client_sdk::messages::TypeValue;
use spacetime_client_sdk::schema::{type_row, ColumnType, ElementDef, StmtResultJson, TupleDef};

#[test]
fn a_row_takes_the_types_of_its_columns() {
    let row = vec![
        TypeValue::I8(0),
        TypeValue::I8(5),
        TypeValue::I16(300),
        TypeValue::String("x".to_string()),
        TypeValue::Bool(true),
        TypeValue::Bytes(vec![1]),
        TypeValue::U8(200),
    ];
    let columns = vec![
        ColumnType::U64,
        ColumnType::U8,
        ColumnType::U32,
        ColumnType::String,
        ColumnType::Bool,
        ColumnType::Bytes,
        ColumnType::I64,
    ];
    assert_eq!(
        type_row(&row, &columns),
        Ok(vec![
            TypeValue::U64(0),
            TypeValue::U8(5),
            TypeValue::U32(300),
            TypeValue::String("x".to_string()),
            TypeValue::Bool(true),
            TypeValue::Bytes(vec![1]),
            TypeValue::I64(200),
        ])
    );
}

#[test]
fn a_value_that_does_not_fit_its_column_is_a_mismatch() {
    assert_eq!(
        type_row(&vec![TypeValue::I16(300)], &vec![ColumnType::U8]),
        Err(DecodeError::TypeMismatch)
    );
    assert_eq!(
        type_row(&vec![TypeValue::I8(-1)], &vec![ColumnType::U64]),
        Err(DecodeError::TypeMismatch)
    );
    assert_eq!(
        type_row(&vec![TypeValue::U8(128)], &vec![ColumnType::I8]),
        Err(DecodeError::TypeMismatch)
    );
    assert_eq!(
        type_row(&vec![TypeValue::I8(1)], &vec![ColumnType::Bool]),
        Err(DecodeError::TypeMismatch)
    );
    assert_eq!(
        type_row(&vec![TypeValue::Bool(true)], &vec![ColumnType::I8]),
        Err(DecodeError::TypeMismatch)
    );
    assert_eq!(
        type_row(&vec![TypeValue::String("1".to_string())], &vec![ColumnType::Bytes]),
        Err(DecodeError::TypeMismatch)
    );
    assert_eq!(
        type_row(
            &vec![TypeValue::I8(1), TypeValue::Bool(true), TypeValue::I16(999)],
            &vec![ColumnType::I8, ColumnType::String, ColumnType::U8]
        ),
        Err(DecodeError::TypeMismatch)
    );
}

#[test]
fn a_row_must_have_one_value_for_each_column() {
    assert_eq!(
        type_row(&vec![TypeValue::I8(1)], &vec![]),
        Err(DecodeError::ColumnCount)
    );
    assert_eq!(
        type_row(&vec![], &vec![ColumnType::I8]),
        Err(DecodeError::ColumnCount)
    );
    assert_eq!(type_row(&vec![], &vec![]), Ok(vec![]));
}

#[test]
fn values_know_their_column_type() {
    assert_eq!(TypeValue::U32(1).column_type(), ColumnType::U32);
    assert_eq!(TypeValue::Bytes(vec![]).column_type(), ColumnType::Bytes);
    assert_eq!(TypeValue::I64(-1).typed(ColumnType::I8), Ok(TypeValue::I8(-1)));
    assert_eq!(
        TypeValue::U64(u64::MAX).typed(ColumnType::I64),
        Err(DecodeError::TypeMismatch)
    );
    assert_eq!(
        TypeValue::U64(u64::MAX).typed(ColumnType::U64),
        Ok(TypeValue::U64(u64::MAX))
    );
}

#[test]
fn the_rows_of_a_result_take_the_types_of_its_columns() {
    let schema = TupleDef {
        elements: vec![
            ElementDef { name: Some("entity_id".to_string()), element_type: ColumnType::U64 },
            ElementDef { name: None, element_type: ColumnType::U8 },
        ],
    };
    assert_eq!(schema.column_types(), vec![ColumnType::U64, ColumnType::U8]);
    let result = StmtResultJson {
        schema: schema.clone(),
        rows: vec![
            vec![TypeValue::I8(0), TypeValue::I8(5)],
            vec![TypeValue::I16(300), TypeValue::U8(200)],
        ],
    };
    assert_eq!(
        result.typed_rows(),
        Ok(vec![
            vec![TypeValue::U64(0), TypeValue::U8(5)],
            vec![TypeValue::U64(300), TypeValue::U8(200)],
        ])
    );
    let short = StmtResultJson {
        schema: schema.clone(),
        rows: vec![vec![TypeValue::I8(0), TypeValue::I8(5)], vec![TypeValue::I8(0)]],
    };
    assert_eq!(short.typed_rows(), Err(DecodeError::ColumnCount));
    let wide = StmtResultJson {
        schema,
        rows: vec![vec![TypeValue::I8(0), TypeValue::I16(256)]],
    };
    assert_eq!(wide.typed_rows(), Err(DecodeError::TypeMismatch));
}
