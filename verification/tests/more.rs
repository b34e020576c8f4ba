use cql_core::balancer::Policy;
use cql_core::config::{Authenticator, ClusterConfig, NodeConfig};
use cql_core::error::{Error, FieldFault};
use cql_core::frame::{encode_frame, Frame, Opcode, Version};
use cql_core::mapper::{map_rows, FieldSpec};
use cql_core::query::{encode_query_frame, NamedValue, Query, QueryValues};
use cql_core::record::RowStruct;
use cql_core::response::{encode_probe, is_probe_answer};
use cql_core::rows::{decode_cell, Column, Row};
use cql_core::session::{Action, Session};
use cql_core::value::{encode_cell, ColumnType, Decimal, Value};

#[test]
fn cells_round_trip_with_null() {
    let cells = [
        (ColumnType::Int, None),
        (ColumnType::Decimal, None),
        (ColumnType::Int, Some(Value::Int(0))),
        (ColumnType::Int, Some(Value::Int(-7))),
        (ColumnType::Decimal, Some(Value::Decimal(Decimal::new(0, 0)))),
        (ColumnType::Decimal, Some(Value::Decimal(Decimal::new(1546998816, 0)))),
        (ColumnType::Decimal, Some(Value::Decimal(Decimal::new(i64::MIN, u32::MAX)))),
    ];
    for (ty, v) in cells {
        assert_eq!(decode_cell(ty, &encode_cell(v)), Some(v));
    }
}

#[test]
fn null_cell_is_not_a_zero_value() {
    assert_eq!(decode_cell(ColumnType::Int, &[255, 255, 255, 255]), Some(None));
    assert_eq!(
        decode_cell(ColumnType::Int, &[0, 0, 0, 4, 0, 0, 0, 0]),
        Some(Some(Value::Int(0)))
    );
    assert_eq!(decode_cell(ColumnType::Int, &[255, 255, 255, 254]), Some(None));
}

#[test]
fn cell_with_inconsistent_length_is_rejected() {
    assert_eq!(decode_cell(ColumnType::Int, &[0, 0, 0, 5, 0, 0, 0, 3]), None);
    assert_eq!(decode_cell(ColumnType::Int, &[0, 0, 0, 3, 0, 0, 0, 3]), None);
    assert_eq!(decode_cell(ColumnType::Int, &[0, 0, 0, 4, 0, 0, 0]), None);
    assert_eq!(decode_cell(ColumnType::Int, &[0, 0, 0]), None);
    assert_eq!(decode_cell(ColumnType::Int, &[]), None);
    assert_eq!(decode_cell(ColumnType::Int, &[255, 255, 255, 255, 0]), None);
    assert_eq!(decode_cell(ColumnType::Decimal, &[0, 0, 0, 0]), None);
    assert_eq!(decode_cell(ColumnType::Decimal, &[0, 0, 0, 4, 0, 0, 0, 3]), None);
}

fn row(key: i32, decimal: Option<Decimal>) -> Row {
    Row::new(
        vec![
            Column { name: b"key".to_vec(), type_id: 9 },
            Column { name: b"decimal".to_vec(), type_id: 6 },
        ],
        vec![
            Some(key.to_be_bytes().to_vec()),
            decimal.map(|d| cql_core::value::encode_value(Value::Decimal(d))),
        ],
    )
    .unwrap()
}

#[test]
fn every_row_gives_one_record() {
    let rows = vec![row(1, None), row(2, Some(Decimal::new(5, 1))), row(3, None)];
    assert_eq!(
        map_rows(&RowStruct::schema(), &rows),
        Ok(vec![
            vec![Some(Value::Int(1)), None],
            vec![Some(Value::Int(2)), Some(Value::Decimal(Decimal::new(5, 1)))],
            vec![Some(Value::Int(3)), None],
        ])
    );
    assert_eq!(map_rows(&RowStruct::schema(), &vec![]), Ok(vec![]));
}

#[test]
fn mapping_rows_fails_at_the_first_bad_row() {
    let bad = Row::new(vec![Column { name: b"key".to_vec(), type_id: 9 }], vec![None]).unwrap();
    let rows = vec![row(1, None), bad, row(3, None)];
    assert_eq!(
        map_rows(&RowStruct::schema(), &rows),
        Err(Error::FieldDecodeError {
            column: "key".to_string(),
            fault: FieldFault::UnexpectedNull
        })
    );
    let schema = vec![FieldSpec { name: "k".to_string(), ty: ColumnType::Int, nullable: true }];
    assert_eq!(
        map_rows(&schema, &vec![row(1, None)]),
        Err(Error::FieldDecodeError { column: "k".to_string(), fault: FieldFault::MissingColumn })
    );
}

#[test]
fn query_starts_a_request_for_the_text() {
    let mut s = Session::new(Policy::RoundRobin, 1, 1, 0);
    let (req, action) = s.query("SELECT 1");
    assert_eq!(action, Action::Open { node: 0, conn: 0 });
    assert_eq!(req.bytes(), &encode_query_frame(&Query::new("SELECT 1"), 0).unwrap()[..]);
}

#[test]
fn query_with_values_binds_them() {
    let mut s = Session::new(Policy::RoundRobin, 1, 1, 0);
    let values = QueryValues::Named(vec![NamedValue {
        name: "key".to_string(),
        value: Some(Value::Int(3)),
    }]);
    let (req, action) = s.query_with_values("INSERT", values.clone());
    assert_eq!(action, Action::Open { node: 0, conn: 0 });
    assert_eq!(
        req.bytes(),
        &encode_query_frame(&Query::with_values("INSERT", values), 0).unwrap()[..]
    );
}

#[test]
fn probe_is_an_options_request() {
    assert_eq!(encode_probe(0x0102), vec![0x04, 0, 1, 2, 5, 0, 0, 0, 0]);
}

#[test]
fn only_a_supported_frame_of_the_stream_answers_a_probe() {
    let answer = |version, stream, opcode, body: Vec<u8>| {
        encode_frame(&Frame { version, flags: 0, stream, opcode, body }).unwrap()
    };
    assert!(is_probe_answer(&answer(Version::Response, 3, Opcode::Supported, vec![0, 0]), 3));
    assert!(!is_probe_answer(&answer(Version::Response, 4, Opcode::Supported, vec![0, 0]), 3));
    assert!(!is_probe_answer(&answer(Version::Request, 3, Opcode::Supported, vec![0, 0]), 3));
    assert!(!is_probe_answer(&answer(Version::Response, 3, Opcode::Ready, vec![]), 3));
    assert!(!is_probe_answer(&[0x84, 0, 0, 3, 6, 0, 0, 0, 1], 3));
    assert!(!is_probe_answer(&[], 3));
}

#[test]
fn cluster_config_keeps_its_nodes() {
    let a = NodeConfig::new("127.0.0.1:9042", Authenticator::NoneAuthenticator);
    let b = NodeConfig::new(
        "10.0.0.2:9042",
        Authenticator::Password { username: "u".to_string(), password: "p".to_string() },
    );
    let config = ClusterConfig::new(vec![a.clone(), b.clone()]);
    assert_eq!(config.len(), 2);
    assert_eq!(config.node(0), Some(&a));
    assert_eq!(config.node(1), Some(&b));
    assert_eq!(config.node(2), None);
    assert_eq!(a.address(), "127.0.0.1:9042");
    assert_eq!(a.authenticator(), &Authenticator::NoneAuthenticator);
    assert_eq!(
        b.authenticator(),
        &Authenticator::Password { username: "u".to_string(), password: "p".to_string() }
    );
}

#[test]
fn session_of_a_cluster_has_one_pool_per_node() {
    let nodes = vec![
        NodeConfig::new("a:1", Authenticator::NoneAuthenticator),
        NodeConfig::new("b:1", Authenticator::NoneAuthenticator),
        NodeConfig::new("c:1", Authenticator::NoneAuthenticator),
    ];
    let mut s = ClusterConfig::new(nodes).session(Policy::RoundRobin, 1, 0);
    assert_eq!(s, Session::new(Policy::RoundRobin, 3, 1, 0));
    assert_eq!(s.nodes(), 3);
    let picked: Vec<Action> = (0..3).map(|_| s.query("X").1).collect();
    assert_eq!(
        picked,
        vec![
            Action::Open { node: 1, conn: 0 },
            Action::Open { node: 2, conn: 0 },
            Action::Open { node: 0, conn: 0 },
        ]
    );
    assert_eq!(s.query("X").1, Action::Done(Err(Error::PoolExhausted)));
}
