use raio::framing::Chunk;
use raio::error::UnpackError;
use raio::framing::{
    chunk_size, frame, frame_chunks, read_message, unframe_message, write_message, Message, MessageReadError,
};
use raio::packstream::pack;
use raio::request::{
    Amount, Begin, CommitMode, CommitPrepare, Commit, Discard, GoodBye, Hello, Pull, Qid, Query,
    Reset, RollBack, Run, RunInTx,
};
use raio::response::{Bookmark, Response};
use raio::value::Value;
use raio::version::{
    check_server_version, default_versions, handshake_request, Version, VersionHandshake,
    MAGIC_NUMBER,
};

fn text(s: &str) -> Value {
    Value::String(String::from(s))
}

fn entry(k: &str, v: Value) -> (String, Value) {
    (String::from(k), v)
}

#[test]
fn chunking_ten_bytes_by_three() {
    let payload: Vec<u8> = (1..=10).collect();
    let framed = frame(&payload, 3);
    assert_eq!(
        framed,
        vec![
            0x00, 0x03, 1, 2, 3, 0x00, 0x03, 4, 5, 6, 0x00, 0x03, 7, 8, 9, 0x00, 0x01, 10, 0x00,
            0x00
        ]
    );
    let (back, used) = unframe_message(&framed).unwrap();
    assert_eq!(back, payload);
    assert_eq!(used, framed.len());
}

#[test]
fn framing_round_trip_any_capacity() {
    let payload: Vec<u8> = (0..200u32).map(|i| (i * 7 % 256) as u8).collect();
    for cap in [1u16, 2, 15, 199, 200, 201, 1400, 65535] {
        let mut framed = frame(&payload, cap);
        framed.extend_from_slice(&[0xAB, 0xCD]);
        let (back, used) = unframe_message(&framed).unwrap();
        assert_eq!(back, payload);
        assert_eq!(used, framed.len() - 2);
    }
}

#[test]
fn framing_errors() {
    assert_eq!(unframe_message(&[0x00, 0x00]), Err(MessageReadError::EmptyChunk));
    assert_eq!(unframe_message(&[0x00]), Err(MessageReadError::TruncatedInput));
    assert_eq!(unframe_message(&[0x00, 0x02, 0x01]), Err(MessageReadError::TruncatedInput));
    assert_eq!(unframe_message(&[0x00, 0x01, 0x01]), Err(MessageReadError::TruncatedInput));
    assert_eq!(frame(&[], 5), vec![0x00, 0x00]);
    assert_eq!(chunk_size([0x05, 0x78]), 1400);
}

#[test]
fn message_write_pack_unpack() {
    let mut message = Message::new_alloc(2, 5);
    message.write(&[1, 2, 3, 4, 5, 6, 7, 8, 9, 10, 11]);
    let packed = message.pack();
    assert_eq!(
        packed,
        vec![0, 5, 1, 2, 3, 4, 5, 0, 5, 6, 7, 8, 9, 10, 0, 1, 11, 0, 0]
    );
    let (back, used) = Message::unpack(&packed).unwrap();
    assert_eq!(used, packed.len());
    assert_eq!(back.contents_bytes(), &vec![1, 2, 3, 4, 5, 6, 7, 8, 9, 10, 11]);
    assert_eq!(back.pack(), packed);
}

#[test]
fn node_chunked_at_fifteen() {
    let node = Value::Structure(
        0x4E,
        vec![
            Value::Integer(0),
            Value::List(vec![text("Person")]),
            Value::Dictionary(vec![entry("name", text("Jane Doe"))]),
        ],
    );
    let wire = write_message(&node, 15).unwrap();
    assert_eq!(
        wire,
        vec![
            0x00, 0x0F, 0xB3, 0x4E, 0x00, 0x91, 0x86, 0x50, 0x65, 0x72, 0x73, 0x6F, 0x6E, 0xA1,
            0x84, 0x6E, 0x61, 0x00, 0x0B, 0x6D, 0x65, 0x88, 0x4A, 0x61, 0x6E, 0x65, 0x20, 0x44,
            0x6F, 0x65, 0x00, 0x00
        ]
    );
    let (back, _) = read_message(&wire).unwrap();
    assert_eq!(back, node);
}

#[test]
fn read_message_reports_unpack_errors() {
    assert_eq!(
        read_message(&[0x00, 0x01, 0xC4, 0x00, 0x00]),
        Err(MessageReadError::UnpackError(UnpackError::MalformedMarker(0xC4)))
    );
}

#[test]
fn version_encoding() {
    assert_eq!(Version::new(4, 1).encode(), [0, 0, 1, 4]);
    assert_eq!(Version::decode(&[0, 0, 0, 3]), Version::new(3, 0));
    let v = Version::new(3, 5);
    assert_eq!(Version::decode(&v.encode()), v);
    assert!(Version::empty().is_empty());
    assert!(!Version::new(4, 0).is_empty());
}

#[test]
fn handshake_bytes() {
    let bytes = handshake_request(&default_versions());
    assert_eq!(
        bytes,
        vec![0x60, 0x60, 0xB0, 0x17, 0, 0, 1, 4, 0, 0, 0, 4, 0, 0, 0, 0, 0, 0, 0, 0]
    );
    assert_eq!(MAGIC_NUMBER, [0x60, 0x60, 0xB0, 0x17]);
    assert_eq!(
        VersionHandshake::just_version(3).to_bytes(),
        vec![0, 0, 0, 3, 0, 0, 0, 0, 0, 0, 0, 0, 0, 0, 0, 0]
    );
    assert_eq!(VersionHandshake::empty().to_bytes(), vec![0; 16]);
    assert_eq!(check_server_version(&[0, 0, 0, 3], 3), Ok(3));
    assert_eq!(check_server_version(&[0, 0, 1, 4], 3), Err(0x104));
}

#[test]
fn record_response_hex() {
    let response_bytes: Vec<u8> = vec![0xb1, 0x71, 0x91, 0x01];
    let response = Response::unpack(&response_bytes).expect("Cannot unpack from response bytes.");
    match response {
        Response::Record(r) => assert_eq!(r.data, vec![Value::Integer(1)]),
        other => panic!("expected a record, got {:?}", other),
    }
}

#[test]
fn success_response_hex() {
    let response_bytes: Vec<u8> = vec![
        0xB1, 0x70, 0xA2, 0x86, 0x66, 0x69, 0x65, 0x6C, 0x64, 0x73, 0x91, 0x83, 0x6E, 0x75, 0x6D,
        0xD0, 0x16, 0x72, 0x65, 0x73, 0x75, 0x6C, 0x74, 0x5F, 0x61, 0x76, 0x61, 0x69, 0x6C, 0x61,
        0x62, 0x6C, 0x65, 0x5F, 0x61, 0x66, 0x74, 0x65, 0x72, 0x0C,
    ];
    let response = Response::unpack(&response_bytes).expect("Cannot unpack from response bytes.");
    match response {
        Response::Success(s) => {
            assert_eq!(
                s.metadata,
                vec![
                    entry("fields", Value::List(vec![text("num")])),
                    entry("result_available_after", Value::Integer(12)),
                ]
            );
            assert_eq!(s.fields(), Some(vec![String::from("num")]));
            assert!(!s.has_more());
        }
        other => panic!("expected a success, got {:?}", other),
    }
}

#[test]
fn ignored_response_hex() {
    let response_bytes: Vec<u8> = vec![0xb0, 0x7e];
    let response = Response::unpack(&response_bytes).expect("Cannot unpack from response bytes.");
    assert_eq!(response, Response::Ignored);
}

#[test]
fn failure_response_hex() {
    let response_bytes: Vec<u8> = vec![
        0xB1, 0x7F, 0xA2, 0x84, 0x63, 0x6F, 0x64, 0x65, 0xD0, 0x25, 0x4E, 0x65, 0x6F, 0x2E, 0x43,
        0x6C, 0x69, 0x65, 0x6E, 0x74, 0x45, 0x72, 0x72, 0x6F, 0x72, 0x2E, 0x53, 0x74, 0x61, 0x74,
        0x65, 0x6D, 0x65, 0x6E, 0x74, 0x2E, 0x53, 0x79, 0x6E, 0x74, 0x61, 0x78, 0x45, 0x72, 0x72,
        0x6F, 0x72, 0x87, 0x6D, 0x65, 0x73, 0x73, 0x61, 0x67, 0x65, 0xD0, 0x65, 0x49, 0x6E, 0x76,
        0x61, 0x6C, 0x69, 0x64, 0x20, 0x69, 0x6E, 0x70, 0x75, 0x74, 0x20, 0x27, 0x54, 0x27, 0x3A,
        0x20, 0x65, 0x78, 0x70, 0x65, 0x63, 0x74, 0x65, 0x64, 0x20, 0x3C, 0x69, 0x6E, 0x69, 0x74,
        0x3E, 0x20, 0x28, 0x6C, 0x69, 0x6E, 0x65, 0x20, 0x31, 0x2C, 0x20, 0x63, 0x6F, 0x6C, 0x75,
        0x6D, 0x6E, 0x20, 0x31, 0x20, 0x28, 0x6F, 0x66, 0x66, 0x73, 0x65, 0x74, 0x3A, 0x20, 0x30,
        0x29, 0x29, 0x0A, 0x22, 0x54, 0x68, 0x69, 0x73, 0x20, 0x77, 0x69, 0x6C, 0x6C, 0x20, 0x63,
        0x61, 0x75, 0x73, 0x65, 0x20, 0x61, 0x20, 0x73, 0x79, 0x6E, 0x74, 0x61, 0x78, 0x20, 0x65,
        0x72, 0x72, 0x6F, 0x72, 0x22, 0x0A, 0x20, 0x5E,
    ];
    let response = Response::unpack(&response_bytes).expect("Cannot unpack from response bytes.");
    match response {
        Response::Failure(f) => {
            assert_eq!(f.code(), "Neo.ClientError.Statement.SyntaxError");
            assert_eq!(
                f.message(),
                "Invalid input 'T': expected <init> (line 1, column 1 (offset: 0))\n\"This will cause a syntax error\"\n ^"
            );
        }
        other => panic!("expected a failure, got {:?}", other),
    }
}

#[test]
fn response_shape_errors() {
    assert_eq!(Response::unpack(&[0xB0, 0x55]), Err(UnpackError::UnexpectedTag(0x55)));
    assert_eq!(Response::unpack(&[0xB1, 0x70, 0x01]), Err(UnpackError::UnexpectedFields));
    assert_eq!(Response::unpack(&[0xB1, 0x7E, 0x01]), Err(UnpackError::UnexpectedFields));
    assert_eq!(Response::unpack(&[0x01]), Err(UnpackError::NotAStructure));
    assert!(Response::Ignored.is_success() == false);
}

#[test]
fn init_message_hex() {
    let init_struct = Value::Structure(
        0x01,
        vec![
            text("MyClient/1.0"),
            Value::Dictionary(vec![
                entry("credentials", text("secret")),
                entry("scheme", text("basic")),
                entry("principal", text("neo4j")),
            ]),
        ],
    );
    let data = write_message(&init_struct, 0xFFFF).expect("Cannot write to buffer.");
    let control_bytes: Vec<u8> = vec![
        0x00, 0x40, 0xB2, 0x01, 0x8C, 0x4D, 0x79, 0x43, 0x6C, 0x69, 0x65, 0x6E, 0x74, 0x2F, 0x31,
        0x2E, 0x30, 0xA3, 0x8B, 0x63, 0x72, 0x65, 0x64, 0x65, 0x6E, 0x74, 0x69, 0x61, 0x6C, 0x73,
        0x86, 0x73, 0x65, 0x63, 0x72, 0x65, 0x74, 0x86, 0x73, 0x63, 0x68, 0x65, 0x6D, 0x65, 0x85,
        0x62, 0x61, 0x73, 0x69, 0x63, 0x89, 0x70, 0x72, 0x69, 0x6E, 0x63, 0x69, 0x70, 0x61, 0x6C,
        0x85, 0x6E, 0x65, 0x6F, 0x34, 0x6A, 0x00, 0x00,
    ];
    assert_eq!(data, control_bytes);
    let (control_init, _) =
        read_message(&control_bytes).expect("Cannot unpack init from control bytes");
    assert_eq!(init_struct, control_init);
}

#[test]
fn run_simple_message_hex() {
    let run_struct = RunInTx::new(String::from("RETURN 1 AS num"), vec![]).to_value();
    let data = write_message(&run_struct, 0xFFFF).expect("Cannot write to buffer.");
    let control_bytes: Vec<u8> = vec![
        0x00, 0x14, 0xb3, 0x10, 0x8f, 0x52, 0x45, 0x54, 0x55, 0x52, 0x4e, 0x20, 0x31, 0x20, 0x41,
        0x53, 0x20, 0x6e, 0x75, 0x6d, 0xa0, 0xa0, 0x00, 0x00,
    ];
    assert_eq!(format!("{:x?}", data), format!("{:x?}", control_bytes));
    let (run_control, _) =
        read_message(&control_bytes).expect("Cannot unpack init from control bytes");
    assert_eq!(run_struct, run_control);
}

#[test]
fn run_message_hex() {
    let run_struct = RunInTx::new(String::from("MATCH (n: Tag) RETURN n"), vec![]).to_value();
    let data = write_message(&run_struct, 0xFFFF).expect("Cannot write to buffer.");
    let control_bytes: Vec<u8> = vec![
        0x00, 0x1d, 0xb3, 0x10, 0xd0, 0x17, 0x4d, 0x41, 0x54, 0x43, 0x48, 0x20, 0x28, 0x6e, 0x3a,
        0x20, 0x54, 0x61, 0x67, 0x29, 0x20, 0x52, 0x45, 0x54, 0x55, 0x52, 0x4e, 0x20, 0x6e, 0xa0,
        0xa0, 0x00, 0x00,
    ];
    assert_eq!(format!("{:x?}", data), format!("{:x?}", control_bytes));
    let (run_control, _) =
        read_message(&control_bytes).expect("Cannot unpack run from control bytes");
    assert_eq!(run_struct, run_control);
}

#[test]
fn hello_request() {
    let hello = Hello::new("MyClient", "1.0", "basic", "neo4j", "secret");
    assert_eq!(
        hello.to_value(),
        Value::Structure(
            0x01,
            vec![Value::Dictionary(vec![
                entry("user_agent", text("MyClient/1.0")),
                entry("scheme", text("basic")),
                entry("principal", text("neo4j")),
                entry("credentials", text("secret")),
            ])]
        )
    );
}

#[test]
fn simple_requests() {
    assert_eq!(pack(&GoodBye {}.to_value()).unwrap(), vec![0xB0, 0x02]);
    assert_eq!(pack(&Reset {}.to_value()).unwrap(), vec![0xB0, 0x0F]);
    assert_eq!(pack(&Commit {}.to_value()).unwrap(), vec![0xB0, 0x12]);
    assert_eq!(pack(&RollBack {}.to_value()).unwrap(), vec![0xB0, 0x13]);
}

#[test]
fn pull_and_discard_requests() {
    let pull = Pull::all_from_last().to_value();
    assert_eq!(
        pack(&pull).unwrap(),
        vec![0xB1, 0x3F, 0xA2, 0x81, b'n', 0xFF, 0x83, b'q', b'i', b'd', 0xFF]
    );
    assert_eq!(
        Pull::all(7).extra,
        vec![entry("n", Value::Integer(-1)), entry("qid", Value::Integer(7))]
    );
    assert_eq!(
        Pull::new(Amount::Many(100), Qid::Exact(2)).extra,
        vec![entry("n", Value::Integer(100)), entry("qid", Value::Integer(2))]
    );
    let discard = Discard::new(Amount::All, Qid::Last).to_value();
    assert_eq!(pack(&discard).unwrap()[..2].to_vec(), vec![0xB1, 0x2F]);
}

#[test]
fn commit_prepare_only_set_fields() {
    let empty = CommitPrepare::new();
    assert_eq!(empty.to_value(), Value::Dictionary(vec![]));
    let mut cp = CommitPrepare::new();
    cp.set_mode(Some(CommitMode::Read));
    cp.set_timeout(Some(42));
    assert_eq!(
        cp.to_value(),
        Value::Dictionary(vec![
            entry("tx_timeout", Value::Integer(42)),
            entry("mode", text("r")),
        ])
    );
    let mut all = CommitPrepare::new();
    all.add_bookmark(Bookmark(String::from("B1")));
    all.set_timeout(Some(5));
    all.add_metadata("app", text("x"));
    all.set_mode(Some(CommitMode::Write));
    all.set_db("my_database");
    assert_eq!(
        all.to_value(),
        Value::Dictionary(vec![
            entry("bookmarks", Value::List(vec![text("B1")])),
            entry("tx_timeout", Value::Integer(5)),
            entry("tx_metadata", Value::Dictionary(vec![entry("app", text("x"))])),
            entry("mode", text("w")),
            entry("db", text("my_database")),
        ])
    );
}

#[test]
fn run_and_begin_requests() {
    let mut query = Query::new("RETURN $x as x");
    query.param("x", Value::Integer(42));
    query.param("x", Value::Integer(43));
    assert_eq!(query.parameters, vec![entry("x", Value::Integer(43))]);
    let mut run = Run::new(&query);
    run.commit_prepare().set_db("db1");
    assert_eq!(
        run.to_value(),
        Value::Structure(
            0x10,
            vec![
                text("RETURN $x as x"),
                Value::Dictionary(vec![entry("x", Value::Integer(43))]),
                Value::Dictionary(vec![entry("db", text("db1"))]),
            ]
        )
    );
    let begin = Begin::new(CommitPrepare::new()).to_value();
    assert_eq!(pack(&begin).unwrap(), vec![0xB1, 0x11, 0xA0]);
    let run_in_tx = query.clone().into_run();
    assert_eq!(run_in_tx.query, "RETURN $x as x");
    assert_eq!(run_in_tx.parameters, vec![entry("x", Value::Integer(43))]);
    let (statement, params) = query.into_inner();
    assert_eq!(statement, "RETURN $x as x");
    assert_eq!(params.len(), 1);
}

#[test]
fn chunk_write_read_pack() {
    let mut chunk = Chunk::new(3);
    assert_eq!(chunk.write(&[1u8, 2, 3, 4]), Some(3));
    assert!(!chunk.has_capacity());
    assert_eq!(chunk.written(), 3);
    assert_eq!(chunk.write(&[5u8]), Some(0));
    assert_eq!(chunk.write(&[]), Some(0));
    assert_eq!(chunk.written(), 3);
    let mut chunk = Chunk::new(3);
    assert_eq!(chunk.write(&[1u8, 2, 3]), None);
    let mut chunk = Chunk::new(5);
    chunk.write(&[1, 2, 3, 4, 5]);
    assert_eq!(chunk.read(2), vec![1, 2]);
    assert_eq!(chunk.read(5), vec![3, 4, 5]);
    assert!(chunk.eof());
    chunk.set_cursor(1);
    assert!(!chunk.eof());
    let mut ten = Chunk::new(13);
    ten.write(&vec![0u8; 10]);
    let packed = ten.pack();
    assert_eq!(packed.len(), 12);
    assert_eq!(packed[0..2].to_vec(), vec![0x00, 0x0A]);
    let stream: &[u8] = &[0x00, 0x03, 0x01, 0x01, 0x01, 0xFF];
    let (mut read_back, used) = Chunk::unpack(stream).unwrap();
    assert_eq!(used, 5);
    assert!(!read_back.has_capacity());
    assert_eq!(read_back.capacity(), 3);
    assert_eq!(read_back.read(5), vec![1, 1, 1]);
    assert_eq!(Chunk::unpack(&[0x00, 0x03, 0x01]), Err(MessageReadError::TruncatedInput));
}

#[test]
fn chunks_for_flushing() {
    let payload: Vec<u8> = (1..=10).collect();
    let pieces = frame_chunks(&payload, 4);
    assert_eq!(
        pieces,
        vec![
            vec![0x00, 0x04, 1, 2, 3, 4],
            vec![0x00, 0x04, 5, 6, 7, 8],
            vec![0x00, 0x02, 9, 10],
            vec![0x00, 0x00]
        ]
    );
    assert_eq!(pieces.concat(), frame(&payload, 4));
}
