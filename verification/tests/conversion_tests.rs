use notred::conversion::{self, Converter};
use notred::message::{
    find_conversion, no_conversion, Binary, BinaryContentType, Dict, DictSchema, MessageData,
    MessageType, Text, TextContentType,
};

use notred::message::BinaryContentType::Unknown;
use notred::message::MessageData as MD;
use notred::message::MessageType as MT;
use notred::message::TextContentType::{Json, Plain};

fn assert_has_bidirectional_conversion(src: MT, dst: MT) {
    assert!(conversion::find(&src, &dst).is_ok());
    assert!(conversion::find(&dst, &src).is_ok());
}

fn assert_has_conversion(src: MT, dst: MT) {
    assert!(conversion::find(&src, &dst).is_ok())
}

fn assert_has_no_conversion(src: MT, dst: MT) {
    assert!(conversion::find(&src, &dst).is_err())
}

fn schema_of(entries: Vec<(&str, MT)>) -> DictSchema {
    entries.into_iter().map(|(k, t)| (k.to_string(), t)).collect()
}

fn copy_type(t: &MT) -> MT {
    t.deep_copy()
}

#[test]
fn test_conversion_basic() {
    assert_has_bidirectional_conversion(MT::Int, MT::Int);
    assert_has_bidirectional_conversion(MT::Float, MT::Float);
    assert_has_bidirectional_conversion(MT::Text(Plain), MT::Text(Plain));
    assert_has_bidirectional_conversion(MT::Binary(Unknown), MT::Binary(Unknown));

    let empty_schema = DictSchema::new();

    assert_has_bidirectional_conversion(MT::Int, MT::Float);
    assert_has_bidirectional_conversion(MT::Int, MT::Text(Plain));
    assert_has_bidirectional_conversion(MT::Float, MT::Text(Plain));
    assert_has_no_conversion(MT::Int, MT::Binary(Unknown));
    assert_has_no_conversion(MT::Int, MT::Dict(copy_schema(&empty_schema)));
    assert_has_no_conversion(MT::Float, MT::Binary(Unknown));
    assert_has_no_conversion(MT::Float, MT::Dict(copy_schema(&empty_schema)));
    assert_has_no_conversion(MT::Text(Plain), MT::Binary(Unknown));
    assert_has_no_conversion(MT::Binary(Unknown), MT::Text(Plain));

    assert_has_conversion(MT::Dict(empty_schema), MT::Text(Json));
}

fn copy_schema(s: &DictSchema) -> DictSchema {
    s.iter().map(|(k, t)| (k.clone(), copy_type(t))).collect()
}

fn assert_conversion_result(src_type: MT, src: MD, dst_type: MT, dst_expected: MD) {
    let conv = conversion::find(&src_type, &dst_type);
    assert!(conv.is_ok());
    let dst_actual = conversion::apply(&conv.unwrap(), &src, &dst_type);
    assert!(dst_actual.is_ok());
    assert_eq!(dst_actual.unwrap(), dst_expected);
}

fn assert_conversion_error(src_type: MT, src: MD, dst_type: MT) {
    let conv = conversion::find(&src_type, &dst_type);
    assert!(conv.is_ok());
    let dst_actual = conversion::apply(&conv.unwrap(), &src, &dst_type);
    assert!(dst_actual.is_err());
}

fn make_md_text_plain(text: &str) -> MD {
    MD::Text(Text { value: text.to_string(), content_type: Plain })
}

#[test]
fn test_conversion_result() {
    assert_conversion_result(MT::Int, MD::Int(42), MT::Text(Plain), make_md_text_plain("42"));

    assert_conversion_error(MT::Text(Plain), make_md_text_plain("aaa"), MT::Int);
}

#[test]
fn test_conversion_dict_simple() {
    let schema_src = schema_of(vec![("key", MT::Int)]);
    let schema_dst = schema_of(vec![("key", MT::Int)]);
    assert_has_bidirectional_conversion(MT::Dict(schema_src), MT::Dict(schema_dst));
}

#[test]
fn test_conversion_dict_mismatched_keys() {
    let schema_src = schema_of(vec![("key1", MT::Int)]);
    let schema_dst = schema_of(vec![("key2", MT::Int)]);
    assert_has_no_conversion(MT::Dict(schema_src), MT::Dict(schema_dst));
}

#[test]
fn test_conversion_dict_implicit() {
    let schema_src = schema_of(vec![("key", MT::Int)]);
    let schema_dst = schema_of(vec![("key", MT::Float)]);
    assert_has_bidirectional_conversion(MT::Dict(schema_src), MT::Dict(schema_dst));
}

#[test]
fn test_conversion_dict_nested() {
    let schema_nested_src = schema_of(vec![("nested_key", MT::Int)]);

    let schema_nested_dst = schema_of(vec![("nested_key", MT::Float)]);

    let schema_src = schema_of(vec![("nested", MT::Dict(schema_nested_src))]);
    let schema_dst = schema_of(vec![("nested", MT::Dict(schema_nested_dst))]);

    assert_has_bidirectional_conversion(MT::Dict(schema_src), MT::Dict(schema_dst));
}

// The identity law on concrete values: a type converts to itself and the
// resolved converter hands every fitting value back unchanged.
#[test]
fn test_identity_conversion_values() {
    let cases = vec![
        (MT::Int, MD::Int(-7)),
        (MT::Float, MD::Float(1.5f32.to_bits())),
        (MT::Text(Plain), make_md_text_plain("hello")),
        (
            MT::Binary(Unknown),
            MD::Binary(Binary { value: vec![1, 2, 3], content_type: Unknown }),
        ),
    ];
    for (t, v) in cases {
        let conv = find_conversion(&t, &t).unwrap();
        assert_eq!(conv, Converter::Identity);
        let out = conversion::apply(&conv, &v, &t).unwrap();
        assert_eq!(out, v);
    }

    let schema = schema_of(vec![("a", MT::Int), ("b", MT::Text(Plain))]);
    let t = MT::Dict(copy_schema(&schema));
    let v = MD::Dict(Dict {
        data: vec![
            ("a".to_string(), MD::Int(1)),
            ("b".to_string(), make_md_text_plain("x")),
        ],
        schema: copy_schema(&schema),
    });
    let conv = find_conversion(&t, &t).unwrap();
    assert_eq!(conv, Converter::DictToDict);
    let out = conversion::apply(&conv, &v, &t).unwrap();
    assert_eq!(out, v);
}

// The superset-to-subset dictionary law on concrete values: extra source
// keys are ignored, and the reverse direction fails naming the missing key.
#[test]
fn test_dict_superset_subset() {
    let small = schema_of(vec![("a", MT::Int)]);
    let big = schema_of(vec![("a", MT::Int), ("b", MT::Int)]);

    let forward = find_conversion(&MT::Dict(copy_schema(&big)), &MT::Dict(copy_schema(&small)));
    assert!(forward.is_ok());
    let value = MD::Dict(Dict {
        data: vec![("a".to_string(), MD::Int(1)), ("b".to_string(), MD::Int(2))],
        schema: copy_schema(&big),
    });
    let out = conversion::apply(
        &forward.unwrap(),
        &value,
        &MT::Dict(copy_schema(&small)),
    )
    .unwrap();
    let expected = MD::Dict(Dict {
        data: vec![("a".to_string(), MD::Int(1))],
        schema: copy_schema(&small),
    });
    assert_eq!(out, expected);

    let reverse = find_conversion(&MT::Dict(copy_schema(&small)), &MT::Dict(copy_schema(&big)));
    assert!(reverse.is_err());
    let text = reverse.unwrap_err().to_display_string();
    assert!(text.contains("'b'"), "diagnostic should name the missing key: {}", text);
}

#[test]
fn test_dict_to_json_text() {
    let schema = schema_of(vec![("n", MT::Int), ("s", MT::Text(Plain))]);
    let v = MD::Dict(Dict {
        data: vec![
            ("n".to_string(), MD::Int(-3)),
            ("s".to_string(), make_md_text_plain("a\"b")),
        ],
        schema,
    });
    let conv = find_conversion(
        &MT::Dict(schema_of(vec![("n", MT::Int), ("s", MT::Text(Plain))])),
        &MT::Text(Json),
    )
    .unwrap();
    assert_eq!(conv, Converter::DictToTextJson);
    let out = conversion::apply(&conv, &v, &MT::Text(Json)).unwrap();
    match out {
        MD::Text(t) => {
            assert_eq!(t.value, "{\"n\":-3,\"s\":\"a\\\"b\"}");
            assert_eq!(t.content_type, Json);
        }
        _ => panic!("expected text"),
    }
}

#[test]
fn test_dict_to_plain_text_refused() {
    let r = find_conversion(&MT::Dict(DictSchema::new()), &MT::Text(Plain));
    assert!(r.is_err());
    let text = r.unwrap_err().to_display_string();
    assert!(text.contains("JSON"), "diagnostic should point at JSON: {}", text);
}

#[test]
fn test_no_conversion_is_identity() {
    let v = make_md_text_plain("payload");
    let out = no_conversion(&v, &MT::Int).unwrap();
    assert_eq!(out, v);
}
