//! Conversion resolution: decides, at graph-validation time, whether values
//! of one message type can be transformed into another, and which converter
//! does it.
//!
//! Resolution is dispatched on the destination type:
//!
//! - identical variants resolve to the identity conversion;
//! - `Int` and `Float` convert to each other by numeric cast, and both render
//!   to `Text`; `Text` parses to `Int` and `Float`;
//! - `Binary` converts only to `Binary`, by identity;
//! - a `Dict` converts to a `Dict` exactly when every key of the destination
//!   schema is present in the source schema and its type converts recursively;
//! - a `Dict` converts to `Text` only when the destination asks for
//!   JSON-structured text.
//!
//! Recursion depth is bounded only by schema nesting depth, so deeply nested
//! schemas carry a stack-depth risk; the depth of declared schemas is the
//! graph author's responsibility.

use vstd::prelude::*;
use vstd::string::{StringExecFns, StringSliceAdditionalSpecFns};

use crate::float_bits::{f32_bits_to_i64, f32_to_i64_spec, i64_to_f32_bits, i64_to_f32_spec};
use crate::message::{
    copy_bytes, copy_schema, data_view, datamap_view, lookup, schema_view, type_display,
    type_view, fce_display, lemma_datamap_view_index, lemma_lookup_first_match,
    lemma_lookup_no_match, lemma_schema_view_index, Binary, BinaryContentType,
    ConversionError, DataV, Dict, DictSchema, FceV, FindConversionError, MessageData,
    MessageType, Text, TextContentType, TypeV,
};
use crate::numeric::{dec_digits, digit_char, parse_i64, parse_int_spec, render_i64, render_int};

verus! {

/// One resolved conversion step, attached to a connection at validation time
/// and applied to every message that crosses that connection.
#[derive(Clone, Copy, Debug, PartialEq, Eq, Structural)]
pub enum Converter {
    /// The value passes through unchanged.
    Identity,
    /// Decimal rendering of a 64-bit integer.
    IntToText,
    /// Decimal rendering of a 32-bit float.  This library holds float
    /// values only as bit patterns and offers no decimal rendering of them,
    /// so applying this converter fails on every message.
    FloatToText,
    /// Parse text as a 64-bit integer; fails on malformed text.
    TextToInt,
    /// Parse text as a 32-bit float.  This library offers no decimal
    /// float parsing, so applying this converter fails on every message.
    TextToFloat,
    /// Numeric cast from integer to float.
    IntToFloat,
    /// Numeric cast from float to integer, truncating toward zero.
    FloatToInt,
    /// Per-key conversion into the destination dictionary schema.
    DictToDict,
    /// JSON serialization of a dictionary's current values.
    DictToTextJson,
}

pub type FindConversionResult = Result<Converter, FindConversionError>;

/// View of a resolution result.
pub open spec fn find_result_view(r: FindConversionResult) -> Result<Converter, FceV> {
    match r {
        Ok(c) => Ok(c),
        Err(e) => Err(e@),
    }
}

/// Diagnostic for a dictionary sent to a non-JSON text port.
pub open spec fn dict_to_text_error(ct: TextContentType) -> Seq<char> {
    "Can't convert dictionary to text with content-type "@ + type_display(TypeV::Text(ct))
        + ". Try setting content-type to JSON."@
}

/// Diagnostic for a destination key absent from the source schema.
pub open spec fn missing_key_error(key: Seq<char>) -> Seq<char> {
    "Key '"@ + key + "' is present in the destination dictionary but not in the source dictionary"@
}

/// Diagnostic for a key whose source type does not convert to its destination
/// type.
pub open spec fn key_conversion_error(key: Seq<char>, src: TypeV, dst: TypeV, e: FceV) -> Seq<
    char,
> {
    "Couldn't convert key "@ + key + " from type "@ + type_display(src) + " to type "@
        + type_display(dst) + ": "@ + fce_display(e)
}

/// What resolution returns for a source and destination type.  This is the
/// definition the executable resolver is proved against.
pub open spec fn conversion_spec(src: TypeV, dst: TypeV) -> Result<Converter, FceV>
    decreases dst,
{
    match dst {
        TypeV::Text(ct) => match src {
            TypeV::Text(_) => Ok(Converter::Identity),
            TypeV::Binary(_) => Err(FceV::NoImplicitConversion),
            TypeV::Int => Ok(Converter::IntToText),
            TypeV::Float => Ok(Converter::FloatToText),
            TypeV::Dict(_) => if ct is Json {
                Ok(Converter::DictToTextJson)
            } else {
                Err(FceV::Detailed(dict_to_text_error(ct)))
            },
        },
        TypeV::Binary(_) => match src {
            TypeV::Binary(_) => Ok(Converter::Identity),
            _ => Err(FceV::NoImplicitConversion),
        },
        TypeV::Int => match src {
            TypeV::Text(_) => Ok(Converter::TextToInt),
            TypeV::Int => Ok(Converter::Identity),
            TypeV::Float => Ok(Converter::FloatToInt),
            _ => Err(FceV::NoImplicitConversion),
        },
        TypeV::Float => match src {
            TypeV::Text(_) => Ok(Converter::TextToFloat),
            TypeV::Float => Ok(Converter::Identity),
            TypeV::Int => Ok(Converter::IntToFloat),
            _ => Err(FceV::NoImplicitConversion),
        },
        TypeV::Dict(ds) => match src {
            TypeV::Dict(ss) => dict_conversion_spec(ss, ds),
            _ => Err(FceV::NoImplicitConversion),
        },
    }
}

/// Resolution between two dictionary schemas: every destination key must be
/// present in the source schema with a recursively convertible type; keys
/// present only in the source are ignored.  The first offending destination
/// entry, in schema order, decides the diagnostic.
pub open spec fn dict_conversion_spec(
    ss: Seq<(Seq<char>, TypeV)>,
    ds: Seq<(Seq<char>, TypeV)>,
) -> Result<Converter, FceV>
    decreases ds,
{
    if ds.len() == 0 {
        Ok(Converter::DictToDict)
    } else {
        let key = ds[0].0;
        let td = ds[0].1;
        match lookup(ss, key) {
            None => Err(FceV::Detailed(missing_key_error(key))),
            Some(ts) => match conversion_spec(ts, td) {
                Ok(_) => dict_conversion_spec(ss, ds.drop_first()),
                Err(e) => Err(FceV::Detailed(key_conversion_error(key, ts, td, e))),
            },
        }
    }
}

/// Two types resolve to some conversion.
pub open spec fn convertible(src: TypeV, dst: TypeV) -> bool {
    conversion_spec(src, dst) is Ok
}

/// Resolves the conversion from `src` to `dst`.
pub fn find(src: &MessageType, dst: &MessageType) -> (r: FindConversionResult)
    ensures
        find_result_view(r) == conversion_spec(src@, dst@),
    decreases *dst, 2int,
{
    match dst {
        MessageType::Text(ct) => to_text(src, ct),
        MessageType::Binary(ct) => to_binary(src, ct),
        MessageType::Int => to_int(src),
        MessageType::Float => to_float(src),
        MessageType::Dict(ds) => to_dict(src, ds),
    }
}

fn to_text(src: &MessageType, dst_content_type: &TextContentType) -> (r: FindConversionResult)
    ensures
        find_result_view(r) == conversion_spec(src@, TypeV::Text(*dst_content_type)),
{
    match src {
        MessageType::Text(_) => Ok(Converter::Identity),
        MessageType::Binary(_) => Err(FindConversionError::NoImplicitConversion),
        MessageType::Int => Ok(Converter::IntToText),
        MessageType::Float => Ok(Converter::FloatToText),
        MessageType::Dict(_) => match dst_content_type {
            TextContentType::Json => Ok(Converter::DictToTextJson),
            TextContentType::Plain => {
                let mut msg = "Can't convert dictionary to text with content-type ".to_owned();
                let shown = MessageType::Text(*dst_content_type);
                let shown_name = shown.to_display_string();
                msg.append(shown_name.as_str());
                msg.append(". Try setting content-type to JSON.");
                Err(FindConversionError::NoImplicitConversionDetailed(msg))
            },
        },
    }
}

fn to_binary(src: &MessageType, _dst_content_type: &BinaryContentType) -> (r: FindConversionResult)
    ensures
        find_result_view(r) == conversion_spec(src@, TypeV::Binary(BinaryContentType::Unknown)),
{
    match src {
        MessageType::Binary(_) => Ok(Converter::Identity),
        _ => Err(FindConversionError::NoImplicitConversion),
    }
}

fn to_int(src: &MessageType) -> (r: FindConversionResult)
    ensures
        find_result_view(r) == conversion_spec(src@, TypeV::Int),
{
    match src {
        MessageType::Text(_) => Ok(Converter::TextToInt),
        MessageType::Binary(_) => Err(FindConversionError::NoImplicitConversion),
        MessageType::Int => Ok(Converter::Identity),
        MessageType::Float => Ok(Converter::FloatToInt),
        MessageType::Dict(_) => Err(FindConversionError::NoImplicitConversion),
    }
}

fn to_float(src: &MessageType) -> (r: FindConversionResult)
    ensures
        find_result_view(r) == conversion_spec(src@, TypeV::Float),
{
    match src {
        MessageType::Text(_) => Ok(Converter::TextToFloat),
        MessageType::Binary(_) => Err(FindConversionError::NoImplicitConversion),
        MessageType::Int => Ok(Converter::IntToFloat),
        MessageType::Float => Ok(Converter::Identity),
        MessageType::Dict(_) => Err(FindConversionError::NoImplicitConversion),
    }
}

fn to_dict(src: &MessageType, dst_schema: &DictSchema) -> (r: FindConversionResult)
    ensures
        find_result_view(r) == conversion_spec(src@, TypeV::Dict(schema_view(dst_schema@))),
    decreases *dst_schema, 1int,
{
    match src {
        MessageType::Dict(src_schema) => from_dict_to_dict(src_schema, dst_schema),
        _ => Err(FindConversionError::NoImplicitConversion),
    }
}

/// Looks `key` up in a schema; the first entry with a matching key wins.
fn schema_get<'a>(s: &'a DictSchema, key: &String) -> (r: Option<&'a MessageType>)
    ensures
        match r {
            Some(t) => lookup(schema_view(s@), key@) == Some(t@),
            None => lookup(schema_view(s@), key@) is None,
        },
{
    proof {
        lemma_schema_view_index(s@);
    }
    let mut i: usize = 0;
    while i < s.len()
        invariant
            i <= s.len(),
            forall|j: int| 0 <= j < i ==> s@[j].0@ != key@,
            schema_view(s@).len() == s@.len(),
            forall|j: int|
                0 <= j < s@.len() ==> schema_view(s@)[j] == (s@[j].0@, type_view(s@[j].1)),
        decreases s.len() - i,
    {
        if s[i].0 == *key {
            proof {
                lemma_lookup_first_match(schema_view(s@), key@, i as int);
            }
            return Some(&s[i].1);
        }
        i += 1;
    }
    proof {
        lemma_lookup_no_match(schema_view(s@), key@);
    }
    None
}

fn from_dict_to_dict(src: &DictSchema, dst: &DictSchema) -> (r: FindConversionResult)
    ensures
        find_result_view(r) == dict_conversion_spec(schema_view(src@), schema_view(dst@)),
    decreases *dst, 0int,
{
    proof {
        lemma_schema_view_index(dst@);
    }
    let ghost ss = schema_view(src@);
    let ghost ds = schema_view(dst@);
    proof {
        assert(ds.skip(0) =~= ds);
    }
    let mut i: usize = 0;
    while i < dst.len()
        invariant
            i <= dst.len(),
            ss == schema_view(src@),
            ds == schema_view(dst@),
            ds.len() == dst@.len(),
            forall|j: int| 0 <= j < dst@.len() ==> ds[j] == (dst@[j].0@, type_view(dst@[j].1)),
            dict_conversion_spec(ss, ds.skip(i as int)) == dict_conversion_spec(ss, ds),
            forall|j: int|
                0 <= j < i ==> {
                    &&& lookup(ss, ds[j].0) is Some
                    &&& conversion_spec(lookup(ss, ds[j].0)->Some_0, ds[j].1) is Ok
                },
        decreases dst.len() - i,
    {
        proof {
            assert(ds.skip(i as int).len() > 0);
            assert(ds.skip(i as int)[0] == ds[i as int]);
        }
        let key = &dst[i].0;
        let td = &dst[i].1;
        match schema_get(src, key) {
            None => {
                let mut msg = "Key '".to_owned();
                msg.append(key.as_str());
                msg.append("' is present in the destination dictionary but not in the source dictionary");
                proof {
                    assert(ds.skip(i as int).drop_first() =~= ds.skip(i as int + 1));
                }
                return Err(FindConversionError::NoImplicitConversionDetailed(msg));
            },
            Some(ts) => {
                match find(ts, td) {
                    Ok(_) => {
                        proof {
                            assert(ds.skip(i as int).drop_first() =~= ds.skip(i as int + 1));
                        }
                    },
                    Err(e) => {
                        let mut msg = "Couldn't convert key ".to_owned();
                        msg.append(key.as_str());
                        msg.append(" from type ");
                        let src_name = ts.to_display_string();
                        msg.append(src_name.as_str());
                        msg.append(" to type ");
                        let dst_name = td.to_display_string();
                        msg.append(dst_name.as_str());
                        msg.append(": ");
                        let err_text = e.to_display_string();
                        msg.append(err_text.as_str());
                        return Err(FindConversionError::NoImplicitConversionDetailed(msg));
                    },
                }
            },
        }
        i += 1;
    }
    proof {
        assert(ds.skip(i as int) =~= Seq::empty());
    }
    Ok(Converter::DictToDict)
}

// ---------------------------------------------------------------------------
// Applying a resolved conversion to a message
// ---------------------------------------------------------------------------

/// View of an application result.
pub open spec fn conv_result_view(r: Result<MessageData, ConversionError>) -> Result<DataV, ()> {
    match r {
        Ok(d) => Ok(d@),
        Err(_) => Err(()),
    }
}

/// What converting one value to a destination type yields.  This drives the
/// per-key conversion inside dictionaries, where no converter was cached at
/// validation time: the value's own variant picks the transformation.
///
/// Conversions that depend on the numeric value of a 32-bit float beyond
/// integer casts (rendering one as text, or parsing text into one) are not
/// offered by this library and fail at message-conversion time.
pub open spec fn convert_value_spec(v: DataV, t: TypeV) -> Result<DataV, ()>
    decreases t,
{
    match t {
        TypeV::Text(ct) => match v {
            DataV::Text(s, vct) => Ok(DataV::Text(s, vct)),
            DataV::Int(i) => Ok(DataV::Text(render_int(i as int), TextContentType::Plain)),
            DataV::Dict(_, _) => if ct is Json {
                match json_of_value(v) {
                    Ok(s) => Ok(DataV::Text(s, TextContentType::Json)),
                    Err(e) => Err(e),
                }
            } else {
                Err(())
            },
            _ => Err(()),
        },
        TypeV::Binary(_) => match v {
            DataV::Binary(bs, bct) => Ok(DataV::Binary(bs, bct)),
            _ => Err(()),
        },
        TypeV::Int => match v {
            DataV::Int(i) => Ok(DataV::Int(i)),
            DataV::Text(s, _) => match parse_int_spec(s) {
                Some(i) => Ok(DataV::Int(i)),
                None => Err(()),
            },
            DataV::Float(b) => Ok(DataV::Int(f32_to_i64_spec(b))),
            _ => Err(()),
        },
        TypeV::Float => match v {
            DataV::Float(b) => Ok(DataV::Float(b)),
            DataV::Int(i) => Ok(DataV::Float(i64_to_f32_spec(i))),
            _ => Err(()),
        },
        TypeV::Dict(ds) => match v {
            DataV::Dict(dm, _) => match dict_convert_spec(dm, ds) {
                Ok(nd) => Ok(DataV::Dict(nd, ds)),
                Err(e) => Err(e),
            },
            _ => Err(()),
        },
    }
}

/// Converting dictionary data into a destination schema: every destination
/// key must be present, and its value must convert to the declared type;
/// source entries without a destination key are dropped.
pub open spec fn dict_convert_spec(
    dm: Seq<(Seq<char>, DataV)>,
    ds: Seq<(Seq<char>, TypeV)>,
) -> Result<Seq<(Seq<char>, DataV)>, ()>
    decreases ds,
{
    if ds.len() == 0 {
        Ok(Seq::empty())
    } else {
        match dict_convert_spec(dm, ds.drop_last()) {
            Err(e) => Err(e),
            Ok(rest) => match lookup(dm, ds.last().0) {
                None => Err(()),
                Some(v) => match convert_value_spec(v, ds.last().1) {
                    Err(e) => Err(e),
                    Ok(nv) => Ok(rest.push((ds.last().0, nv))),
                },
            },
        }
    }
}

/// The escape of one character inside a JSON string literal.  Quotes,
/// backslashes and the common control characters are escaped; other
/// characters stand for themselves.
pub open spec fn esc_char(c: char) -> Seq<char> {
    if c == '"' {
        seq!['\\', '"']
    } else if c == '\\' {
        seq!['\\', '\\']
    } else if c == '\n' {
        seq!['\\', 'n']
    } else if c == '\r' {
        seq!['\\', 'r']
    } else if c == '\t' {
        seq!['\\', 't']
    } else {
        seq![c]
    }
}

pub open spec fn json_escape(s: Seq<char>) -> Seq<char>
    decreases s.len(),
{
    if s.len() == 0 {
        Seq::empty()
    } else {
        json_escape(s.drop_last()) + esc_char(s.last())
    }
}

/// A JSON string literal: quoted, escaped text.
pub open spec fn json_string(s: Seq<char>) -> Seq<char> {
    seq!['"'] + json_escape(s) + seq!['"']
}

/// Binary data serializes as a JSON array of byte values.
pub open spec fn json_bytes(bs: Seq<u8>) -> Seq<char>
    decreases bs.len(),
{
    if bs.len() == 0 {
        Seq::empty()
    } else if bs.len() == 1 {
        dec_digits(bs[0] as nat)
    } else {
        json_bytes(bs.drop_last()) + seq![','] + dec_digits(bs.last() as nat)
    }
}

/// The JSON serialization of a message value.  Text must be ASCII, and
/// float values have no rendering here: both otherwise fail at
/// message-conversion time.
pub open spec fn json_of_value(v: DataV) -> Result<Seq<char>, ()>
    decreases v,
{
    match v {
        DataV::Text(s, _) => if vstd::utf8::is_ascii_chars(s) {
            Ok(json_string(s))
        } else {
            Err(())
        },
        DataV::Int(i) => Ok(render_int(i as int)),
        DataV::Float(_) => Err(()),
        DataV::Binary(bs, _) => Ok(seq!['['] + json_bytes(bs) + seq![']']),
        DataV::Dict(dm, _) => match json_entries(dm) {
            Ok(e) => Ok(seq!['{'] + e + seq!['}']),
            Err(x) => Err(x),
        },
    }
}

/// The comma-separated members of a JSON object, one per dictionary entry,
/// in entry order.  Keys must be ASCII.
pub open spec fn json_entries(dm: Seq<(Seq<char>, DataV)>) -> Result<Seq<char>, ()>
    decreases dm,
{
    if dm.len() == 0 {
        Ok(Seq::empty())
    } else {
        match json_entries(dm.drop_last()) {
            Err(e) => Err(e),
            Ok(rest) => if !vstd::utf8::is_ascii_chars(dm.last().0) {
                Err(())
            } else {
                match json_of_value(dm.last().1) {
                    Err(e) => Err(e),
                    Ok(vs) => {
                        let sep: Seq<char> = if dm.len() == 1 {
                            Seq::empty()
                        } else {
                            seq![',']
                        };
                        Ok(rest + sep + json_string(dm.last().0) + seq![':'] + vs)
                    },
                }
            },
        }
    }
}

/// What applying a resolved converter to a message yields.  A message whose
/// variant does not fit the converter fails at message-conversion time.
pub open spec fn apply_spec(c: Converter, v: DataV, t: TypeV) -> Result<DataV, ()> {
    match c {
        Converter::Identity => Ok(v),
        Converter::IntToText => match v {
            DataV::Int(i) => Ok(DataV::Text(render_int(i as int), TextContentType::Plain)),
            _ => Err(()),
        },
        Converter::FloatToText => Err(()),
        Converter::TextToInt => match v {
            DataV::Text(s, _) => match parse_int_spec(s) {
                Some(i) => Ok(DataV::Int(i)),
                None => Err(()),
            },
            _ => Err(()),
        },
        Converter::TextToFloat => Err(()),
        Converter::IntToFloat => match v {
            DataV::Int(i) => Ok(DataV::Float(i64_to_f32_spec(i))),
            _ => Err(()),
        },
        Converter::FloatToInt => match v {
            DataV::Float(b) => Ok(DataV::Int(f32_to_i64_spec(b))),
            _ => Err(()),
        },
        Converter::DictToDict => match (v, t) {
            (DataV::Dict(dm, _), TypeV::Dict(ds)) => match dict_convert_spec(dm, ds) {
                Ok(nd) => Ok(DataV::Dict(nd, ds)),
                Err(e) => Err(e),
            },
            _ => Err(()),
        },
        Converter::DictToTextJson => match v {
            DataV::Dict(_, _) => match json_of_value(v) {
                Ok(s) => Ok(DataV::Text(s, TextContentType::Json)),
                Err(e) => Err(e),
            },
            _ => Err(()),
        },
    }
}

/// The characters of a sequence of ASCII bytes, one per byte.
pub open spec fn char_seq(bs: Seq<u8>) -> Seq<char> {
    Seq::new(bs.len(), |i: int| bs[i] as char)
}

/// Every byte is ASCII.
pub open spec fn all_ascii(bs: Seq<u8>) -> bool {
    forall|i: int| 0 <= i < bs.len() ==> #[trigger] bs[i] < 128
}

/// Relies on String::from_utf8: ASCII bytes are valid UTF-8 and decode to
/// one character per byte, each with the byte's code point.
#[verifier::external_body]
fn ascii_bytes_to_string(v: Vec<u8>) -> (r: String)
    requires
        all_ascii(v@),
    ensures
        r@ == char_seq(v@),
{
    match String::from_utf8(v) {
        Ok(s) => s,
        Err(_) => String::new(),
    }
}

/// Appends the decimal digits of `n`.
fn push_u64_dec(out: &mut Vec<u8>, n: u64)
    ensures
        char_seq(final(out)@) == char_seq(old(out)@) + dec_digits(n as nat),
        all_ascii(old(out)@) ==> all_ascii(final(out)@),
    decreases n,
{
    if n >= 10 {
        push_u64_dec(out, n / 10);
    }
    let ghost mid = out@;
    let d: u8 = (n % 10) as u8 + 48;
    out.push(d);
    proof {
        assert(d as char == digit_char((n % 10) as int));
        assert(char_seq(out@) =~= char_seq(mid) + seq![digit_char((n % 10) as int)]);
        assert(char_seq(out@) =~= char_seq(old(out)@) + dec_digits(n as nat));
    }
}

/// Appends a JSON string literal holding the ASCII text `s`.
fn push_json_string(out: &mut Vec<u8>, s: &str)
    requires
        vstd::utf8::is_ascii_chars(s@),
    ensures
        char_seq(final(out)@) == char_seq(old(out)@) + json_string(s@),
        all_ascii(old(out)@) ==> all_ascii(final(out)@),
{
    proof {
        vstd::string::is_ascii_spec_bytes(s);
    }
    out.push(34);
    let b = s.as_bytes();
    let n = b.len();
    proof {
        assert(s@.take(0) =~= Seq::<char>::empty());
        assert(char_seq(out@) =~= char_seq(old(out)@) + seq!['"'] + json_escape(s@.take(0)));
    }
    let mut i: usize = 0;
    while i < n
        invariant
            i <= n,
            n == b@.len(),
            n == s@.len(),
            b@ == s.spec_bytes(),
            vstd::utf8::is_ascii_chars(s@),
            forall|k: int| 0 <= k < s@.len() ==> b@[k] == #[trigger] s@[k] as u8,
            char_seq(out@) == char_seq(old(out)@) + seq!['"'] + json_escape(s@.take(i as int)),
            all_ascii(old(out)@) ==> all_ascii(out@),
        decreases n - i,
    {
        let ghost mid = out@;
        let ghost c = s@[i as int];
        let cb = b[i];
        if cb == 34 {
            out.push(92);
            out.push(34);
        } else if cb == 92 {
            out.push(92);
            out.push(92);
        } else if cb == 10 {
            out.push(92);
            out.push(110);
        } else if cb == 13 {
            out.push(92);
            out.push(114);
        } else if cb == 9 {
            out.push(92);
            out.push(116);
        } else {
            out.push(cb);
        }
        proof {
            assert(c <= '\u{7f}');
            assert(cb == c as u8);
            assert(char_seq(out@) =~= char_seq(mid) + esc_char(c));
            assert(s@.take(i + 1).drop_last() =~= s@.take(i as int));
            assert(s@.take(i + 1).last() == c);
            assert(char_seq(out@) =~= char_seq(old(out)@) + seq!['"'] + json_escape(
                s@.take(i + 1),
            ));
        }
        i += 1;
    }
    let ghost mid = out@;
    out.push(34);
    proof {
        assert(s@.take(n as int) =~= s@);
        assert(char_seq(out@) =~= char_seq(mid) + seq!['"']);
        assert(char_seq(out@) =~= char_seq(old(out)@) + json_string(s@));
    }
}

/// If a prefix of the destination schema already fails to convert, the whole
/// schema fails.
proof fn lemma_dict_convert_prefix_err(
    dm: Seq<(Seq<char>, DataV)>,
    ds: Seq<(Seq<char>, TypeV)>,
    j: int,
)
    requires
        0 <= j <= ds.len(),
        dict_convert_spec(dm, ds.take(j)) is Err,
    ensures
        dict_convert_spec(dm, ds) is Err,
    decreases ds.len() - j,
{
    if j == ds.len() {
        assert(ds.take(j) =~= ds);
    } else {
        assert(ds.take(j + 1).drop_last() =~= ds.take(j));
        lemma_dict_convert_prefix_err(dm, ds, j + 1);
    }
}

/// Appends the JSON serialization of a message value; yields false when the
/// value has no JSON form here (a float, or text beyond ASCII).
#[verifier::loop_isolation(false)]
#[verifier::rlimit(80)]
fn push_json_value(out: &mut Vec<u8>, v: &MessageData) -> (ok: bool)
    ensures
        ok == (json_of_value(v@) is Ok),
        ok ==> char_seq(final(out)@) == char_seq(old(out)@) + json_of_value(v@)->Ok_0,
        ok && all_ascii(old(out)@) ==> all_ascii(final(out)@),
    decreases *v,
{
    match v {
        MessageData::Text(t) => {
            if t.value.as_str().is_ascii() {
                push_json_string(out, t.value.as_str());
                true
            } else {
                false
            }
        },
        MessageData::Int(i) => {
            if *i >= 0 {
                push_u64_dec(out, *i as u64);
            } else {
                let ghost mid = out@;
                out.push(45);
                proof {
                    assert(char_seq(out@) =~= char_seq(mid) + seq!['-']);
                }
                let mag: u64 = (-(*i as i128)) as u64;
                push_u64_dec(out, mag);
            }
            proof {
                assert(char_seq(out@) =~= char_seq(old(out)@) + render_int(*i as int));
            }
            true
        },
        MessageData::Float(_) => false,
        MessageData::Binary(bin) => {
            let ghost bs = bin.value@;
            out.push(91);
            proof {
                assert(bs.take(0) =~= Seq::<u8>::empty());
                assert(char_seq(out@) =~= char_seq(old(out)@) + seq!['['] + json_bytes(
                    bs.take(0),
                ));
            }
            let n = bin.value.len();
            let mut k: usize = 0;
            while k < n
                invariant
                    k <= n,
                    n == bs.len(),
                    bs == bin.value@,
                    char_seq(out@) == char_seq(old(out)@) + seq!['['] + json_bytes(
                        bs.take(k as int),
                    ),
                    all_ascii(old(out)@) ==> all_ascii(out@),
                decreases n - k,
            {
                let ghost mid = out@;
                if k > 0 {
                    out.push(44);
                    proof {
                        assert(char_seq(out@) =~= char_seq(mid) + seq![',']);
                    }
                }
                push_u64_dec(out, bin.value[k] as u64);
                proof {
                    assert(bs.take(k + 1).drop_last() =~= bs.take(k as int));
                    assert(bs.take(k + 1).last() == bs[k as int]);
                    assert(char_seq(out@) =~= char_seq(old(out)@) + seq!['['] + json_bytes(
                        bs.take(k + 1),
                    ));
                }
                k += 1;
            }
            let ghost mid = out@;
            out.push(93);
            proof {
                assert(bs.take(n as int) =~= bs);
                assert(char_seq(out@) =~= char_seq(mid) + seq![']']);
                assert(char_seq(out@) =~= char_seq(old(out)@) + (seq!['['] + json_bytes(bs)
                    + seq![']']));
            }
            true
        },
        MessageData::Dict(d) => {
            let ghost dm = datamap_view(d.data@);
            proof {
                lemma_datamap_view_index(d.data@);
            }
            out.push(123);
            proof {
                assert(dm.take(0) =~= Seq::<(Seq<char>, DataV)>::empty());
                assert(json_entries(dm.take(0)) == Ok::<Seq<char>, ()>(Seq::<char>::empty()));
                assert(char_seq(out@) =~= char_seq(old(out)@) + seq!['{'] + json_entries(
                    dm.take(0),
                )->Ok_0);
            }
            let n = d.data.len();
            let mut k: usize = 0;
            while k < n
                invariant
                    k <= n,
                    n == d.data@.len(),
                    dm == datamap_view(d.data@),
                    dm.len() == n,
                    forall|j: int|
                        0 <= j < n ==> dm[j] == (d.data@[j].0@, data_view(d.data@[j].1)),
                    json_entries(dm.take(k as int)) is Ok,
                    char_seq(out@) == char_seq(old(out)@) + seq!['{'] + json_entries(
                        dm.take(k as int),
                    )->Ok_0,
                    all_ascii(old(out)@) ==> all_ascii(out@),
                decreases n - k,
            {
                let ghost mid0 = out@;
                let (key, val) = &d.data[k];
                if !key.as_str().is_ascii() {
                    proof {
                        assert(dm.take(k + 1).drop_last() =~= dm.take(k as int));
                        assert(json_entries(dm.take(k + 1)) is Err);
                        lemma_json_entries_prefix_err(dm, k + 1);
                    }
                    return false;
                }
                if k > 0 {
                    out.push(44);
                    proof {
                        assert(char_seq(out@) =~= char_seq(mid0) + seq![',']);
                    }
                }
                push_json_string(out, key.as_str());
                let ghost mid1 = out@;
                out.push(58);
                proof {
                    assert(char_seq(out@) =~= char_seq(mid1) + seq![':']);
                }
                proof {
                    assert(decreases_to!(*v => *d));
                    assert(decreases_to!(*d => d.data));
                    assert(decreases_to!(d.data => d.data@[k as int]));
                    assert(decreases_to!(d.data@[k as int] => d.data@[k as int].1));
                }
                if !push_json_value(out, val) {
                    proof {
                        assert(dm.take(k + 1).drop_last() =~= dm.take(k as int));
                        assert(json_entries(dm.take(k + 1)) is Err);
                        lemma_json_entries_prefix_err(dm, k + 1);
                    }
                    return false;
                }
                proof {
                    assert(dm.take(k + 1).drop_last() =~= dm.take(k as int));
                    assert(dm.take(k + 1).last() == dm[k as int]);
                    assert(json_entries(dm.take(k + 1)) is Ok);
                    assert(char_seq(out@) =~= char_seq(old(out)@) + seq!['{'] + json_entries(
                        dm.take(k + 1),
                    )->Ok_0);
                }
                k += 1;
            }
            let ghost mid = out@;
            out.push(125);
            proof {
                assert(dm.take(n as int) =~= dm);
                assert(char_seq(out@) =~= char_seq(mid) + seq!['}']);
                assert(char_seq(out@) =~= char_seq(old(out)@) + (seq!['{'] + json_entries(
                    dm,
                )->Ok_0 + seq!['}']));
            }
            true
        },
    }
}

/// If a prefix of the entries already fails to serialize, the whole
/// dictionary fails.
proof fn lemma_json_entries_prefix_err(dm: Seq<(Seq<char>, DataV)>, j: int)
    requires
        0 <= j <= dm.len(),
        json_entries(dm.take(j)) is Err,
    ensures
        json_entries(dm) is Err,
    decreases dm.len() - j,
{
    if j == dm.len() {
        assert(dm.take(j) =~= dm);
    } else {
        assert(dm.take(j + 1).drop_last() =~= dm.take(j));
        lemma_json_entries_prefix_err(dm, j + 1);
    }
}

/// The JSON text of a message value, or an error when it has no JSON form.
fn json_value_string(v: &MessageData) -> (r: Result<String, ConversionError>)
    ensures
        match r {
            Ok(s) => json_of_value(v@) == Ok::<Seq<char>, ()>(s@),
            Err(_) => json_of_value(v@) is Err,
        },
{
    let mut out: Vec<u8> = Vec::new();
    proof {
        assert(all_ascii(Seq::<u8>::empty()));
    }
    if push_json_value(&mut out, v) {
        proof {
            assert(char_seq(Seq::<u8>::empty()) =~= Seq::<char>::empty());
        }
        Ok(ascii_bytes_to_string(out))
    } else {
        Err(ConversionError {  })
    }
}

/// Looks `key` up in dictionary data; the first entry with a matching key
/// wins.
fn datamap_get<'a>(s: &'a Vec<(String, MessageData)>, key: &String) -> (r: Option<
    &'a MessageData,
>)
    ensures
        match r {
            Some(d) => lookup(datamap_view(s@), key@) == Some(d@),
            None => lookup(datamap_view(s@), key@) is None,
        },
{
    proof {
        lemma_datamap_view_index(s@);
    }
    let mut i: usize = 0;
    while i < s.len()
        invariant
            i <= s.len(),
            forall|j: int| 0 <= j < i ==> s@[j].0@ != key@,
            datamap_view(s@).len() == s@.len(),
            forall|j: int|
                0 <= j < s@.len() ==> datamap_view(s@)[j] == (s@[j].0@, data_view(s@[j].1)),
        decreases s.len() - i,
    {
        if s[i].0 == *key {
            proof {
                lemma_lookup_first_match(datamap_view(s@), key@, i as int);
            }
            return Some(&s[i].1);
        }
        i += 1;
    }
    proof {
        lemma_lookup_no_match(datamap_view(s@), key@);
    }
    None
}

/// Converts one value to a destination type, recursing through dictionary
/// schemas.
#[verifier::loop_isolation(false)]
pub fn convert_value(v: &MessageData, t: &MessageType) -> (r: Result<MessageData, ConversionError>)
    ensures
        conv_result_view(r) == convert_value_spec(v@, t@),
    decreases *t,
{
    match t {
        MessageType::Text(ct) => match v {
            MessageData::Text(tx) => Ok(
                MessageData::Text(
                    Text { value: tx.value.clone(), content_type: tx.content_type },
                ),
            ),
            MessageData::Int(i) => Ok(
                MessageData::Text(
                    Text { value: render_i64(*i), content_type: TextContentType::Plain },
                ),
            ),
            MessageData::Dict(_) => match ct {
                TextContentType::Json => match json_value_string(v) {
                    Ok(s) => Ok(
                        MessageData::Text(
                            Text { value: s, content_type: TextContentType::Json },
                        ),
                    ),
                    Err(e) => Err(e),
                },
                TextContentType::Plain => Err(ConversionError {  }),
            },
            _ => Err(ConversionError {  }),
        },
        MessageType::Binary(_) => match v {
            MessageData::Binary(b) => Ok(
                MessageData::Binary(
                    Binary { value: copy_bytes(&b.value), content_type: b.content_type },
                ),
            ),
            _ => Err(ConversionError {  }),
        },
        MessageType::Int => match v {
            MessageData::Int(i) => Ok(MessageData::Int(*i)),
            MessageData::Text(tx) => match parse_i64(tx.value.as_str()) {
                Some(i) => Ok(MessageData::Int(i)),
                None => Err(ConversionError {  }),
            },
            MessageData::Float(b) => Ok(MessageData::Int(f32_bits_to_i64(*b))),
            _ => Err(ConversionError {  }),
        },
        MessageType::Float => match v {
            MessageData::Float(b) => Ok(MessageData::Float(*b)),
            MessageData::Int(i) => Ok(MessageData::Float(i64_to_f32_bits(*i))),
            _ => Err(ConversionError {  }),
        },
        MessageType::Dict(ds) => match v {
            MessageData::Dict(d) => {
                let ghost dmv = datamap_view(d.data@);
                let ghost dsv = schema_view(ds@);
                proof {
                    lemma_schema_view_index(ds@);
                    assert(dsv.take(0) =~= Seq::<(Seq<char>, TypeV)>::empty());
                }
                let mut newdata: Vec<(String, MessageData)> = Vec::new();
                let n = ds.len();
                let mut k: usize = 0;
                while k < n
                    invariant
                        k <= n,
                        n == ds@.len(),
                        dmv == datamap_view(d.data@),
                        dsv == schema_view(ds@),
                        dsv.len() == n,
                        forall|j: int|
                            0 <= j < n ==> dsv[j] == (ds@[j].0@, type_view(ds@[j].1)),
                        dict_convert_spec(dmv, dsv.take(k as int)) == Ok::<
                            Seq<(Seq<char>, DataV)>,
                            (),
                        >(datamap_view(newdata@)),
                    decreases n - k,
                {
                    let (key, ty) = &ds[k];
                    let found = datamap_get(&d.data, key);
                    match found {
                        None => {
                            proof {
                                assert(dsv.take(k + 1).drop_last() =~= dsv.take(k as int));
                                assert(dict_convert_spec(dmv, dsv.take(k + 1)) is Err);
                                lemma_dict_convert_prefix_err(dmv, dsv, k + 1);
                            }
                            return Err(ConversionError {  });
                        },
                        Some(val) => {
                            proof {
                                assert(decreases_to!(*t => *ds));
                                assert(decreases_to!(*ds => ds@[k as int]));
                                assert(decreases_to!(ds@[k as int] => ds@[k as int].1));
                            }
                            match convert_value(val, ty) {
                                Err(e) => {
                                    proof {
                                        assert(dsv.take(k + 1).drop_last() =~= dsv.take(
                                            k as int,
                                        ));
                                        assert(dict_convert_spec(dmv, dsv.take(k + 1)) is Err);
                                        lemma_dict_convert_prefix_err(dmv, dsv, k + 1);
                                    }
                                    return Err(e);
                                },
                                Ok(nv) => {
                                    let ghost before = newdata@;
                                    newdata.push((key.clone(), nv));
                                    proof {
                                        lemma_datamap_view_index(before);
                                        lemma_datamap_view_index(newdata@);
                                        assert(datamap_view(newdata@) =~= datamap_view(
                                            before,
                                        ).push((key@, nv@)));
                                        assert(dsv.take(k + 1).drop_last() =~= dsv.take(
                                            k as int,
                                        ));
                                        assert(dsv.take(k + 1).last() == dsv[k as int]);
                                        assert(dict_convert_spec(dmv, dsv.take(k + 1)) == Ok::<
                                            Seq<(Seq<char>, DataV)>,
                                            (),
                                        >(datamap_view(newdata@)));
                                    }
                                },
                            }
                        },
                    }
                    k += 1;
                }
                proof {
                    assert(dsv.take(n as int) =~= dsv);
                }
                Ok(MessageData::Dict(Dict { data: newdata, schema: copy_schema(ds) }))
            },
            _ => Err(ConversionError {  }),
        },
    }
}

/// Applies a resolved converter to a message.  A message whose variant does
/// not fit the converter yields a conversion error rather than data of the
/// wrong shape.
pub fn apply(c: &Converter, src: &MessageData, dst: &MessageType) -> (r: Result<
    MessageData,
    ConversionError,
>)
    ensures
        conv_result_view(r) == apply_spec(*c, src@, dst@),
{
    match c {
        Converter::Identity => Ok(src.deep_copy()),
        Converter::IntToText => match src {
            MessageData::Int(i) => Ok(
                MessageData::Text(
                    Text { value: render_i64(*i), content_type: TextContentType::Plain },
                ),
            ),
            _ => Err(ConversionError {  }),
        },
        Converter::FloatToText => Err(ConversionError {  }),
        Converter::TextToInt => match src {
            MessageData::Text(tx) => match parse_i64(tx.value.as_str()) {
                Some(i) => Ok(MessageData::Int(i)),
                None => Err(ConversionError {  }),
            },
            _ => Err(ConversionError {  }),
        },
        Converter::TextToFloat => Err(ConversionError {  }),
        Converter::IntToFloat => match src {
            MessageData::Int(i) => Ok(MessageData::Float(i64_to_f32_bits(*i))),
            _ => Err(ConversionError {  }),
        },
        Converter::FloatToInt => match src {
            MessageData::Float(b) => Ok(MessageData::Int(f32_bits_to_i64(*b))),
            _ => Err(ConversionError {  }),
        },
        Converter::DictToDict => match (src, dst) {
            (MessageData::Dict(_), MessageType::Dict(_)) => convert_value(src, dst),
            _ => Err(ConversionError {  }),
        },
        Converter::DictToTextJson => match src {
            MessageData::Dict(_) => match json_value_string(src) {
                Ok(s) => Ok(
                    MessageData::Text(Text { value: s, content_type: TextContentType::Json }),
                ),
                Err(e) => Err(e),
            },
            _ => Err(ConversionError {  }),
        },
    }
}

// ---------------------------------------------------------------------------
// The self-conversion law
// ---------------------------------------------------------------------------

/// A well-formed type: every dictionary schema in it maps each key once.
pub open spec fn type_wf(t: TypeV) -> bool
    decreases t,
{
    match t {
        TypeV::Dict(s) => unique_keys(s) && all_entry_types_wf(s),
        _ => true,
    }
}

/// All keys of a schema are distinct.
pub open spec fn unique_keys<T>(s: Seq<(Seq<char>, T)>) -> bool {
    forall|i: int, j: int| 0 <= i < j < s.len() ==> s[i].0 != s[j].0
}

pub open spec fn all_entry_types_wf(s: Seq<(Seq<char>, TypeV)>) -> bool
    decreases s,
{
    if s.len() == 0 {
        true
    } else {
        type_wf(s[0].1) && all_entry_types_wf(s.drop_first())
    }
}

/// A value fits a type exactly: same variant, and for dictionaries the same
/// schema with entries matching key for key.
pub open spec fn data_matches_type(v: DataV, t: TypeV) -> bool
    decreases t,
{
    match t {
        TypeV::Text(_) => v is Text,
        TypeV::Binary(_) => v is Binary,
        TypeV::Int => v is Int,
        TypeV::Float => v is Float,
        TypeV::Dict(ds) => match v {
            DataV::Dict(dm, vs) => vs == ds && dm.len() == ds.len() && forall|i: int|
                0 <= i < ds.len() ==> (#[trigger] dm[i]).0 == ds[i].0 && data_matches_type(
                    dm[i].1,
                    ds[i].1,
                ),
            _ => false,
        },
    }
}

proof fn lemma_all_entry_types_wf_index(s: Seq<(Seq<char>, TypeV)>, i: int)
    requires
        all_entry_types_wf(s),
        0 <= i < s.len(),
    ensures
        type_wf(s[i].1),
    decreases i,
{
    if i > 0 {
        lemma_all_entry_types_wf_index(s.drop_first(), i - 1);
    }
}

proof fn lemma_dict_self_resolves(ss: Seq<(Seq<char>, TypeV)>, k: int)
    requires
        unique_keys(ss),
        all_entry_types_wf(ss),
        0 <= k <= ss.len(),
    ensures
        dict_conversion_spec(ss, ss.skip(k)) is Ok,
    decreases ss, 0int, ss.len() - k,
{
    if k < ss.len() {
        let key = ss[k].0;
        assert(ss.skip(k)[0] == ss[k]);
        lemma_lookup_first_match(ss, key, k);
        lemma_all_entry_types_wf_index(ss, k);
        assert(decreases_to!(ss => ss[k]));
        lemma_self_conversion_resolves(ss[k].1);
        assert(ss.skip(k).drop_first() =~= ss.skip(k + 1));
        lemma_dict_self_resolves(ss, k + 1);
    } else {
        assert(ss.skip(k) =~= Seq::<(Seq<char>, TypeV)>::empty());
    }
}

/// Every well-formed type resolves a conversion to itself; any type other
/// than a dictionary resolves to the identity converter, and a dictionary
/// resolves to the per-key dictionary conversion.
pub proof fn lemma_self_conversion_resolves(t: TypeV)
    requires
        type_wf(t),
    ensures
        conversion_spec(t, t) is Ok,
        !(t is Dict) ==> conversion_spec(t, t) == Ok::<Converter, FceV>(Converter::Identity),
        t is Dict ==> conversion_spec(t, t) == Ok::<Converter, FceV>(Converter::DictToDict),
    decreases t, 1int, 0int,
{
    match t {
        TypeV::Dict(ss) => {
            assert(decreases_to!(t => ss));
            lemma_dict_self_resolves(ss, 0);
            assert(ss.skip(0) =~= ss);
            assert(dict_conversion_spec(ss, ss) is Ok);
            lemma_dict_conversion_ok_is_dict(ss, ss);
        },
        _ => {},
    }
}

/// A successful dictionary resolution always yields the dictionary
/// converter.
proof fn lemma_dict_conversion_ok_is_dict(
    ss: Seq<(Seq<char>, TypeV)>,
    ds: Seq<(Seq<char>, TypeV)>,
)
    requires
        dict_conversion_spec(ss, ds) is Ok,
    ensures
        dict_conversion_spec(ss, ds) == Ok::<Converter, FceV>(Converter::DictToDict),
    decreases ds,
{
    if ds.len() > 0 {
        lemma_dict_conversion_ok_is_dict(ss, ds.drop_first());
    }
}

proof fn lemma_dict_self_applies(
    ss: Seq<(Seq<char>, TypeV)>,
    dm: Seq<(Seq<char>, DataV)>,
    k: int,
)
    requires
        unique_keys(ss),
        all_entry_types_wf(ss),
        data_matches_type(DataV::Dict(dm, ss), TypeV::Dict(ss)),
        0 <= k <= ss.len(),
    ensures
        dict_convert_spec(dm, ss.take(k)) == Ok::<Seq<(Seq<char>, DataV)>, ()>(dm.take(k)),
    decreases ss, 0int, k,
{
    if k == 0 {
        assert(ss.take(0) =~= Seq::<(Seq<char>, TypeV)>::empty());
        assert(dm.take(0) =~= Seq::<(Seq<char>, DataV)>::empty());
    } else {
        lemma_dict_self_applies(ss, dm, k - 1);
        let key = ss[k - 1].0;
        assert(ss.take(k).drop_last() =~= ss.take(k - 1));
        assert(ss.take(k).last() == ss[k - 1]);
        assert(dm[k - 1].0 == key);
        assert(forall|j: int| 0 <= j < k - 1 ==> dm[j].0 == ss[j].0 && ss[j].0 != key);
        lemma_lookup_first_match(dm, key, k - 1);
        lemma_all_entry_types_wf_index(ss, k - 1);
        assert(data_matches_type(dm[k - 1].1, ss[k - 1].1));
        assert(decreases_to!(ss => ss[k - 1]));
        lemma_self_conversion_applies(ss[k - 1].1, dm[k - 1].1);
        assert(dm.take(k - 1).push(dm[k - 1]) =~= dm.take(k));
    }
}

/// Converting a value to its own well-formed type gives the value back:
/// the resolved self-conversion is the identity on every fitting value.
pub proof fn lemma_self_conversion_applies(t: TypeV, v: DataV)
    requires
        type_wf(t),
        data_matches_type(v, t),
    ensures
        convert_value_spec(v, t) == Ok::<DataV, ()>(v),
    decreases t, 1int, 0int,
{
    match t {
        TypeV::Dict(ss) => {
            let dm = v->Dict_0;
            assert(v == DataV::Dict(dm, ss));
            assert(decreases_to!(t => ss));
            lemma_dict_self_applies(ss, dm, ss.len() as int);
            assert(ss.take(ss.len() as int) =~= ss);
            assert(dm.take(ss.len() as int) =~= dm);
        },
        _ => {},
    }
}

/// The self-conversion law: for every well-formed type, resolution from the
/// type to itself succeeds, and applying the resolved converter to any value
/// fitting that type gives the value back unchanged.
pub proof fn lemma_self_conversion(t: TypeV, v: DataV)
    requires
        type_wf(t),
        data_matches_type(v, t),
    ensures
        conversion_spec(t, t) is Ok,
        apply_spec(conversion_spec(t, t)->Ok_0, v, t) == Ok::<DataV, ()>(v),
{
    lemma_self_conversion_resolves(t);
    if t is Dict {
        lemma_self_conversion_applies(t, v);
    }
}

/// The subset law of dictionary conversion: when every destination key is
/// present in the source schema with a recursively convertible type, the
/// dictionaries convert — source keys without a destination counterpart do
/// not matter.
pub proof fn lemma_dict_subset_converts(
    ss: Seq<(Seq<char>, TypeV)>,
    ds: Seq<(Seq<char>, TypeV)>,
)
    requires
        forall|j: int|
            0 <= j < ds.len() ==> ((#[trigger] lookup(ss, ds[j].0)) matches Some(t)
                && convertible(t, ds[j].1)),
    ensures
        dict_conversion_spec(ss, ds) == Ok::<Converter, FceV>(Converter::DictToDict),
    decreases ds.len(),
{
    if ds.len() > 0 {
        assert((lookup(ss, ds[0].0) matches Some(t) && convertible(t, ds[0].1)));
        assert(forall|j: int|
            0 <= j < ds.len() - 1 ==> ds.drop_first()[j] == #[trigger] ds[j + 1]);
        lemma_dict_subset_converts(ss, ds.drop_first());
    }
}

/// The missing-key law of dictionary conversion: if the first destination
/// entry that does not resolve is one whose key is absent from the source
/// schema, the conversion fails with the diagnostic naming exactly that key.
pub proof fn lemma_dict_missing_key(
    ss: Seq<(Seq<char>, TypeV)>,
    ds: Seq<(Seq<char>, TypeV)>,
    i: int,
)
    requires
        0 <= i < ds.len(),
        lookup(ss, ds[i].0) is None,
        forall|j: int|
            0 <= j < i ==> ((#[trigger] lookup(ss, ds[j].0)) matches Some(t) && convertible(
                t,
                ds[j].1,
            )),
    ensures
        dict_conversion_spec(ss, ds) == Err::<Converter, FceV>(
            FceV::Detailed(missing_key_error(ds[i].0)),
        ),
    decreases i,
{
    assert(forall|j: int| 0 <= j < ds.len() - 1 ==> ds.drop_first()[j] == #[trigger] ds[j + 1]);
    if i == 0 {
    } else {
        assert((lookup(ss, ds[0].0) matches Some(t) && convertible(t, ds[0].1)));
        lemma_dict_missing_key(ss, ds.drop_first(), i - 1);
    }
}

} // verus!
