//! The message domain: schema types (`MessageType`), values (`MessageData`),
//! and their mathematical views.
//!
//! `MessageType` holds the declared shape of the data flowing through a port,
//! while `MessageData` holds an actual message.  The two enums mirror each
//! other variant by variant:
//!
//! - `Int`: 64-bit signed integer
//! - `Float`: 32-bit IEEE 754 number, carried as its raw bit pattern
//! - `Text`: a string with a content-type hint
//! - `Binary`: a byte vector with a content-type hint
//! - `Dict`: a mapping from string keys to nested values; in `MessageType`
//!   the mapping (the "schema") goes to nested types, in `MessageData` to
//!   nested data.

use vstd::prelude::*;
use vstd::string::StringExecFns;

verus! {

/// Hint about the nature of a text message.
#[derive(Clone, Copy, Debug, PartialEq, Eq, Structural)]
pub enum TextContentType {
    Plain,
    Json,
}

/// Hint about the nature of a binary message.
#[derive(Clone, Copy, Debug, PartialEq, Eq, Structural)]
pub enum BinaryContentType {
    Unknown,
}

/// A dictionary schema: string keys, each with the type of the value stored
/// under that key.  Lookup takes the first entry with a matching key.
pub type DictSchema = Vec<(String, MessageType)>;

/// The declared type of a message; `Dict` schemas may nest arbitrarily.
#[derive(Debug, PartialEq)]
pub enum MessageType {
    Text(TextContentType),
    Binary(BinaryContentType),
    Int,
    Float,
    Dict(DictSchema),
}

/// A text value.
#[derive(Clone, Debug, PartialEq)]
pub struct Text {
    pub value: String,
    pub content_type: TextContentType,
}

/// A binary value.
#[derive(Clone, Debug, PartialEq)]
pub struct Binary {
    pub value: Vec<u8>,
    pub content_type: BinaryContentType,
}

/// A dictionary value: data for each key, and the schema it was declared with.
#[derive(Debug, PartialEq)]
pub struct Dict {
    pub data: Vec<(String, MessageData)>,
    pub schema: DictSchema,
}

/// One message.  The `Float` variant carries the raw bit pattern of an IEEE
/// 754 binary32 number, so that the value domain stays within the integers.
#[derive(Debug, PartialEq)]
pub enum MessageData {
    Text(Text),
    Binary(Binary),
    Int(i64),
    Float(u32),
    Dict(Dict),
}

/// Mathematical view of a `MessageType`.
pub enum TypeV {
    Text(TextContentType),
    Binary(BinaryContentType),
    Int,
    Float,
    Dict(Seq<(Seq<char>, TypeV)>),
}

/// Mathematical view of a `MessageData`.
pub enum DataV {
    Text(Seq<char>, TextContentType),
    Binary(Seq<u8>, BinaryContentType),
    Int(i64),
    Float(u32),
    Dict(Seq<(Seq<char>, DataV)>, Seq<(Seq<char>, TypeV)>),
}

pub open spec fn type_view(t: MessageType) -> TypeV
    decreases t,
{
    match t {
        MessageType::Text(ct) => TypeV::Text(ct),
        MessageType::Binary(ct) => TypeV::Binary(ct),
        MessageType::Int => TypeV::Int,
        MessageType::Float => TypeV::Float,
        MessageType::Dict(schema) => TypeV::Dict(schema_view(schema@)),
    }
}

pub open spec fn schema_view(s: Seq<(String, MessageType)>) -> Seq<(Seq<char>, TypeV)>
    decreases s,
{
    if s.len() == 0 {
        Seq::empty()
    } else {
        seq![(s[0].0@, type_view(s[0].1))] + schema_view(s.drop_first())
    }
}

pub open spec fn data_view(d: MessageData) -> DataV
    decreases d,
{
    match d {
        MessageData::Text(t) => DataV::Text(t.value@, t.content_type),
        MessageData::Binary(b) => DataV::Binary(b.value@, b.content_type),
        MessageData::Int(i) => DataV::Int(i),
        MessageData::Float(bits) => DataV::Float(bits),
        MessageData::Dict(dict) => DataV::Dict(
            datamap_view(dict.data@),
            schema_view(dict.schema@),
        ),
    }
}

pub open spec fn datamap_view(s: Seq<(String, MessageData)>) -> Seq<(Seq<char>, DataV)>
    decreases s,
{
    if s.len() == 0 {
        Seq::empty()
    } else {
        seq![(s[0].0@, data_view(s[0].1))] + datamap_view(s.drop_first())
    }
}

impl View for MessageType {
    type V = TypeV;

    open spec fn view(&self) -> TypeV {
        type_view(*self)
    }
}

impl View for MessageData {
    type V = DataV;

    open spec fn view(&self) -> DataV {
        data_view(*self)
    }
}

/// The entry under `key`, if any; the first match wins.
pub open spec fn lookup<T>(s: Seq<(Seq<char>, T)>, key: Seq<char>) -> Option<T>
    decreases s.len(),
{
    if s.len() == 0 {
        None
    } else if s[0].0 == key {
        Some(s[0].1)
    } else {
        lookup(s.drop_first(), key)
    }
}

pub broadcast proof fn lemma_schema_view_index(s: Seq<(String, MessageType)>)
    ensures
        (#[trigger] schema_view(s)).len() == s.len(),
        forall|i: int|
            0 <= i < s.len() ==> schema_view(s)[i] == (s[i].0@, type_view(s[i].1)),
    decreases s.len(),
{
    if s.len() > 0 {
        lemma_schema_view_index(s.drop_first());
    }
}

pub broadcast proof fn lemma_datamap_view_index(s: Seq<(String, MessageData)>)
    ensures
        (#[trigger] datamap_view(s)).len() == s.len(),
        forall|i: int|
            0 <= i < s.len() ==> datamap_view(s)[i] == (s[i].0@, data_view(s[i].1)),
    decreases s.len(),
{
    if s.len() > 0 {
        lemma_datamap_view_index(s.drop_first());
    }
}

/// If some entry of `s` holds `key`, `lookup` returns the first such entry.
pub proof fn lemma_lookup_first_match<T>(s: Seq<(Seq<char>, T)>, key: Seq<char>, i: int)
    requires
        0 <= i < s.len(),
        s[i].0 == key,
        forall|j: int| 0 <= j < i ==> s[j].0 != key,
    ensures
        lookup(s, key) == Some(s[i].1),
    decreases i,
{
    if i > 0 {
        lemma_lookup_first_match(s.drop_first(), key, i - 1);
    }
}

/// If no entry of `s` holds `key`, `lookup` returns `None`.
pub proof fn lemma_lookup_no_match<T>(s: Seq<(Seq<char>, T)>, key: Seq<char>)
    requires
        forall|j: int| 0 <= j < s.len() ==> s[j].0 != key,
    ensures
        lookup(s, key) is None,
    decreases s.len(),
{
    if s.len() > 0 {
        lemma_lookup_no_match(s.drop_first(), key);
    }
}

impl MessageType {
    pub fn to_display_string(&self) -> (r: String)
        ensures
            r@ == type_display(self@),
    {
        match self {
            MessageType::Text(TextContentType::Plain) => "text/plain".to_owned(),
            MessageType::Text(TextContentType::Json) => "text/json".to_owned(),
            MessageType::Binary(BinaryContentType::Unknown) => "binary/unknown".to_owned(),
            MessageType::Int => "integer".to_owned(),
            MessageType::Float => "float".to_owned(),
            MessageType::Dict(_) => "dictionary".to_owned(),
        }
    }

    /// A structural copy; derived `Clone` carries no specification, so the
    /// library copies its recursive types by hand.
    pub fn deep_copy(&self) -> (r: MessageType)
        ensures
            r@ == self@,
        decreases *self,
    {
        match self {
            MessageType::Text(ct) => MessageType::Text(*ct),
            MessageType::Binary(ct) => MessageType::Binary(*ct),
            MessageType::Int => MessageType::Int,
            MessageType::Float => MessageType::Float,
            MessageType::Dict(schema) => MessageType::Dict(copy_schema(schema)),
        }
    }
}

/// Structural copy of a schema, entry by entry.
pub fn copy_schema(s: &DictSchema) -> (r: DictSchema)
    ensures
        schema_view(r@) == schema_view(s@),
    decreases s,
{
    let mut out: DictSchema = Vec::new();
    let mut i: usize = 0;
    while i < s.len()
        invariant
            i <= s.len(),
            out@.len() == i,
            forall|j: int|
                0 <= j < i ==> (out@[j].0@, type_view(out@[j].1)) == (s@[j].0@, type_view(s@[j].1)),
        decreases s.len() - i,
    {
        let (k, t) = &s[i];
        out.push((k.clone(), t.deep_copy()));
        i += 1;
    }
    proof {
        lemma_schema_view_index(s@);
        lemma_schema_view_index(out@);
        assert(schema_view(out@) =~= schema_view(s@));
    }
    out
}

/// The short name of a message type, as shown in diagnostics.
pub open spec fn type_display(t: TypeV) -> Seq<char> {
    match t {
        TypeV::Text(TextContentType::Plain) => "text/plain"@,
        TypeV::Text(TextContentType::Json) => "text/json"@,
        TypeV::Binary(BinaryContentType::Unknown) => "binary/unknown"@,
        TypeV::Int => "integer"@,
        TypeV::Float => "float"@,
        TypeV::Dict(_) => "dictionary"@,
    }
}

/// Why no conversion between two message types could be resolved.
#[derive(Clone, Debug)]
pub enum FindConversionError {
    NoImplicitConversion,
    ConversionNotImplemented,
    NoImplicitConversionDetailed(String),
}

/// Mathematical view of a `FindConversionError`.
pub enum FceV {
    NoImplicitConversion,
    ConversionNotImplemented,
    Detailed(Seq<char>),
}

impl View for FindConversionError {
    type V = FceV;

    open spec fn view(&self) -> FceV {
        match *self {
            FindConversionError::NoImplicitConversion => FceV::NoImplicitConversion,
            FindConversionError::ConversionNotImplemented => FceV::ConversionNotImplemented,
            FindConversionError::NoImplicitConversionDetailed(s) => FceV::Detailed(s@),
        }
    }
}

/// The text shown for a resolution error.
pub open spec fn fce_display(e: FceV) -> Seq<char> {
    match e {
        FceV::NoImplicitConversion => "no implicit conversion"@,
        FceV::ConversionNotImplemented => "conversion not implemented"@,
        FceV::Detailed(d) => "no implicit conversion: "@ + d,
    }
}

impl FindConversionError {
    pub fn to_display_string(&self) -> (r: String)
        ensures
            r@ == fce_display(self@),
    {
        match self {
            FindConversionError::NoImplicitConversion => "no implicit conversion".to_owned(),
            FindConversionError::ConversionNotImplemented => "conversion not implemented".to_owned(),
            FindConversionError::NoImplicitConversionDetailed(d) => {
                let mut s = "no implicit conversion: ".to_owned();
                s.append(d.as_str());
                s
            },
        }
    }
}

/// A conversion failed while a message was being transformed.
#[derive(Clone, Debug)]
pub struct ConversionError {
}

impl ConversionError {
    pub fn to_display_string(&self) -> (r: String)
        ensures
            r@ == "Failed to convert"@,
    {
        "Failed to convert".to_owned()
    }
}

impl MessageData {
    /// The contained string, when this message is text.
    pub fn as_text(&self) -> (r: Option<&String>)
        ensures
            match *self {
                MessageData::Text(ref t) => r == Some(&t.value),
                _ => r is None,
            },
    {
        if let MessageData::Text(t) = &self {
            Some(&t.value)
        } else {
            None
        }
    }

    /// A plain-text message holding `text`.
    pub fn from_str(text: &str) -> (r: MessageData)
        ensures
            r@ == DataV::Text(text@, TextContentType::Plain),
    {
        MessageData::Text(Text { value: text.to_owned(), content_type: TextContentType::Plain })
    }

    /// A plain-text message holding a copy of `text`.
    pub fn from_string(text: &String) -> (r: MessageData)
        ensures
            r@ == DataV::Text(text@, TextContentType::Plain),
    {
        MessageData::Text(Text { value: text.clone(), content_type: TextContentType::Plain })
    }

    /// A structural copy with the same view.
    pub fn deep_copy(&self) -> (r: MessageData)
        ensures
            r@ == self@,
        decreases *self,
    {
        match self {
            MessageData::Text(t) => MessageData::Text(
                Text { value: t.value.clone(), content_type: t.content_type },
            ),
            MessageData::Binary(b) => MessageData::Binary(
                Binary { value: copy_bytes(&b.value), content_type: b.content_type },
            ),
            MessageData::Int(i) => MessageData::Int(*i),
            MessageData::Float(bits) => MessageData::Float(*bits),
            MessageData::Dict(dict) => MessageData::Dict(
                Dict { data: copy_datamap(&dict.data), schema: copy_schema(&dict.schema) },
            ),
        }
    }
}

/// Byte-for-byte copy of a byte vector.
pub fn copy_bytes(v: &Vec<u8>) -> (r: Vec<u8>)
    ensures
        r@ == v@,
{
    let mut out: Vec<u8> = Vec::new();
    let mut i: usize = 0;
    while i < v.len()
        invariant
            i <= v.len(),
            out@ =~= v@.subrange(0, i as int),
        decreases v.len() - i,
    {
        out.push(v[i]);
        i += 1;
    }
    proof {
        assert(out@ =~= v@);
    }
    out
}

/// Structural copy of dictionary data, entry by entry.
pub fn copy_datamap(s: &Vec<(String, MessageData)>) -> (r: Vec<(String, MessageData)>)
    ensures
        datamap_view(r@) == datamap_view(s@),
    decreases s,
{
    let mut out: Vec<(String, MessageData)> = Vec::new();
    let mut i: usize = 0;
    while i < s.len()
        invariant
            i <= s.len(),
            out@.len() == i,
            forall|j: int|
                0 <= j < i ==> (out@[j].0@, data_view(out@[j].1)) == (s@[j].0@, data_view(s@[j].1)),
        decreases s.len() - i,
    {
        let (k, d) = &s[i];
        out.push((k.clone(), d.deep_copy()));
        i += 1;
    }
    proof {
        lemma_datamap_view_index(s@);
        lemma_datamap_view_index(out@);
        assert(datamap_view(out@) =~= datamap_view(s@));
    }
    out
}

/// The short text shown for a message value in log lines.  A float has no
/// rendering in this library, so it shows as a placeholder.
pub open spec fn data_display(v: DataV) -> Seq<char> {
    match v {
        DataV::Text(s, _) => seq!['"'] + s + seq!['"'],
        DataV::Binary(_, _) => "<binary data>"@,
        DataV::Int(i) => crate::numeric::render_int(i as int),
        DataV::Float(_) => "<float>"@,
        DataV::Dict(_, _) => "<dictionary>"@,
    }
}

impl MessageData {
    pub fn to_display_string(&self) -> (r: String)
        ensures
            r@ == data_display(self@),
    {
        match self {
            MessageData::Text(t) => {
                let mut s = "\"".to_owned();
                s.append(t.value.as_str());
                s.append("\"");
                proof {
                    reveal_strlit("\"");
                    assert("\""@ =~= seq!['"']);
                }
                s
            },
            MessageData::Binary(_) => "<binary data>".to_owned(),
            MessageData::Int(i) => crate::numeric::render_i64(*i),
            MessageData::Float(_) => "<float>".to_owned(),
            MessageData::Dict(_) => "<dictionary>".to_owned(),
        }
    }
}

/// The result of transforming one message.
pub type ConversionResult = Result<MessageData, ConversionError>;

/// Resolves the conversion from `src` to `dst`; see [`crate::conversion`].
pub fn find_conversion(src: &MessageType, dst: &MessageType) -> (r: crate::conversion::FindConversionResult)
    ensures
        crate::conversion::find_result_view(r) == crate::conversion::conversion_spec(src@, dst@),
{
    crate::conversion::find(src, dst)
}

/// The identity conversion, used for untyped destination ports: the message
/// passes through unchanged whatever the destination type says.
pub fn no_conversion(src: &MessageData, dst: &MessageType) -> (r: ConversionResult)
    ensures
        r matches Ok(m) && m@ == src@,
{
    crate::conversion::apply(&crate::conversion::Converter::Identity, src, dst)
}

} // verus!
