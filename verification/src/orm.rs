//! ORM value handling: the SQL data types carried by rows and query
//! parameters, reading typed columns out of result rows, turning query
//! values into parameters, and join declarations.

use chrono::{DateTime, NaiveDate, NaiveDateTime, NaiveTime, Utc};
use vstd::prelude::*;
use vstd::string::StringExecFns;

use crate::cache::push_char;
use crate::error::owned;

verus! {

// ----------------------------------------------------------------------
// Outside types
// ----------------------------------------------------------------------

#[verifier::external_type_specification]
#[verifier::external_body]
pub struct ExNaiveDate(NaiveDate);

#[verifier::external_type_specification]
#[verifier::external_body]
pub struct ExNaiveTime(NaiveTime);

#[verifier::external_type_specification]
#[verifier::external_body]
pub struct ExNaiveDateTime(NaiveDateTime);

#[verifier::external_type_specification]
#[verifier::external_body]
pub struct ExJsonValue(serde_json::Value);

// ----------------------------------------------------------------------
// Names for what chrono and serde_json compute
// ----------------------------------------------------------------------

/// The UTC date and time of the instant that an RFC 3339 string names, as
/// `DateTime::parse_from_rfc3339` reads it.
pub uninterp spec fn rfc3339_parse(raw: Seq<char>) -> Option<NaiveDateTime>;

/// What `NaiveDateTime::parse_from_str(raw, "%Y-%m-%d %H:%M:%S%.f")` makes of a string.
pub uninterp spec fn naive_timestamp_parse(raw: Seq<char>) -> Option<NaiveDateTime>;

/// What `NaiveDate::parse_from_str(raw, "%Y-%m-%d")` makes of a string.
pub uninterp spec fn date_parse(raw: Seq<char>) -> Option<NaiveDate>;

/// What `serde_json::from_str` makes of a string, when it succeeds.
pub uninterp spec fn json_from_text(raw: Seq<char>) -> Option<serde_json::Value>;

/// What `serde_json::from_slice` makes of bytes, when it succeeds.
pub uninterp spec fn json_from_bytes(raw: Seq<u8>) -> Option<serde_json::Value>;

/// `DateTime::parse_from_rfc3339`, read in UTC (`naive_utc`); `None`
/// when chrono refuses the string.
#[verifier::external_body]
fn parse_rfc3339(raw: &str) -> (res: Option<NaiveDateTime>)
    ensures
        res == rfc3339_parse(raw@),
{
    DateTime::parse_from_rfc3339(raw).ok().map(|dt| dt.naive_utc())
}

/// `NaiveDateTime::parse_from_str` with `%Y-%m-%d %H:%M:%S%.f`; `None`
/// when chrono refuses the string.
#[verifier::external_body]
fn parse_naive_timestamp(raw: &str) -> (res: Option<NaiveDateTime>)
    ensures
        res == naive_timestamp_parse(raw@),
{
    NaiveDateTime::parse_from_str(raw, "%Y-%m-%d %H:%M:%S%.f").ok()
}

/// `NaiveDate::parse_from_str` with `%Y-%m-%d`; `None` when chrono refuses
/// the string.
#[verifier::external_body]
fn parse_date(raw: &str) -> (res: Option<NaiveDate>)
    ensures
        res == date_parse(raw@),
{
    NaiveDate::parse_from_str(raw, "%Y-%m-%d").ok()
}

/// `serde_json::from_str`; the message of the refusal otherwise.
#[verifier::external_body]
fn parse_json_text(raw: &str) -> (res: Result<serde_json::Value, String>)
    ensures
        res matches Ok(v) ==> json_from_text(raw@) == Some(v),
        res is Err ==> json_from_text(raw@) is None,
{
    serde_json::from_str(raw).map_err(|e| e.to_string())
}

/// `serde_json::from_slice`; the message of the refusal otherwise.
#[verifier::external_body]
fn parse_json_bytes(raw: &[u8]) -> (res: Result<serde_json::Value, String>)
    ensures
        res matches Ok(v) ==> json_from_bytes(raw@) == Some(v),
        res is Err ==> json_from_bytes(raw@) is None,
{
    serde_json::from_slice(raw).map_err(|e| e.to_string())
}

/// The text of a date (`%Y-%m-%d`), as `NaiveDate`'s `Display` writes it.
pub uninterp spec fn date_display(d: NaiveDate) -> Seq<char>;

/// The text of a time of day (`%H:%M:%S%.f`), as `NaiveTime`'s `Display` writes it.
pub uninterp spec fn time_display(t: NaiveTime) -> Seq<char>;

/// The text of a date and time (`%Y-%m-%d %H:%M:%S%.f`), as `NaiveDateTime`'s
/// `Display` writes it.
pub uninterp spec fn timestamp_display(dt: NaiveDateTime) -> Seq<char>;

/// The RFC 3339 text of a UTC date and time, as `DateTime::to_rfc3339` writes it.
pub uninterp spec fn rfc3339_display(dt: NaiveDateTime) -> Seq<char>;

/// `NaiveDate`'s `Display`.
#[verifier::external_body]
fn date_text(d: &NaiveDate) -> (res: String)
    ensures
        res@ == date_display(*d),
{
    d.to_string()
}

/// `NaiveTime`'s `Display`.
#[verifier::external_body]
fn time_text(t: &NaiveTime) -> (res: String)
    ensures
        res@ == time_display(*t),
{
    t.to_string()
}

/// `NaiveDateTime`'s `Display`.
#[verifier::external_body]
fn naive_timestamp_text(dt: &NaiveDateTime) -> (res: String)
    ensures
        res@ == timestamp_display(*dt),
{
    dt.to_string()
}

/// `DateTime::to_rfc3339` of a UTC date and time.
#[verifier::external_body]
fn utc_rfc3339_text(dt: &NaiveDateTime) -> (res: String)
    ensures
        res@ == rfc3339_display(*dt),
{
    DateTime::<Utc>::from_naive_utc_and_offset(*dt, Utc).to_rfc3339()
}


// ----------------------------------------------------------------------
// SQL data types
// ----------------------------------------------------------------------

/// A value of a SQL column or query parameter. Floating-point values are
/// carried as their IEEE-754 bit patterns (`f32::to_bits`, `f64::to_bits`).
#[derive(Debug, Clone)]
pub enum DataType {
    Boolean(Option<bool>),
    Int32(Option<i32>),
    Int64(Option<i64>),
    Uint32(Option<u32>),
    Uint64(Option<u64>),
    Float(Option<u32>),
    Double(Option<u64>),
    Str(Option<String>),
    Binary(Option<Vec<u8>>),
    Date(Option<String>),
    Time(Option<String>),
    Timestamp(Option<String>),
}

/// A SQL statement with its parameters.
#[derive(Debug, Clone)]
pub struct Query {
    pub sql: String,
    pub params: Vec<DataType>,
}

/// A named column value of a result row.
#[derive(Debug, Clone)]
pub struct Field {
    pub name: String,
    pub value: DataType,
}

/// A result row.
#[derive(Debug, Clone)]
pub struct Row {
    pub fields: Vec<Field>,
    pub index: String,
}

/// The SQL type that a typed read expected.
#[derive(Debug, Clone, Copy, PartialEq, Eq, Structural)]
pub enum Expected {
    Boolean,
    Int32,
    Int64,
    Uint32,
    Uint64,
    Float,
    Double,
    Str,
    Binary,
    Timestamp,
    Date,
    Json,
}

/// Why a column could not be read, or a value not passed as a parameter.
#[derive(Debug, Clone)]
pub enum OrmError {
    /// missing column '{name}'
    MissingColumn(String),
    /// expected {type} data type
    UnexpectedType(Expected),
    /// unsupported timestamp: {raw}; expected RFC3339 or "%Y-%m-%d %H:%M:%S%.f" format
    UnsupportedTimestamp(String),
    /// unsupported date: {raw}; expected "%Y-%m-%d" format
    UnsupportedDate(String),
    /// the JSON parser's message
    InvalidJson(String),
    /// unsupported values require explicit conversion before building the query
    UnsupportedValue,
}

/// The value of the first field named `name`.
pub open spec fn field_value(fields: Seq<Field>, name: Seq<char>) -> Option<DataType>
    decreases fields.len(),
{
    if fields.len() == 0 {
        None
    } else if fields[0].name@ == name {
        Some(fields[0].value)
    } else {
        field_value(fields.drop_first(), name)
    }
}

/// Whether a value is SQL `NULL`.
pub open spec fn is_null_spec(v: DataType) -> bool {
    match v {
        DataType::Boolean(o) => o is None,
        DataType::Int32(o) => o is None,
        DataType::Int64(o) => o is None,
        DataType::Uint32(o) => o is None,
        DataType::Uint64(o) => o is None,
        DataType::Float(o) => o is None,
        DataType::Double(o) => o is None,
        DataType::Str(o) => o is None,
        DataType::Binary(o) => o is None,
        DataType::Date(o) => o is None,
        DataType::Time(o) => o is None,
        DataType::Timestamp(o) => o is None,
    }
}

/// The value of the column `name` of `row`: the first field so named.
pub fn row_field<'a>(row: &'a Row, name: &str) -> (res: Result<&'a DataType, OrmError>)
    ensures
        match field_value(row.fields@, name@) {
            Some(v) => res matches Ok(r) && *r == v,
            None => res matches Err(OrmError::MissingColumn(n)) && n@ == name@,
        },
{
    let key = owned(name);
    let mut i: usize = 0;
    assert(row.fields@.skip(0) =~= row.fields@);
    while i < row.fields.len()
        invariant
            i <= row.fields.len(),
            key@ == name@,
            field_value(row.fields@, name@) == field_value(row.fields@.skip(i as int), name@),
        decreases row.fields.len() - i,
    {
        assert(row.fields@.skip(i as int).drop_first() =~= row.fields@.skip(i + 1));
        assert(row.fields@.skip(i as int)[0] == row.fields@[i as int]);
        if row.fields[i].name == key {
            return Ok(&row.fields[i].value);
        }
        i = i + 1;
    }
    assert(row.fields@.skip(i as int) =~= Seq::<Field>::empty());
    Err(OrmError::MissingColumn(key))
}

/// Whether a value is SQL `NULL`.
pub fn is_null(value: &DataType) -> (res: bool)
    ensures
        res == is_null_spec(*value),
{
    match value {
        DataType::Boolean(o) => o.is_none(),
        DataType::Int32(o) => o.is_none(),
        DataType::Int64(o) => o.is_none(),
        DataType::Uint32(o) => o.is_none(),
        DataType::Uint64(o) => o.is_none(),
        DataType::Float(o) => o.is_none(),
        DataType::Double(o) => o.is_none(),
        DataType::Str(o) => o.is_none(),
        DataType::Binary(o) => o.is_none(),
        DataType::Date(o) => o.is_none(),
        DataType::Time(o) => o.is_none(),
        DataType::Timestamp(o) => o.is_none(),
    }
}

/// A non-null boolean.
pub fn as_bool(value: &DataType) -> (res: Result<bool, OrmError>)
    ensures
        match *value {
            DataType::Boolean(Some(v)) => res == Ok::<bool, OrmError>(v),
            _ => res == Err::<bool, OrmError>(OrmError::UnexpectedType(Expected::Boolean)),
        },
{
    match value {
        DataType::Boolean(Some(v)) => Ok(*v),
        _ => Err(OrmError::UnexpectedType(Expected::Boolean)),
    }
}

/// A non-null 32-bit integer.
pub fn as_i32(value: &DataType) -> (res: Result<i32, OrmError>)
    ensures
        match *value {
            DataType::Int32(Some(v)) => res == Ok::<i32, OrmError>(v),
            _ => res == Err::<i32, OrmError>(OrmError::UnexpectedType(Expected::Int32)),
        },
{
    match value {
        DataType::Int32(Some(v)) => Ok(*v),
        _ => Err(OrmError::UnexpectedType(Expected::Int32)),
    }
}

/// A non-null 64-bit integer.
pub fn as_i64(value: &DataType) -> (res: Result<i64, OrmError>)
    ensures
        match *value {
            DataType::Int64(Some(v)) => res == Ok::<i64, OrmError>(v),
            _ => res == Err::<i64, OrmError>(OrmError::UnexpectedType(Expected::Int64)),
        },
{
    match value {
        DataType::Int64(Some(v)) => Ok(*v),
        _ => Err(OrmError::UnexpectedType(Expected::Int64)),
    }
}

/// A non-null unsigned 32-bit integer.
pub fn as_u32(value: &DataType) -> (res: Result<u32, OrmError>)
    ensures
        match *value {
            DataType::Uint32(Some(v)) => res == Ok::<u32, OrmError>(v),
            _ => res == Err::<u32, OrmError>(OrmError::UnexpectedType(Expected::Uint32)),
        },
{
    match value {
        DataType::Uint32(Some(v)) => Ok(*v),
        _ => Err(OrmError::UnexpectedType(Expected::Uint32)),
    }
}

/// A non-null unsigned 64-bit integer.
pub fn as_u64(value: &DataType) -> (res: Result<u64, OrmError>)
    ensures
        match *value {
            DataType::Uint64(Some(v)) => res == Ok::<u64, OrmError>(v),
            _ => res == Err::<u64, OrmError>(OrmError::UnexpectedType(Expected::Uint64)),
        },
{
    match value {
        DataType::Uint64(Some(v)) => Ok(*v),
        _ => Err(OrmError::UnexpectedType(Expected::Uint64)),
    }
}

/// The bit pattern of a non-null 32-bit float.
pub fn as_f32_bits(value: &DataType) -> (res: Result<u32, OrmError>)
    ensures
        match *value {
            DataType::Float(Some(v)) => res == Ok::<u32, OrmError>(v),
            _ => res == Err::<u32, OrmError>(OrmError::UnexpectedType(Expected::Float)),
        },
{
    match value {
        DataType::Float(Some(v)) => Ok(*v),
        _ => Err(OrmError::UnexpectedType(Expected::Float)),
    }
}

/// The bit pattern of a non-null 64-bit float.
pub fn as_f64_bits(value: &DataType) -> (res: Result<u64, OrmError>)
    ensures
        match *value {
            DataType::Double(Some(v)) => res == Ok::<u64, OrmError>(v),
            _ => res == Err::<u64, OrmError>(OrmError::UnexpectedType(Expected::Double)),
        },
{
    match value {
        DataType::Double(Some(v)) => Ok(*v),
        _ => Err(OrmError::UnexpectedType(Expected::Double)),
    }
}

/// A non-null string.
pub fn as_string(value: &DataType) -> (res: Result<String, OrmError>)
    ensures
        match *value {
            DataType::Str(Some(v)) => res == Ok::<String, OrmError>(v),
            _ => res == Err::<String, OrmError>(OrmError::UnexpectedType(Expected::Str)),
        },
{
    match value {
        DataType::Str(Some(raw)) => Ok(raw.clone()),
        _ => Err(OrmError::UnexpectedType(Expected::Str)),
    }
}

/// Non-null binary data.
pub fn as_binary(value: &DataType) -> (res: Result<Vec<u8>, OrmError>)
    ensures
        match *value {
            DataType::Binary(Some(v)) => res matches Ok(b) && b@ == v@,
            _ => res == Err::<Vec<u8>, OrmError>(OrmError::UnexpectedType(Expected::Binary)),
        },
{
    match value {
        DataType::Binary(Some(bytes)) => Ok(bytes.clone()),
        _ => Err(OrmError::UnexpectedType(Expected::Binary)),
    }
}

/// The UTC date and time of a non-null timestamp: an RFC 3339 string, or
/// failing that a `%Y-%m-%d %H:%M:%S%.f` string read as UTC.
pub fn as_timestamp(value: &DataType) -> (res: Result<NaiveDateTime, OrmError>)
    ensures
        match *value {
            DataType::Timestamp(Some(raw)) => match rfc3339_parse(raw@) {
                Some(t) => res == Ok::<NaiveDateTime, OrmError>(t),
                None => match naive_timestamp_parse(raw@) {
                    Some(t) => res == Ok::<NaiveDateTime, OrmError>(t),
                    None => res matches Err(OrmError::UnsupportedTimestamp(r)) && r@ == raw@,
                },
            },
            _ => res matches Err(OrmError::UnexpectedType(Expected::Timestamp)),
        },
{
    match value {
        DataType::Timestamp(Some(raw)) => {
            if let Some(parsed) = parse_rfc3339(raw.as_str()) {
                return Ok(parsed);
            }
            if let Some(parsed) = parse_naive_timestamp(raw.as_str()) {
                return Ok(parsed);
            }
            Err(OrmError::UnsupportedTimestamp(raw.clone()))
        },
        _ => Err(OrmError::UnexpectedType(Expected::Timestamp)),
    }
}

/// A non-null `%Y-%m-%d` date.
pub fn as_date(value: &DataType) -> (res: Result<NaiveDate, OrmError>)
    ensures
        match *value {
            DataType::Date(Some(raw)) => match date_parse(raw@) {
                Some(d) => res == Ok::<NaiveDate, OrmError>(d),
                None => res matches Err(OrmError::UnsupportedDate(r)) && r@ == raw@,
            },
            _ => res matches Err(OrmError::UnexpectedType(Expected::Date)),
        },
{
    match value {
        DataType::Date(Some(raw)) => match parse_date(raw.as_str()) {
            Some(d) => Ok(d),
            None => Err(OrmError::UnsupportedDate(raw.clone())),
        },
        _ => Err(OrmError::UnexpectedType(Expected::Date)),
    }
}

/// A JSON document held as text or as bytes.
pub fn as_json(value: &DataType) -> (res: Result<serde_json::Value, OrmError>)
    ensures
        match *value {
            DataType::Str(Some(raw)) => match json_from_text(raw@) {
                Some(j) => res == Ok::<serde_json::Value, OrmError>(j),
                None => res matches Err(OrmError::InvalidJson(_)),
            },
            DataType::Binary(Some(bytes)) => match json_from_bytes(bytes@) {
                Some(j) => res == Ok::<serde_json::Value, OrmError>(j),
                None => res matches Err(OrmError::InvalidJson(_)),
            },
            _ => res matches Err(OrmError::UnexpectedType(Expected::Json)),
        },
{
    match value {
        DataType::Str(Some(raw)) => match parse_json_text(raw.as_str()) {
            Ok(j) => Ok(j),
            Err(msg) => Err(OrmError::InvalidJson(msg)),
        },
        DataType::Binary(Some(bytes)) => match parse_json_bytes(bytes.as_slice()) {
            Ok(j) => Ok(j),
            Err(msg) => Err(OrmError::InvalidJson(msg)),
        },
        _ => Err(OrmError::UnexpectedType(Expected::Json)),
    }
}


impl Expected {
    /// The name errors use for this type.
    pub open spec fn name_spec(self) -> Seq<char> {
        match self {
            Expected::Boolean => "boolean"@,
            Expected::Int32 => "int32"@,
            Expected::Int64 => "int64"@,
            Expected::Uint32 => "uint32"@,
            Expected::Uint64 => "uint64"@,
            Expected::Float => "float"@,
            Expected::Double => "double"@,
            Expected::Str => "string"@,
            Expected::Binary => "binary"@,
            Expected::Timestamp => "timestamp"@,
            Expected::Date => "date"@,
            Expected::Json => "json compatible"@,
        }
    }

    /// The name errors use for this type.
    pub fn name(&self) -> (res: &'static str)
        ensures
            res@ == self.name_spec(),
    {
        match self {
            Expected::Boolean => "boolean",
            Expected::Int32 => "int32",
            Expected::Int64 => "int64",
            Expected::Uint32 => "uint32",
            Expected::Uint64 => "uint64",
            Expected::Float => "float",
            Expected::Double => "double",
            Expected::Str => "string",
            Expected::Binary => "binary",
            Expected::Timestamp => "timestamp",
            Expected::Date => "date",
            Expected::Json => "json compatible",
        }
    }
}

impl OrmError {
    /// The text of the error.
    pub open spec fn message_spec(&self) -> Seq<char> {
        match self {
            OrmError::MissingColumn(n) => "missing column '"@ + n@ + "'"@,
            OrmError::UnexpectedType(t) => "expected "@ + t.name_spec() + " data type"@,
            OrmError::UnsupportedTimestamp(r) => "unsupported timestamp: "@ + r@
                + "; expected RFC3339 or \"%Y-%m-%d %H:%M:%S%.f\" format"@,
            OrmError::UnsupportedDate(r) => "unsupported date: "@ + r@
                + "; expected \"%Y-%m-%d\" format"@,
            OrmError::InvalidJson(m) => m@,
            OrmError::UnsupportedValue => "unsupported values require explicit conversion before building the query"@,
        }
    }

    /// The text of the error.
    pub fn message(&self) -> (res: String)
        ensures
            res@ == self.message_spec(),
    {
        match self {
            OrmError::MissingColumn(n) => {
                let mut m = owned("missing column '");
                m.append(n.as_str());
                m.append("'");
                m
            },
            OrmError::UnexpectedType(t) => {
                let mut m = owned("expected ");
                m.append(t.name());
                m.append(" data type");
                m
            },
            OrmError::UnsupportedTimestamp(r) => {
                let mut m = owned("unsupported timestamp: ");
                m.append(r.as_str());
                m.append("; expected RFC3339 or \"%Y-%m-%d %H:%M:%S%.f\" format");
                m
            },
            OrmError::UnsupportedDate(r) => {
                let mut m = owned("unsupported date: ");
                m.append(r.as_str());
                m.append("; expected \"%Y-%m-%d\" format");
                m
            },
            OrmError::InvalidJson(msg) => msg.clone(),
            OrmError::UnsupportedValue => owned(
                "unsupported values require explicit conversion before building the query",
            ),
        }
    }
}

// ----------------------------------------------------------------------
// Typed reads of result rows
// ----------------------------------------------------------------------

/// `res` reports that column `col` is missing.
pub open spec fn reports_missing<T>(res: Result<T, OrmError>, col: Seq<char>) -> bool {
    res matches Err(OrmError::MissingColumn(n)) && n@ == col
}

/// Types that can be extracted from database rows.
pub trait FetchValue: Sized {
    /// Whether `res` is what reading column `col` of `row` as this type gives.
    spec fn fetched(row: Row, col: Seq<char>, res: Result<Self, OrmError>) -> bool;

    /// Fetch a value from a row by column name.
    fn fetch(row: &Row, col: &str) -> (res: Result<Self, OrmError>)
        ensures
            Self::fetched(*row, col@, res),
    ;
}

impl FetchValue for bool {
    open spec fn fetched(row: Row, col: Seq<char>, res: Result<bool, OrmError>) -> bool {
        match field_value(row.fields@, col) {
            None => reports_missing(res, col),
            Some(DataType::Boolean(Some(v))) => res == Ok::<bool, OrmError>(v),
            Some(_) => res == Err::<bool, OrmError>(OrmError::UnexpectedType(Expected::Boolean)),
        }
    }

    fn fetch(row: &Row, col: &str) -> (res: Result<bool, OrmError>) {
        match row_field(row, col) {
            Ok(v) => as_bool(v),
            Err(e) => Err(e),
        }
    }
}

impl FetchValue for i32 {
    open spec fn fetched(row: Row, col: Seq<char>, res: Result<i32, OrmError>) -> bool {
        match field_value(row.fields@, col) {
            None => reports_missing(res, col),
            Some(DataType::Int32(Some(v))) => res == Ok::<i32, OrmError>(v),
            Some(_) => res == Err::<i32, OrmError>(OrmError::UnexpectedType(Expected::Int32)),
        }
    }

    fn fetch(row: &Row, col: &str) -> (res: Result<i32, OrmError>) {
        match row_field(row, col) {
            Ok(v) => as_i32(v),
            Err(e) => Err(e),
        }
    }
}

impl FetchValue for i64 {
    open spec fn fetched(row: Row, col: Seq<char>, res: Result<i64, OrmError>) -> bool {
        match field_value(row.fields@, col) {
            None => reports_missing(res, col),
            Some(DataType::Int64(Some(v))) => res == Ok::<i64, OrmError>(v),
            Some(_) => res == Err::<i64, OrmError>(OrmError::UnexpectedType(Expected::Int64)),
        }
    }

    fn fetch(row: &Row, col: &str) -> (res: Result<i64, OrmError>) {
        match row_field(row, col) {
            Ok(v) => as_i64(v),
            Err(e) => Err(e),
        }
    }
}

impl FetchValue for u32 {
    open spec fn fetched(row: Row, col: Seq<char>, res: Result<u32, OrmError>) -> bool {
        match field_value(row.fields@, col) {
            None => reports_missing(res, col),
            Some(DataType::Uint32(Some(v))) => res == Ok::<u32, OrmError>(v),
            Some(_) => res == Err::<u32, OrmError>(OrmError::UnexpectedType(Expected::Uint32)),
        }
    }

    fn fetch(row: &Row, col: &str) -> (res: Result<u32, OrmError>) {
        match row_field(row, col) {
            Ok(v) => as_u32(v),
            Err(e) => Err(e),
        }
    }
}

impl FetchValue for u64 {
    open spec fn fetched(row: Row, col: Seq<char>, res: Result<u64, OrmError>) -> bool {
        match field_value(row.fields@, col) {
            None => reports_missing(res, col),
            Some(DataType::Uint64(Some(v))) => res == Ok::<u64, OrmError>(v),
            Some(_) => res == Err::<u64, OrmError>(OrmError::UnexpectedType(Expected::Uint64)),
        }
    }

    fn fetch(row: &Row, col: &str) -> (res: Result<u64, OrmError>) {
        match row_field(row, col) {
            Ok(v) => as_u64(v),
            Err(e) => Err(e),
        }
    }
}

impl FetchValue for String {
    open spec fn fetched(row: Row, col: Seq<char>, res: Result<String, OrmError>) -> bool {
        match field_value(row.fields@, col) {
            None => reports_missing(res, col),
            Some(DataType::Str(Some(v))) => res == Ok::<String, OrmError>(v),
            Some(_) => res == Err::<String, OrmError>(OrmError::UnexpectedType(Expected::Str)),
        }
    }

    fn fetch(row: &Row, col: &str) -> (res: Result<String, OrmError>) {
        match row_field(row, col) {
            Ok(v) => as_string(v),
            Err(e) => Err(e),
        }
    }
}

impl FetchValue for Vec<u8> {
    open spec fn fetched(row: Row, col: Seq<char>, res: Result<Vec<u8>, OrmError>) -> bool {
        match field_value(row.fields@, col) {
            None => reports_missing(res, col),
            Some(DataType::Binary(Some(v))) => res matches Ok(b) && b@ == v@,
            Some(_) => res == Err::<Vec<u8>, OrmError>(
                OrmError::UnexpectedType(Expected::Binary),
            ),
        }
    }

    fn fetch(row: &Row, col: &str) -> (res: Result<Vec<u8>, OrmError>) {
        match row_field(row, col) {
            Ok(v) => as_binary(v),
            Err(e) => Err(e),
        }
    }
}

impl FetchValue for NaiveDateTime {
    open spec fn fetched(row: Row, col: Seq<char>, res: Result<NaiveDateTime, OrmError>) -> bool {
        match field_value(row.fields@, col) {
            None => reports_missing(res, col),
            Some(DataType::Timestamp(Some(raw))) => match rfc3339_parse(raw@) {
                Some(t) => res == Ok::<NaiveDateTime, OrmError>(t),
                None => match naive_timestamp_parse(raw@) {
                    Some(t) => res == Ok::<NaiveDateTime, OrmError>(t),
                    None => res matches Err(OrmError::UnsupportedTimestamp(r)) && r@ == raw@,
                },
            },
            Some(_) => res matches Err(OrmError::UnexpectedType(Expected::Timestamp)),
        }
    }

    fn fetch(row: &Row, col: &str) -> (res: Result<NaiveDateTime, OrmError>) {
        match row_field(row, col) {
            Ok(v) => as_timestamp(v),
            Err(e) => Err(e),
        }
    }
}

impl FetchValue for NaiveDate {
    open spec fn fetched(row: Row, col: Seq<char>, res: Result<NaiveDate, OrmError>) -> bool {
        match field_value(row.fields@, col) {
            None => reports_missing(res, col),
            Some(DataType::Date(Some(raw))) => match date_parse(raw@) {
                Some(d) => res == Ok::<NaiveDate, OrmError>(d),
                None => res matches Err(OrmError::UnsupportedDate(r)) && r@ == raw@,
            },
            Some(_) => res matches Err(OrmError::UnexpectedType(Expected::Date)),
        }
    }

    fn fetch(row: &Row, col: &str) -> (res: Result<NaiveDate, OrmError>) {
        match row_field(row, col) {
            Ok(v) => as_date(v),
            Err(e) => Err(e),
        }
    }
}

impl FetchValue for serde_json::Value {
    open spec fn fetched(row: Row, col: Seq<char>, res: Result<serde_json::Value, OrmError>) -> bool {
        match field_value(row.fields@, col) {
            None => reports_missing(res, col),
            Some(DataType::Str(Some(raw))) => match json_from_text(raw@) {
                Some(j) => res == Ok::<serde_json::Value, OrmError>(j),
                None => res matches Err(OrmError::InvalidJson(_)),
            },
            Some(DataType::Binary(Some(bytes))) => match json_from_bytes(bytes@) {
                Some(j) => res == Ok::<serde_json::Value, OrmError>(j),
                None => res matches Err(OrmError::InvalidJson(_)),
            },
            Some(_) => res matches Err(OrmError::UnexpectedType(Expected::Json)),
        }
    }

    fn fetch(row: &Row, col: &str) -> (res: Result<serde_json::Value, OrmError>) {
        match row_field(row, col) {
            Ok(v) => as_json(v),
            Err(e) => Err(e),
        }
    }
}

/// An optional column: a null value reads as `None`, any other value as
/// the inner type reads it; a missing column is an error, as for every type.
impl<T: FetchValue> FetchValue for Option<T> {
    open spec fn fetched(row: Row, col: Seq<char>, res: Result<Option<T>, OrmError>) -> bool {
        match field_value(row.fields@, col) {
            Some(v) => if is_null_spec(v) {
                res == Ok::<Option<T>, OrmError>(None)
            } else {
                match res {
                    Ok(Some(x)) => T::fetched(row, col, Ok(x)),
                    Ok(None) => false,
                    Err(e) => T::fetched(row, col, Err(e)),
                }
            },
            None => reports_missing(res, col),
        }
    }

    fn fetch(row: &Row, col: &str) -> (res: Result<Option<T>, OrmError>) {
        match row_field(row, col) {
            Ok(field) => {
                if is_null(field) {
                    Ok(None)
                } else {
                    match T::fetch(row, col) {
                        Ok(x) => Ok(Some(x)),
                        Err(e) => Err(e),
                    }
                }
            },
            Err(e) => Err(e),
        }
    }
}


// ----------------------------------------------------------------------
// Query values as parameters
// ----------------------------------------------------------------------

/// A value bound into a query. Floating-point values are carried as their
/// IEEE-754 bit patterns.
#[derive(Debug, Clone)]
pub enum SqlValue {
    Bool(Option<bool>),
    TinyInt(Option<i8>),
    SmallInt(Option<i16>),
    Int(Option<i32>),
    BigInt(Option<i64>),
    TinyUnsigned(Option<u8>),
    SmallUnsigned(Option<u16>),
    Unsigned(Option<u32>),
    BigUnsigned(Option<u64>),
    Float(Option<u32>),
    Double(Option<u64>),
    Text(Option<String>),
    Char(Option<char>),
    Bytes(Option<Vec<u8>>),
    ChronoDate(Option<NaiveDate>),
    ChronoTime(Option<NaiveTime>),
    ChronoDateTime(Option<NaiveDateTime>),
    /// A UTC date and time.
    ChronoDateTimeUtc(Option<NaiveDateTime>),
    /// Any other kind of value (arrays, decimals, JSON, ...).
    Unsupported,
}

/// Whether `d` is the parameter that the query value `v` becomes. Integers
/// widen to 32 bits, characters become one-character strings, and dates and
/// times become their text.
pub open spec fn converts(v: SqlValue, d: DataType) -> bool {
    match v {
        SqlValue::Bool(o) => d == DataType::Boolean(o),
        SqlValue::TinyInt(o) => d == DataType::Int32(
            match o {
                Some(x) => Some(x as i32),
                None => None,
            },
        ),
        SqlValue::SmallInt(o) => d == DataType::Int32(
            match o {
                Some(x) => Some(x as i32),
                None => None,
            },
        ),
        SqlValue::Int(o) => d == DataType::Int32(o),
        SqlValue::BigInt(o) => d == DataType::Int64(o),
        SqlValue::TinyUnsigned(o) => d == DataType::Uint32(
            match o {
                Some(x) => Some(x as u32),
                None => None,
            },
        ),
        SqlValue::SmallUnsigned(o) => d == DataType::Uint32(
            match o {
                Some(x) => Some(x as u32),
                None => None,
            },
        ),
        SqlValue::Unsigned(o) => d == DataType::Uint32(o),
        SqlValue::BigUnsigned(o) => d == DataType::Uint64(o),
        SqlValue::Float(o) => d == DataType::Float(o),
        SqlValue::Double(o) => d == DataType::Double(o),
        SqlValue::Text(o) => d == DataType::Str(o),
        SqlValue::Char(o) => match (o, d) {
            (Some(c), DataType::Str(Some(s))) => s@ == seq![c],
            (None, DataType::Str(None)) => true,
            _ => false,
        },
        SqlValue::Bytes(o) => match (o, d) {
            (Some(b), DataType::Binary(Some(x))) => x@ == b@,
            (None, DataType::Binary(None)) => true,
            _ => false,
        },
        SqlValue::ChronoDate(o) => match (o, d) {
            (Some(x), DataType::Date(Some(s))) => s@ == date_display(x),
            (None, DataType::Date(None)) => true,
            _ => false,
        },
        SqlValue::ChronoTime(o) => match (o, d) {
            (Some(x), DataType::Time(Some(s))) => s@ == time_display(x),
            (None, DataType::Time(None)) => true,
            _ => false,
        },
        SqlValue::ChronoDateTime(o) => match (o, d) {
            (Some(x), DataType::Timestamp(Some(s))) => s@ == timestamp_display(x),
            (None, DataType::Timestamp(None)) => true,
            _ => false,
        },
        SqlValue::ChronoDateTimeUtc(o) => match (o, d) {
            (Some(x), DataType::Timestamp(Some(s))) => s@ == rfc3339_display(x),
            (None, DataType::Timestamp(None)) => true,
            _ => false,
        },
        SqlValue::Unsupported => false,
    }
}

/// The parameter that a query value becomes; unsupported values are refused.
pub fn value_to_datatype(value: SqlValue) -> (res: Result<DataType, OrmError>)
    ensures
        match res {
            Ok(d) => converts(value, d),
            Err(e) => value is Unsupported && e is UnsupportedValue,
        },
        value !is Unsupported ==> res is Ok,
{
    match value {
        SqlValue::Bool(v) => Ok(DataType::Boolean(v)),
        SqlValue::TinyInt(v) => Ok(
            DataType::Int32(
                match v {
                    Some(x) => Some(x as i32),
                    None => None,
                },
            ),
        ),
        SqlValue::SmallInt(v) => Ok(
            DataType::Int32(
                match v {
                    Some(x) => Some(x as i32),
                    None => None,
                },
            ),
        ),
        SqlValue::Int(v) => Ok(DataType::Int32(v)),
        SqlValue::BigInt(v) => Ok(DataType::Int64(v)),
        SqlValue::TinyUnsigned(v) => Ok(
            DataType::Uint32(
                match v {
                    Some(x) => Some(x as u32),
                    None => None,
                },
            ),
        ),
        SqlValue::SmallUnsigned(v) => Ok(
            DataType::Uint32(
                match v {
                    Some(x) => Some(x as u32),
                    None => None,
                },
            ),
        ),
        SqlValue::Unsigned(v) => Ok(DataType::Uint32(v)),
        SqlValue::BigUnsigned(v) => Ok(DataType::Uint64(v)),
        SqlValue::Float(v) => Ok(DataType::Float(v)),
        SqlValue::Double(v) => Ok(DataType::Double(v)),
        SqlValue::Text(v) => Ok(DataType::Str(v)),
        SqlValue::Char(v) => Ok(
            DataType::Str(
                match v {
                    Some(c) => {
                        let mut s = String::new();
                        push_char(&mut s, c);
                        assert(s@ =~= seq![c]);
                        Some(s)
                    },
                    None => None,
                },
            ),
        ),
        SqlValue::Bytes(v) => Ok(DataType::Binary(v)),
        SqlValue::ChronoDate(v) => Ok(
            DataType::Date(
                match v {
                    Some(x) => Some(date_text(&x)),
                    None => None,
                },
            ),
        ),
        SqlValue::ChronoTime(v) => Ok(
            DataType::Time(
                match v {
                    Some(x) => Some(time_text(&x)),
                    None => None,
                },
            ),
        ),
        SqlValue::ChronoDateTime(v) => Ok(
            DataType::Timestamp(
                match v {
                    Some(x) => Some(naive_timestamp_text(&x)),
                    None => None,
                },
            ),
        ),
        SqlValue::ChronoDateTimeUtc(v) => Ok(
            DataType::Timestamp(
                match v {
                    Some(x) => Some(utc_rfc3339_text(&x)),
                    None => None,
                },
            ),
        ),
        SqlValue::Unsupported => Err(OrmError::UnsupportedValue),
    }
}

/// The parameters that a query's values become, in order; refused when any
/// value is unsupported.
pub fn values_to_datatypes(values: Vec<SqlValue>) -> (res: Result<Vec<DataType>, OrmError>)
    ensures
        match res {
            Ok(ds) => ds@.len() == values@.len() && forall|i: int|
                0 <= i < values@.len() ==> converts(#[trigger] values@[i], ds@[i]),
            Err(e) => e is UnsupportedValue && exists|i: int|
                0 <= i < values@.len() && (#[trigger] values@[i]) is Unsupported,
        },
        (forall|i: int| 0 <= i < values@.len() ==> (#[trigger] values@[i]) !is Unsupported)
            ==> res is Ok,
{
    let ghost input = values@;
    let mut out: Vec<DataType> = Vec::new();
    let mut rest = values;
    assert(rest@ =~= input.skip(0));
    while rest.len() > 0
        invariant
            input == values@,
            out@.len() <= input.len(),
            rest@ == input.skip(out@.len() as int),
            forall|i: int| 0 <= i < out@.len() ==> converts(#[trigger] input[i], out@[i]),
        decreases rest@.len(),
    {
        let k = out.len();
        let v = rest.remove(0);
        assert(v == input[k as int]);
        assert(rest@ =~= input.skip(k + 1));
        match value_to_datatype(v) {
            Ok(d) => {
                out.push(d);
            },
            Err(e) => {
                assert(values@[k as int] is Unsupported);
                return Err(e);
            },
        }
    }
    Ok(out)
}

// ----------------------------------------------------------------------
// Joins
// ----------------------------------------------------------------------

/// Join types supported by the ORM.
#[derive(Debug, Clone, Copy, PartialEq, Eq, Structural)]
pub enum JoinKind {
    Inner,
    Left,
    Right,
    Full,
}

/// A SQL join of `table` on the condition `on`.
#[derive(Debug, Clone)]
pub struct Join<F> {
    table: &'static str,
    alias: Option<&'static str>,
    on: F,
    kind: JoinKind,
}

impl<F> Join<F> {
    pub closed spec fn table_view(&self) -> Seq<char> {
        self.table@
    }

    pub closed spec fn alias_view(&self) -> Option<Seq<char>> {
        match self.alias {
            Some(a) => Some(a@),
            None => None,
        }
    }

    pub closed spec fn on_view(&self) -> F {
        self.on
    }

    pub closed spec fn kind_view(&self) -> JoinKind {
        self.kind
    }

    /// Creates a JOIN (defaults to INNER JOIN).
    pub fn new(table: &'static str, on: F) -> (res: Join<F>)
        ensures
            res.table_view() == table@,
            res.alias_view() is None,
            res.on_view() == on,
            res.kind_view() == JoinKind::Inner,
    {
        Join { table, alias: None, on, kind: JoinKind::Inner }
    }

    /// Creates a LEFT JOIN.
    pub fn left(table: &'static str, on: F) -> (res: Join<F>)
        ensures
            res.table_view() == table@,
            res.alias_view() is None,
            res.on_view() == on,
            res.kind_view() == JoinKind::Left,
    {
        Join { table, alias: None, on, kind: JoinKind::Left }
    }

    /// Creates a RIGHT JOIN.
    pub fn right(table: &'static str, on: F) -> (res: Join<F>)
        ensures
            res.table_view() == table@,
            res.alias_view() is None,
            res.on_view() == on,
            res.kind_view() == JoinKind::Right,
    {
        Join { table, alias: None, on, kind: JoinKind::Right }
    }

    /// Creates a FULL OUTER JOIN.
    pub fn full(table: &'static str, on: F) -> (res: Join<F>)
        ensures
            res.table_view() == table@,
            res.alias_view() is None,
            res.on_view() == on,
            res.kind_view() == JoinKind::Full,
    {
        Join { table, alias: None, on, kind: JoinKind::Full }
    }

    /// Creates an INNER JOIN (alias for `new`).
    pub fn inner(table: &'static str, on: F) -> (res: Join<F>)
        ensures
            res.table_view() == table@,
            res.alias_view() is None,
            res.on_view() == on,
            res.kind_view() == JoinKind::Inner,
    {
        Self::new(table, on)
    }

    /// Sets an alias for the joined table.
    pub fn alias(self, alias: &'static str) -> (res: Join<F>)
        ensures
            res.table_view() == self.table_view(),
            res.alias_view() == Some(alias@),
            res.on_view() == self.on_view(),
            res.kind_view() == self.kind_view(),
    {
        Join { table: self.table, alias: Some(alias), on: self.on, kind: self.kind }
    }

    /// The joined table.
    pub fn table(&self) -> (res: &'static str)
        ensures
            res@ == self.table_view(),
    {
        self.table
    }

    /// The alias of the joined table, if any.
    pub fn alias_name(&self) -> (res: Option<&'static str>)
        ensures
            match res {
                Some(a) => self.alias_view() == Some(a@),
                None => self.alias_view() is None,
            },
    {
        self.alias
    }

    /// The join condition.
    pub fn on(&self) -> (res: &F)
        ensures
            *res == self.on_view(),
    {
        &self.on
    }

    /// The kind of join.
    pub fn kind(&self) -> (res: JoinKind)
        ensures
            res == self.kind_view(),
    {
        self.kind
    }
}

// ----------------------------------------------------------------------
// Laws
// ----------------------------------------------------------------------

/// Integer query values keep their numeric value as parameters: narrower
/// signed integers widen to `Int32`, narrower unsigned ones to `Uint32`,
/// and the others pass as they are, so a parameter never differs in value
/// from the value bound.
pub proof fn law_integer_parameters_keep_value(v: SqlValue, d: DataType)
    requires
        converts(v, d),
    ensures
        v matches SqlValue::TinyInt(Some(x)) ==> d matches DataType::Int32(Some(y)) && y as int == x as int,
        v matches SqlValue::SmallInt(Some(x)) ==> d matches DataType::Int32(Some(y)) && y as int == x as int,
        v matches SqlValue::Int(Some(x)) ==> d matches DataType::Int32(Some(y)) && y as int == x as int,
        v matches SqlValue::BigInt(Some(x)) ==> d matches DataType::Int64(Some(y)) && y as int == x as int,
        v matches SqlValue::TinyUnsigned(Some(x)) ==> d matches DataType::Uint32(Some(y)) && y as int == x as int,
        v matches SqlValue::SmallUnsigned(Some(x)) ==> d matches DataType::Uint32(Some(y)) && y as int == x as int,
        v matches SqlValue::Unsigned(Some(x)) ==> d matches DataType::Uint32(Some(y)) && y as int == x as int,
        v matches SqlValue::BigUnsigned(Some(x)) ==> d matches DataType::Uint64(Some(y)) && y as int == x as int,
        v matches SqlValue::TinyInt(None) ==> d == DataType::Int32(None),
        v matches SqlValue::SmallInt(None) ==> d == DataType::Int32(None),
        v matches SqlValue::TinyUnsigned(None) ==> d == DataType::Uint32(None),
        v matches SqlValue::SmallUnsigned(None) ==> d == DataType::Uint32(None),
{
}

/// A column value is null exactly when it holds no value, whatever its
/// type.
pub proof fn law_null_is_absent_value(v: DataType)
    ensures
        is_null_spec(v) <==> {
            ||| v matches DataType::Boolean(None)
            ||| v matches DataType::Int32(None)
            ||| v matches DataType::Int64(None)
            ||| v matches DataType::Uint32(None)
            ||| v matches DataType::Uint64(None)
            ||| v matches DataType::Float(None)
            ||| v matches DataType::Double(None)
            ||| v matches DataType::Str(None)
            ||| v matches DataType::Binary(None)
            ||| v matches DataType::Date(None)
            ||| v matches DataType::Time(None)
            ||| v matches DataType::Timestamp(None)
        },
{
}

/// An optional column holding a SQL NULL, of any type, reads as `None`;
/// one the row lacks is reported missing.
pub proof fn law_optional_null_reads_none<T: FetchValue>(row: Row, col: Seq<char>, res: Result<Option<T>, OrmError>)
    requires
        <Option<T> as FetchValue>::fetched(row, col, res),
    ensures
        (field_value(row.fields@, col) matches Some(v) && {
        ||| v matches DataType::Boolean(None)
        ||| v matches DataType::Int32(None)
        ||| v matches DataType::Int64(None)
        ||| v matches DataType::Uint32(None)
        ||| v matches DataType::Uint64(None)
        ||| v matches DataType::Float(None)
        ||| v matches DataType::Double(None)
        ||| v matches DataType::Str(None)
        ||| v matches DataType::Binary(None)
        ||| v matches DataType::Date(None)
        ||| v matches DataType::Time(None)
        ||| v matches DataType::Timestamp(None)}) ==> res == Ok::<Option<T>, OrmError>(None),
        field_value(row.fields@, col) is None ==> (res matches Err(OrmError::MissingColumn(n)) && n@ == col),
{
}

/// A JSON column reads as what its text or bytes parse to: stored as text,
/// with `serde_json::from_str`; stored as bytes, with
/// `serde_json::from_slice`; a column holding anything else is refused.
pub proof fn law_json_column_reads_parsed_value(row: Row, col: Seq<char>, res: Result<serde_json::Value, OrmError>)
    requires
        <serde_json::Value as FetchValue>::fetched(row, col, res),
    ensures
        field_value(row.fields@, col) matches Some(DataType::Str(Some(raw))) ==> (match json_from_text(raw@) {
            Some(j) => res == Ok::<serde_json::Value, OrmError>(j),
            None => res matches Err(OrmError::InvalidJson(_)),
        }),
        field_value(row.fields@, col) matches Some(DataType::Binary(Some(b))) ==> (match json_from_bytes(b@) {
            Some(j) => res == Ok::<serde_json::Value, OrmError>(j),
            None => res matches Err(OrmError::InvalidJson(_)),
        }),
        res is Ok ==> (field_value(row.fields@, col) matches Some(v) && (v matches DataType::Str(Some(_))
            || v matches DataType::Binary(Some(_)))),
{
}

} // verus!
