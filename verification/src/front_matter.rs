//! The front matter of a content file: splitting it from the body and reading
//! it into typed metadata.
//!
//! The header is delimited by lines of `---` and holds YAML. Six fields are
//! required: `title`, `description`, `author`, `tags`, `created_at` and
//! `updated_at`. The two timestamps are written in RFC 3339, which carries a
//! UTC offset.

use vstd::prelude::*;
use gray_matter::Pod;
use crate::post::{MetadataModel, PostMetadata, Timestamp};
use crate::text::{opt_text, texts};

verus! {

/// `gray_matter::Pod`: a parsed header. Nothing is known of what it holds but
/// through `field_of`.
#[verifier::external_type_specification]
#[verifier::external_body]
pub struct ExPod(Pod);

/// What is wrong with a field of the front matter.
#[derive(Clone, Copy, PartialEq, Eq, Structural, Debug)]
pub enum FieldFault {
    /// A required field is absent.
    Missing,
    /// The field holds a value of another type than it should.
    WrongType,
    /// The field is not a timestamp with a UTC offset.
    Timestamp,
}

/// Why a content file could not be read.
#[derive(Debug)]
pub enum ParseError {
    /// The file has no front matter.
    MissingFrontMatter,
    /// A field of the front matter is absent or malformed.
    MetadataParseError { field: String, fault: FieldFault },
}

/// The model of a `ParseError`.
pub ghost enum ParseErrorModel {
    MissingFrontMatter,
    MetadataParseError { field: Seq<char>, fault: FieldFault },
}

impl View for ParseError {
    type V = ParseErrorModel;

    open spec fn view(&self) -> ParseErrorModel {
        match self {
            ParseError::MissingFrontMatter => ParseErrorModel::MissingFrontMatter,
            ParseError::MetadataParseError { field, fault } => ParseErrorModel::MetadataParseError {
                field: field@,
                fault: *fault,
            },
        }
    }
}

impl Clone for ParseError {
    fn clone(&self) -> (r: ParseError)
        ensures
            r@ == self@,
    {
        match self {
            ParseError::MissingFrontMatter => ParseError::MissingFrontMatter,
            ParseError::MetadataParseError { field, fault } => ParseError::MetadataParseError {
                field: field.clone(),
                fault: *fault,
            },
        }
    }
}

/// The value of one field of a header.
#[derive(Debug)]
pub enum HeaderValue {
    /// The field is not there, or is null.
    Absent,
    /// A string.
    Text(String),
    /// An integer.
    Integer(i64),
    /// A list; an item that is not a string is `None`.
    List(Vec<Option<String>>),
    /// A value of any other type.
    Other,
}

/// The model of a `HeaderValue`.
pub ghost enum ValueModel {
    Absent,
    Text(Seq<char>),
    Integer(i64),
    List(Seq<Option<Seq<char>>>),
    Other,
}

impl View for HeaderValue {
    type V = ValueModel;

    open spec fn view(&self) -> ValueModel {
        match self {
            HeaderValue::Absent => ValueModel::Absent,
            HeaderValue::Text(t) => ValueModel::Text(t@),
            HeaderValue::Integer(n) => ValueModel::Integer(*n),
            HeaderValue::List(items) => ValueModel::List(items@.map_values(|o: Option<String>| opt_text(o))),
            HeaderValue::Other => ValueModel::Other,
        }
    }
}

/// The header and the body that `gray_matter::Matter::<YAML>::parse` finds in a file.
pub uninterp spec fn front_matter_of(raw: Seq<char>) -> (Option<Pod>, Seq<char>);

/// What a parsed header holds under a key: `Absent` if it is no mapping, has no
/// such key, or holds null under it.
pub uninterp spec fn field_of(header: Pod, key: Seq<char>) -> ValueModel;

/// The instant that `chrono::DateTime::parse_from_rfc3339` reads from a text, if it reads one.
pub uninterp spec fn timestamp_of(text: Seq<char>) -> Option<Timestamp>;

/// Calls `gray_matter::Matter::<YAML>::parse` with the default `---` delimiter and
/// hands back the parsed header, if the file has one, and the body. Both are a
/// function of the file's text; they are named, not described.
#[verifier::external_body]
pub(crate) fn split_front_matter(raw: &str) -> (r: (Option<Pod>, String))
    ensures
        (r.0, r.1@) == front_matter_of(raw@),
{
    let parsed = gray_matter::Matter::<gray_matter::engine::YAML>::new().parse(raw);
    (parsed.data, parsed.content)
}

/// Reads one key of a parsed header with `gray_matter::Pod::as_hashmap` and tells
/// the variants of the value apart; an item of a list is read with
/// `Pod::as_string`. The value is a function of the header and the key; it is
/// named, not described.
#[verifier::external_body]
pub(crate) fn header_field(header: &Pod, key: &str) -> (r: HeaderValue)
    ensures
        r@ == field_of(*header, key@),
{
    match header.as_hashmap().ok().and_then(|fields| fields.get(key).cloned()) {
        None | Some(Pod::Null) => HeaderValue::Absent,
        Some(Pod::String(text)) => HeaderValue::Text(text),
        Some(Pod::Integer(number)) => HeaderValue::Integer(number),
        Some(Pod::Array(items)) => HeaderValue::List(items.iter().map(|item| item.as_string().ok()).collect()),
        Some(_) => HeaderValue::Other,
    }
}

/// Calls `chrono::DateTime::parse_from_rfc3339` and hands back the seconds since
/// the Unix epoch (`DateTime::timestamp`) and the nanoseconds
/// (`DateTime::timestamp_subsec_nanos`) of the instant it read, or `None` if it
/// read none. The instant is a function of the text; it is named, not described.
#[verifier::external_body]
pub(crate) fn parse_timestamp(text: &str) -> (r: Option<Timestamp>)
    ensures
        r == timestamp_of(text@),
{
    match chrono::DateTime::parse_from_rfc3339(text) {
        Ok(at) => Some(Timestamp { secs: at.timestamp(), nanos: at.timestamp_subsec_nanos() }),
        Err(_) => None,
    }
}

/// What is wrong with a text field holding `v`, if anything.
pub open spec fn text_fault(v: ValueModel, required: bool) -> Option<FieldFault> {
    match v {
        ValueModel::Text(_) => None,
        ValueModel::Absent => if required {
            Some(FieldFault::Missing)
        } else {
            None
        },
        _ => Some(FieldFault::WrongType),
    }
}

/// The text that a field holds.
pub open spec fn text_value(v: ValueModel) -> Option<Seq<char>> {
    match v {
        ValueModel::Text(t) => Some(t),
        _ => None,
    }
}

/// What is wrong with an optional integer field holding `v`, if anything.
pub open spec fn integer_fault(v: ValueModel) -> Option<FieldFault> {
    match v {
        ValueModel::Integer(_) => None,
        ValueModel::Absent => None,
        _ => Some(FieldFault::WrongType),
    }
}

/// The integer that a field holds.
pub open spec fn integer_value(v: ValueModel) -> Option<i64> {
    match v {
        ValueModel::Integer(n) => Some(n),
        _ => None,
    }
}

/// Whether every item of a list is a string.
pub open spec fn all_texts(items: Seq<Option<Seq<char>>>) -> bool {
    forall|i: int| 0 <= i < items.len() ==> (#[trigger] items[i]) is Some
}

/// What is wrong with a required field that is a list of strings and holds `v`, if anything.
pub open spec fn list_fault(v: ValueModel) -> Option<FieldFault> {
    match v {
        ValueModel::List(items) => if all_texts(items) {
            None
        } else {
            Some(FieldFault::WrongType)
        },
        ValueModel::Absent => Some(FieldFault::Missing),
        _ => Some(FieldFault::WrongType),
    }
}

/// The strings of a list.
pub open spec fn list_value(v: ValueModel) -> Seq<Seq<char>> {
    match v {
        ValueModel::List(items) => items.map_values(|o: Option<Seq<char>>| o->0),
        _ => Seq::<Seq<char>>::empty(),
    }
}

/// What is wrong with a required timestamp field holding `v`, if anything.
pub open spec fn time_fault(v: ValueModel) -> Option<FieldFault> {
    match v {
        ValueModel::Text(t) => if timestamp_of(t) is Some {
            None
        } else {
            Some(FieldFault::Timestamp)
        },
        ValueModel::Absent => Some(FieldFault::Missing),
        _ => Some(FieldFault::WrongType),
    }
}

/// The instant that a timestamp field holds.
pub open spec fn time_value(v: ValueModel) -> Timestamp {
    match v {
        ValueModel::Text(t) => timestamp_of(t)->0,
        _ => Timestamp { secs: 0, nanos: 0 },
    }
}

/// A fault together with the field it was found in.
pub open spec fn at_field(field: Seq<char>, fault: Option<FieldFault>) -> Option<ParseErrorModel> {
    match fault {
        Some(f) => Some(ParseErrorModel::MetadataParseError { field, fault: f }),
        None => None,
    }
}

/// The first of two optional errors.
pub open spec fn or_else(first: Option<ParseErrorModel>, second: Option<ParseErrorModel>) -> Option<
    ParseErrorModel,
> {
    if first is Some {
        first
    } else {
        second
    }
}

/// The first fault of a header, the fields taken in the order in which they are
/// listed here.
pub open spec fn first_fault(h: Pod) -> Option<ParseErrorModel> {
    or_else(
        at_field("title"@, text_fault(field_of(h, "title"@), true)),
        or_else(
            at_field("description"@, text_fault(field_of(h, "description"@), true)),
            or_else(
                at_field("author"@, text_fault(field_of(h, "author"@), true)),
                or_else(
                    at_field("tags"@, list_fault(field_of(h, "tags"@))),
                    or_else(
                        at_field("created_at"@, time_fault(field_of(h, "created_at"@))),
                        or_else(
                            at_field("updated_at"@, time_fault(field_of(h, "updated_at"@))),
                            optional_fault(h),
                        ),
                    ),
                ),
            ),
        ),
    )
}

/// The first fault among the optional fields of a header.
pub open spec fn optional_fault(h: Pod) -> Option<ParseErrorModel> {
    or_else(
        at_field("series"@, text_fault(field_of(h, "series"@), false)),
        or_else(
            at_field("series_order"@, integer_fault(field_of(h, "series_order"@))),
            or_else(
                at_field("series_description"@, text_fault(field_of(h, "series_description"@), false)),
                or_else(
                    at_field("series_status"@, text_fault(field_of(h, "series_status"@), false)),
                    or_else(
                        at_field("prev_post"@, text_fault(field_of(h, "prev_post"@), false)),
                        or_else(
                            at_field("next_post"@, text_fault(field_of(h, "next_post"@), false)),
                            or_else(
                                at_field("og_image"@, text_fault(field_of(h, "og_image"@), false)),
                                or_else(
                                    at_field("lang"@, text_fault(field_of(h, "lang"@), false)),
                                    at_field("slug"@, text_fault(field_of(h, "slug"@), false)),
                                ),
                            ),
                        ),
                    ),
                ),
            ),
        ),
    )
}

/// The metadata that a header without faults holds.
pub open spec fn metadata_in(h: Pod) -> MetadataModel {
    MetadataModel {
        title: text_value(field_of(h, "title"@))->0,
        description: text_value(field_of(h, "description"@))->0,
        author: text_value(field_of(h, "author"@))->0,
        tags: list_value(field_of(h, "tags"@)),
        created_at: time_value(field_of(h, "created_at"@)),
        updated_at: time_value(field_of(h, "updated_at"@)),
        series: text_value(field_of(h, "series"@)),
        series_order: integer_value(field_of(h, "series_order"@)),
        series_description: text_value(field_of(h, "series_description"@)),
        series_status: text_value(field_of(h, "series_status"@)),
        prev_post: text_value(field_of(h, "prev_post"@)),
        next_post: text_value(field_of(h, "next_post"@)),
        og_image: text_value(field_of(h, "og_image"@)),
        lang: text_value(field_of(h, "lang"@)),
        slug: text_value(field_of(h, "slug"@)),
    }
}

/// The metadata of a header, or its first fault.
pub open spec fn metadata_of(h: Pod) -> Result<MetadataModel, ParseErrorModel> {
    match first_fault(h) {
        Some(e) => Err(e),
        None => Ok(metadata_in(h)),
    }
}

/// The error for a fault in a field.
fn fault_in(key: &str, fault: FieldFault) -> (e: ParseError)
    ensures
        e@ == (ParseErrorModel::MetadataParseError { field: key@, fault }),
{
    ParseError::MetadataParseError { field: key.to_owned(), fault }
}

/// A text field: absent only if it is not required.
pub fn read_text(value: HeaderValue, key: &str, required: bool) -> (r: Result<Option<String>, ParseError>)
    ensures
        match r {
            Ok(t) => text_fault(value@, required) is None && opt_text(t) == text_value(value@) && (required
                ==> t is Some),
            Err(e) => at_field(key@, text_fault(value@, required)) == Some(e@),
        },
{
    match value {
        HeaderValue::Text(t) => Ok(Some(t)),
        HeaderValue::Absent => if required {
            Err(fault_in(key, FieldFault::Missing))
        } else {
            Ok(None)
        },
        _ => Err(fault_in(key, FieldFault::WrongType)),
    }
}

/// An optional integer field.
pub fn read_integer(value: HeaderValue, key: &str) -> (r: Result<Option<i64>, ParseError>)
    ensures
        match r {
            Ok(n) => integer_fault(value@) is None && n == integer_value(value@),
            Err(e) => at_field(key@, integer_fault(value@)) == Some(e@),
        },
{
    match value {
        HeaderValue::Integer(n) => Ok(Some(n)),
        HeaderValue::Absent => Ok(None),
        _ => Err(fault_in(key, FieldFault::WrongType)),
    }
}

/// A required field that is a list of strings.
pub fn read_list(value: HeaderValue, key: &str) -> (r: Result<Vec<String>, ParseError>)
    ensures
        match r {
            Ok(items) => list_fault(value@) is None && texts(items@) == list_value(value@),
            Err(e) => at_field(key@, list_fault(value@)) == Some(e@),
        },
{
    let ghost whole = value@;
    match value {
        HeaderValue::List(items) => {
            let ghost model = items@.map_values(|o: Option<String>| opt_text(o));
            assert(whole == ValueModel::List(model));
            let mut out: Vec<String> = Vec::new();
            let mut i: usize = 0;
            while i < items.len()
                invariant
                    i <= items.len(),
                    model == items@.map_values(|o: Option<String>| opt_text(o)),
                    whole == ValueModel::List(model),
                    whole == value@,
                    out.len() == i,
                    forall|j: int| 0 <= j < i ==> (#[trigger] model[j]) is Some && out[j]@ == model[j]->0,
                decreases items.len() - i,
            {
                match &items[i] {
                    Some(t) => {
                        assert(model[i as int] == Some(t@));
                        out.push(t.clone());
                    },
                    None => {
                        assert(model[i as int] is None);
                        assert(!all_texts(model));
                        return Err(fault_in(key, FieldFault::WrongType));
                    },
                }
                i += 1;
            }
            assert(all_texts(model));
            assert(texts(out@) =~= list_value(ValueModel::List(model)));
            Ok(out)
        },
        HeaderValue::Absent => Err(fault_in(key, FieldFault::Missing)),
        _ => Err(fault_in(key, FieldFault::WrongType)),
    }
}

/// A required timestamp field.
pub fn read_time(value: HeaderValue, key: &str) -> (r: Result<Timestamp, ParseError>)
    ensures
        match r {
            Ok(at) => time_fault(value@) is None && at == time_value(value@),
            Err(e) => at_field(key@, time_fault(value@)) == Some(e@),
        },
{
    match value {
        HeaderValue::Text(t) => match parse_timestamp(t.as_str()) {
            Some(at) => Ok(at),
            None => Err(fault_in(key, FieldFault::Timestamp)),
        },
        HeaderValue::Absent => Err(fault_in(key, FieldFault::Missing)),
        _ => Err(fault_in(key, FieldFault::WrongType)),
    }
}

/// The text of a required field that was read without fault.
fn required(t: Option<String>) -> (r: String)
    requires
        t is Some,
    ensures
        Some(r@) == opt_text(t),
{
    match t {
        Some(s) => s,
        None => String::new(),
    }
}

/// Reads the metadata of a parsed header: the fields in the order of
/// `first_fault`, stopping at the first fault.
pub fn read_metadata(header: &Pod) -> (r: Result<PostMetadata, ParseError>)
    ensures
        match r {
            Ok(m) => metadata_of(*header) == Ok::<MetadataModel, ParseErrorModel>(m@),
            Err(e) => metadata_of(*header) == Err::<MetadataModel, ParseErrorModel>(e@),
        },
{
    let title = match read_text(header_field(header, "title"), "title", true) {
        Ok(t) => required(t),
        Err(e) => {
            return Err(e);
        },
    };
    let description = match read_text(header_field(header, "description"), "description", true) {
        Ok(t) => required(t),
        Err(e) => {
            return Err(e);
        },
    };
    let author = match read_text(header_field(header, "author"), "author", true) {
        Ok(t) => required(t),
        Err(e) => {
            return Err(e);
        },
    };
    let tags = match read_list(header_field(header, "tags"), "tags") {
        Ok(t) => t,
        Err(e) => {
            return Err(e);
        },
    };
    let created_at = match read_time(header_field(header, "created_at"), "created_at") {
        Ok(t) => t,
        Err(e) => {
            return Err(e);
        },
    };
    let updated_at = match read_time(header_field(header, "updated_at"), "updated_at") {
        Ok(t) => t,
        Err(e) => {
            return Err(e);
        },
    };
    let series = match read_text(header_field(header, "series"), "series", false) {
        Ok(t) => t,
        Err(e) => {
            return Err(e);
        },
    };
    let series_order = match read_integer(header_field(header, "series_order"), "series_order") {
        Ok(t) => t,
        Err(e) => {
            return Err(e);
        },
    };
    let series_description = match read_text(
        header_field(header, "series_description"),
        "series_description",
        false,
    ) {
        Ok(t) => t,
        Err(e) => {
            return Err(e);
        },
    };
    let series_status = match read_text(header_field(header, "series_status"), "series_status", false) {
        Ok(t) => t,
        Err(e) => {
            return Err(e);
        },
    };
    let prev_post = match read_text(header_field(header, "prev_post"), "prev_post", false) {
        Ok(t) => t,
        Err(e) => {
            return Err(e);
        },
    };
    let next_post = match read_text(header_field(header, "next_post"), "next_post", false) {
        Ok(t) => t,
        Err(e) => {
            return Err(e);
        },
    };
    let og_image = match read_text(header_field(header, "og_image"), "og_image", false) {
        Ok(t) => t,
        Err(e) => {
            return Err(e);
        },
    };
    let lang = match read_text(header_field(header, "lang"), "lang", false) {
        Ok(t) => t,
        Err(e) => {
            return Err(e);
        },
    };
    let slug = match read_text(header_field(header, "slug"), "slug", false) {
        Ok(t) => t,
        Err(e) => {
            return Err(e);
        },
    };
    Ok(
        PostMetadata {
            title,
            description,
            author,
            tags,
            created_at,
            updated_at,
            series,
            series_order,
            series_description,
            series_status,
            prev_post,
            next_post,
            og_image,
            lang,
            slug,
        },
    )
}

} // verus!
