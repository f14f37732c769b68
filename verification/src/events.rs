//! Events produced by the XML tokenizer, as this library sees them, and the
//! classification of tag names into the recognized vocabulary.

use vstd::prelude::*;

verus! {

/// One structural event of the document, already reduced to what the subtree
/// consumer inspects: tag names, character data, an end-of-stream marker, and
/// tokenizer failures. Everything else (comments, processing instructions,
/// document markers, ignorable whitespace) is `Other`.
pub enum Event {
    StartTag { name: String },
    EndTag { name: String },
    Text { content: String },
    Other,
    EndOfStream,
    ReadError { message: String },
}

/// The mathematical value of an event: names and text as character sequences.
pub enum EvV {
    Start(Seq<char>),
    End(Seq<char>),
    Text(Seq<char>),
    Other,
    EndOfStream,
    ReadError(Seq<char>),
}

impl View for Event {
    type V = EvV;

    open spec fn view(&self) -> EvV {
        match self {
            Event::StartTag { name } => EvV::Start(name@),
            Event::EndTag { name } => EvV::End(name@),
            Event::Text { content } => EvV::Text(content@),
            Event::Other => EvV::Other,
            Event::EndOfStream => EvV::EndOfStream,
            Event::ReadError { message } => EvV::ReadError(message@),
        }
    }
}

/// Whether an event is one the source repeats forever: the end of the
/// document, or a failure.
pub open spec fn is_terminal(e: EvV) -> bool {
    e is EndOfStream || e is ReadError
}

/// The recognized child fields of the subtree.
#[derive(Clone, Copy, PartialEq, Eq, Structural, Debug)]
pub enum FieldKind {
    Power,
    Temperature,
    Cadence,
    HeartRate,
}

/// How the dispatch loop treats a start or end tag: the subtree's own root
/// name, a recognized field, or unknown vendor content.
#[derive(Clone, Copy, PartialEq, Eq, Structural, Debug)]
pub enum TagClass {
    Root,
    Field(FieldKind),
    Unknown,
}

/// The element name whose subtree this library consumes.
pub open spec fn root_name() -> Seq<char> {
    "extensions"@
}

/// The child tag name that carries each recognized field.
pub open spec fn field_name(f: FieldKind) -> Seq<char> {
    match f {
        FieldKind::Power => "power"@,
        FieldKind::Temperature => "atemp"@,
        FieldKind::Cadence => "cad"@,
        FieldKind::HeartRate => "hr"@,
    }
}

/// The field dispatch table: which recognized field, if any, a tag name names.
pub open spec fn field_of(name: Seq<char>) -> Option<FieldKind> {
    if name == field_name(FieldKind::Power) {
        Some(FieldKind::Power)
    } else if name == field_name(FieldKind::Temperature) {
        Some(FieldKind::Temperature)
    } else if name == field_name(FieldKind::Cadence) {
        Some(FieldKind::Cadence)
    } else if name == field_name(FieldKind::HeartRate) {
        Some(FieldKind::HeartRate)
    } else {
        None
    }
}

/// Classification of a tag name, root name first: a nested tag that happens to
/// share a field's name inside the subtree is still a field, but the root name
/// is never treated as a field.
pub open spec fn classify(name: Seq<char>) -> TagClass {
    if name == root_name() {
        TagClass::Root
    } else {
        match field_of(name) {
            Some(f) => TagClass::Field(f),
            None => TagClass::Unknown,
        }
    }
}

/// Looks a tag name up in the dispatch table.
pub fn classify_tag(name: &String) -> (r: TagClass)
    ensures
        r == classify(name@),
{
    if name.eq(&"extensions".to_owned()) {
        TagClass::Root
    } else if name.eq(&"power".to_owned()) {
        TagClass::Field(FieldKind::Power)
    } else if name.eq(&"atemp".to_owned()) {
        TagClass::Field(FieldKind::Temperature)
    } else if name.eq(&"cad".to_owned()) {
        TagClass::Field(FieldKind::Cadence)
    } else if name.eq(&"hr".to_owned()) {
        TagClass::Field(FieldKind::HeartRate)
    } else {
        TagClass::Unknown
    }
}

/// The tag name that carries a recognized field, as a string.
pub fn field_tag(f: FieldKind) -> (r: String)
    ensures
        r@ == field_name(f),
{
    match f {
        FieldKind::Power => "power".to_owned(),
        FieldKind::Temperature => "atemp".to_owned(),
        FieldKind::Cadence => "cad".to_owned(),
        FieldKind::HeartRate => "hr".to_owned(),
    }
}

} // verus!
