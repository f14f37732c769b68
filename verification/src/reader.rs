//! The event source: a thin verified shell around the `xml` crate's pull
//! tokenizer. The only trusted steps are opening the tokenizer and pulling
//! one event; the `Context` keeps a ghost log of every event handed out, so
//! that contracts downstream can speak of exactly what was consumed.

use vstd::prelude::*;
use crate::events::{Event, EvV, is_terminal};

verus! {

/// Holds the `xml` crate's pull tokenizer. Verus refuses a declaration of
/// `xml::reader::EventReader` itself (its type parameter is bound by the
/// undeclarable trait `std::io::Read`), so the tokenizer sits opaquely in
/// this one-field struct instead.
#[verifier::external_body]
struct Tokenizer {
    inner: xml::reader::EventReader<std::io::Cursor<Vec<u8>>>,
}

/// Relies on xml::reader::EventReader::new: builds a pull tokenizer that
/// reads the given document text.
#[verifier::external_body]
fn open_reader(text: String) -> (r: Tokenizer) {
    Tokenizer { inner: xml::reader::EventReader::new(std::io::Cursor::new(text.into_bytes())) }
}

/// A pull-style event source over one XML document, together with the ghost
/// sequence of all events consumed from it so far and a ghost bound on how
/// many events remain before the terminal one.
pub struct Context {
    reader: Tokenizer,
    consumed: Ghost<Seq<EvV>>,
    fuel: Ghost<nat>,
}

impl Context {
    /// The events consumed from this source so far, oldest first.
    pub closed spec fn consumed_events(self) -> Seq<EvV> {
        self.consumed@
    }

    /// An upper bound on the events the source will still produce before it
    /// settles on a terminal one; the document is finite, so such a bound
    /// exists, though its value is unknowable.
    pub closed spec fn fuel(self) -> nat {
        self.fuel@
    }

    /// Opens an event source over the given document text.
    pub fn new(text: String) -> (c: Context)
        ensures
            c.consumed_events() == Seq::<EvV>::empty(),
    {
        Context { reader: open_reader(text), consumed: Ghost(Seq::empty()), fuel: Ghost(arbitrary()) }
    }

    /// Consumes and returns the next event of the document, appending it to
    /// the ghost log.
    ///
    /// Relies on xml::reader::EventReader::next: pulls one event from the
    /// tokenizer. Start and end tags carry their local name, character and
    /// CDATA content carries its text, the end of the document becomes
    /// `EndOfStream`, and a tokenizer failure carries the tokenizer's own
    /// message (bare for syntax errors, with position context otherwise).
    /// Also relies on the tokenizer producing only finitely many events for
    /// its finite document before repeating the document's end or a failure
    /// forever: the ghost fuel falls on every event before a terminal one.
    #[verifier::external_body]
    pub fn next_event(&mut self) -> (e: Event)
        ensures
            final(self).consumed_events() == old(self).consumed_events().push(e@),
            final(self).fuel() <= old(self).fuel(),
            !is_terminal(e@) ==> final(self).fuel() < old(self).fuel(),
    {
        match self.reader.inner.next() {
            Ok(xml::reader::XmlEvent::StartElement { name, .. }) => Event::StartTag { name: name.local_name },
            Ok(xml::reader::XmlEvent::EndElement { name }) => Event::EndTag { name: name.local_name },
            Ok(xml::reader::XmlEvent::Characters(content)) => Event::Text { content },
            Ok(xml::reader::XmlEvent::CData(content)) => Event::Text { content },
            Ok(xml::reader::XmlEvent::EndDocument) => Event::EndOfStream,
            Ok(_) => Event::Other,
            Err(e) => Event::ReadError {
                message: match e.kind() {
                    xml::reader::ErrorKind::Syntax(s) => s.to_string(),
                    _ => e.msg(),
                },
            },
        }
    }
}

} // verus!
