//! The walk over an XML document: a single forward pass that turns the input
//! into structural events, one at a time, without building a tree.
//!
//! The parsing is quick-xml's. What it delivers on a given input is not
//! modelled here; it goes by the name `document_steps`, and the contracts of
//! this module say how the events that a walker hands out relate to it.

use vstd::prelude::*;
use quick_xml::Reader;
use quick_xml::events::Event;
use crate::error::{ReportError, XmlFault};
use crate::event::{Attribute, XmlEvent, XmlEventView};

verus! {

/// quick-xml's error type, opaque to the verifier.
#[verifier::external_type_specification]
#[verifier::external_body]
pub struct ExXmlError(quick_xml::Error);

/// One step of a walk: an event, or the failure to parse on.
pub enum WalkStep {
    Event(XmlEventView),
    /// The reader stood at byte `offset` of the input when it gave up.
    Failure { offset: usize },
}

/// Whether a walk ends with this step.
pub open spec fn is_terminal(step: WalkStep) -> bool {
    step is Failure || step == WalkStep::Event(XmlEventView::EndOfDocument)
}

/// Whether `steps` is a whole walk: it has a last step, which is the end of
/// the document or a failure, and no step before it is either.
pub open spec fn is_walk(steps: Seq<WalkStep>) -> bool {
    &&& steps.len() > 0
    &&& is_terminal(steps.last())
    &&& forall|i: int| 0 <= i < steps.len() - 1 ==> !is_terminal(#[trigger] steps[i])
}

/// quick-xml's streaming reader over one document. It stays opaque to the
/// verifier: what is known of a source is what `pending_steps` and
/// `stream_position` name.
#[verifier::external_body]
pub struct XmlSource<'a> {
    reader: Reader<&'a [u8]>,
}

/// The steps of the walk over the document `input`, as quick-xml parses it
/// with text trimming and the expansion of empty elements switched on.
pub uninterp spec fn document_steps(input: Seq<char>) -> Seq<WalkStep>;

/// The steps that a source in this state has yet to deliver, up to and
/// including the first that is terminal.
pub uninterp spec fn pending_steps(source: XmlSource) -> Seq<WalkStep>;

/// The byte position in the input that a source in this state reports.
pub uninterp spec fn stream_position(source: XmlSource) -> usize;

/// The step that a read stands for, given where the source stands after it.
pub open spec fn read_step(result: Result<XmlEvent, quick_xml::Error>, position: usize) -> WalkStep {
    match result {
        Ok(event) => WalkStep::Event(event@),
        Err(_) => WalkStep::Failure { offset: position },
    }
}

/// `Reader::from_str`, followed by `trim_text(true)` and
/// `expand_empty_elements(true)` on the new reader. The contract names what
/// the reader will deliver as the walk over `input`, and claims that this
/// walk is finite: every read consumes input or ends the walk.
#[verifier::external_body]
fn open_source<'a>(input: &'a str) -> (source: XmlSource<'a>)
    ensures
        pending_steps(source) == document_steps(input@),
        is_walk(pending_steps(source)),
{
    let mut reader = Reader::from_str(input);
    reader.trim_text(true).expand_empty_elements(true);
    XmlSource { reader }
}

/// `Reader::read_event`, with the event turned into an `XmlEvent`: the name
/// of a start tag from `BytesStart::name`, its attributes from
/// `BytesStart::attributes` with each value from
/// `Attribute::unescape_and_decode_value`, a text from
/// `BytesText::unescape_and_decode`. An error of any of these calls is the
/// result. The contract claims that the read delivers the first of the
/// pending steps and, unless that step is terminal, leaves the rest pending.
#[verifier::external_body]
fn read_event(source: &mut XmlSource) -> (result: Result<XmlEvent, quick_xml::Error>)
    ensures
        is_walk(pending_steps(*old(source))),
        read_step(result, stream_position(*final(source))) == pending_steps(*old(source)).first(),
        !is_terminal(pending_steps(*old(source)).first()) ==> pending_steps(*final(source))
            == pending_steps(*old(source)).drop_first(),
{
    let mut buf = Vec::new();
    Ok(match source.reader.read_event(&mut buf)? {
        Event::Start(e) => XmlEvent::ElementStart {
            name: String::from_utf8_lossy(e.name()).into_owned(),
            attributes: e.attributes().map(|a| {
                let a = a?;
                let value = a.unescape_and_decode_value(&source.reader)?;
                Ok(Attribute { key: String::from_utf8_lossy(a.key).into_owned(), value })
            }).collect::<Result<Vec<Attribute>, quick_xml::Error>>()?,
        },
        Event::End(_) => XmlEvent::ElementEnd,
        Event::Text(t) => XmlEvent::Text { content: t.unescape_and_decode(&source.reader)? },
        Event::Eof => XmlEvent::EndOfDocument,
        _ => XmlEvent::Other,
    })
}

/// `Reader::buffer_position`: the byte position in the input that the reader
/// has reached.
#[verifier::external_body]
fn source_position(source: &XmlSource) -> (position: usize)
    ensures
        position == stream_position(*source),
{
    source.reader.buffer_position()
}

/// How far a walk has come.
enum Progress {
    Underway,
    Ended,
    Failed { offset: usize },
}

/// A walk in progress over one document. It is finite and cannot be
/// restarted: once it has delivered its terminal step, it delivers that
/// step again, whenever it is asked.
pub struct XmlWalker<'a> {
    source: XmlSource<'a>,
    progress: Progress,
}

/// The step that the result of `XmlWalker::next_event` stands for.
pub open spec fn delivered(result: Result<XmlEvent, ReportError>) -> Option<WalkStep> {
    match result {
        Ok(event) => Some(WalkStep::Event(event@)),
        Err(ReportError::MalformedXml(XmlFault::Syntax { offset })) => Some(
            WalkStep::Failure { offset },
        ),
        Err(_) => None,
    }
}

/// What is left of a walk after its first step: the rest, or that step
/// alone where the walk ends with it.
pub open spec fn after_first(steps: Seq<WalkStep>) -> Seq<WalkStep> {
    if is_terminal(steps.first()) {
        seq![steps.first()]
    } else {
        steps.drop_first()
    }
}

impl<'a> XmlWalker<'a> {
    /// The steps that the walker has yet to deliver, up to and including the
    /// first that is terminal.
    pub closed spec fn remaining(&self) -> Seq<WalkStep> {
        match self.progress {
            Progress::Underway => pending_steps(self.source),
            Progress::Ended => seq![WalkStep::Event(XmlEventView::EndOfDocument)],
            Progress::Failed { offset } => seq![WalkStep::Failure { offset }],
        }
    }

    /// A walker at the start of `input`.
    pub fn new(input: &'a str) -> (walker: XmlWalker<'a>)
        ensures
            walker.remaining() == document_steps(input@),
            is_walk(walker.remaining()),
    {
        XmlWalker { source: open_source(input), progress: Progress::Underway }
    }

    /// Delivers the next step of the walk: an event, or the failure to parse
    /// on, with the byte position that the walker had reached.
    pub fn next_event(&mut self) -> (result: Result<XmlEvent, ReportError>)
        ensures
            is_walk(old(self).remaining()),
            delivered(result) == Some(old(self).remaining().first()),
            final(self).remaining() == after_first(old(self).remaining()),
    {
        match self.progress {
            Progress::Ended => Ok(XmlEvent::EndOfDocument),
            Progress::Failed { offset } => Err(
                ReportError::MalformedXml(XmlFault::Syntax { offset }),
            ),
            Progress::Underway => match read_event(&mut self.source) {
                Ok(event) => {
                    match event {
                        XmlEvent::EndOfDocument => {
                            self.progress = Progress::Ended;
                        },
                        _ => {},
                    }
                    Ok(event)
                },
                Err(_) => {
                    let offset: usize = source_position(&self.source);
                    self.progress = Progress::Failed { offset };
                    Err(ReportError::MalformedXml(XmlFault::Syntax { offset }))
                },
            },
        }
    }
}

} // verus!
