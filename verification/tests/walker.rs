use invoice_report::error::{ReportError, XmlFault};
use invoice_report::event::{Attribute, XmlEvent};
use invoice_report::walker::XmlWalker;

fn events_of(input: &str) -> Result<Vec<XmlEvent>, ReportError> {
    let mut walker = XmlWalker::new(input);
    let mut events = Vec::new();
    loop {
        let event = walker.next_event()?;
        let last = event == XmlEvent::EndOfDocument;
        events.push(event);
        if last {
            return Ok(events);
        }
    }
}

#[test]
fn walker_delivers_events_in_document_order() {
    let events = events_of("<Invoice><ID>INV-001</ID></Invoice>").unwrap();
    assert_eq!(
        events,
        vec![
            XmlEvent::start("Invoice", vec![]),
            XmlEvent::start("ID", vec![]),
            XmlEvent::text("INV-001"),
            XmlEvent::ElementEnd,
            XmlEvent::ElementEnd,
            XmlEvent::EndOfDocument,
        ]
    );
}

#[test]
fn walker_expands_an_empty_element() {
    let events = events_of("<Tax schemeID=\"VAT\"/>").unwrap();
    assert_eq!(
        events,
        vec![
            XmlEvent::start("Tax", vec![Attribute::new("schemeID", "VAT")]),
            XmlEvent::ElementEnd,
            XmlEvent::EndOfDocument,
        ]
    );
}

#[test]
fn walker_keeps_the_order_of_attributes_and_unescapes_values() {
    let events = events_of("<a z=\"1\" b='&lt;2&gt;' m = \"\">t</a>").unwrap();
    assert_eq!(
        events[0],
        XmlEvent::start(
            "a",
            vec![Attribute::new("z", "1"), Attribute::new("b", "<2>"), Attribute::new("m", "")]
        )
    );
}

#[test]
fn walker_trims_text_and_skips_blank_text() {
    let events = events_of("<a>\n  <b>  x y  </b>\n</a>").unwrap();
    assert_eq!(
        events,
        vec![
            XmlEvent::start("a", vec![]),
            XmlEvent::start("b", vec![]),
            XmlEvent::text("x y"),
            XmlEvent::ElementEnd,
            XmlEvent::ElementEnd,
            XmlEvent::EndOfDocument,
        ]
    );
}

#[test]
fn walker_reports_other_markup_as_other() {
    let events =
        events_of("<?xml version=\"1.0\"?><!DOCTYPE a><!-- c --><a><?pi x?><![CDATA[d]]></a>")
            .unwrap();
    assert_eq!(
        events,
        vec![
            XmlEvent::Other,
            XmlEvent::Other,
            XmlEvent::Other,
            XmlEvent::start("a", vec![]),
            XmlEvent::Other,
            XmlEvent::Other,
            XmlEvent::ElementEnd,
            XmlEvent::EndOfDocument,
        ]
    );
}

#[test]
fn walker_reports_a_mismatched_end_tag_with_its_position() {
    let mut walker = XmlWalker::new("<Invoice><ID>INV-001</Invoice>");
    assert_eq!(walker.next_event(), Ok(XmlEvent::start("Invoice", vec![])));
    assert_eq!(walker.next_event(), Ok(XmlEvent::start("ID", vec![])));
    assert_eq!(walker.next_event(), Ok(XmlEvent::text("INV-001")));
    assert_eq!(
        walker.next_event(),
        Err(ReportError::MalformedXml(XmlFault::Syntax { offset: 22 }))
    );
}

#[test]
fn walker_reports_an_end_tag_without_a_start() {
    let result = events_of("</a>");
    assert!(matches!(result, Err(ReportError::MalformedXml(XmlFault::Syntax { .. }))));
}

#[test]
fn walker_reports_an_unterminated_comment() {
    let result = events_of("<a><!-- never closed</a>");
    assert!(matches!(result, Err(ReportError::MalformedXml(XmlFault::Syntax { .. }))));
}

#[test]
fn walker_ends_an_empty_document_at_once() {
    assert_eq!(events_of(""), Ok(vec![XmlEvent::EndOfDocument]));
}

#[test]
fn walker_stays_at_its_failure() {
    let mut walker = XmlWalker::new("<a></b><c>text</c>");
    assert_eq!(walker.next_event(), Ok(XmlEvent::start("a", vec![])));
    let failure = walker.next_event();
    assert!(matches!(failure, Err(ReportError::MalformedXml(XmlFault::Syntax { .. }))));
    assert_eq!(walker.next_event(), failure);
    assert_eq!(walker.next_event(), failure);
}

#[test]
fn walker_stays_at_a_failure_to_unescape() {
    let mut walker = XmlWalker::new("<a>&nosuch;</a><b/>");
    assert_eq!(walker.next_event(), Ok(XmlEvent::start("a", vec![])));
    assert_eq!(
        walker.next_event(),
        Err(ReportError::MalformedXml(XmlFault::Syntax { offset: 11 }))
    );
    assert_eq!(
        walker.next_event(),
        Err(ReportError::MalformedXml(XmlFault::Syntax { offset: 11 }))
    );
}

#[test]
fn walker_stays_at_the_end() {
    let mut walker = XmlWalker::new("<a/>");
    assert_eq!(walker.next_event(), Ok(XmlEvent::start("a", vec![])));
    assert_eq!(walker.next_event(), Ok(XmlEvent::ElementEnd));
    assert_eq!(walker.next_event(), Ok(XmlEvent::EndOfDocument));
    assert_eq!(walker.next_event(), Ok(XmlEvent::EndOfDocument));
}
