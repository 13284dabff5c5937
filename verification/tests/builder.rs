use invoice_report::catalogue::{Catalogue, CatalogueEntry};
use invoice_report::error::{ReportError, XmlFault};
use invoice_report::event::{Attribute, XmlEvent};
use invoice_report::pipeline::report_of_events;
use invoice_report::report::{ReportBuilder, ReportLine};

fn catalogue(rows: &[(&str, &str)]) -> Catalogue {
    Catalogue::new(rows.iter().map(|(name, label)| CatalogueEntry::new(name, label)).collect())
}

fn text_line(path: &str, label: &str, value: &str) -> ReportLine {
    ReportLine::Text { path: path.to_string(), label: label.to_string(), value: value.to_string() }
}

fn attribute_line(path: &str, key: &str, value: &str) -> ReportLine {
    ReportLine::Attribute { path: path.to_string(), key: key.to_string(), value: value.to_string() }
}

#[test]
fn new_builder_is_at_the_root_with_no_lines() {
    let catalogue = catalogue(&[("ID", "BT-1")]);
    let builder = ReportBuilder::new(&catalogue);
    assert_eq!(builder.depth(), 0);
    assert!(builder.path().is_empty());
    assert!(builder.lines().is_empty());
    assert!(!builder.is_finished());
}

#[test]
fn depth_follows_the_nesting_at_every_event() {
    let catalogue = catalogue(&[("ID", "BT-1")]);
    let mut builder = ReportBuilder::new(&catalogue);
    let events = [
        (XmlEvent::start("Invoice", vec![]), 1),
        (XmlEvent::Other, 1),
        (XmlEvent::start("ID", vec![]), 2),
        (XmlEvent::text("INV-001"), 2),
        (XmlEvent::ElementEnd, 1),
        (XmlEvent::start("Total", vec![]), 2),
        (XmlEvent::start("Amount", vec![]), 3),
        (XmlEvent::ElementEnd, 2),
        (XmlEvent::ElementEnd, 1),
        (XmlEvent::ElementEnd, 0),
        (XmlEvent::EndOfDocument, 0),
    ];
    for (event, depth) in events.iter() {
        assert_eq!(builder.on_event(event), Ok(()));
        assert_eq!(builder.depth(), *depth);
    }
    assert!(builder.is_finished());
    assert!(builder.path().is_empty());
}

#[test]
fn path_holds_the_open_elements_from_the_root_down() {
    let catalogue = catalogue(&[]);
    let mut builder = ReportBuilder::new(&catalogue);
    builder.on_event(&XmlEvent::start("Invoice", vec![])).unwrap();
    builder.on_event(&XmlEvent::start("Party", vec![])).unwrap();
    assert_eq!(builder.path(), &vec!["Invoice".to_string(), "Party".to_string()]);
    builder.on_event(&XmlEvent::ElementEnd).unwrap();
    assert_eq!(builder.path(), &vec!["Invoice".to_string()]);
}

#[test]
fn end_without_an_open_element_is_an_invariant_violation() {
    let catalogue = catalogue(&[("ID", "BT-1")]);
    let mut builder = ReportBuilder::new(&catalogue);
    assert_eq!(builder.on_event(&XmlEvent::ElementEnd), Err(ReportError::InvariantViolation));
    assert_eq!(builder.depth(), 0);
    assert!(!builder.is_finished());
    assert_eq!(
        report_of_events(
            &vec![XmlEvent::start("a", vec![]), XmlEvent::ElementEnd, XmlEvent::ElementEnd],
            &catalogue
        ),
        Err(ReportError::InvariantViolation)
    );
}

#[test]
fn end_of_document_with_open_elements_is_malformed() {
    let catalogue = catalogue(&[("ID", "BT-1")]);
    let mut builder = ReportBuilder::new(&catalogue);
    builder.on_event(&XmlEvent::start("Invoice", vec![])).unwrap();
    builder.on_event(&XmlEvent::start("ID", vec![])).unwrap();
    builder.on_event(&XmlEvent::text("INV-001")).unwrap();
    assert_eq!(
        builder.on_event(&XmlEvent::EndOfDocument),
        Err(ReportError::MalformedXml(XmlFault::UnclosedElements { open: 2 }))
    );
    assert_eq!(builder.depth(), 2);
    assert!(!builder.is_finished());
    assert_eq!(builder.lines().len(), 1);
}

#[test]
fn nothing_is_taken_after_the_end_of_the_document() {
    let catalogue = catalogue(&[("ID", "BT-1")]);
    let mut builder = ReportBuilder::new(&catalogue);
    builder.on_event(&XmlEvent::EndOfDocument).unwrap();
    assert!(builder.is_finished());
    assert_eq!(builder.on_event(&XmlEvent::start("ID", vec![])), Ok(()));
    assert_eq!(builder.on_event(&XmlEvent::text("late")), Ok(()));
    assert_eq!(builder.on_event(&XmlEvent::ElementEnd), Ok(()));
    assert_eq!(builder.depth(), 0);
    assert!(builder.into_lines().is_empty());
}

#[test]
fn text_under_a_catalogued_element_gives_a_line() {
    let events = vec![
        XmlEvent::start("Invoice", vec![]),
        XmlEvent::start("ID", vec![]),
        XmlEvent::text("  INV-001\n"),
        XmlEvent::ElementEnd,
        XmlEvent::ElementEnd,
        XmlEvent::EndOfDocument,
    ];
    assert_eq!(
        report_of_events(&events, &catalogue(&[("ID", "BT-1")])),
        Ok(vec![text_line("Invoice > ID", "BT-1", "INV-001")])
    );
}

#[test]
fn text_under_no_catalogued_element_is_dropped() {
    let events = vec![
        XmlEvent::start("Invoice", vec![]),
        XmlEvent::text("loose"),
        XmlEvent::ElementEnd,
    ];
    assert_eq!(report_of_events(&events, &catalogue(&[("ID", "BT-1")])), Ok(vec![]));
    assert_eq!(report_of_events(&vec![XmlEvent::text("rootless")], &catalogue(&[("ID", "BT-1")])), Ok(vec![]));
}

#[test]
fn whitespace_only_text_gives_no_line() {
    for blank in ["", " ", "\n\t  \r\n", "\u{00A0}\u{2003}\u{3000}"] {
        let events = vec![
            XmlEvent::start("ID", vec![]),
            XmlEvent::text(blank),
            XmlEvent::ElementEnd,
        ];
        assert_eq!(report_of_events(&events, &catalogue(&[("ID", "BT-1")])), Ok(vec![]));
    }
}

#[test]
fn first_entry_wins_among_entries_of_one_name() {
    // Two entries answer to "ID". The text stands under ExchangedDocument,
    // the context of the second; it still resolves to the label of the
    // first, because only the order of the entries decides.
    let catalogue = catalogue(&[("ID", "BT-23"), ("ExchangedDocument", "BT-1-00"), ("ID", "BT-1")]);
    let events = vec![
        XmlEvent::start("ExchangedDocument", vec![]),
        XmlEvent::start("ID", vec![]),
        XmlEvent::text("INV-001"),
        XmlEvent::ElementEnd,
        XmlEvent::ElementEnd,
    ];
    assert_eq!(
        report_of_events(&events, &catalogue),
        Ok(vec![text_line("ExchangedDocument > ID", "BT-23", "INV-001")])
    );
}

#[test]
fn catalogued_attributes_give_lines_in_tag_order() {
    let events = vec![
        XmlEvent::start(
            "Amount",
            vec![
                Attribute::new("currencyID", "EUR"),
                Attribute::new("unknown", "x"),
                Attribute::new("schemeID", "VAT"),
            ],
        ),
        XmlEvent::ElementEnd,
    ];
    assert_eq!(
        report_of_events(&events, &catalogue(&[("schemeID", "BT-31-0"), ("currencyID", "BT-110-0")])),
        Ok(vec![
            attribute_line("Amount", "currencyID", "EUR"),
            attribute_line("Amount", "schemeID", "VAT"),
        ])
    );
}

#[test]
fn attribute_lines_come_before_the_lines_of_the_children() {
    let events = vec![
        XmlEvent::start("Registration", vec![]),
        XmlEvent::start("ID", vec![Attribute::new("schemeID", "VA")]),
        XmlEvent::text("DE123"),
        XmlEvent::ElementEnd,
        XmlEvent::ElementEnd,
    ];
    assert_eq!(
        report_of_events(&events, &catalogue(&[("ID", "BT-31"), ("schemeID", "BT-31-0")])),
        Ok(vec![
            attribute_line("Registration > ID", "schemeID", "VA"),
            text_line("Registration > ID", "BT-31", "DE123"),
        ])
    );
}

#[test]
fn lines_only_grow_at_the_end() {
    let catalogue = catalogue(&[("ID", "BT-1"), ("Name", "BT-27")]);
    let mut builder = ReportBuilder::new(&catalogue);
    let events = vec![
        XmlEvent::start("ID", vec![]),
        XmlEvent::text("first"),
        XmlEvent::ElementEnd,
        XmlEvent::start("Name", vec![]),
        XmlEvent::text("second"),
        XmlEvent::text("third"),
        XmlEvent::ElementEnd,
        XmlEvent::EndOfDocument,
    ];
    let mut seen: Vec<ReportLine> = Vec::new();
    for event in events.iter() {
        builder.on_event(event).unwrap();
        let lines = builder.lines();
        assert!(lines.len() >= seen.len());
        assert_eq!(&lines[..seen.len()], &seen[..]);
        seen = lines.clone();
    }
    assert_eq!(
        seen,
        vec![
            text_line("ID", "BT-1", "first"),
            text_line("Name", "BT-27", "second"),
            text_line("Name", "BT-27", "third"),
        ]
    );
}

#[test]
fn the_end_of_the_sequence_ends_the_document() {
    let catalogue = catalogue(&[("ID", "BT-1")]);
    assert_eq!(
        report_of_events(&vec![XmlEvent::start("ID", vec![]), XmlEvent::text("x")], &catalogue),
        Err(ReportError::MalformedXml(XmlFault::UnclosedElements { open: 1 }))
    );
    assert_eq!(report_of_events(&Vec::new(), &catalogue), Ok(vec![]));
}

#[test]
fn builder_takes_the_local_part_of_names_and_keys() {
    let catalogue = catalogue(&[("ID", "BT-1"), ("schemeID", "BT-30-1")]);
    let mut builder = ReportBuilder::new(&catalogue);
    builder.on_event(&XmlEvent::start("rsm:Invoice", vec![])).unwrap();
    builder
        .on_event(&XmlEvent::start(
            "ram:ID",
            vec![Attribute::new("ram:schemeID", "VA"), Attribute::new("xmlns:schemeID", "u")],
        ))
        .unwrap();
    assert_eq!(builder.path(), &vec!["Invoice".to_string(), "ID".to_string()]);
    builder.on_event(&XmlEvent::text("INV-001")).unwrap();
    assert_eq!(
        builder.lines(),
        &vec![
            attribute_line("Invoice > ID", "schemeID", "VA"),
            attribute_line("Invoice > ID", "schemeID", "u"),
            text_line("Invoice > ID", "BT-1", "INV-001"),
        ]
    );
}
