use invoice_report::error::{ReportError, XmlFault};
use invoice_report::service::{
    render_outcome, Action, Failure, IoFault, Outcome, RenderFault, Reply, Route, Session, Source,
    Stage, UploadCause, UploadFault,
};

fn failed(remove_upload: bool, remove_report: bool, failure: Failure) -> Action {
    Action::Finish { remove_upload, remove_report, reply: Reply::Failed { failure } }
}

#[test]
fn html_route_renders_the_upload_once() {
    let mut session = Session::new(Route::UploadHtml, 5_000);
    assert_eq!(session.stage(), Stage::Uploading);
    assert_eq!(
        session.advance(Outcome::Uploaded),
        Action::Render { source: Source::Upload, timeout_ms: 5_000 }
    );
    assert_eq!(session.stage(), Stage::Rendering);
    assert_eq!(
        session.advance(Outcome::Rendered { pdf: vec![37, 80, 68, 70] }),
        Action::Finish {
            remove_upload: true,
            remove_report: false,
            reply: Reply::Pdf { body: vec![37, 80, 68, 70] },
        }
    );
    assert_eq!(session.stage(), Stage::Done);
}

#[test]
fn xml_routes_build_the_report_before_they_render() {
    for route in [Route::UploadXml, Route::ConvertXml, Route::CheckDocument] {
        let mut session = Session::new(route, 30_000);
        assert_eq!(session.advance(Outcome::Uploaded), Action::ReadUpload);
        assert_eq!(session.stage(), Stage::Reading);
        let content = "<ExchangedDocument><ID>INV-001</ID></ExchangedDocument>".to_string();
        assert_eq!(
            session.advance(Outcome::DocumentRead { content }),
            Action::StoreReport {
                html: "<html><body><h1>Document Elements</h1><ul>\
                       <li>ExchangedDocument &gt; ID (BT-23): INV-001</li>\
                       </ul></body></html>"
                    .to_string(),
            }
        );
        assert_eq!(session.stage(), Stage::Storing);
        assert_eq!(
            session.advance(Outcome::ReportStored),
            Action::Render { source: Source::Report, timeout_ms: 30_000 }
        );
        assert_eq!(
            session.advance(Outcome::Rendered { pdf: vec![1, 2, 3] }),
            Action::Finish {
                remove_upload: true,
                remove_report: true,
                reply: Reply::Pdf { body: vec![1, 2, 3] },
            }
        );
    }
}

#[test]
fn html_route_never_reads_the_upload() {
    let mut session = Session::new(Route::UploadHtml, 1_000);
    session.advance(Outcome::Uploaded);
    assert_eq!(
        session.advance(Outcome::DocumentRead { content: "<ID>x</ID>".to_string() }),
        Action::Finish {
            remove_upload: true,
            remove_report: false,
            reply: Reply::Failed { failure: Failure::OutOfTurn },
        }
    );
}

#[test]
fn render_timeout_fails_the_request_without_a_pdf() {
    let mut session = Session::new(Route::UploadHtml, 1_000);
    session.advance(Outcome::Uploaded);
    let action = session.advance(Outcome::RenderTimedOut);
    assert_eq!(action, failed(true, false, Failure::Render(RenderFault::Timeout)));
    assert_eq!(session.stage(), Stage::Done);
    // The session is done: the render is not tried again.
    assert_eq!(session.advance(Outcome::Uploaded), failed(true, false, Failure::OutOfTurn));

    let mut session = Session::new(Route::CheckDocument, 1_000);
    session.advance(Outcome::Uploaded);
    session.advance(Outcome::DocumentRead { content: "<ID>x</ID>".to_string() });
    session.advance(Outcome::ReportStored);
    assert_eq!(
        session.advance(Outcome::RenderTimedOut),
        failed(true, true, Failure::Render(RenderFault::Timeout))
    );
}

#[test]
fn render_failure_fails_the_request() {
    let mut session = Session::new(Route::UploadHtml, 1_000);
    session.advance(Outcome::Uploaded);
    assert_eq!(
        session.advance(Outcome::RenderFailed),
        failed(true, false, Failure::Render(RenderFault::Engine))
    );

    let mut session = Session::new(Route::ConvertXml, 1_000);
    session.advance(Outcome::Uploaded);
    session.advance(Outcome::DocumentRead { content: "<ID>x</ID>".to_string() });
    session.advance(Outcome::ReportStored);
    assert_eq!(
        session.advance(Outcome::RenderFailed),
        failed(true, true, Failure::Render(RenderFault::Engine))
    );
}

#[test]
fn every_failed_render_answers_with_the_same_words() {
    for fault in [RenderFault::Engine, RenderFault::Timeout] {
        let reply = Reply::Failed { failure: Failure::Render(fault) };
        assert_eq!(reply.status(), 500);
        assert_eq!(Failure::Render(fault).message(), "PDF conversion failed");
    }
}

#[test]
fn render_outcome_goes_by_the_engine_and_the_clock() {
    assert_eq!(
        render_outcome(Some(vec![1, 2]), false, 999, 1_000),
        Outcome::Rendered { pdf: vec![1, 2] }
    );
    assert_eq!(render_outcome(None, false, 999, 1_000), Outcome::RenderFailed);
    assert_eq!(render_outcome(None, true, 10, 1_000), Outcome::RenderTimedOut);
    assert_eq!(render_outcome(None, false, 1_000, 1_000), Outcome::RenderTimedOut);
}

#[test]
fn pdf_that_arrives_late_is_not_handed_out() {
    assert_eq!(render_outcome(Some(vec![1, 2]), false, 1_000, 1_000), Outcome::RenderTimedOut);
    assert_eq!(render_outcome(Some(vec![1, 2]), false, 5_000, 1_000), Outcome::RenderTimedOut);
    assert_eq!(render_outcome(Some(vec![1, 2]), true, 10, 1_000), Outcome::RenderTimedOut);
    assert_eq!(render_outcome(Some(vec![1, 2]), false, 0, 0), Outcome::RenderTimedOut);

    let mut session = Session::new(Route::UploadHtml, 1_000);
    session.advance(Outcome::Uploaded);
    assert_eq!(
        session.advance(render_outcome(Some(vec![1, 2]), false, 1_500, 1_000)),
        failed(true, false, Failure::Render(RenderFault::Timeout))
    );
}

#[test]
fn upload_failures_end_the_session() {
    let cases = [
        (UploadCause::Missing, false, Failure::Upload(UploadFault::Missing)),
        (UploadCause::Broken, false, Failure::Upload(UploadFault::Broken)),
        (UploadCause::Broken, true, Failure::Upload(UploadFault::Broken)),
        (UploadCause::Create, false, Failure::Io(IoFault::Create)),
        (UploadCause::Write, true, Failure::Io(IoFault::Write)),
    ];
    for (cause, stored, failure) in cases {
        let mut session = Session::new(Route::UploadXml, 1_000);
        assert_eq!(
            session.advance(Outcome::UploadFailed { cause, stored }),
            failed(stored, false, failure)
        );
        assert_eq!(session.stage(), Stage::Done);
    }
}

#[test]
fn malformed_invoice_fails_the_request_before_any_render() {
    let mut session = Session::new(Route::CheckDocument, 1_000);
    session.advance(Outcome::Uploaded);
    assert_eq!(
        session.advance(Outcome::DocumentRead { content: "<Invoice><ID>1</Invoice>".to_string() }),
        failed(
            true,
            false,
            Failure::Report(ReportError::MalformedXml(XmlFault::Syntax { offset: 16 }))
        )
    );
    assert_eq!(session.stage(), Stage::Done);
}

#[test]
fn read_and_store_failures_end_the_session() {
    let mut session = Session::new(Route::CheckDocument, 1_000);
    session.advance(Outcome::Uploaded);
    assert_eq!(session.advance(Outcome::ReadFailed), failed(true, false, Failure::Io(IoFault::Read)));

    let mut session = Session::new(Route::CheckDocument, 1_000);
    session.advance(Outcome::Uploaded);
    session.advance(Outcome::DocumentRead { content: "<ID>x</ID>".to_string() });
    assert_eq!(
        session.advance(Outcome::ReportStoreFailed { stored: true }),
        failed(true, true, Failure::Io(IoFault::Write))
    );
}

#[test]
fn outcome_out_of_turn_ends_the_session() {
    let mut session = Session::new(Route::UploadHtml, 1_000);
    assert_eq!(
        session.advance(Outcome::Rendered { pdf: vec![1] }),
        failed(false, false, Failure::OutOfTurn)
    );
    assert_eq!(session.stage(), Stage::Done);

    let mut session = Session::new(Route::UploadHtml, 1_000);
    session.advance(Outcome::Uploaded);
    session.advance(Outcome::Rendered { pdf: vec![1] });
    // The session is done: a second render is not asked for.
    assert_eq!(session.advance(Outcome::Uploaded), failed(true, false, Failure::OutOfTurn));
    assert_eq!(session.advance(Outcome::ReportStored), failed(true, false, Failure::OutOfTurn));
}

#[test]
fn failures_map_to_status_and_message() {
    let cases = [
        (Failure::Upload(UploadFault::Missing), 400, "No file uploaded"),
        (Failure::Upload(UploadFault::Broken), 400, "Upload error"),
        (Failure::Io(IoFault::Create), 500, "Could not create file"),
        (Failure::Io(IoFault::Write), 500, "Write error"),
        (Failure::Io(IoFault::Read), 500, "Read error"),
        (
            Failure::Report(ReportError::MalformedXml(XmlFault::Syntax { offset: 22 })),
            500,
            "Error: malformed XML at byte 22",
        ),
        (
            Failure::Report(ReportError::MalformedXml(XmlFault::UnclosedElements { open: 1 })),
            500,
            "Error: malformed XML, elements left open: 1",
        ),
        (
            Failure::Report(ReportError::InvariantViolation),
            500,
            "Error: an element ended that had not started",
        ),
        (Failure::Render(RenderFault::Engine), 500, "PDF conversion failed"),
        (Failure::Render(RenderFault::Timeout), 500, "PDF conversion failed"),
        (Failure::OutOfTurn, 500, "Request out of turn"),
    ];
    for (failure, status, message) in cases {
        assert_eq!(failure.status(), status);
        assert_eq!(failure.message(), message);
        assert_eq!(Reply::Failed { failure }.status(), status);
    }
    assert_eq!(Reply::Pdf { body: vec![] }.status(), 200);
}

#[test]
fn routes_name_their_default_file() {
    assert_eq!(Route::UploadHtml.default_file_name(), "default.html");
    assert_eq!(Route::UploadXml.default_file_name(), "default.xml");
    assert_eq!(Route::ConvertXml.default_file_name(), "default.xml");
    assert_eq!(Route::CheckDocument.default_file_name(), "default.xml");
    assert!(Route::CheckDocument.builds_report());
    assert!(Route::UploadXml.builds_report());
    assert!(Route::ConvertXml.builds_report());
    assert!(!Route::UploadHtml.builds_report());
}

#[test]
fn upload_is_stored_under_the_name_it_brought() {
    assert_eq!(Route::UploadHtml.upload_name(Some("invoice.html")), "invoice.html");
    assert_eq!(Route::CheckDocument.upload_name(Some("rechnung 1.xml")), "rechnung 1.xml");
}

#[test]
fn upload_name_keeps_the_last_component_only() {
    assert_eq!(Route::UploadXml.upload_name(Some("../../etc/passwd")), "passwd");
    assert_eq!(Route::UploadXml.upload_name(Some("C:\\temp\\a.xml")), "a.xml");
    assert_eq!(Route::UploadXml.upload_name(Some("/a/b\\c/d.xml")), "d.xml");
    assert_eq!(Route::UploadXml.upload_name(Some("é/ü.xml")), "ü.xml");
}

#[test]
fn upload_without_a_name_is_stored_under_the_default() {
    assert_eq!(Route::UploadHtml.upload_name(None), "default.html");
    assert_eq!(Route::UploadXml.upload_name(None), "default.xml");
    assert_eq!(Route::ConvertXml.upload_name(Some("")), "default.xml");
    assert_eq!(Route::CheckDocument.upload_name(Some("uploads/")), "default.xml");
    assert_eq!(Route::UploadHtml.upload_name(Some("a\\")), "default.html");
}
