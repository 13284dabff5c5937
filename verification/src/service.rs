//! The decisions of one conversion request.
//!
//! A request uploads a document and is answered with a PDF or with a
//! failure. The work around it (receiving the upload, files, the PDF engine)
//! is done elsewhere. What is decided here is what to do next, given how the
//! last piece of outside work came out: a function from the state of the
//! session and an outcome to the next state and an action.
//!
//! An HTML upload is rendered as it is. Of an XML upload the report is
//! built, and the page of the report is what is rendered, on every route
//! that takes XML.
//!
//! A session asks for at most one render, answers with a PDF only after the
//! render it asked for has succeeded in time, and names with its last action
//! every file that was stored, so that none outlives the request.

use vstd::prelude::*;
use crate::catalogue::standard_entries;
use crate::error::{error_message, ReportError};
use crate::pipeline::{check_document, outcome, outcome_page};
use crate::walker::document_steps;

verus! {

/// The four entry points of the service. One takes HTML, three take XML.
#[derive(Clone, Copy, Debug, PartialEq, Eq)]
pub enum Route {
    /// An HTML document, rendered as it is.
    UploadHtml,
    /// An XML document. Like every XML input it is not rendered raw: its
    /// report is built, and the page of the report is rendered.
    UploadXml,
    /// An XML document, of which the report is built and rendered.
    ConvertXml,
    /// An XML invoice, of which the report is built and rendered.
    CheckDocument,
}

/// Why an upload did not come to a stored document.
#[derive(Clone, Copy, Debug, PartialEq, Eq)]
pub enum UploadCause {
    /// The body held no file.
    Missing,
    /// The body could not be read.
    Broken,
    /// The file for the upload could not be created.
    Create,
    /// The upload could not be written to its file.
    Write,
}

/// Which file operation failed.
#[derive(Clone, Copy, Debug, PartialEq, Eq)]
pub enum IoFault {
    Create,
    Write,
    Read,
}

/// Why no body was received.
#[derive(Clone, Copy, Debug, PartialEq, Eq)]
pub enum UploadFault {
    Missing,
    Broken,
}

/// Why no PDF was rendered.
#[derive(Clone, Copy, Debug, PartialEq, Eq)]
pub enum RenderFault {
    /// The engine failed or could not open the page.
    Engine,
    /// The engine did not finish within the time that the session allows.
    Timeout,
}

/// Why a request failed.
#[derive(Clone, Copy, Debug, PartialEq, Eq)]
pub enum Failure {
    Upload(UploadFault),
    Io(IoFault),
    Report(ReportError),
    Render(RenderFault),
    /// An outcome arrived that the session had not asked for.
    OutOfTurn,
}

/// Where a session stands.
#[derive(Clone, Copy, Debug, PartialEq, Eq)]
pub enum Stage {
    /// The upload is being received.
    Uploading,
    /// The stored invoice is being read.
    Reading,
    /// The report page is being stored.
    Storing,
    /// The PDF engine is at work.
    Rendering,
    /// The request is answered.
    Done,
}

/// The file that the PDF engine is to open.
#[derive(Clone, Copy, Debug, PartialEq, Eq)]
pub enum Source {
    /// The uploaded document.
    Upload,
    /// The stored report page.
    Report,
}

/// How a piece of outside work came out.
#[derive(Clone, Debug, PartialEq, Eq)]
pub enum Outcome {
    /// The upload is stored in its file.
    Uploaded,
    /// The upload failed. `stored` says whether its file exists all the
    /// same.
    UploadFailed { cause: UploadCause, stored: bool },
    /// The stored invoice was read.
    DocumentRead { content: String },
    /// The stored invoice could not be read.
    ReadFailed,
    /// The report page is stored in its file.
    ReportStored,
    /// The report page could not be stored. `stored` says whether its file
    /// exists all the same.
    ReportStoreFailed { stored: bool },
    /// The engine rendered the PDF.
    Rendered { pdf: Vec<u8> },
    /// The engine failed.
    RenderFailed,
    /// The engine ran out of time and was stopped.
    RenderTimedOut,
}

/// The answer to a request.
#[derive(Clone, Debug, PartialEq, Eq)]
pub enum Reply {
    Pdf { body: Vec<u8> },
    Failed { failure: Failure },
}

/// What is to be done next.
#[derive(Clone, Debug, PartialEq, Eq)]
pub enum Action {
    /// Read the stored upload and hand back its content.
    ReadUpload,
    /// Store the report page in a file of its own.
    StoreReport { html: String },
    /// Render `source` to PDF, and stop the engine after `timeout_ms`
    /// milliseconds.
    Render { source: Source, timeout_ms: u64 },
    /// Remove the files that are named, then answer the request.
    Finish { remove_upload: bool, remove_report: bool, reply: Reply },
}

/// The mathematical model of an outcome.
pub enum OutcomeView {
    Uploaded,
    UploadFailed { cause: UploadCause, stored: bool },
    DocumentRead { content: Seq<char> },
    ReadFailed,
    ReportStored,
    ReportStoreFailed { stored: bool },
    Rendered { pdf: Seq<u8> },
    RenderFailed,
    RenderTimedOut,
}

/// The mathematical model of a reply.
pub enum ReplyView {
    Pdf { body: Seq<u8> },
    Failed { failure: Failure },
}

/// The mathematical model of an action.
pub enum ActionView {
    ReadUpload,
    StoreReport { html: Seq<char> },
    Render { source: Source, timeout_ms: u64 },
    Finish { remove_upload: bool, remove_report: bool, reply: ReplyView },
}

impl View for Outcome {
    type V = OutcomeView;

    open spec fn view(&self) -> OutcomeView {
        match *self {
            Outcome::Uploaded => OutcomeView::Uploaded,
            Outcome::UploadFailed { cause, stored } => OutcomeView::UploadFailed { cause, stored },
            Outcome::DocumentRead { content } => OutcomeView::DocumentRead { content: content@ },
            Outcome::ReadFailed => OutcomeView::ReadFailed,
            Outcome::ReportStored => OutcomeView::ReportStored,
            Outcome::ReportStoreFailed { stored } => OutcomeView::ReportStoreFailed { stored },
            Outcome::Rendered { pdf } => OutcomeView::Rendered { pdf: pdf@ },
            Outcome::RenderFailed => OutcomeView::RenderFailed,
            Outcome::RenderTimedOut => OutcomeView::RenderTimedOut,
        }
    }
}

impl View for Reply {
    type V = ReplyView;

    open spec fn view(&self) -> ReplyView {
        match *self {
            Reply::Pdf { body } => ReplyView::Pdf { body: body@ },
            Reply::Failed { failure } => ReplyView::Failed { failure },
        }
    }
}

impl View for Action {
    type V = ActionView;

    open spec fn view(&self) -> ActionView {
        match *self {
            Action::ReadUpload => ActionView::ReadUpload,
            Action::StoreReport { html } => ActionView::StoreReport { html: html@ },
            Action::Render { source, timeout_ms } => ActionView::Render { source, timeout_ms },
            Action::Finish { remove_upload, remove_report, reply } => ActionView::Finish {
                remove_upload,
                remove_report,
                reply: reply@,
            },
        }
    }
}

/// The state of a session.
pub struct SessionView {
    pub route: Route,
    pub timeout_ms: u64,
    pub stage: Stage,
    /// Whether the file of the upload exists.
    pub upload_stored: bool,
    /// Whether the file of the report page exists.
    pub report_stored: bool,
    /// How many renders the session has asked for.
    pub renders: nat,
}

/// Whether the route builds a report of the upload before it renders: every
/// route that takes XML does.
pub open spec fn builds_report(route: Route) -> bool {
    !(route is UploadHtml)
}

/// The failure that an upload's cause stands for.
pub open spec fn upload_failure(cause: UploadCause) -> Failure {
    match cause {
        UploadCause::Missing => Failure::Upload(UploadFault::Missing),
        UploadCause::Broken => Failure::Upload(UploadFault::Broken),
        UploadCause::Create => Failure::Io(IoFault::Create),
        UploadCause::Write => Failure::Io(IoFault::Write),
    }
}

/// The HTTP status of a failure: 400 where the upload is at fault, 500
/// otherwise.
pub open spec fn failure_status(failure: Failure) -> u16 {
    match failure {
        Failure::Upload(_) => 400,
        _ => 500,
    }
}

/// The name under which a route stores an upload that brings no name.
pub open spec fn default_name(route: Route) -> Seq<char> {
    if route is UploadHtml {
        "default.html"@
    } else {
        "default.xml"@
    }
}

/// Whether the character parts the components of a file path.
pub open spec fn is_path_separator(c: char) -> bool {
    c == '/' || c == '\\'
}

/// What follows the last path separator of `name`; all of `name` where it
/// holds none.
pub open spec fn last_component(name: Seq<char>) -> Seq<char>
    decreases name.len(),
{
    if name.len() == 0 {
        name
    } else if is_path_separator(name.last()) {
        Seq::empty()
    } else {
        last_component(name.drop_last()).push(name.last())
    }
}

/// The name under which a route stores an upload: the last component of the
/// file name that the upload brought, or the route's default where it
/// brought none or one that ends in a separator.
pub open spec fn upload_name(route: Route, given: Option<Seq<char>>) -> Seq<char> {
    match given {
        Some(name) => if last_component(name).len() > 0 {
            last_component(name)
        } else {
            default_name(route)
        },
        None => default_name(route),
    }
}

/// The model of a file name that may be missing.
pub open spec fn given_name(given: Option<&str>) -> Option<Seq<char>> {
    match given {
        Some(name) => Some(name@),
        None => None,
    }
}

/// What follows the last path separator of `name`.
fn last_component_of(name: &str) -> (tail: &str)
    ensures
        tail@ == last_component(name@),
{
    let n: usize = name.unicode_len();
    let mut start: usize = 0;
    let mut i: usize = 0;
    assert(name@.take(0) =~= Seq::<char>::empty());
    assert(name@.subrange(0, 0) =~= Seq::<char>::empty());
    for c in it: name.chars()
        invariant
            it.seq() == name@,
            n == name@.len(),
            i == it.index(),
            i <= n,
            start <= i,
            last_component(name@.take(i as int)) == name@.subrange(start as int, i as int),
    {
        proof {
            let ahead = name@.take(i + 1);
            assert(ahead.drop_last() =~= name@.take(i as int));
            assert(ahead.last() == c);
            assert(name@.subrange(start as int, i as int).push(c) =~= name@.subrange(
                start as int,
                i + 1,
            ));
            assert(name@.subrange(i + 1, i + 1) =~= Seq::<char>::empty());
        }
        if c == '/' || c == '\\' {
            start = i + 1;
        }
        i = i + 1;
    }
    assert(name@.take(n as int) =~= name@);
    name.substring_char(start, n)
}

/// The state of a new session.
pub open spec fn opened(route: Route, timeout_ms: u64) -> SessionView {
    SessionView {
        route,
        timeout_ms,
        stage: Stage::Uploading,
        upload_stored: false,
        report_stored: false,
        renders: 0,
    }
}

/// The session when it has answered, with the action that answers.
pub open spec fn finish(
    state: SessionView,
    upload_stored: bool,
    report_stored: bool,
    reply: ReplyView,
) -> (SessionView, ActionView) {
    (
        SessionView {
            route: state.route,
            timeout_ms: state.timeout_ms,
            stage: Stage::Done,
            upload_stored,
            report_stored,
            renders: state.renders,
        },
        ActionView::Finish { remove_upload: upload_stored, remove_report: report_stored, reply },
    )
}

/// The session when it asks for its render, with that action.
pub open spec fn render(state: SessionView, report_stored: bool, source: Source) -> (
    SessionView,
    ActionView,
) {
    (
        SessionView {
            route: state.route,
            timeout_ms: state.timeout_ms,
            stage: Stage::Rendering,
            upload_stored: true,
            report_stored,
            renders: state.renders + 1,
        },
        ActionView::Render { source, timeout_ms: state.timeout_ms },
    )
}

/// The next state and the action to take, given how the outside work that
/// the session was waiting for came out. An outcome that the session was
/// not waiting for ends it with `OutOfTurn`.
pub open spec fn transition(state: SessionView, result: OutcomeView) -> (SessionView, ActionView) {
    match (state.stage, result) {
        (Stage::Uploading, OutcomeView::Uploaded) => if builds_report(state.route) {
            (
                SessionView {
                    route: state.route,
                    timeout_ms: state.timeout_ms,
                    stage: Stage::Reading,
                    upload_stored: true,
                    report_stored: state.report_stored,
                    renders: state.renders,
                },
                ActionView::ReadUpload,
            )
        } else {
            render(state, state.report_stored, Source::Upload)
        },
        (Stage::Uploading, OutcomeView::UploadFailed { cause, stored }) => finish(
            state,
            stored,
            state.report_stored,
            ReplyView::Failed { failure: upload_failure(cause) },
        ),
        (Stage::Reading, OutcomeView::DocumentRead { content }) => match outcome_page(
            outcome(standard_entries(), document_steps(content)),
        ) {
            Ok(html) => (
                SessionView {
                    route: state.route,
                    timeout_ms: state.timeout_ms,
                    stage: Stage::Storing,
                    upload_stored: state.upload_stored,
                    report_stored: state.report_stored,
                    renders: state.renders,
                },
                ActionView::StoreReport { html },
            ),
            Err(error) => finish(
                state,
                state.upload_stored,
                state.report_stored,
                ReplyView::Failed { failure: Failure::Report(error) },
            ),
        },
        (Stage::Reading, OutcomeView::ReadFailed) => finish(
            state,
            state.upload_stored,
            state.report_stored,
            ReplyView::Failed { failure: Failure::Io(IoFault::Read) },
        ),
        (Stage::Storing, OutcomeView::ReportStored) => render(state, true, Source::Report),
        (Stage::Storing, OutcomeView::ReportStoreFailed { stored }) => finish(
            state,
            state.upload_stored,
            stored,
            ReplyView::Failed { failure: Failure::Io(IoFault::Write) },
        ),
        (Stage::Rendering, OutcomeView::Rendered { pdf }) => finish(
            state,
            state.upload_stored,
            state.report_stored,
            ReplyView::Pdf { body: pdf },
        ),
        (Stage::Rendering, OutcomeView::RenderFailed) => finish(
            state,
            state.upload_stored,
            state.report_stored,
            ReplyView::Failed { failure: Failure::Render(RenderFault::Engine) },
        ),
        (Stage::Rendering, OutcomeView::RenderTimedOut) => finish(
            state,
            state.upload_stored,
            state.report_stored,
            ReplyView::Failed { failure: Failure::Render(RenderFault::Timeout) },
        ),
        _ => finish(
            state,
            state.upload_stored,
            state.report_stored,
            ReplyView::Failed { failure: Failure::OutOfTurn },
        ),
    }
}

/// The states that a session passes through: it has asked for one render
/// when it renders, for none before, and for at most one when it is done;
/// the upload is stored once it is received; no report page is stored
/// before one is asked for.
pub open spec fn consistent(state: SessionView) -> bool {
    match state.stage {
        Stage::Uploading => state.renders == 0 && !state.upload_stored && !state.report_stored,
        Stage::Reading => state.renders == 0 && state.upload_stored && !state.report_stored
            && builds_report(state.route),
        Stage::Storing => state.renders == 0 && state.upload_stored && !state.report_stored
            && builds_report(state.route),
        Stage::Rendering => state.renders == 1 && state.upload_stored && (state.report_stored
            <==> builds_report(state.route)),
        Stage::Done => state.renders <= 1,
    }
}

/// The state after the outcomes, taken in order.
pub open spec fn after(start: SessionView, results: Seq<OutcomeView>) -> SessionView
    decreases results.len(),
{
    if results.len() == 0 {
        start
    } else {
        transition(after(start, results.drop_last()), results.last()).0
    }
}

/// How many of the actions that answer the outcomes, taken in order, ask
/// for a render.
pub open spec fn renders_asked(start: SessionView, results: Seq<OutcomeView>) -> nat
    decreases results.len(),
{
    if results.len() == 0 {
        0
    } else {
        let before = renders_asked(start, results.drop_last());
        if transition(after(start, results.drop_last()), results.last()).1 is Render {
            before + 1
        } else {
            before
        }
    }
}

/// A step keeps a session consistent.
pub proof fn lemma_transition_keeps_consistent(state: SessionView, result: OutcomeView)
    requires
        consistent(state),
    ensures
        consistent(transition(state, result).0),
        transition(state, result).1 is Render ==> state.renders == 0,
{
}

/// One render for each document: whatever outcomes a session is handed, in
/// whatever order, it asks for at most one render, and it has asked for
/// exactly one when it renders.
pub proof fn lemma_at_most_one_render(route: Route, timeout_ms: u64, results: Seq<OutcomeView>)
    ensures
        consistent(after(opened(route, timeout_ms), results)),
        renders_asked(opened(route, timeout_ms), results) == after(
            opened(route, timeout_ms),
            results,
        ).renders,
        renders_asked(opened(route, timeout_ms), results) <= 1,
    decreases results.len(),
{
    if results.len() > 0 {
        lemma_at_most_one_render(route, timeout_ms, results.drop_last());
        lemma_transition_keeps_consistent(
            after(opened(route, timeout_ms), results.drop_last()),
            results.last(),
        );
    }
}

/// XML goes through the report: on every route but the one for HTML, a
/// stored upload is read, the page of its report is stored, and that page is
/// what the one render is asked for. Where no report can be built, the
/// request fails before any render.
pub proof fn lemma_xml_upload_is_rendered_as_report(
    route: Route,
    timeout_ms: u64,
    content: Seq<char>,
)
    requires
        !(route is UploadHtml),
    ensures
        ({
            let received = transition(opened(route, timeout_ms), OutcomeView::Uploaded);
            let read = transition(received.0, OutcomeView::DocumentRead { content });
            let stored = transition(read.0, OutcomeView::ReportStored);
            &&& received.1 == ActionView::ReadUpload
            &&& match outcome_page(outcome(standard_entries(), document_steps(content))) {
                Ok(html) => read.1 == (ActionView::StoreReport { html }) && stored.1 == (
                ActionView::Render { source: Source::Report, timeout_ms }),
                Err(error) => read.1 == (ActionView::Finish {
                    remove_upload: true,
                    remove_report: false,
                    reply: ReplyView::Failed { failure: Failure::Report(error) },
                }),
            }
        }),
{
}

/// HTML is rendered as it is: on the route for HTML, the stored upload is
/// what the one render is asked for.
pub proof fn lemma_html_upload_is_rendered_as_it_is(timeout_ms: u64)
    ensures
        transition(opened(Route::UploadHtml, timeout_ms), OutcomeView::Uploaded).1 == (
        ActionView::Render { source: Source::Upload, timeout_ms }),
{
}

/// A PDF is the answer only to the render that the session asked for: the
/// session was rendering, and the outcome is the rendered PDF itself.
pub proof fn lemma_pdf_only_after_render(state: SessionView, result: OutcomeView)
    requires
        transition(state, result).1 matches ActionView::Finish { reply, .. } && reply is Pdf,
    ensures
        state.stage is Rendering,
        result is Rendered,
        transition(state, result).1->Finish_reply == (ReplyView::Pdf {
            body: result->Rendered_pdf,
        }),
{
}

/// Render timeout: a render that runs out of time fails the request with
/// the timeout failure. No PDF is handed out, and the stored files are named
/// for removal.
pub proof fn lemma_timeout_fails_request(state: SessionView)
    ensures
        transition(state, OutcomeView::RenderTimedOut).1 matches ActionView::Finish {
            remove_upload,
            remove_report,
            reply,
        } && !(reply is Pdf) && remove_upload == state.upload_stored && remove_report
            == state.report_stored,
        state.stage is Rendering ==> transition(state, OutcomeView::RenderTimedOut).1->Finish_reply
            == (ReplyView::Failed { failure: Failure::Render(RenderFault::Timeout) }),
        transition(state, OutcomeView::RenderTimedOut).0.stage is Done,
{
}

/// No file outlives the request: the action that answers names every file
/// that is stored when the session ends.
pub proof fn lemma_finish_names_stored_files(state: SessionView, result: OutcomeView)
    requires
        transition(state, result).1 is Finish,
    ensures
        transition(state, result).0.stage is Done,
        transition(state, result).1->Finish_remove_upload == transition(
            state,
            result,
        ).0.upload_stored,
        transition(state, result).1->Finish_remove_report == transition(
            state,
            result,
        ).0.report_stored,
{
}

impl Route {
    /// The name under which an upload is stored where it brings none.
    pub fn default_file_name(&self) -> (name: &'static str)
        ensures
            name@ == default_name(*self),
    {
        match self {
            Route::UploadHtml => "default.html",
            _ => "default.xml",
        }
    }

    /// The name under which an upload is stored: the last component of the
    /// file name that it brought, or the default.
    pub fn upload_name(&self, given: Option<&str>) -> (name: String)
        ensures
            name@ == upload_name(*self, given_name(given)),
    {
        match given {
            Some(full) => {
                let tail = last_component_of(full);
                if tail.is_empty() {
                    String::from_str(self.default_file_name())
                } else {
                    String::from_str(tail)
                }
            },
            None => String::from_str(self.default_file_name()),
        }
    }

    /// Whether the route builds a report of the upload before it renders.
    pub fn builds_report(&self) -> (answer: bool)
        ensures
            answer == builds_report(*self),
    {
        match self {
            Route::UploadHtml => false,
            _ => true,
        }
    }
}

impl Failure {
    /// The HTTP status of the failure.
    pub fn status(&self) -> (status: u16)
        ensures
            status == failure_status(*self),
    {
        match self {
            Failure::Upload(_) => 400,
            _ => 500,
        }
    }

    /// The failure in words, for the body of the answer.
    pub fn message(&self) -> (message: String)
        ensures
            message@ == failure_message(*self),
    {
        match self {
            Failure::Upload(UploadFault::Missing) => String::from_str("No file uploaded"),
            Failure::Upload(UploadFault::Broken) => String::from_str("Upload error"),
            Failure::Io(IoFault::Create) => String::from_str("Could not create file"),
            Failure::Io(IoFault::Write) => String::from_str("Write error"),
            Failure::Io(IoFault::Read) => String::from_str("Read error"),
            Failure::Report(error) => {
                let mut text = String::from_str("Error: ");
                text.append(error.message().as_str());
                text
            },
            Failure::Render(_) => String::from_str("PDF conversion failed"),
            Failure::OutOfTurn => String::from_str("Request out of turn"),
        }
    }
}

/// A failure in words. A failed report is told with what is wrong with the
/// document. Every failed render has the same words, whether the engine
/// failed or ran out of time: the kind of the failure tells the two apart.
pub open spec fn failure_message(failure: Failure) -> Seq<char> {
    match failure {
        Failure::Upload(UploadFault::Missing) => "No file uploaded"@,
        Failure::Upload(UploadFault::Broken) => "Upload error"@,
        Failure::Io(IoFault::Create) => "Could not create file"@,
        Failure::Io(IoFault::Write) => "Write error"@,
        Failure::Io(IoFault::Read) => "Read error"@,
        Failure::Report(error) => "Error: "@ + error_message(error),
        Failure::Render(_) => "PDF conversion failed"@,
        Failure::OutOfTurn => "Request out of turn"@,
    }
}

/// How a render came out, given what the engine handed back and the time it
/// took: out of time where the engine said so or the time allowed had
/// passed, whatever it handed back; else rendered where it handed back a
/// PDF, and failed where it did not.
pub open spec fn render_result(
    rendered: Option<Seq<u8>>,
    timeout_error: bool,
    elapsed_ms: u64,
    timeout_ms: u64,
) -> OutcomeView {
    if timeout_error || elapsed_ms >= timeout_ms {
        OutcomeView::RenderTimedOut
    } else {
        match rendered {
            Some(pdf) => OutcomeView::Rendered { pdf },
            None => OutcomeView::RenderFailed,
        }
    }
}

/// The model of a PDF that may be missing.
pub open spec fn rendered_view(rendered: Option<Vec<u8>>) -> Option<Seq<u8>> {
    match rendered {
        Some(pdf) => Some(pdf@),
        None => None,
    }
}

/// A PDF that arrives late is no PDF: a render that took the time allowed or
/// longer is out of time, and so is one that the engine stopped for that
/// reason.
pub proof fn lemma_late_render_is_timed_out(
    rendered: Option<Seq<u8>>,
    timeout_error: bool,
    elapsed_ms: u64,
    timeout_ms: u64,
)
    requires
        timeout_error || elapsed_ms >= timeout_ms,
    ensures
        render_result(rendered, timeout_error, elapsed_ms, timeout_ms)
            == OutcomeView::RenderTimedOut,
{
}

/// How a render came out, given what the engine handed back (`rendered`),
/// whether it reported a timeout, how long the render took and how long it
/// was allowed to take.
pub fn render_outcome(
    rendered: Option<Vec<u8>>,
    timeout_error: bool,
    elapsed_ms: u64,
    timeout_ms: u64,
) -> (result: Outcome)
    ensures
        result@ == render_result(rendered_view(rendered), timeout_error, elapsed_ms, timeout_ms),
{
    if timeout_error || elapsed_ms >= timeout_ms {
        Outcome::RenderTimedOut
    } else {
        match rendered {
            Some(pdf) => Outcome::Rendered { pdf },
            None => Outcome::RenderFailed,
        }
    }
}

impl Reply {
    /// The HTTP status of the answer: 200 with a PDF, that of the failure
    /// otherwise.
    pub fn status(&self) -> (status: u16)
        ensures
            status == (match self@ {
                ReplyView::Pdf { .. } => 200u16,
                ReplyView::Failed { failure } => failure_status(failure),
            }),
    {
        match self {
            Reply::Pdf { .. } => 200,
            Reply::Failed { failure } => failure.status(),
        }
    }
}

/// One conversion request on its way from the upload to the answer.
pub struct Session {
    route: Route,
    timeout_ms: u64,
    stage: Stage,
    upload_stored: bool,
    report_stored: bool,
    render_asked: bool,
}

impl View for Session {
    type V = SessionView;

    closed spec fn view(&self) -> SessionView {
        SessionView {
            route: self.route,
            timeout_ms: self.timeout_ms,
            stage: self.stage,
            upload_stored: self.upload_stored,
            report_stored: self.report_stored,
            renders: if self.render_asked {
                1
            } else {
                0
            },
        }
    }
}

impl Session {
    /// Every session is in a state that a session passes through.
    #[verifier::type_invariant]
    spec fn is_consistent(self) -> bool {
        consistent(self@)
    }

    /// A session for a request that came in on `route`. It waits for the
    /// upload. A render that it asks for may take `timeout_ms` milliseconds.
    pub fn new(route: Route, timeout_ms: u64) -> (session: Session)
        ensures
            session@ == opened(route, timeout_ms),
    {
        Session {
            route,
            timeout_ms,
            stage: Stage::Uploading,
            upload_stored: false,
            report_stored: false,
            render_asked: false,
        }
    }

    /// Where the session stands.
    pub fn stage(&self) -> (stage: Stage)
        ensures
            stage == self@.stage,
    {
        self.stage
    }

    /// The session in its next stage, before any render.
    fn waiting(&self, stage: Stage) -> (next: Session)
        requires
            self@.renders == 0,
            self@.upload_stored,
            !self@.report_stored,
            builds_report(self@.route),
            stage is Reading || stage is Storing,
        ensures
            next@ == (SessionView {
                route: self@.route,
                timeout_ms: self@.timeout_ms,
                stage,
                upload_stored: self@.upload_stored,
                report_stored: self@.report_stored,
                renders: self@.renders,
            }),
    {
        Session {
            route: self.route,
            timeout_ms: self.timeout_ms,
            stage,
            upload_stored: self.upload_stored,
            report_stored: self.report_stored,
            render_asked: self.render_asked,
        }
    }

    /// The session when it has answered with `reply`, and the action that
    /// answers.
    fn finished(&self, upload_stored: bool, report_stored: bool, reply: Reply) -> (end: (
        Session,
        Action,
    ))
        requires
            self@.renders <= 1,
        ensures
            (end.0@, end.1@) == finish(self@, upload_stored, report_stored, reply@),
    {
        (
            Session {
                route: self.route,
                timeout_ms: self.timeout_ms,
                stage: Stage::Done,
                upload_stored,
                report_stored,
                render_asked: self.render_asked,
            },
            Action::Finish { remove_upload: upload_stored, remove_report: report_stored, reply },
        )
    }

    /// The session when it asks for the render of `source`, and that action.
    fn rendering(&self, report_stored: bool, source: Source) -> (end: (Session, Action))
        requires
            self@.renders == 0,
            report_stored <==> builds_report(self@.route),
        ensures
            (end.0@, end.1@) == render(self@, report_stored, source),
    {
        (
            Session {
                route: self.route,
                timeout_ms: self.timeout_ms,
                stage: Stage::Rendering,
                upload_stored: true,
                report_stored,
                render_asked: true,
            },
            Action::Render { source, timeout_ms: self.timeout_ms },
        )
    }

    /// Takes the outcome of the outside work that the session was waiting
    /// for and says what to do next.
    pub fn advance(&mut self, result: Outcome) -> (action: Action)
        ensures
            (final(self)@, action@) == transition(old(self)@, result@),
            consistent(old(self)@),
            consistent(final(self)@),
    {
        proof {
            use_type_invariant(&*self);
            lemma_transition_keeps_consistent(self@, result@);
        }
        let (next, action) = match (self.stage, result) {
            (Stage::Uploading, Outcome::Uploaded) => {
                if self.route.builds_report() {
                    (
                        Session {
                            route: self.route,
                            timeout_ms: self.timeout_ms,
                            stage: Stage::Reading,
                            upload_stored: true,
                            report_stored: self.report_stored,
                            render_asked: self.render_asked,
                        },
                        Action::ReadUpload,
                    )
                } else {
                    self.rendering(self.report_stored, Source::Upload)
                }
            },
            (Stage::Uploading, Outcome::UploadFailed { cause, stored }) => {
                let failure = match cause {
                    UploadCause::Missing => Failure::Upload(UploadFault::Missing),
                    UploadCause::Broken => Failure::Upload(UploadFault::Broken),
                    UploadCause::Create => Failure::Io(IoFault::Create),
                    UploadCause::Write => Failure::Io(IoFault::Write),
                };
                self.finished(stored, self.report_stored, Reply::Failed { failure })
            },
            (Stage::Reading, Outcome::DocumentRead { content }) => {
                match check_document(content.as_str()) {
                    Ok(html) => (self.waiting(Stage::Storing), Action::StoreReport { html }),
                    Err(error) => self.finished(
                        self.upload_stored,
                        self.report_stored,
                        Reply::Failed { failure: Failure::Report(error) },
                    ),
                }
            },
            (Stage::Reading, Outcome::ReadFailed) => self.finished(
                self.upload_stored,
                self.report_stored,
                Reply::Failed { failure: Failure::Io(IoFault::Read) },
            ),
            (Stage::Storing, Outcome::ReportStored) => self.rendering(true, Source::Report),
            (Stage::Storing, Outcome::ReportStoreFailed { stored }) => self.finished(
                self.upload_stored,
                stored,
                Reply::Failed { failure: Failure::Io(IoFault::Write) },
            ),
            (Stage::Rendering, Outcome::Rendered { pdf }) => self.finished(
                self.upload_stored,
                self.report_stored,
                Reply::Pdf { body: pdf },
            ),
            (Stage::Rendering, Outcome::RenderFailed) => self.finished(
                self.upload_stored,
                self.report_stored,
                Reply::Failed { failure: Failure::Render(RenderFault::Engine) },
            ),
            (Stage::Rendering, Outcome::RenderTimedOut) => self.finished(
                self.upload_stored,
                self.report_stored,
                Reply::Failed { failure: Failure::Render(RenderFault::Timeout) },
            ),
            _ => self.finished(
                self.upload_stored,
                self.report_stored,
                Reply::Failed { failure: Failure::OutOfTurn },
            ),
        };
        *self = next;
        action
    }
}

} // verus!
