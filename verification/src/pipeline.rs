//! From a document to its report: the walk feeds the builder, event by
//! event, and the lines of the finished build are the report. A failure of
//! either one fails the whole: no partial report is handed out.

use vstd::prelude::*;
use crate::catalogue::{standard_entries, Catalogue, EntryView};
use crate::error::{ReportError, XmlFault};
use crate::event::{event_views, XmlEvent, XmlEventView};
use crate::render::{render_report, rendered};
use crate::report::{
    initial, lemma_depth_is_nesting_depth, lemma_failure_stays, lemma_lines_keep_document_order,
    lemma_run_push, line_views, nesting_depth, run, step, ReportBuilder, ReportLine,
    ReportLineView,
};
use crate::walker::{document_steps, is_terminal, is_walk, WalkStep, XmlWalker};

verus! {

/// The event of a step; a failure carries none and counts as other markup.
pub open spec fn step_event(step: WalkStep) -> XmlEventView {
    match step {
        WalkStep::Event(event) => event,
        WalkStep::Failure { .. } => XmlEventView::Other,
    }
}

/// The events of a walk before its last step.
pub open spec fn leading_events(steps: Seq<WalkStep>) -> Seq<XmlEventView> {
    steps.drop_last().map_values(|step: WalkStep| step_event(step))
}

/// The events as steps of a walk.
pub open spec fn event_steps(events: Seq<XmlEventView>) -> Seq<WalkStep> {
    events.map_values(|event: XmlEventView| WalkStep::Event(event))
}

/// What a build makes of a walk: the builder takes the events before the
/// last step, in order. If it fails on one, that failure is the outcome.
/// Else the last step decides: a failure of the walk is a malformed
/// document, and the end of the document gives the lines of the build, or
/// the builder's failure where elements are still open.
pub open spec fn outcome(catalogue: Seq<EntryView>, steps: Seq<WalkStep>) -> Result<
    Seq<ReportLineView>,
    ReportError,
> {
    match run(catalogue, initial(), leading_events(steps)) {
        Err(error) => Err(error),
        Ok(state) => match steps.last() {
            WalkStep::Failure { offset } => Err(
                ReportError::MalformedXml(XmlFault::Syntax { offset }),
            ),
            WalkStep::Event(event) => match step(catalogue, state, event) {
                Ok(end) => Ok(end.lines),
                Err(error) => Err(error),
            },
        },
    }
}

/// What a build makes of a sequence of events that is taken as a whole
/// document: the lines after the events and the end of the document, or the
/// first failure.
pub open spec fn events_outcome(catalogue: Seq<EntryView>, events: Seq<XmlEventView>) -> Result<
    Seq<ReportLineView>,
    ReportError,
> {
    match run(catalogue, initial(), events.push(XmlEventView::EndOfDocument)) {
        Ok(end) => Ok(end.lines),
        Err(error) => Err(error),
    }
}

/// The model of the result of a build.
pub open spec fn report_view(result: Result<Vec<ReportLine>, ReportError>) -> Result<
    Seq<ReportLineView>,
    ReportError,
> {
    match result {
        Ok(lines) => Ok(line_views(lines@)),
        Err(error) => Err(error),
    }
}

/// The model of the result of a build that was rendered.
pub open spec fn page_view(result: Result<String, ReportError>) -> Result<Seq<char>, ReportError> {
    match result {
        Ok(html) => Ok(html@),
        Err(error) => Err(error),
    }
}

/// The page of an outcome.
pub open spec fn outcome_page(outcome: Result<Seq<ReportLineView>, ReportError>) -> Result<
    Seq<char>,
    ReportError,
> {
    match outcome {
        Ok(lines) => Ok(rendered(lines)),
        Err(error) => Err(error),
    }
}

/// A walk whose first step is not terminal goes on as a walk.
pub proof fn lemma_walk_goes_on(steps: Seq<WalkStep>)
    requires
        is_walk(steps),
        !is_terminal(steps.first()),
    ensures
        steps.len() > 1,
        is_walk(steps.drop_first()),
{
    let rest = steps.drop_first();
    assert(rest.last() == steps.last());
    assert forall|i: int| 0 <= i < rest.len() - 1 implies !is_terminal(#[trigger] rest[i]) by {
        assert(rest[i] == steps[i + 1]);
    }
}

/// A walk whose first step is terminal is that step alone.
pub proof fn lemma_walk_ends(steps: Seq<WalkStep>)
    requires
        is_walk(steps),
        is_terminal(steps.first()),
    ensures
        steps.len() == 1,
{
    if steps.len() > 1 {
        assert(!is_terminal(steps[0]));
    }
}

/// A walk that ends well is a whole document of events: what a build makes
/// of the walk is what it makes of the events before the end.
pub proof fn lemma_walk_is_its_events(catalogue: Seq<EntryView>, steps: Seq<WalkStep>)
    requires
        is_walk(steps),
        steps.last() == WalkStep::Event(XmlEventView::EndOfDocument),
    ensures
        outcome(catalogue, steps) == events_outcome(catalogue, leading_events(steps)),
{
    lemma_run_push(catalogue, initial(), leading_events(steps), XmlEventView::EndOfDocument);
}

/// Same input, same report: a build has one outcome on a document, so two
/// builds on the same input and catalogue give the same lines, or the same
/// failure.
pub proof fn lemma_same_input_same_report(
    catalogue: Seq<EntryView>,
    input: Seq<char>,
    first: Result<Vec<ReportLine>, ReportError>,
    second: Result<Vec<ReportLine>, ReportError>,
)
    requires
        report_view(first) == outcome(catalogue, document_steps(input)),
        report_view(second) == outcome(catalogue, document_steps(input)),
    ensures
        report_view(first) == report_view(second),
{
}

/// No partial report: a walk that fails gives no lines, whatever the
/// builder had found before.
pub proof fn lemma_failed_walk_gives_no_report(catalogue: Seq<EntryView>, steps: Seq<WalkStep>)
    requires
        steps.len() > 0,
        steps.last() is Failure,
    ensures
        outcome(catalogue, steps) is Err,
{
}

/// While no event is the end of the document, the build stays open.
pub proof fn lemma_open_before_the_end(catalogue: Seq<EntryView>, events: Seq<XmlEventView>)
    requires
        forall|i: int| 0 <= i < events.len() ==> #[trigger] events[i] != XmlEventView::EndOfDocument,
        run(catalogue, initial(), events) is Ok,
    ensures
        !run(catalogue, initial(), events)->Ok_0.finished,
    decreases events.len(),
{
    if events.len() > 0 {
        let rest = events.drop_last();
        assert forall|i: int| 0 <= i < rest.len() implies #[trigger] rest[i]
            != XmlEventView::EndOfDocument by {
            assert(rest[i] == events[i]);
        }
        lemma_open_before_the_end(catalogue, rest);
        assert(events.last() == events[events.len() - 1]);
    }
}

/// No event before the last step of a walk is the end of the document.
pub proof fn lemma_walk_ends_once(steps: Seq<WalkStep>)
    requires
        is_walk(steps),
    ensures
        forall|i: int|
            0 <= i < leading_events(steps).len() ==> #[trigger] leading_events(steps)[i]
                != XmlEventView::EndOfDocument,
{
    assert forall|i: int| 0 <= i < leading_events(steps).len() implies #[trigger] leading_events(
        steps,
    )[i] != XmlEventView::EndOfDocument by {
        assert(!is_terminal(steps[i]));
        assert(steps.drop_last()[i] == steps[i]);
    }
}

/// Unclosed elements: a walk that reaches the end of the document while
/// elements are open gives no report, but the failure that says how many
/// are open.
pub proof fn lemma_unclosed_elements_are_malformed(catalogue: Seq<EntryView>, steps: Seq<WalkStep>)
    requires
        is_walk(steps),
        steps.last() == WalkStep::Event(XmlEventView::EndOfDocument),
        run(catalogue, initial(), leading_events(steps)) is Ok,
        0 < nesting_depth(leading_events(steps)) <= usize::MAX,
    ensures
        outcome(catalogue, steps) == Err::<Seq<ReportLineView>, ReportError>(
            ReportError::MalformedXml(
                XmlFault::UnclosedElements {
                    open: nesting_depth(leading_events(steps)) as usize,
                },
            ),
        ),
{
    lemma_walk_ends_once(steps);
    lemma_open_before_the_end(catalogue, leading_events(steps));
    lemma_depth_is_nesting_depth(catalogue, leading_events(steps));
}

/// A report stands for a whole document: where a walk gives one, the walk
/// has reached the end of the document, every element that started has
/// ended, and the report holds the lines of all the events.
pub proof fn lemma_report_means_balanced(catalogue: Seq<EntryView>, steps: Seq<WalkStep>)
    requires
        is_walk(steps),
        outcome(catalogue, steps) is Ok,
    ensures
        steps.last() == WalkStep::Event(XmlEventView::EndOfDocument),
        nesting_depth(leading_events(steps)) == 0,
        run(catalogue, initial(), leading_events(steps)) is Ok,
        outcome(catalogue, steps)->Ok_0 == run(
            catalogue,
            initial(),
            leading_events(steps),
        )->Ok_0.lines,
{
    lemma_walk_ends_once(steps);
    lemma_open_before_the_end(catalogue, leading_events(steps));
    lemma_depth_is_nesting_depth(catalogue, leading_events(steps));
}

/// Document order in the report: where a walk gives a report, the lines
/// that the first `k` events had given stand at its start, in their order.
/// So the line of an earlier event comes before the line of a later one.
pub proof fn lemma_report_keeps_document_order(
    catalogue: Seq<EntryView>,
    steps: Seq<WalkStep>,
    k: int,
)
    requires
        is_walk(steps),
        outcome(catalogue, steps) is Ok,
        0 <= k <= leading_events(steps).len(),
    ensures
        run(catalogue, initial(), leading_events(steps).take(k)) is Ok,
        run(catalogue, initial(), leading_events(steps).take(k))->Ok_0.lines.is_prefix_of(
            outcome(catalogue, steps)->Ok_0,
        ),
{
    let events = leading_events(steps);
    lemma_report_means_balanced(catalogue, steps);
    assert(events.take(events.len() as int) =~= events);
    lemma_lines_keep_document_order(catalogue, events, k, events.len() as int);
}

/// The report of the document `input`.
///
/// `Ok` with the lines in document order where the walk reaches the end of
/// the document and the builder accepts every event; else the failure.
pub fn build_report(input: &str, catalogue: &Catalogue) -> (result: Result<
    Vec<ReportLine>,
    ReportError,
>)
    ensures
        report_view(result) == outcome(catalogue@, document_steps(input@)),
{
    let mut walker = XmlWalker::new(input);
    let mut builder = ReportBuilder::new(catalogue);
    let ghost all = document_steps(input@);
    let ghost mut done: Seq<XmlEventView> = Seq::empty();
    assert(event_steps(done) + walker.remaining() =~= all);
    loop
        invariant
            is_walk(walker.remaining()),
            all == document_steps(input@),
            all == event_steps(done) + walker.remaining(),
            run(catalogue@, initial(), done) == Ok::<_, ReportError>(builder@),
            !builder@.finished,
            builder.catalogue() == catalogue@,
        decreases walker.remaining().len(),
    {
        let ghost pending = walker.remaining();
        let next = walker.next_event();
        proof {
            if is_terminal(pending.first()) {
                lemma_walk_ends(pending);
                assert(all.drop_last() =~= event_steps(done));
                assert(leading_events(all) =~= done);
                assert(all.last() == pending.first());
            } else {
                lemma_walk_goes_on(pending);
            }
        }
        let event = match next {
            Ok(event) => event,
            Err(error) => {
                return Err(error);
            },
        };
        let last = match event {
            XmlEvent::EndOfDocument => true,
            _ => false,
        };
        let taken = builder.on_event(&event);
        if last {
            return match taken {
                Ok(()) => Ok(builder.into_lines()),
                Err(error) => Err(error),
            };
        }
        proof {
            let ahead = done.push(event@);
            lemma_run_push(catalogue@, initial(), done, event@);
            assert(event_steps(ahead) + pending.drop_first() =~= all);
            if taken is Err {
                let whole = leading_events(all);
                assert(whole.take(ahead.len() as int) =~= ahead);
                lemma_failure_stays(catalogue@, initial(), whole, ahead.len() as int);
            }
            done = ahead;
        }
        match taken {
            Ok(()) => {},
            Err(error) => {
                return Err(error);
            },
        }
    }
}

/// The report of a sequence of events that is taken as a whole document:
/// the end of the sequence ends the document.
pub fn report_of_events(events: &Vec<XmlEvent>, catalogue: &Catalogue) -> (result: Result<
    Vec<ReportLine>,
    ReportError,
>)
    ensures
        report_view(result) == events_outcome(catalogue@, event_views(events@)),
{
    let mut builder = ReportBuilder::new(catalogue);
    let ghost all = event_views(events@);
    let mut i: usize = 0;
    while i < events.len()
        invariant
            i <= events.len(),
            all == event_views(events@),
            run(catalogue@, initial(), all.take(i as int)) == Ok::<_, ReportError>(builder@),
            builder.catalogue() == catalogue@,
        decreases events.len() - i,
    {
        proof {
            lemma_run_push(catalogue@, initial(), all.take(i as int), all[i as int]);
            assert(all.take(i as int).push(all[i as int]) =~= all.take(i + 1));
        }
        match builder.on_event(&events[i]) {
            Ok(()) => {},
            Err(error) => {
                proof {
                    let whole = all.push(XmlEventView::EndOfDocument);
                    assert(whole.take(i + 1) =~= all.take(i + 1));
                    lemma_failure_stays(catalogue@, initial(), whole, i + 1);
                }
                return Err(error);
            },
        }
        i = i + 1;
    }
    proof {
        assert(all.take(events.len() as int) =~= all);
        lemma_run_push(catalogue@, initial(), all, XmlEventView::EndOfDocument);
    }
    match builder.on_event(&XmlEvent::EndOfDocument) {
        Ok(()) => Ok(builder.into_lines()),
        Err(error) => Err(error),
    }
}

/// The report of the document `input` as an HTML page.
pub fn report_page(input: &str, catalogue: &Catalogue) -> (result: Result<String, ReportError>)
    ensures
        page_view(result) == outcome_page(outcome(catalogue@, document_steps(input@))),
{
    match build_report(input, catalogue) {
        Ok(lines) => Ok(render_report(&lines)),
        Err(error) => Err(error),
    }
}

/// The report of the invoice `content` as an HTML page, by the catalogue of
/// EN16931 business terms.
pub fn check_document(content: &str) -> (result: Result<String, ReportError>)
    ensures
        page_view(result) == outcome_page(
            outcome(standard_entries(), document_steps(content@)),
        ),
{
    let catalogue = Catalogue::standard();
    report_page(content, &catalogue)
}

} // verus!
