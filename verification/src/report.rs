//! The report builder: a state machine over the events of a walk. It keeps
//! the path of open elements and appends a report line for each catalogued
//! attribute and for each text that stands under a catalogued element.
//!
//! The report only grows, at its end, so its lines stand in document order.

use vstd::prelude::*;
use crate::catalogue::{has_name, resolved_label, Catalogue, EntryView};
use crate::error::{ReportError, XmlFault};
use crate::event::{attribute_views, Attribute, AttributeView, XmlEvent, XmlEventView};
use crate::text::{
    is_blank, join, joined, lemma_trimmed_empty_iff_blank, local_part, local_part_of, texts, trim,
    trimmed,
};

verus! {

/// One finding of the report.
#[derive(Clone, Debug, PartialEq, Eq)]
pub enum ReportLine {
    /// A text under a catalogued element: where it stands, the label it
    /// resolved to, and the text without surrounding whitespace.
    Text { path: String, label: String, value: String },
    /// A catalogued attribute: where it stands, the local part of its key,
    /// and its value. The key is not replaced by a label.
    Attribute { path: String, key: String, value: String },
}

/// The mathematical model of a report line.
pub enum ReportLineView {
    Text { path: Seq<char>, label: Seq<char>, value: Seq<char> },
    Attribute { path: Seq<char>, key: Seq<char>, value: Seq<char> },
}

impl View for ReportLine {
    type V = ReportLineView;

    open spec fn view(&self) -> ReportLineView {
        match *self {
            ReportLine::Text { path, label, value } => ReportLineView::Text {
                path: path@,
                label: label@,
                value: value@,
            },
            ReportLine::Attribute { path, key, value } => ReportLineView::Attribute {
                path: path@,
                key: key@,
                value: value@,
            },
        }
    }
}

/// The models of a sequence of report lines.
pub open spec fn line_views(lines: Seq<ReportLine>) -> Seq<ReportLineView> {
    lines.map_values(|line: ReportLine| line@)
}

/// What stands between two segments of a joined path.
pub open spec fn separator() -> Seq<char> {
    " > "@
}

/// The state of a build: the local names of the open elements from the root
/// down, the lines found so far, and whether the document has ended.
pub struct BuilderView {
    pub path: Seq<Seq<char>>,
    pub lines: Seq<ReportLineView>,
    pub finished: bool,
}

/// The state before the first event.
pub open spec fn initial() -> BuilderView {
    BuilderView { path: Seq::empty(), lines: Seq::empty(), finished: false }
}

/// The line for an attribute of the element at `path`: one where the
/// catalogue knows the local part of the key, none otherwise. The line
/// holds that local part.
pub open spec fn attribute_line(
    catalogue: Seq<EntryView>,
    path: Seq<char>,
    attribute: AttributeView,
) -> Option<ReportLineView> {
    let key = local_part(attribute.key);
    if has_name(catalogue, key) {
        Some(ReportLineView::Attribute { path, key, value: attribute.value })
    } else {
        None
    }
}

/// `attribute_line` as a function of the attribute.
pub open spec fn attribute_filter(catalogue: Seq<EntryView>, path: Seq<char>) -> spec_fn(
    AttributeView,
) -> Option<ReportLineView> {
    |attribute: AttributeView| attribute_line(catalogue, path, attribute)
}

/// The lines for the attributes of the element at `path`, in the order of
/// the attributes.
pub open spec fn attribute_lines(
    catalogue: Seq<EntryView>,
    path: Seq<char>,
    attributes: Seq<AttributeView>,
) -> Seq<ReportLineView> {
    attributes.filter_map(attribute_filter(catalogue, path))
}

/// The line for a text under the open elements `path`: one where the text
/// is not blank and the name of some catalogue entry occurs in the path,
/// none otherwise.
pub open spec fn text_line(
    catalogue: Seq<EntryView>,
    path: Seq<Seq<char>>,
    content: Seq<char>,
) -> Option<ReportLineView> {
    let value = trimmed(content);
    match resolved_label(catalogue, path) {
        Some(label) => if value.len() > 0 {
            Some(ReportLineView::Text { path: joined(path, separator()), label, value })
        } else {
            None
        },
        None => None,
    }
}

/// The state after `event`, or the failure that the event causes.
///
/// Elements and attributes go by their local names: the path holds the
/// local part of each element's name, and an attribute is looked up and
/// noted under the local part of its key. An end without an open element is an invariant violation. The end of the
/// document while elements are open is a malformed document. Once the
/// document has ended, events change nothing.
pub open spec fn step(catalogue: Seq<EntryView>, state: BuilderView, event: XmlEventView) -> Result<
    BuilderView,
    ReportError,
> {
    if state.finished {
        Ok(state)
    } else {
        match event {
            XmlEventView::ElementStart { name, attributes } => {
                let path = state.path.push(local_part(name));
                let found = attribute_lines(catalogue, joined(path, separator()), attributes);
                Ok(BuilderView { path, lines: state.lines + found, finished: false })
            },
            XmlEventView::ElementEnd => if state.path.len() == 0 {
                Err(ReportError::InvariantViolation)
            } else {
                Ok(
                    BuilderView {
                        path: state.path.drop_last(),
                        lines: state.lines,
                        finished: false,
                    },
                )
            },
            XmlEventView::Text { content } => match text_line(catalogue, state.path, content) {
                Some(line) => Ok(
                    BuilderView {
                        path: state.path,
                        lines: state.lines.push(line),
                        finished: false,
                    },
                ),
                None => Ok(state),
            },
            XmlEventView::EndOfDocument => if state.path.len() == 0 {
                Ok(BuilderView { path: state.path, lines: state.lines, finished: true })
            } else {
                Err(
                    ReportError::MalformedXml(
                        XmlFault::UnclosedElements { open: state.path.len() as usize },
                    ),
                )
            },
            XmlEventView::Other => Ok(state),
        }
    }
}

/// The state after all of `events`, taken in order from `start`, or the
/// first failure.
pub open spec fn run(catalogue: Seq<EntryView>, start: BuilderView, events: Seq<XmlEventView>) -> Result<
    BuilderView,
    ReportError,
>
    decreases events.len(),
{
    if events.len() == 0 {
        Ok(start)
    } else {
        match run(catalogue, start, events.drop_last()) {
            Ok(state) => step(catalogue, state, events.last()),
            Err(error) => Err(error),
        }
    }
}

/// By how much an event changes the nesting depth.
pub open spec fn depth_change(event: XmlEventView) -> int {
    match event {
        XmlEventView::ElementStart { .. } => 1,
        XmlEventView::ElementEnd => -1,
        _ => 0,
    }
}

/// The nesting depth after `events`: the starts less the ends.
pub open spec fn nesting_depth(events: Seq<XmlEventView>) -> int
    decreases events.len(),
{
    if events.len() == 0 {
        0
    } else {
        nesting_depth(events.drop_last()) + depth_change(events.last())
    }
}

/// Taking one more event is one more step.
pub proof fn lemma_run_push(
    catalogue: Seq<EntryView>,
    start: BuilderView,
    events: Seq<XmlEventView>,
    event: XmlEventView,
)
    ensures
        run(catalogue, start, events.push(event)) == match run(catalogue, start, events) {
            Ok(state) => step(catalogue, state, event),
            Err(error) => Err(error),
        },
{
    assert(events.push(event).drop_last() =~= events);
}

/// A run that succeeds has succeeded on every prefix of its events.
pub proof fn lemma_run_prefix_succeeds(
    catalogue: Seq<EntryView>,
    start: BuilderView,
    events: Seq<XmlEventView>,
    k: int,
)
    requires
        0 <= k <= events.len(),
        run(catalogue, start, events) is Ok,
    ensures
        run(catalogue, start, events.take(k)) is Ok,
    decreases events.len(),
{
    if k == events.len() {
        assert(events.take(k) =~= events);
    } else {
        lemma_run_prefix_succeeds(catalogue, start, events.drop_last(), k);
        assert(events.drop_last().take(k) =~= events.take(k));
    }
}

/// A step keeps the lines that were there and adds at their end.
pub proof fn lemma_step_appends(catalogue: Seq<EntryView>, state: BuilderView, event: XmlEventView)
    requires
        step(catalogue, state, event) is Ok,
    ensures
        state.lines.is_prefix_of(step(catalogue, state, event)->Ok_0.lines),
{
    let next = step(catalogue, state, event)->Ok_0;
    assert(state.lines =~= next.lines.subrange(0, state.lines.len() as int));
}

/// Document order: the lines that stand in the report after the first `i`
/// events still stand there, at the same places, after the first `j`
/// events, for `i <= j`. So a line that an earlier event gave comes before
/// every line that a later event gave.
pub proof fn lemma_lines_keep_document_order(
    catalogue: Seq<EntryView>,
    events: Seq<XmlEventView>,
    i: int,
    j: int,
)
    requires
        0 <= i <= j <= events.len(),
        run(catalogue, initial(), events.take(j)) is Ok,
    ensures
        run(catalogue, initial(), events.take(i)) is Ok,
        run(catalogue, initial(), events.take(i))->Ok_0.lines.is_prefix_of(
            run(catalogue, initial(), events.take(j))->Ok_0.lines,
        ),
    decreases j - i,
{
    if i == j {
        let lines = run(catalogue, initial(), events.take(j))->Ok_0.lines;
        assert(lines =~= lines.subrange(0, lines.len() as int));
    } else {
        assert(events.take(j).drop_last() =~= events.take(j - 1));
        let before = run(catalogue, initial(), events.take(j - 1))->Ok_0;
        lemma_lines_keep_document_order(catalogue, events, i, j - 1);
        lemma_step_appends(catalogue, before, events.take(j).last());
        let early = run(catalogue, initial(), events.take(i))->Ok_0.lines;
        let late = run(catalogue, initial(), events.take(j))->Ok_0.lines;
        assert(early =~= late.subrange(0, early.len() as int));
    }
}

/// Path depth: while the document has not ended, as many elements are open
/// as the events so far have started and not ended. Once it has ended, none
/// is open.
pub proof fn lemma_depth_is_nesting_depth(catalogue: Seq<EntryView>, events: Seq<XmlEventView>)
    requires
        run(catalogue, initial(), events) is Ok,
    ensures
        ({
            let state = run(catalogue, initial(), events)->Ok_0;
            &&& !state.finished ==> state.path.len() == nesting_depth(events)
            &&& state.finished ==> state.path.len() == 0
        }),
    decreases events.len(),
{
    if events.len() > 0 {
        lemma_depth_is_nesting_depth(catalogue, events.drop_last());
    }
}

/// Path depth at every event: the law above holds after each prefix of the
/// events of a run that succeeds.
pub proof fn lemma_depth_at_every_event(
    catalogue: Seq<EntryView>,
    events: Seq<XmlEventView>,
    k: int,
)
    requires
        0 <= k <= events.len(),
        run(catalogue, initial(), events) is Ok,
    ensures
        run(catalogue, initial(), events.take(k)) is Ok,
        ({
            let state = run(catalogue, initial(), events.take(k))->Ok_0;
            &&& !state.finished ==> state.path.len() == nesting_depth(events.take(k))
            &&& state.finished ==> state.path.len() == 0
        }),
{
    lemma_run_prefix_succeeds(catalogue, initial(), events, k);
    lemma_depth_is_nesting_depth(catalogue, events.take(k));
}

/// A text of whitespace alone changes nothing: it gives no line.
pub proof fn lemma_blank_text_gives_no_line(
    catalogue: Seq<EntryView>,
    state: BuilderView,
    content: Seq<char>,
)
    requires
        is_blank(content),
    ensures
        step(catalogue, state, XmlEventView::Text { content }) == Ok::<BuilderView, ReportError>(
            state,
        ),
{
    lemma_trimmed_empty_iff_blank(content);
}

/// Local names: a prefix changes nothing. Two start tags whose names have
/// the same local part, and whose attributes agree, lead to the same state.
pub proof fn lemma_prefix_changes_nothing(
    catalogue: Seq<EntryView>,
    state: BuilderView,
    first: Seq<char>,
    second: Seq<char>,
    attributes: Seq<AttributeView>,
)
    requires
        local_part(first) == local_part(second),
    ensures
        step(catalogue, state, XmlEventView::ElementStart { name: first, attributes }) == step(
            catalogue,
            state,
            XmlEventView::ElementStart { name: second, attributes },
        ),
{
}

/// Local names of attributes: an attribute is noted exactly when the
/// catalogue knows the local part of its key, and under that local part.
pub proof fn lemma_attribute_goes_by_local_key(
    catalogue: Seq<EntryView>,
    path: Seq<char>,
    attribute: AttributeView,
)
    ensures
        attribute_line(catalogue, path, attribute) is Some <==> has_name(
            catalogue,
            local_part(attribute.key),
        ),
        attribute_line(catalogue, path, attribute) is Some ==> attribute_line(
            catalogue,
            path,
            attribute,
        ) == Some(
            ReportLineView::Attribute {
                path,
                key: local_part(attribute.key),
                value: attribute.value,
            },
        ),
{
}

/// A failure is final: more events do not turn it into a report.
pub proof fn lemma_failure_stays(
    catalogue: Seq<EntryView>,
    start: BuilderView,
    events: Seq<XmlEventView>,
    k: int,
)
    requires
        0 <= k <= events.len(),
        run(catalogue, start, events.take(k)) is Err,
    ensures
        run(catalogue, start, events) == run(catalogue, start, events.take(k)),
    decreases events.len(),
{
    if k == events.len() {
        assert(events.take(k) =~= events);
    } else {
        assert(events.drop_last().take(k) =~= events.take(k));
        lemma_failure_stays(catalogue, start, events.drop_last(), k);
    }
}

/// A build in progress.
pub struct ReportBuilder<'a> {
    catalogue: &'a Catalogue,
    path: Vec<String>,
    lines: Vec<ReportLine>,
    finished: bool,
}

impl<'a> View for ReportBuilder<'a> {
    type V = BuilderView;

    closed spec fn view(&self) -> BuilderView {
        BuilderView {
            path: texts(self.path@),
            lines: line_views(self.lines@),
            finished: self.finished,
        }
    }
}

impl<'a> ReportBuilder<'a> {
    /// The catalogue that the build goes by.
    pub closed spec fn catalogue(&self) -> Seq<EntryView> {
        self.catalogue@
    }

    /// A build before its first event.
    pub fn new(catalogue: &'a Catalogue) -> (builder: ReportBuilder<'a>)
        ensures
            builder@ == initial(),
            builder.catalogue() == catalogue@,
    {
        let builder = ReportBuilder {
            catalogue,
            path: Vec::new(),
            lines: Vec::new(),
            finished: false,
        };
        assert(builder@.path =~= Seq::<Seq<char>>::empty());
        assert(builder@.lines =~= Seq::<ReportLineView>::empty());
        builder
    }

    /// How many elements are open.
    pub fn depth(&self) -> (depth: usize)
        ensures
            depth == self@.path.len(),
    {
        self.path.len()
    }

    /// The names of the open elements, from the root down.
    pub fn path(&self) -> (path: &Vec<String>)
        ensures
            texts(path@) == self@.path,
    {
        &self.path
    }

    /// Whether the document has ended.
    pub fn is_finished(&self) -> (finished: bool)
        ensures
            finished == self@.finished,
    {
        self.finished
    }

    /// The lines found so far, in document order.
    pub fn lines(&self) -> (lines: &Vec<ReportLine>)
        ensures
            line_views(lines@) == self@.lines,
    {
        &self.lines
    }

    /// Ends the build and hands out its lines.
    pub fn into_lines(self) -> (lines: Vec<ReportLine>)
        ensures
            line_views(lines@) == self@.lines,
    {
        self.lines
    }

    /// Appends the lines for the catalogued attributes of the element that
    /// was opened last.
    fn note_attributes(&mut self, attributes: &Vec<Attribute>)
        requires
            attributes.len() > 0,
        ensures
            final(self).catalogue() == old(self).catalogue(),
            final(self)@.path == old(self)@.path,
            final(self)@.finished == old(self)@.finished,
            final(self)@.lines == old(self)@.lines + attribute_lines(
                old(self).catalogue(),
                joined(old(self)@.path, separator()),
                attribute_views(attributes@),
            ),
    {
        let place = join(&self.path, " > ");
        let ghost before = self@.lines;
        let ghost all = attribute_views(attributes@);
        let ghost choice = attribute_filter(self.catalogue(), place@);
        let mut i: usize = 0;
        assert(all.take(0).filter_map(choice) =~= Seq::<ReportLineView>::empty());
        assert(before + Seq::<ReportLineView>::empty() =~= before);
        while i < attributes.len()
            invariant
                i <= attributes.len(),
                all == attribute_views(attributes@),
                choice == attribute_filter(self.catalogue(), place@),
                self.catalogue() == old(self).catalogue(),
                self@.path == old(self)@.path,
                self@.finished == old(self)@.finished,
                self@.lines == before + all.take(i as int).filter_map(choice),
            decreases attributes.len() - i,
        {
            let attribute = &attributes[i];
            proof {
                all.lemma_filter_map_take_succ(choice, i as int);
                assert(all[i as int] == attribute@);
            }
            let key = String::from_str(local_part_of(attribute.key.as_str()));
            if self.catalogue.names(&key) {
                let line = ReportLine::Attribute {
                    path: place.clone(),
                    key,
                    value: attribute.value.clone(),
                };
                let ghost lines_before = self.lines@;
                self.lines.push(line);
                assert(line_views(self.lines@) =~= line_views(lines_before).push(line@));
                assert(self@.lines =~= before + all.take(i + 1).filter_map(choice));
            } else {
                assert(self@.lines =~= before + all.take(i + 1).filter_map(choice));
            }
            i = i + 1;
        }
        assert(all.take(attributes.len() as int) =~= all);
    }

    /// Takes the next event of the walk.
    ///
    /// On a failure the build stays as it was.
    pub fn on_event(&mut self, event: &XmlEvent) -> (result: Result<(), ReportError>)
        ensures
            final(self).catalogue() == old(self).catalogue(),
            match step(old(self).catalogue(), old(self)@, event@) {
                Ok(next) => result is Ok && final(self)@ == next,
                Err(error) => result == Err::<(), ReportError>(error) && final(self)@ == old(
                    self,
                )@,
            },
    {
        if self.finished {
            return Ok(());
        }
        match event {
            XmlEvent::ElementStart { name, attributes } => {
                let ghost path_before = self.path@;
                self.path.push(String::from_str(local_part_of(name.as_str())));
                assert(texts(self.path@) =~= texts(path_before).push(local_part(name@)));
                if attributes.len() > 0 {
                    self.note_attributes(attributes);
                } else {
                    assert(attribute_views(attributes@).filter_map(
                        attribute_filter(
                            self.catalogue(),
                            joined(texts(self.path@), separator()),
                        ),
                    ) =~= Seq::<ReportLineView>::empty());
                    assert(self@.lines + Seq::<ReportLineView>::empty() =~= self@.lines);
                }
                Ok(())
            },
            XmlEvent::ElementEnd => {
                if self.path.len() == 0 {
                    return Err(ReportError::InvariantViolation);
                }
                let ghost path_before = self.path@;
                self.path.pop();
                assert(texts(self.path@) =~= texts(path_before).drop_last());
                Ok(())
            },
            XmlEvent::Text { content } => {
                let value = trim(content.as_str());
                if !value.is_empty() {
                    let catalogue: &Catalogue = self.catalogue;
                    match catalogue.label_for_path(&self.path) {
                        Some(label) => {
                            let line = ReportLine::Text {
                                path: join(&self.path, " > "),
                                label: label.clone(),
                                value: String::from_str(value),
                            };
                            let ghost lines_before = self.lines@;
                            self.lines.push(line);
                            assert(line_views(self.lines@) =~= line_views(lines_before).push(
                                line@,
                            ));
                        },
                        None => {},
                    }
                }
                Ok(())
            },
            XmlEvent::EndOfDocument => {
                if self.path.len() != 0 {
                    return Err(
                        ReportError::MalformedXml(
                            XmlFault::UnclosedElements { open: self.path.len() },
                        ),
                    );
                }
                self.finished = true;
                Ok(())
            },
            XmlEvent::Other => Ok(()),
        }
    }
}

} // verus!
