//! Rendering of a report as a minimal HTML page: a heading and one list item
//! for each line.
//!
//! What a line holds stems from the document and goes into the page in
//! escaped form, so that no text of the document is read as markup. The
//! page is a function of the lines alone: the same lines give the same
//! page, character for character.

use vstd::prelude::*;
use crate::report::{line_views, ReportLine, ReportLineView};

verus! {

/// How a character is written in HTML text.
pub open spec fn escape_char(c: char) -> Seq<char> {
    if c == '&' {
        "&amp;"@
    } else if c == '<' {
        "&lt;"@
    } else if c == '>' {
        "&gt;"@
    } else if c == '"' {
        "&quot;"@
    } else if c == '\'' {
        "&#39;"@
    } else {
        seq![c]
    }
}

/// The written forms of the characters of `text`, one for each.
pub open spec fn escape_parts(text: Seq<char>) -> Seq<Seq<char>> {
    text.map_values(|c: char| escape_char(c))
}

/// `text` as HTML text: each character in its written form.
pub open spec fn escaped(text: Seq<char>) -> Seq<char> {
    escape_parts(text).flatten()
}

/// A line in plain words: `path (label): value` for a text,
/// `path @key: value` for an attribute.
pub open spec fn line_text(line: ReportLineView) -> Seq<char> {
    match line {
        ReportLineView::Text { path, label, value } => path + " ("@ + label + "): "@ + value,
        ReportLineView::Attribute { path, key, value } => path + " @"@ + key + ": "@ + value,
    }
}

/// The list item of a line.
pub open spec fn list_item(line: ReportLineView) -> Seq<char> {
    "<li>"@ + escaped(line_text(line)) + "</li>"@
}

/// The list items of the lines, one for each.
pub open spec fn list_items(lines: Seq<ReportLineView>) -> Seq<Seq<char>> {
    lines.map_values(|line: ReportLineView| list_item(line))
}

/// The page up to its list items.
pub open spec fn page_head() -> Seq<char> {
    "<html><body><h1>Document Elements</h1><ul>"@
}

/// The page after its list items.
pub open spec fn page_tail() -> Seq<char> {
    "</ul></body></html>"@
}

/// The page of a report: the head, the list items in the order of the
/// lines, the tail.
pub open spec fn rendered(lines: Seq<ReportLineView>) -> Seq<char> {
    page_head() + list_items(lines).flatten() + page_tail()
}

/// The concatenation of the first `i + 1` parts is that of the first `i`,
/// followed by part `i`.
pub proof fn lemma_flatten_take_next<A>(parts: Seq<Seq<A>>, i: int)
    requires
        0 <= i < parts.len(),
    ensures
        parts.take(i + 1).flatten() == parts.take(i).flatten() + parts[i],
{
    parts.take(i + 1).lemma_flatten_and_flatten_alt_are_equivalent();
    parts.take(i).lemma_flatten_and_flatten_alt_are_equivalent();
    assert(parts.take(i + 1).drop_last() =~= parts.take(i));
    assert(parts.take(i + 1).last() == parts[i]);
}

/// `text` as HTML text: `&`, `<`, `>`, `"` and `'` are replaced by their
/// character references, every other character stays.
pub fn escape_html(text: &str) -> (html: String)
    ensures
        html@ == escaped(text@),
{
    let mut out = String::new();
    let ghost parts = escape_parts(text@);
    for c in it: text.chars()
        invariant
            it.seq() == text@,
            parts == escape_parts(text@),
            out@ == parts.take(it.index() as int).flatten(),
    {
        proof {
            lemma_flatten_take_next(parts, it.index() as int);
            assert(parts[it.index() as int] == escape_char(c));
        }
        if c == '&' {
            out.append("&amp;");
        } else if c == '<' {
            out.append("&lt;");
        } else if c == '>' {
            out.append("&gt;");
        } else if c == '"' {
            out.append("&quot;");
        } else if c == '\'' {
            out.append("&#39;");
        } else {
            let ghost before = out@;
            out.push(c);
            assert(out@ =~= before + seq![c]);
        }
    }
    assert(parts.take(parts.len() as int) =~= parts);
    out
}

impl ReportLine {
    /// The line in plain words: `path (label): value` for a text,
    /// `path @key: value` for an attribute.
    pub fn text(&self) -> (text: String)
        ensures
            text@ == line_text(self@),
    {
        match self {
            ReportLine::Text { path, label, value } => {
                let mut out = path.clone();
                out.append(" (");
                out.append(label.as_str());
                out.append("): ");
                out.append(value.as_str());
                out
            },
            ReportLine::Attribute { path, key, value } => {
                let mut out = path.clone();
                out.append(" @");
                out.append(key.as_str());
                out.append(": ");
                out.append(value.as_str());
                out
            },
        }
    }
}

/// The HTML page of a report.
pub fn render_report(lines: &Vec<ReportLine>) -> (html: String)
    ensures
        html@ == rendered(line_views(lines@)),
{
    let mut out = String::from_str("<html><body><h1>Document Elements</h1><ul>");
    let ghost items = list_items(line_views(lines@));
    let mut i: usize = 0;
    assert(items.take(0).flatten() =~= Seq::<char>::empty());
    assert(page_head() + Seq::<char>::empty() =~= page_head());
    while i < lines.len()
        invariant
            i <= lines.len(),
            items == list_items(line_views(lines@)),
            out@ == page_head() + items.take(i as int).flatten(),
        decreases lines.len() - i,
    {
        proof {
            lemma_flatten_take_next(items, i as int);
            assert(items[i as int] == list_item(lines@[i as int]@));
        }
        let ghost before = out@;
        let text = lines[i].text();
        let item = escape_html(text.as_str());
        out.append("<li>");
        out.append(item.as_str());
        out.append("</li>");
        assert(out@ =~= before + list_item(lines@[i as int]@));
        assert(out@ =~= page_head() + items.take(i + 1).flatten());
        i = i + 1;
    }
    assert(items.take(lines.len() as int) =~= items);
    out.append("</ul></body></html>");
    out
}

} // verus!
