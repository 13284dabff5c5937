use invoice_report::render::{escape_html, render_report};
use invoice_report::report::ReportLine;

fn text_line(path: &str, label: &str, value: &str) -> ReportLine {
    ReportLine::Text { path: path.to_string(), label: label.to_string(), value: value.to_string() }
}

fn attribute_line(path: &str, key: &str, value: &str) -> ReportLine {
    ReportLine::Attribute { path: path.to_string(), key: key.to_string(), value: value.to_string() }
}

#[test]
fn escape_replaces_the_five_markup_characters() {
    assert_eq!(escape_html("<a href=\"x\">&'"), "&lt;a href=&quot;x&quot;&gt;&amp;&#39;");
    assert_eq!(escape_html("&amp;"), "&amp;amp;");
}

#[test]
fn escape_keeps_every_other_character() {
    assert_eq!(escape_html(""), "");
    assert_eq!(escape_html("INV-001 (é ü) 100%"), "INV-001 (é ü) 100%");
}

#[test]
fn line_text_of_a_text_line() {
    assert_eq!(text_line("Invoice > ID", "BT-1", "INV-001").text(), "Invoice > ID (BT-1): INV-001");
}

#[test]
fn line_text_of_an_attribute_line() {
    assert_eq!(attribute_line("Tax", "schemeID", "VAT").text(), "Tax @schemeID: VAT");
}

#[test]
fn page_of_an_empty_report() {
    assert_eq!(
        render_report(&Vec::new()),
        "<html><body><h1>Document Elements</h1><ul></ul></body></html>"
    );
}

#[test]
fn page_lists_the_lines_in_order() {
    let lines = vec![
        attribute_line("Tax", "schemeID", "VAT"),
        text_line("Invoice > ID", "BT-1", "INV-001"),
    ];
    assert_eq!(
        render_report(&lines),
        "<html><body><h1>Document Elements</h1><ul>\
         <li>Tax @schemeID: VAT</li>\
         <li>Invoice &gt; ID (BT-1): INV-001</li>\
         </ul></body></html>"
    );
}

#[test]
fn page_escapes_what_the_document_said() {
    let lines = vec![text_line("a", "BT-1", "<script>alert('x')</script>")];
    assert_eq!(
        render_report(&lines),
        "<html><body><h1>Document Elements</h1><ul>\
         <li>a (BT-1): &lt;script&gt;alert(&#39;x&#39;)&lt;/script&gt;</li>\
         </ul></body></html>"
    );
}

#[test]
fn same_lines_same_page() {
    let lines = vec![text_line("Invoice > ID", "BT-1", "INV-001")];
    assert_eq!(render_report(&lines), render_report(&lines.clone()));
}
