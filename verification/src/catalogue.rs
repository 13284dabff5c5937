//! The catalogue of business terms: an ordered table that pairs the name of
//! an element or attribute with the label of the business term it stands for.
//!
//! Several entries may share a name. A lookup never weighs one context
//! against another: the entry that comes first in the table wins.

use vstd::prelude::*;
use crate::text::texts;

verus! {

/// One row of the catalogue.
#[derive(Clone, Debug, PartialEq, Eq)]
pub struct CatalogueEntry {
    /// The element or attribute name that the entry answers to.
    pub match_name: String,
    /// The label of the business term.
    pub label: String,
}

/// The mathematical model of a catalogue entry.
pub struct EntryView {
    pub match_name: Seq<char>,
    pub label: Seq<char>,
}

impl View for CatalogueEntry {
    type V = EntryView;

    open spec fn view(&self) -> EntryView {
        EntryView { match_name: self.match_name@, label: self.label@ }
    }
}

/// The model of the entry with the given name and label.
pub open spec fn entry_view(match_name: Seq<char>, label: Seq<char>) -> EntryView {
    EntryView { match_name, label }
}

/// Whether some entry of the catalogue answers to `name`.
pub open spec fn has_name(catalogue: Seq<EntryView>, name: Seq<char>) -> bool {
    exists|i: int| 0 <= i < catalogue.len() && (#[trigger] catalogue[i]).match_name == name
}

/// Whether entry `i` is the first of the catalogue whose name occurs
/// anywhere in `path`.
pub open spec fn is_first_match(catalogue: Seq<EntryView>, path: Seq<Seq<char>>, i: int) -> bool {
    &&& 0 <= i < catalogue.len()
    &&& path.contains(catalogue[i].match_name)
    &&& forall|j: int| 0 <= j < i ==> !path.contains((#[trigger] catalogue[j]).match_name)
}

/// Whether the name of some entry occurs anywhere in `path`.
pub open spec fn has_match(catalogue: Seq<EntryView>, path: Seq<Seq<char>>) -> bool {
    exists|i: int| is_first_match(catalogue, path, i)
}

/// The index of the first entry whose name occurs in `path`, where there is
/// one.
pub open spec fn first_match(catalogue: Seq<EntryView>, path: Seq<Seq<char>>) -> int {
    choose|i: int| is_first_match(catalogue, path, i)
}

/// The label that a text under `path` resolves to: that of the first entry
/// whose name occurs anywhere in the path, whichever element of the path it
/// names.
pub open spec fn resolved_label(catalogue: Seq<EntryView>, path: Seq<Seq<char>>) -> Option<
    Seq<char>,
> {
    if has_match(catalogue, path) {
        Some(catalogue[first_match(catalogue, path)].label)
    } else {
        None
    }
}

/// The table of EN16931 business terms of a Cross-Industry-Invoice, in the
/// order in which lookups walk it.
pub open spec fn standard_entries() -> Seq<EntryView> {
    seq![
        entry_view("CrossIndustryInvoice"@, "BG-0"@),
        entry_view("ExchangedDocumentContext"@, "BG-2"@),
        entry_view("BusinessProcessSpecifiedDocumentContextParameter"@, "BT-23-00"@),
        entry_view("ID"@, "BT-23"@),
        entry_view("GuidelineSpecifiedDocumentContextParameter"@, "BT-24-00"@),
        entry_view("ID"@, "BT-24"@),
        entry_view("ExchangedDocument"@, "BT-1-00"@),
        entry_view("ID"@, "BT-1"@),
        entry_view("TypeCode"@, "BT-3"@),
        entry_view("IssueDateTime"@, "BT-2-00"@),
        entry_view("DateTimeString"@, "BT-2"@),
        entry_view("format"@, "BT-2-0"@),
        entry_view("SupplyChainTradeTransaction"@, "BG-25-00"@),
        entry_view("ApplicableHeaderTradeAgreement"@, "BT-10-00"@),
        entry_view("BuyerReference"@, "BT-10"@),
        entry_view("SellerTradeParty"@, "BG-4"@),
        entry_view("Name"@, "BT-27"@),
        entry_view("SpecifiedLegalOrganization"@, "BT-30-00"@),
        entry_view("ID"@, "BT-30"@),
        entry_view("schemeID"@, "BT-30-1"@),
        entry_view("PostalTradeAddress"@, "BG-5"@),
        entry_view("CountryID"@, "BT-40"@),
        entry_view("SpecifiedTaxRegistration"@, "BT-31-00"@),
        entry_view("ID"@, "BT-31"@),
        entry_view("schemeID"@, "BT-31-0"@),
        entry_view("SpecifiedTaxRegistration"@, "BT-32-00"@),
        entry_view("ID"@, "BT-32"@),
        entry_view("schemeID"@, "BT-32-0"@),
        entry_view("BuyerTradeParty"@, "BG-7"@),
        entry_view("Name"@, "BT-44"@),
        entry_view("SpecifiedLegalOrganization"@, "BT-47-00"@),
        entry_view("ID"@, "BT-47"@),
        entry_view("schemeID"@, "BT-47-1"@),
        entry_view("BuyerOrderReferencedDocument"@, "BT-13-00"@),
        entry_view("IssuerAssignedID"@, "BT-13"@),
        entry_view("ApplicableHeaderTradeDelivery"@, "BG-13-00"@),
        entry_view("ApplicableHeaderTradeSettlement"@, "BG-19"@),
        entry_view("InvoiceCurrencyCode"@, "BT-5"@),
        entry_view("SpecifiedTradeSettlementHeaderMonetarySummation"@, "BG-22"@),
        entry_view("TaxBasisTotalAmount"@, "BT-109"@),
        entry_view("TaxTotalAmount"@, "BT-110"@),
        entry_view("currencyID"@, "BT-110-0"@),
        entry_view("GrandTotalAmount"@, "BT-112"@),
        entry_view("DuePayableAmount"@, "BT-115"@),
    ]
}

/// At most one entry is the first match.
pub proof fn lemma_first_match_unique(
    catalogue: Seq<EntryView>,
    path: Seq<Seq<char>>,
    i: int,
    j: int,
)
    requires
        is_first_match(catalogue, path, i),
        is_first_match(catalogue, path, j),
    ensures
        i == j,
{
    if i < j {
        assert(!path.contains(catalogue[i].match_name));
    }
    if j < i {
        assert(!path.contains(catalogue[j].match_name));
    }
}

/// Where the name of any entry occurs in the path, there is a first such
/// entry, and it stands at or before that one.
pub proof fn lemma_match_has_first(catalogue: Seq<EntryView>, path: Seq<Seq<char>>, i: int)
    requires
        0 <= i < catalogue.len(),
        path.contains(catalogue[i].match_name),
    ensures
        has_match(catalogue, path),
        first_match(catalogue, path) <= i,
        is_first_match(catalogue, path, first_match(catalogue, path)),
    decreases i,
{
    if exists|j: int| 0 <= j < i && path.contains((#[trigger] catalogue[j]).match_name) {
        let j = choose|j: int| 0 <= j < i && path.contains((#[trigger] catalogue[j]).match_name);
        lemma_match_has_first(catalogue, path, j);
    } else {
        assert(is_first_match(catalogue, path, i));
        lemma_first_match_unique(catalogue, path, i, first_match(catalogue, path));
    }
}

/// Tie-break among entries that share a name: where entries `i` and `j`
/// answer to the same name, `i` comes first, and that name occurs in the
/// path, the text resolves to the label of the first matching entry, which
/// stands at or before `i`, whatever context `j` was meant for. Where no
/// entry before `i` matches, that is the label of `i`.
pub proof fn lemma_first_entry_wins(
    catalogue: Seq<EntryView>,
    path: Seq<Seq<char>>,
    i: int,
    j: int,
)
    requires
        0 <= i < j < catalogue.len(),
        catalogue[i].match_name == catalogue[j].match_name,
        path.contains(catalogue[j].match_name),
    ensures
        first_match(catalogue, path) <= i,
        resolved_label(catalogue, path) == Some(
            catalogue[first_match(catalogue, path)].label,
        ),
        (forall|k: int| 0 <= k < i ==> !path.contains((#[trigger] catalogue[k]).match_name))
            ==> resolved_label(catalogue, path) == Some(catalogue[i].label),
{
    lemma_match_has_first(catalogue, path, i);
    if forall|k: int| 0 <= k < i ==> !path.contains((#[trigger] catalogue[k]).match_name) {
        assert(is_first_match(catalogue, path, i));
        lemma_first_match_unique(catalogue, path, i, first_match(catalogue, path));
    }
}

impl CatalogueEntry {
    /// The entry that pairs `match_name` with `label`.
    pub fn new(match_name: &str, label: &str) -> (entry: CatalogueEntry)
        ensures
            entry@ == entry_view(match_name@, label@),
    {
        CatalogueEntry { match_name: String::from_str(match_name), label: String::from_str(label) }
    }
}

/// An ordered, read-only table of catalogue entries.
#[derive(Clone, Debug, PartialEq, Eq)]
pub struct Catalogue {
    entries: Vec<CatalogueEntry>,
}

impl View for Catalogue {
    type V = Seq<EntryView>;

    closed spec fn view(&self) -> Seq<EntryView> {
        self.entries@.map_values(|entry: CatalogueEntry| entry@)
    }
}

/// The models of a sequence of entries.
pub open spec fn entry_views(entries: Seq<CatalogueEntry>) -> Seq<EntryView> {
    entries.map_values(|entry: CatalogueEntry| entry@)
}

/// Whether `name` is one of `path`'s segments.
fn path_has(path: &Vec<String>, name: &String) -> (found: bool)
    ensures
        found == texts(path@).contains(name@),
{
    let mut i: usize = 0;
    while i < path.len()
        invariant
            i <= path.len(),
            forall|j: int| 0 <= j < i ==> (#[trigger] texts(path@)[j]) != name@,
        decreases path.len() - i,
    {
        if path[i] == *name {
            assert(texts(path@)[i as int] == name@);
            return true;
        }
        i = i + 1;
    }
    false
}

impl Catalogue {
    /// The catalogue that holds `entries` in their order.
    pub fn new(entries: Vec<CatalogueEntry>) -> (catalogue: Catalogue)
        ensures
            catalogue@ == entry_views(entries@),
    {
        Catalogue { entries }
    }

    /// The catalogue of EN16931 business terms of a Cross-Industry-Invoice.
    pub fn standard() -> (catalogue: Catalogue)
        ensures
            catalogue@ == standard_entries(),
    {
        let mut entries: Vec<CatalogueEntry> = Vec::new();
        entries.push(CatalogueEntry::new("CrossIndustryInvoice", "BG-0"));
        entries.push(CatalogueEntry::new("ExchangedDocumentContext", "BG-2"));
        entries.push(CatalogueEntry::new("BusinessProcessSpecifiedDocumentContextParameter", "BT-23-00"));
        entries.push(CatalogueEntry::new("ID", "BT-23"));
        entries.push(CatalogueEntry::new("GuidelineSpecifiedDocumentContextParameter", "BT-24-00"));
        entries.push(CatalogueEntry::new("ID", "BT-24"));
        entries.push(CatalogueEntry::new("ExchangedDocument", "BT-1-00"));
        entries.push(CatalogueEntry::new("ID", "BT-1"));
        entries.push(CatalogueEntry::new("TypeCode", "BT-3"));
        entries.push(CatalogueEntry::new("IssueDateTime", "BT-2-00"));
        entries.push(CatalogueEntry::new("DateTimeString", "BT-2"));
        entries.push(CatalogueEntry::new("format", "BT-2-0"));
        entries.push(CatalogueEntry::new("SupplyChainTradeTransaction", "BG-25-00"));
        entries.push(CatalogueEntry::new("ApplicableHeaderTradeAgreement", "BT-10-00"));
        entries.push(CatalogueEntry::new("BuyerReference", "BT-10"));
        entries.push(CatalogueEntry::new("SellerTradeParty", "BG-4"));
        entries.push(CatalogueEntry::new("Name", "BT-27"));
        entries.push(CatalogueEntry::new("SpecifiedLegalOrganization", "BT-30-00"));
        entries.push(CatalogueEntry::new("ID", "BT-30"));
        entries.push(CatalogueEntry::new("schemeID", "BT-30-1"));
        entries.push(CatalogueEntry::new("PostalTradeAddress", "BG-5"));
        entries.push(CatalogueEntry::new("CountryID", "BT-40"));
        entries.push(CatalogueEntry::new("SpecifiedTaxRegistration", "BT-31-00"));
        entries.push(CatalogueEntry::new("ID", "BT-31"));
        entries.push(CatalogueEntry::new("schemeID", "BT-31-0"));
        entries.push(CatalogueEntry::new("SpecifiedTaxRegistration", "BT-32-00"));
        entries.push(CatalogueEntry::new("ID", "BT-32"));
        entries.push(CatalogueEntry::new("schemeID", "BT-32-0"));
        entries.push(CatalogueEntry::new("BuyerTradeParty", "BG-7"));
        entries.push(CatalogueEntry::new("Name", "BT-44"));
        entries.push(CatalogueEntry::new("SpecifiedLegalOrganization", "BT-47-00"));
        entries.push(CatalogueEntry::new("ID", "BT-47"));
        entries.push(CatalogueEntry::new("schemeID", "BT-47-1"));
        entries.push(CatalogueEntry::new("BuyerOrderReferencedDocument", "BT-13-00"));
        entries.push(CatalogueEntry::new("IssuerAssignedID", "BT-13"));
        entries.push(CatalogueEntry::new("ApplicableHeaderTradeDelivery", "BG-13-00"));
        entries.push(CatalogueEntry::new("ApplicableHeaderTradeSettlement", "BG-19"));
        entries.push(CatalogueEntry::new("InvoiceCurrencyCode", "BT-5"));
        entries.push(CatalogueEntry::new("SpecifiedTradeSettlementHeaderMonetarySummation", "BG-22"));
        entries.push(CatalogueEntry::new("TaxBasisTotalAmount", "BT-109"));
        entries.push(CatalogueEntry::new("TaxTotalAmount", "BT-110"));
        entries.push(CatalogueEntry::new("currencyID", "BT-110-0"));
        entries.push(CatalogueEntry::new("GrandTotalAmount", "BT-112"));
        entries.push(CatalogueEntry::new("DuePayableAmount", "BT-115"));
        assert(entry_views(entries@) =~= standard_entries());
        Catalogue { entries }
    }

    /// The number of entries.
    pub fn len(&self) -> (n: usize)
        ensures
            n == self@.len(),
    {
        self.entries.len()
    }

    /// The entry at position `i`, if the catalogue has one there.
    pub fn entry(&self, i: usize) -> (entry: Option<&CatalogueEntry>)
        ensures
            i < self@.len() ==> entry.is_some() && entry.unwrap()@ == self@[i as int],
            i >= self@.len() ==> entry.is_none(),
    {
        if i < self.entries.len() {
            Some(&self.entries[i])
        } else {
            None
        }
    }

    /// Whether some entry answers to `name`.
    pub fn names(&self, name: &String) -> (found: bool)
        ensures
            found == has_name(self@, name@),
    {
        let mut i: usize = 0;
        while i < self.entries.len()
            invariant
                i <= self.entries.len(),
                forall|j: int| 0 <= j < i ==> (#[trigger] self@[j]).match_name != name@,
            decreases self.entries.len() - i,
        {
            if self.entries[i].match_name == *name {
                assert(self@[i as int].match_name == name@);
                return true;
            }
            i = i + 1;
        }
        false
    }

    /// The label that a text under `path` resolves to: that of the first
    /// entry whose name occurs anywhere in the path. `None` where no entry
    /// names a segment of the path.
    pub fn label_for_path(&self, path: &Vec<String>) -> (label: Option<&String>)
        ensures
            match label {
                Some(text) => resolved_label(self@, texts(path@)) == Some(text@),
                None => resolved_label(self@, texts(path@)).is_none(),
            },
    {
        let mut i: usize = 0;
        while i < self.entries.len()
            invariant
                i <= self.entries.len(),
                forall|j: int| 0 <= j < i ==> !texts(path@).contains((#[trigger] self@[j]).match_name),
            decreases self.entries.len() - i,
        {
            if path_has(path, &self.entries[i].match_name) {
                proof {
                    assert(self@[i as int].match_name == self.entries[i as int].match_name@);
                    assert(is_first_match(self@, texts(path@), i as int));
                    lemma_first_match_unique(
                        self@,
                        texts(path@),
                        i as int,
                        first_match(self@, texts(path@)),
                    );
                }
                return Some(&self.entries[i].label);
            }
            i = i + 1;
        }
        proof {
            assert forall|k: int| !is_first_match(self@, texts(path@), k) by {
                if 0 <= k < self@.len() {
                    assert(!texts(path@).contains(self@[k].match_name));
                }
            }
        }
        None
    }
}

} // verus!
