use invoice_report::catalogue::{Catalogue, CatalogueEntry};

fn path(segments: &[&str]) -> Vec<String> {
    segments.iter().map(|segment| segment.to_string()).collect()
}

#[test]
fn standard_catalogue_holds_the_business_terms_in_order() {
    let catalogue = Catalogue::standard();
    assert_eq!(catalogue.len(), 44);
    assert_eq!(catalogue.entry(0), Some(&CatalogueEntry::new("CrossIndustryInvoice", "BG-0")));
    assert_eq!(catalogue.entry(3), Some(&CatalogueEntry::new("ID", "BT-23")));
    assert_eq!(catalogue.entry(7), Some(&CatalogueEntry::new("ID", "BT-1")));
    assert_eq!(catalogue.entry(24), Some(&CatalogueEntry::new("schemeID", "BT-31-0")));
    assert_eq!(catalogue.entry(43), Some(&CatalogueEntry::new("DuePayableAmount", "BT-115")));
    assert_eq!(catalogue.entry(44), None);
}

#[test]
fn catalogue_keeps_the_entries_it_was_made_of() {
    let entries = vec![CatalogueEntry::new("ID", "BT-1"), CatalogueEntry::new("Name", "BT-27")];
    let catalogue = Catalogue::new(entries.clone());
    assert_eq!(catalogue.len(), 2);
    assert_eq!(catalogue.entry(0), Some(&entries[0]));
    assert_eq!(catalogue.entry(1), Some(&entries[1]));
    assert_eq!(catalogue.entry(2), None);
}

#[test]
fn names_answers_for_every_entry_and_no_other() {
    let catalogue = Catalogue::standard();
    assert!(catalogue.names(&"schemeID".to_string()));
    assert!(catalogue.names(&"currencyID".to_string()));
    assert!(catalogue.names(&"DuePayableAmount".to_string()));
    assert!(!catalogue.names(&"schemeid".to_string()));
    assert!(!catalogue.names(&"".to_string()));
    assert!(!Catalogue::new(Vec::new()).names(&"ID".to_string()));
}

#[test]
fn label_is_that_of_the_first_entry_named_in_the_path() {
    let catalogue = Catalogue::new(vec![
        CatalogueEntry::new("Name", "BT-27"),
        CatalogueEntry::new("ID", "BT-23"),
        CatalogueEntry::new("ID", "BT-1"),
    ]);
    assert_eq!(catalogue.label_for_path(&path(&["Invoice", "ID"])), Some(&"BT-23".to_string()));
    // The entry decides, not the depth of the element it names.
    assert_eq!(
        catalogue.label_for_path(&path(&["Name", "Party", "ID"])),
        Some(&"BT-27".to_string())
    );
    assert_eq!(
        catalogue.label_for_path(&path(&["ID", "Party", "Name"])),
        Some(&"BT-27".to_string())
    );
}

#[test]
fn label_is_none_where_no_entry_names_a_segment() {
    let catalogue = Catalogue::standard();
    assert_eq!(catalogue.label_for_path(&path(&["Invoice", "Total"])), None);
    assert_eq!(catalogue.label_for_path(&Vec::new()), None);
    assert_eq!(Catalogue::new(Vec::new()).label_for_path(&path(&["ID"])), None);
}

#[test]
fn standard_catalogue_resolves_by_the_outermost_known_ancestor() {
    let catalogue = Catalogue::standard();
    assert_eq!(
        catalogue.label_for_path(&path(&["CrossIndustryInvoice", "ExchangedDocument", "ID"])),
        Some(&"BG-0".to_string())
    );
    assert_eq!(
        catalogue.label_for_path(&path(&["ExchangedDocument", "ID"])),
        Some(&"BT-23".to_string())
    );
}
