use nebula_apps::date::Date;
use nebula_apps::decimal::Decimal;
use nebula_apps::report::{Column, KeyValue, Orientation, Signature, SpaceSize, Widget};
use nebula_apps::scm::document::{
    address_block, amount, date, date_opt, money_column, note, quantity, total_line, Document,
};

fn day() -> Date {
    Date::from_ymd(2026, 7, 6).unwrap()
}

#[test]
fn dates_name_their_month() {
    let d = day();
    assert_eq!(date(d), "06-Jul-2026");
    // The reading that an all-numeric format invites must be impossible.
    assert!(!date(d).contains("06-07"));
    assert_eq!(date_opt(Some(d)), "06-Jul-2026");
    assert_eq!(date_opt(None), "");
}

#[test]
fn amounts_always_show_cents() {
    assert_eq!(amount(Decimal::new(12405, 1)), "1240.50");
    assert_eq!(amount(Decimal::zero()), "0.00");
}

#[test]
fn quantities_lose_trailing_zeros() {
    assert_eq!(quantity(Decimal::new(100000, 4)), "10");
    assert_eq!(quantity(Decimal::new(15, 1)), "1.5");
}

#[test]
fn address_blocks_skip_what_is_missing() {
    let lines = address_block("Acme", [Some("12 Hill Road"), None, Some("  "), Some("Nairobi")]);
    assert_eq!(lines, vec!["Acme", "12 Hill Road", "Nairobi"]);
}

#[test]
fn totals_and_columns_are_labelled() {
    let t = total_line("Total", Decimal::new(5, 0));
    assert_eq!(t.label, "Total");
    assert_eq!(t.value, "5.00");
    assert_eq!(total_line("Total", Decimal::new(124000, 2)).value, "1,240.00");
    assert_eq!(total_line("Total", Decimal::new(-123456789, 3)).value, "-123,456.78");
    assert_eq!(total_line("Total", Decimal::new(1000005, 0)).value, "1,000,005.00");
    assert_eq!(amount(Decimal::new(124000, 2)), "1240.00");
    assert_eq!(money_column("Amount").label, "Amount");
    assert!(matches!(note("Note", "Text"), Widget::Group { .. }));
}

fn document(number: Option<&str>, columns: usize, totals: usize) -> Document {
    let mut cols = Vec::new();
    for i in 0..columns {
        cols.push(Column::new(&format!("C{}", i)));
    }
    let mut sums = Vec::new();
    for i in 0..totals {
        sums.push(KeyValue::new(&format!("T{}", i), format!("{}.00", i)));
    }
    Document {
        title: "Purchase Order".to_string(),
        number: number.map(|n| n.to_string()),
        status: "issued".to_string(),
        party_label: "Supplier",
        party: vec!["Acme".to_string(), "Nairobi".to_string()],
        second_label: None,
        second: vec![],
        meta: vec![],
        columns: cols,
        rows: vec![vec!["a".to_string(), "b".to_string(), "c".to_string()]],
        totals: sums,
        terms: None,
        memo: Some("Handle with care".to_string()),
        signatures: vec![Signature { label: "Approved".to_string() }],
    }
}

#[test]
fn a_document_is_headed_by_its_number() {
    let r = document(Some("PO-1"), 3, 1).into_report();
    assert_eq!(r.title, "Purchase Order PO-1");
    assert_eq!(r.subtitle.as_deref(), Some("issued"));
    assert_eq!(r.file_name.as_deref(), Some("PO-1"));
    assert_eq!(r.orientation, Orientation::Portrait);
    // Head, gap, lines, gap, memo, gap, signatures.
    assert_eq!(r.widgets.len(), 7);
    match &r.widgets[2] {
        Widget::Table(t) => {
            assert_eq!(t.rows.len(), 1);
            assert_eq!(t.rows[0].cells, vec!["a", "b", "c"]);
            assert_eq!(
                t.totals.clone().unwrap(),
                vec!["T0".to_string(), "".to_string(), "0.00".to_string()]
            );
        }
        _ => panic!("lines expected"),
    }
    assert!(matches!(r.widgets[5], Widget::Spacer(SpaceSize::Medium)));
}

#[test]
fn an_unissued_document_says_so() {
    let r = document(None, 8, 2).into_report();
    assert_eq!(r.title, "Purchase Order (unissued)");
    assert_eq!(r.file_name, None);
    assert_eq!(r.orientation, Orientation::Landscape);
    // Several totals stand in a table of their own.
    assert_eq!(r.widgets.len(), 8);
    assert!(matches!(r.widgets[3], Widget::Columns { .. }));
}
