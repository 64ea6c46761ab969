//! The supply chain as an app: its number series and its seeding.

use crate::series::{all_numbered, seed_currency, seeding_currency, Numbered, Series};
use crate::text::opt_text;
use vstd::prelude::*;

verus! {

/// Goods receipts, whether against an order or direct: one sequence.
pub const RECEIPT_SERIES: &'static str = "inventory.receipt";

/// Stock issues.
pub const ISSUE_SERIES: &'static str = "inventory.issue";

/// Stock transfers between warehouses.
pub const TRANSFER_SERIES: &'static str = "inventory.transfer";

/// Stock adjustments.
pub const ADJUSTMENT_SERIES: &'static str = "inventory.adjustment";

/// Purchase orders.
pub const ORDER_SERIES: &'static str = "procurement.order";

/// Purchase invoices.
pub const INVOICE_SERIES: &'static str = "procurement.invoice";

/// Supplier payments.
pub const PAYMENT_SERIES: &'static str = "procurement.payment";

/// Purchase returns.
pub const RETURN_SERIES: &'static str = "procurement.return";

/// Purchase requisitions.
pub const REQUISITION_SERIES: &'static str = "procurement.requisition";

/// Requests for quotation.
pub const RFQ_SERIES: &'static str = "procurement.rfq";

/// Sales quotations.
pub const SALES_QUOTATION_SERIES: &'static str = "sales.quotation";

/// Sales orders.
pub const SALES_ORDER_SERIES: &'static str = "sales.order";

/// Delivery notes.
pub const SALES_DELIVERY_SERIES: &'static str = "sales.delivery";

/// Sales invoices.
pub const SALES_INVOICE_SERIES: &'static str = "sales.invoice";

/// Credit notes.
pub const SALES_CREDIT_NOTE_SERIES: &'static str = "sales.credit_note";

/// Customer payments.
pub const SALES_PAYMENT_SERIES: &'static str = "sales.payment";

/// The currency that a tenant without one is seeded in.
pub const FALLBACK_CURRENCY: &'static str = "USD";

/// The number series of the supply chain.
pub open spec fn numbered() -> Seq<Numbered> {
    seq![
        (RECEIPT_SERIES@, "Goods Receipt"@, "GRN-{YYYY}-{SEQ:5}"@),
        (ISSUE_SERIES@, "Stock Issue"@, "ISS-{YYYY}-{SEQ:5}"@),
        (TRANSFER_SERIES@, "Stock Transfer"@, "TRF-{YYYY}-{SEQ:5}"@),
        (ADJUSTMENT_SERIES@, "Stock Adjustment"@, "ADJ-{YYYY}-{SEQ:5}"@),
        (ORDER_SERIES@, "Purchase Order"@, "PO-{YYYY}-{SEQ:5}"@),
        (INVOICE_SERIES@, "Purchase Invoice"@, "PINV-{YYYY}-{SEQ:5}"@),
        (PAYMENT_SERIES@, "Supplier Payment"@, "PAY-{YYYY}-{SEQ:5}"@),
        (RETURN_SERIES@, "Purchase Return"@, "RTS-{YYYY}-{SEQ:5}"@),
        (REQUISITION_SERIES@, "Purchase Requisition"@, "REQ-{YYYY}-{SEQ:5}"@),
        (RFQ_SERIES@, "Request for Quotation"@, "RFQ-{YYYY}-{SEQ:5}"@),
        (SALES_QUOTATION_SERIES@, "Quotation"@, "QUO-{YYYY}-{SEQ:5}"@),
        (SALES_ORDER_SERIES@, "Sales Order"@, "SO-{YYYY}-{SEQ:5}"@),
        (SALES_DELIVERY_SERIES@, "Delivery Note"@, "DN-{YYYY}-{SEQ:5}"@),
        (SALES_INVOICE_SERIES@, "Sales Invoice"@, "SINV-{YYYY}-{SEQ:5}"@),
        (SALES_CREDIT_NOTE_SERIES@, "Credit Note"@, "CN-{YYYY}-{SEQ:5}"@),
        (SALES_PAYMENT_SERIES@, "Customer Payment"@, "RCT-{YYYY}-{SEQ:5}"@),
    ]
}

#[derive(Clone, Copy, Debug)]
pub struct ScmApp;

impl ScmApp {
    pub fn name(&self) -> (r: &'static str)
        ensures
            r@ == "scm"@,
    {
        "scm"
    }

    /// The number series that documents are numbered by.
    pub fn series(&self) -> (r: Vec<Series>)
        ensures
            all_numbered(r@) == numbered(),
    {
        let list = vec![
            Series::new(RECEIPT_SERIES, "Goods Receipt", "GRN-{YYYY}-{SEQ:5}"),
            Series::new(ISSUE_SERIES, "Stock Issue", "ISS-{YYYY}-{SEQ:5}"),
            Series::new(TRANSFER_SERIES, "Stock Transfer", "TRF-{YYYY}-{SEQ:5}"),
            Series::new(ADJUSTMENT_SERIES, "Stock Adjustment", "ADJ-{YYYY}-{SEQ:5}"),
            Series::new(ORDER_SERIES, "Purchase Order", "PO-{YYYY}-{SEQ:5}"),
            Series::new(INVOICE_SERIES, "Purchase Invoice", "PINV-{YYYY}-{SEQ:5}"),
            Series::new(PAYMENT_SERIES, "Supplier Payment", "PAY-{YYYY}-{SEQ:5}"),
            Series::new(RETURN_SERIES, "Purchase Return", "RTS-{YYYY}-{SEQ:5}"),
            Series::new(REQUISITION_SERIES, "Purchase Requisition", "REQ-{YYYY}-{SEQ:5}"),
            Series::new(RFQ_SERIES, "Request for Quotation", "RFQ-{YYYY}-{SEQ:5}"),
            Series::new(SALES_QUOTATION_SERIES, "Quotation", "QUO-{YYYY}-{SEQ:5}"),
            Series::new(SALES_ORDER_SERIES, "Sales Order", "SO-{YYYY}-{SEQ:5}"),
            Series::new(SALES_DELIVERY_SERIES, "Delivery Note", "DN-{YYYY}-{SEQ:5}"),
            Series::new(SALES_INVOICE_SERIES, "Sales Invoice", "SINV-{YYYY}-{SEQ:5}"),
            Series::new(SALES_CREDIT_NOTE_SERIES, "Credit Note", "CN-{YYYY}-{SEQ:5}"),
            Series::new(SALES_PAYMENT_SERIES, "Customer Payment", "RCT-{YYYY}-{SEQ:5}"),
        ];
        assert(all_numbered(list@) =~= numbered());
        list
    }

    /// The currency that a tenant is seeded in.
    pub fn currency(&self, own: &Option<String>) -> (r: String)
        ensures
            r@ == seeding_currency(opt_text(*own), FALLBACK_CURRENCY@),
    {
        seed_currency(own, FALLBACK_CURRENCY)
    }
}

} // verus!
