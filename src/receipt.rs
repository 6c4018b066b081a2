//! Receipt records, extraction outcomes and progress events, and how a record is
//! assembled from an entity list.
use vstd::prelude::*;
use crate::decimal::Amount;
use crate::entity::{
    amount_of, amount_view, find_entity, find_spec, opt_view, resolve_text, resolve_total,
    text_of, type_names, EntityNode, MAX_ENTITY_DEPTH,
};

verus! {

/// What was read from one receipt.
pub struct ReceiptData {
    pub file: String,
    pub merchant: Option<String>,
    /// `YYYY-MM-DD`
    pub date: Option<String>,
    pub amount: Option<Amount>,
    pub currency: Option<String>,
    pub receiver_name: Option<String>,
}

impl ReceiptData {
    /// A record for `file` with no field read yet.
    pub fn new(file: String) -> (r: ReceiptData)
        ensures
            r.file == file,
            r.merchant is None,
            r.date is None,
            r.amount is None,
            r.currency is None,
            r.receiver_name is None,
    {
        ReceiptData {
            file,
            merchant: None,
            date: None,
            amount: None,
            currency: None,
            receiver_name: None,
        }
    }
}

/// The outcome of one extraction: a record on success, a message on failure.
pub struct OcrResult {
    pub success: bool,
    pub data: Option<ReceiptData>,
    pub error: Option<String>,
}

impl OcrResult {
    /// Exactly one of record and message is present, as `success` says.
    pub open spec fn wf(self) -> bool {
        if self.success {
            self.data is Some && self.error is None
        } else {
            self.data is None && self.error is Some
        }
    }

    pub fn success(data: ReceiptData) -> (r: OcrResult)
        ensures
            r.wf(),
            r.success,
            r.data == Some(data),
    {
        OcrResult { success: true, data: Some(data), error: None }
    }

    pub fn failure(error: String) -> (r: OcrResult)
        ensures
            r.wf(),
            !r.success,
            r.error == Some(error),
    {
        OcrResult { success: false, data: None, error: Some(error) }
    }
}

/// Progress of a batch: `current` jobs of `total` are done, the last being `file_name`.
pub struct OcrProgressEvent {
    pub current: usize,
    pub total: usize,
    pub file_name: String,
    pub result: Option<OcrResult>,
}

pub open spec fn merchant_types() -> Seq<Seq<char>> {
    seq![
        "merchant_name"@,
        "supplier_name"@,
        "vendor_name"@,
        "receipt_merchant_name"@,
    ]
}

pub open spec fn date_types() -> Seq<Seq<char>> {
    seq!["receipt_date"@, "purchase_date"@, "transaction_date"@, "invoice_date"@, "date"@]
}

pub open spec fn total_types() -> Seq<Seq<char>> {
    seq!["total_amount"@, "invoice_total"@, "receipt_total"@]
}

/// Entity types that name the merchant, by priority.
pub fn merchant_type_names() -> (r: Vec<String>)
    ensures
        type_names(r@) == merchant_types(),
{
    let r = vec![
        String::from_str("merchant_name"),
        String::from_str("supplier_name"),
        String::from_str("vendor_name"),
        String::from_str("receipt_merchant_name"),
    ];
    assert(type_names(r@) =~= merchant_types());
    r
}

/// Entity types that give the date, by priority.
pub fn date_type_names() -> (r: Vec<String>)
    ensures
        type_names(r@) == date_types(),
{
    let r = vec![
        String::from_str("receipt_date"),
        String::from_str("purchase_date"),
        String::from_str("transaction_date"),
        String::from_str("invoice_date"),
        String::from_str("date"),
    ];
    assert(type_names(r@) =~= date_types());
    r
}

/// Entity types that give the total, by priority.
pub fn total_type_names() -> (r: Vec<String>)
    ensures
        type_names(r@) == total_types(),
{
    let r = vec![
        String::from_str("total_amount"),
        String::from_str("invoice_total"),
        String::from_str("receipt_total"),
    ];
    assert(type_names(r@) =~= total_types());
    r
}

/// The text of the entity chosen for `types`, if one is chosen.
pub open spec fn field_text(es: Seq<EntityNode>, types: Seq<Seq<char>>) -> Option<Seq<char>> {
    match find_spec(es, types) {
        Some(i) => text_of(es[i]),
        None => None,
    }
}

/// The amount of the entity chosen for `types`, if one is chosen.
pub open spec fn field_amount(es: Seq<EntityNode>, types: Seq<Seq<char>>) -> Option<nat> {
    match find_spec(es, types) {
        Some(i) => amount_of(es[i], MAX_ENTITY_DEPTH as nat),
        None => None,
    }
}

/// Assembles the record of `file` from a response's top-level entities.
pub fn receipt_from_entities(file: String, entities: &Vec<EntityNode>) -> (r: ReceiptData)
    ensures
        r.file == file,
        opt_view(r.merchant) == field_text(entities@, merchant_types()),
        opt_view(r.date) == field_text(entities@, date_types()),
        amount_view(r.amount) == field_amount(entities@, total_types()),
        r.currency is None,
        r.receiver_name is None,
{
    let mut data = ReceiptData::new(file);
    if let Some(i) = find_entity(entities, &merchant_type_names()) {
        data.merchant = resolve_text(&entities[i]);
    }
    if let Some(i) = find_entity(entities, &date_type_names()) {
        data.date = resolve_text(&entities[i]);
    }
    if let Some(i) = find_entity(entities, &total_type_names()) {
        data.amount = resolve_total(&entities[i]);
    }
    data
}

} // verus!
