//! Data model of the payment instruction.
//!
//! All values are plain: the amount is held in cents (hundredths of the
//! currency unit) and dates as year, month and day numbers, so that the
//! whole encode pipeline can be reasoned about over integers and byte
//! sequences.

use vstd::prelude::*;
use vstd::string::StringExecFns;

verus! {

/// A calendar date, held as plain year, month and day numbers.
#[derive(Clone, Copy, Debug, PartialEq, Eq, Structural)]
pub struct Date {
    pub year: u16,
    pub month: u8,
    pub day: u8,
}

impl Date {
    /// A date the serializer can format as eight digits.
    pub open spec fn wf(self) -> bool {
        &&& 1 <= self.month <= 12
        &&& 1 <= self.day <= 31
        &&& self.year <= 9999
    }
}

/// One bank account: an IBAN with an optional SWIFT/BIC code.
#[derive(Clone, Debug)]
pub struct BankAccount {
    pub iban: String,
    pub swift: Option<String>,
}

/// The kind of payment a record asks for.
#[derive(Clone, Copy, Debug, PartialEq, Eq, Structural)]
pub enum PaymentOption {
    PaymentOrder,
    StandingOrder,
    DirectDebit,
}

/// How often a standing order runs.
#[derive(Clone, Copy, Debug, PartialEq, Eq, Structural)]
pub enum Periodicity {
    Daily,
    Weekly,
    Monthly,
    Quarterly,
    HalfYearly,
    Yearly,
}

/// A recurring-payment instruction.
#[derive(Clone, Debug)]
pub struct StandingOrder {
    /// Day of the month (1-31).
    pub day: u8,
    /// Months in which the payment runs (1-12).
    pub month: Vec<u8>,
    pub periodicity: Periodicity,
    /// Last execution date.
    pub last_date: Date,
}

#[derive(Clone, Copy, Debug, PartialEq, Eq, Structural)]
pub enum DirectDebitScheme {
    Sepa,
    Other,
}

#[derive(Clone, Copy, Debug, PartialEq, Eq, Structural)]
pub enum DirectDebitType {
    OneOff,
    Recurrent,
}

/// A direct-debit instruction.
#[derive(Clone, Debug)]
pub struct DirectDebit {
    pub scheme: DirectDebitScheme,
    pub debit_type: DirectDebitType,
    pub mandate_id: Option<String>,
    pub creditor_id: Option<String>,
    /// Maximum amount in cents.
    pub max_amount: Option<i64>,
    pub valid_till_date: Option<Date>,
}

/// A payment instruction as handed in by the caller.
#[derive(Clone, Debug)]
pub struct PaymentRequest {
    /// Payment amount in cents (must be greater than 0 to encode).
    pub amount: i64,
    /// IBAN of the beneficiary account.
    pub iban: Option<String>,
    /// Alternative: list of bank accounts.
    pub bank_accounts: Option<Vec<BankAccount>>,
    /// Currency code (default: EUR).
    pub currency: String,
    /// SWIFT/BIC code.
    pub swift: Option<String>,
    /// Payment date.
    pub date: Option<Date>,
    /// Payment due date.
    pub payment_due_date: Option<Date>,
    /// Invoice ID (at most 10 bytes).
    pub invoice_id: Option<String>,
    /// Beneficiary name (at most 70 bytes).
    pub beneficiary_name: Option<String>,
    /// Beneficiary address line 1 (at most 70 bytes).
    pub beneficiary_address_1: Option<String>,
    /// Beneficiary address line 2 (at most 70 bytes).
    pub beneficiary_address_2: Option<String>,
    /// Variable symbol (at most 10 bytes).
    pub variable_symbol: Option<String>,
    /// Constant symbol (at most 4 bytes).
    pub constant_symbol: Option<String>,
    /// Specific symbol (at most 10 bytes).
    pub specific_symbol: Option<String>,
    /// SEPA reference information (at most 35 bytes).
    pub originators_reference_information: Option<String>,
    /// Note or message for the beneficiary (at most 140 bytes).
    pub note: Option<String>,
    /// Payment options; defaults to a plain payment order when absent.
    pub payment_options: Option<Vec<PaymentOption>>,
    /// Standing order details.
    pub standing_order: Option<StandingOrder>,
    /// Direct debit details.
    pub direct_debit: Option<DirectDebit>,
}

impl PaymentRequest {
    /// Every date the serializer formats can be written as eight digits.
    pub open spec fn dates_wf(self) -> bool {
        &&& (self.date matches Some(d) ==> d.wf())
        &&& (self.payment_due_date matches Some(d) ==> d.wf())
        &&& (self.standing_order matches Some(so) ==> so.last_date.wf())
    }

    /// The record can be run through the serializer: its dates are
    /// well formed and its amount is positive.
    pub open spec fn serializable(self) -> bool {
        &&& self.dates_wf()
        &&& self.amount > 0
    }
}

/// Options for the image-rendering stage.
#[derive(Clone, Copy, Debug, PartialEq, Eq, Structural)]
pub struct QrOptions {
    /// Overlay the QR code on a frame (default: true).
    pub with_frame: bool,
    /// QR code size in pixels (default: 300).
    pub qr_size: u32,
}

impl Default for QrOptions {
    fn default() -> (r: Self)
        ensures
            r.with_frame == true,
            r.qr_size == 300,
    {
        QrOptions { with_frame: true, qr_size: 300 }
    }
}

/// The text code, as handed back to the caller.
#[derive(Clone, Debug)]
pub struct CodeResponse {
    /// The code as a text string.
    pub code: String,
}

/// The currency used when the caller names none.
pub fn default_currency() -> (r: String)
    ensures
        r@ == "EUR"@,
{
    String::from_str("EUR")
}

/// Whether a frame is drawn when the caller says nothing.
pub fn default_with_frame() -> (r: bool)
    ensures
        r == true,
{
    true
}

/// The pixel size used when the caller names none.
pub fn default_qr_size() -> (r: u32)
    ensures
        r == 300,
{
    300
}

} // verus!
