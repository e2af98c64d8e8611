//! Validation of payment records.
//!
//! Each rule is stated as a spec function over the UTF-8 bytes of the
//! field, and the validator returns exactly the first failure, in the
//! fixed order: amount, account presence, IBAN, bank accounts, SWIFT,
//! bounded-length text fields.

use vstd::prelude::*;
use vstd::utf8::encode_utf8;

use crate::errors::{FieldName, IbanFault, PayBySquareError, SwiftFault};
use crate::models::{BankAccount, PaymentRequest};

verus! {

/// An ASCII letter.
pub open spec fn is_letter(b: u8) -> bool {
    (65 <= b <= 90) || (97 <= b <= 122)
}

/// An ASCII digit.
pub open spec fn is_digit(b: u8) -> bool {
    48 <= b <= 57
}

/// An ASCII letter or digit.
pub open spec fn is_alnum(b: u8) -> bool {
    is_letter(b) || is_digit(b)
}

/// The bytes with every ASCII space removed.
pub open spec fn strip_spaces(s: Seq<u8>) -> Seq<u8>
    decreases s.len(),
{
    if s.len() == 0 {
        Seq::empty()
    } else if s[0] == 32 {
        strip_spaces(s.drop_first())
    } else {
        seq![s[0]] + strip_spaces(s.drop_first())
    }
}

/// The verdict on an IBAN, over its space-stripped bytes: the length
/// must be 15 to 34, the first two characters letters, the next two
/// digits, and the rest alphanumeric; the first failure wins.
pub open spec fn iban_check(t: Seq<u8>) -> Result<(), PayBySquareError> {
    if !(15 <= t.len() <= 34) {
        Err(PayBySquareError::InvalidIban(IbanFault::Length))
    } else if !(is_letter(t[0]) && is_letter(t[1])) {
        Err(PayBySquareError::InvalidIban(IbanFault::CountryCode))
    } else if !(is_digit(t[2]) && is_digit(t[3])) {
        Err(PayBySquareError::InvalidIban(IbanFault::CheckDigits))
    } else if !(forall|i: int| 0 <= i < t.len() ==> is_alnum(#[trigger] t[i])) {
        Err(PayBySquareError::InvalidIban(IbanFault::Charset))
    } else {
        Ok(())
    }
}

/// The verdict on a SWIFT/BIC code, over its space-stripped bytes: the
/// length must be exactly 8 or 11 and every character alphanumeric.
pub open spec fn swift_check(t: Seq<u8>) -> Result<(), PayBySquareError> {
    if t.len() != 8 && t.len() != 11 {
        Err(PayBySquareError::InvalidSwift(SwiftFault::Length))
    } else if !(forall|i: int| 0 <= i < t.len() ==> is_alnum(#[trigger] t[i])) {
        Err(PayBySquareError::InvalidSwift(SwiftFault::Charset))
    } else {
        Ok(())
    }
}

/// The verdict on one bank account: its IBAN, then its SWIFT if any.
pub open spec fn account_check(a: BankAccount) -> Result<(), PayBySquareError> {
    let ic = iban_check(strip_spaces(encode_utf8(a.iban@)));
    if ic is Err {
        ic
    } else {
        match a.swift {
            Some(sw) => swift_check(strip_spaces(encode_utf8(sw@))),
            None => Ok(()),
        }
    }
}

/// The verdict on a list of bank accounts: the first failure wins.
pub open spec fn accounts_check(s: Seq<BankAccount>) -> Result<(), PayBySquareError>
    decreases s.len(),
{
    if s.len() == 0 {
        Ok(())
    } else {
        let c = account_check(s[0]);
        if c is Err {
            c
        } else {
            accounts_check(s.drop_first())
        }
    }
}

/// The verdict on one bounded-length text field, over its UTF-8 bytes.
pub open spec fn length_check(field: FieldName, t: Seq<u8>, max: usize) -> Result<
    (),
    PayBySquareError,
> {
    if t.len() <= max {
        Ok(())
    } else {
        Err(PayBySquareError::FieldTooLong { field, max, actual: t.len() as usize })
    }
}

/// The verdict on one optional bounded-length field.
pub open spec fn opt_length_check(field: FieldName, v: Option<String>, max: usize) -> Result<
    (),
    PayBySquareError,
> {
    match v {
        Some(s) => length_check(field, encode_utf8(s@), max),
        None => Ok(()),
    }
}

/// The verdict on all bounded-length text fields, in order.
pub open spec fn lengths_check(p: PaymentRequest) -> Result<(), PayBySquareError> {
    let c1 = opt_length_check(FieldName::InvoiceId, p.invoice_id, 10);
    let c2 = opt_length_check(FieldName::BeneficiaryName, p.beneficiary_name, 70);
    let c3 = opt_length_check(FieldName::BeneficiaryAddress1, p.beneficiary_address_1, 70);
    let c4 = opt_length_check(FieldName::BeneficiaryAddress2, p.beneficiary_address_2, 70);
    let c5 = opt_length_check(FieldName::VariableSymbol, p.variable_symbol, 10);
    let c6 = opt_length_check(FieldName::ConstantSymbol, p.constant_symbol, 4);
    let c7 = opt_length_check(FieldName::SpecificSymbol, p.specific_symbol, 10);
    let c8 = opt_length_check(
        FieldName::OriginatorsReferenceInformation,
        p.originators_reference_information,
        35,
    );
    let c9 = opt_length_check(FieldName::Note, p.note, 140);
    if c1 is Err {
        c1
    } else if c2 is Err {
        c2
    } else if c3 is Err {
        c3
    } else if c4 is Err {
        c4
    } else if c5 is Err {
        c5
    } else if c6 is Err {
        c6
    } else if c7 is Err {
        c7
    } else if c8 is Err {
        c8
    } else {
        c9
    }
}

/// The full verdict on a payment record: the first failure in the fixed
/// order, or success.
pub open spec fn validation_check(p: PaymentRequest) -> Result<(), PayBySquareError> {
    if p.amount <= 0 {
        Err(PayBySquareError::InvalidAmount)
    } else if p.iban is None && p.bank_accounts is None {
        Err(PayBySquareError::MissingBankAccount)
    } else {
        let ci = match p.iban {
            Some(s) => iban_check(strip_spaces(encode_utf8(s@))),
            None => Ok(()),
        };
        if ci is Err {
            ci
        } else {
            let ca = match p.bank_accounts {
                Some(accs) => accounts_check(accs@),
                None => Ok(()),
            };
            if ca is Err {
                ca
            } else {
                let cs = match p.swift {
                    Some(sw) => swift_check(strip_spaces(encode_utf8(sw@))),
                    None => Ok(()),
                };
                if cs is Err {
                    cs
                } else {
                    lengths_check(p)
                }
            }
        }
    }
}

/// A record the encode pipeline accepts.
pub open spec fn is_valid(p: PaymentRequest) -> bool {
    validation_check(p) is Ok
}

/// Removes every ASCII space from the bytes.
fn strip_spaces_bytes(s: &[u8]) -> (t: Vec<u8>)
    ensures
        t@ == strip_spaces(s@),
{
    let mut t: Vec<u8> = Vec::new();
    let n = s.len();
    assert(s@.skip(0) == s@);
    for i in 0..n
        invariant
            n == s@.len(),
            strip_spaces(s@) == t@ + strip_spaces(s@.skip(i as int)),
    {
        proof {
            assert(s@.skip(i as int).drop_first() == s@.skip(i + 1));
            assert(s@.skip(i as int)[0] == s@[i as int]);
        }
        if s[i] != 32 {
            t.push(s[i]);
        }
    }
    proof {
        assert(s@.skip(n as int) =~= Seq::<u8>::empty());
        assert(t@ =~= t@ + strip_spaces(s@.skip(n as int)));
    }
    t
}

/// Whether every byte is an ASCII letter or digit.
fn all_alnum(t: &Vec<u8>) -> (r: bool)
    ensures
        r == forall|i: int| 0 <= i < t@.len() ==> is_alnum(#[trigger] t@[i]),
{
    let n = t.len();
    for i in 0..n
        invariant
            n == t@.len(),
            forall|k: int| 0 <= k < i ==> is_alnum(#[trigger] t@[k]),
    {
        let b = t[i];
        if !((65 <= b && b <= 90) || (97 <= b && b <= 122) || (48 <= b && b <= 57)) {
            return false;
        }
    }
    true
}

/// Checks an IBAN: 15 to 34 characters after stripping spaces, a
/// two-letter country code, two check digits, the rest alphanumeric.
pub fn validate_iban(iban: &str) -> (r: Result<(), PayBySquareError>)
    ensures
        r == iban_check(strip_spaces(encode_utf8(iban@))),
{
    let t = strip_spaces_bytes(iban.as_bytes());
    if t.len() < 15 || t.len() > 34 {
        return Err(PayBySquareError::InvalidIban(IbanFault::Length));
    }
    let l0 = t[0];
    let l1 = t[1];
    if !((65 <= l0 && l0 <= 90) || (97 <= l0 && l0 <= 122)) || !((65 <= l1 && l1 <= 90) || (97
        <= l1 && l1 <= 122)) {
        return Err(PayBySquareError::InvalidIban(IbanFault::CountryCode));
    }
    let d0 = t[2];
    let d1 = t[3];
    if !(48 <= d0 && d0 <= 57) || !(48 <= d1 && d1 <= 57) {
        return Err(PayBySquareError::InvalidIban(IbanFault::CheckDigits));
    }
    if !all_alnum(&t) {
        return Err(PayBySquareError::InvalidIban(IbanFault::Charset));
    }
    Ok(())
}

/// Checks a SWIFT/BIC code: exactly 8 or 11 alphanumeric characters
/// after stripping spaces.
pub fn validate_swift(swift: &str) -> (r: Result<(), PayBySquareError>)
    ensures
        r == swift_check(strip_spaces(encode_utf8(swift@))),
{
    let t = strip_spaces_bytes(swift.as_bytes());
    if t.len() != 8 && t.len() != 11 {
        return Err(PayBySquareError::InvalidSwift(SwiftFault::Length));
    }
    if !all_alnum(&t) {
        return Err(PayBySquareError::InvalidSwift(SwiftFault::Charset));
    }
    Ok(())
}

/// Checks one bounded-length text field against its maximum byte length.
pub fn validate_length(field: FieldName, value: &str, max: usize) -> (r: Result<
    (),
    PayBySquareError,
>)
    ensures
        r == length_check(field, encode_utf8(value@), max),
{
    let b = value.as_bytes();
    if b.len() > max {
        return Err(PayBySquareError::FieldTooLong { field, max, actual: b.len() });
    }
    Ok(())
}

/// Checks one optional bounded-length text field.
fn validate_opt_length(field: FieldName, value: &Option<String>, max: usize) -> (r: Result<
    (),
    PayBySquareError,
>)
    ensures
        r == opt_length_check(field, *value, max),
{
    match value {
        Some(s) => validate_length(field, s.as_str(), max),
        None => Ok(()),
    }
}

/// Validates a payment record and returns the first failure, in the
/// fixed order: amount, account presence, IBAN, each bank account,
/// SWIFT, then the bounded-length text fields.
pub fn validate_payment_request(payment: &PaymentRequest) -> (r: Result<(), PayBySquareError>)
    ensures
        r == validation_check(*payment),
        r is Ok <==> is_valid(*payment),
{
    if payment.amount <= 0 {
        return Err(PayBySquareError::InvalidAmount);
    }
    if payment.iban.is_none() && payment.bank_accounts.is_none() {
        return Err(PayBySquareError::MissingBankAccount);
    }
    if let Some(iban) = &payment.iban {
        let c = validate_iban(iban.as_str());
        if c.is_err() {
            return c;
        }
    }
    if let Some(accounts) = &payment.bank_accounts {
        let n = accounts.len();
        assert(accounts@.skip(0) == accounts@);
        for i in 0..n
            invariant
                n == accounts@.len(),
                payment.amount > 0,
                payment.bank_accounts matches Some(a) && a@ == accounts@,
                payment.iban matches Some(s) ==> iban_check(strip_spaces(encode_utf8(s@))) is Ok,
                accounts_check(accounts@) == accounts_check(accounts@.skip(i as int)),
        {
            proof {
                assert(accounts@.skip(i as int).drop_first() == accounts@.skip(i + 1));
                assert(accounts@.skip(i as int)[0] == accounts@[i as int]);
            }
            let account = &accounts[i];
            let ci = validate_iban(account.iban.as_str());
            if ci.is_err() {
                proof {
                    assert(account_check(accounts@[i as int]) == ci);
                    assert(accounts_check(accounts@.skip(i as int)) == ci);
                    assert(accounts_check(accounts@) == ci);
                }
                return ci;
            }
            if let Some(swift) = &account.swift {
                let cs = validate_swift(swift.as_str());
                if cs.is_err() {
                    proof {
                        assert(account_check(accounts@[i as int]) == cs);
                        assert(accounts_check(accounts@.skip(i as int)) == cs);
                    }
                    return cs;
                }
            }
        }
        proof {
            assert(accounts@.skip(n as int) =~= Seq::<BankAccount>::empty());
        }
    }
    if let Some(swift) = &payment.swift {
        let c = validate_swift(swift.as_str());
        if c.is_err() {
            return c;
        }
    }
    let c = validate_opt_length(FieldName::InvoiceId, &payment.invoice_id, 10);
    if c.is_err() {
        return c;
    }
    let c = validate_opt_length(FieldName::BeneficiaryName, &payment.beneficiary_name, 70);
    if c.is_err() {
        return c;
    }
    let c = validate_opt_length(FieldName::BeneficiaryAddress1, &payment.beneficiary_address_1, 70);
    if c.is_err() {
        return c;
    }
    let c = validate_opt_length(FieldName::BeneficiaryAddress2, &payment.beneficiary_address_2, 70);
    if c.is_err() {
        return c;
    }
    let c = validate_opt_length(FieldName::VariableSymbol, &payment.variable_symbol, 10);
    if c.is_err() {
        return c;
    }
    let c = validate_opt_length(FieldName::ConstantSymbol, &payment.constant_symbol, 4);
    if c.is_err() {
        return c;
    }
    let c = validate_opt_length(FieldName::SpecificSymbol, &payment.specific_symbol, 10);
    if c.is_err() {
        return c;
    }
    let c = validate_opt_length(
        FieldName::OriginatorsReferenceInformation,
        &payment.originators_reference_information,
        35,
    );
    if c.is_err() {
        return c;
    }
    let c = validate_opt_length(FieldName::Note, &payment.note, 140);
    if c.is_err() {
        return c;
    }
    Ok(())
}

} // verus!
