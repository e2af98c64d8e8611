use pay_by_square_generator::errors::{FieldName, IbanFault, SwiftFault};
use pay_by_square_generator::generator::{base32hex_encode, build_data_structure, format_date};
use pay_by_square_generator::models::default_currency;
use pay_by_square_generator::validation::{validate_iban, validate_swift};
use pay_by_square_generator::{
    generate_code_only, BankAccount, Date, DirectDebit, DirectDebitScheme, DirectDebitType,
    PaymentOption, PaymentRequest, PayBySquareError, Periodicity, StandingOrder,
};

fn base_request() -> PaymentRequest {
    PaymentRequest {
        amount: 10050,
        iban: Some("SK9611000000002918599669".to_string()),
        bank_accounts: None,
        currency: "EUR".to_string(),
        swift: None,
        date: None,
        payment_due_date: None,
        invoice_id: None,
        beneficiary_name: None,
        beneficiary_address_1: None,
        beneficiary_address_2: None,
        variable_symbol: None,
        constant_symbol: None,
        specific_symbol: None,
        originators_reference_information: None,
        note: None,
        payment_options: None,
        standing_order: None,
        direct_debit: None,
    }
}

/// Decodes base-32 extended-hex text back to bytes, dropping the
/// zero-bit padding of the final character.
fn b32_decode(s: &str) -> Vec<u8> {
    let mut bits: u32 = 0;
    let mut n: u32 = 0;
    let mut out = Vec::new();
    for c in s.chars() {
        let v = match c {
            '0'..='9' => c as u32 - 48,
            'A'..='V' => c as u32 - 55,
            _ => panic!("character outside the alphabet"),
        };
        bits = (bits << 5) | v;
        n += 5;
        if n >= 8 {
            n -= 8;
            out.push((bits >> n) as u8);
        }
    }
    out
}

fn decode_fields(code: &str) -> Vec<String> {
    let raw = b32_decode(code);
    assert_eq!(&raw[0..4], &[0u8, 0, 0, 0], "header must be four zero bytes");
    let mut decompressed = Vec::new();
    let mut dec = xz2::read::XzDecoder::new(&raw[4..]);
    std::io::Read::read_to_end(&mut dec, &mut decompressed).unwrap();
    let crc = u32::from_le_bytes([
        decompressed[0],
        decompressed[1],
        decompressed[2],
        decompressed[3],
    ]);
    let data = &decompressed[4..];
    assert_eq!(crc, crc32fast::hash(data), "checksum must match the field string");
    let text = String::from_utf8(data.to_vec()).unwrap();
    text.split('\t').map(|f| f.to_string()).collect()
}

#[test]
fn test_base32hex_encode() {
    let data = b"Hello";
    let encoded = base32hex_encode(data);
    assert!(!encoded.is_empty());
    assert!(encoded
        .chars()
        .all(|c| "0123456789ABCDEFGHIJKLMNOPQRSTUV".contains(c)));
}

#[test]
fn test_base32hex_known_value() {
    assert_eq!(base32hex_encode(b"Hello"), "91IMOR3F");
    assert_eq!(base32hex_encode(b""), "");
    assert_eq!(base32hex_encode(&[0xFF]), "VS");
}

#[test]
fn test_format_date() {
    let date = Date { year: 2024, month: 3, day: 15 };
    assert_eq!(format_date(date), "20240315");
}

#[test]
fn test_code_is_deterministic() {
    let payment = base_request();
    let first = generate_code_only(&payment).unwrap();
    let second = generate_code_only(&payment).unwrap();
    assert_eq!(first, second);
}

#[test]
fn test_code_alphabet() {
    let payment = base_request();
    let code = generate_code_only(&payment).unwrap();
    assert!(!code.is_empty());
    assert!(code
        .chars()
        .all(|c| "0123456789ABCDEFGHIJKLMNOPQRSTUV".contains(c)));
}

#[test]
fn test_round_trip_field_contents() {
    let mut payment = base_request();
    payment.date = Some(Date { year: 2024, month: 3, day: 15 });
    payment.note = Some("Payment for invoice".to_string());
    let code = generate_code_only(&payment).unwrap();
    let fields = decode_fields(&code);
    assert_eq!(fields.len(), 17);
    assert_eq!(fields[0], "1");
    assert_eq!(fields[1], "100.50");
    assert_eq!(fields[2], "EUR");
    assert_eq!(fields[3], "20240315");
    assert_eq!(fields[8], "Payment for invoice");
    assert_eq!(fields[9], "SK9611000000002918599669");
    assert_eq!(fields[16], "");
}

#[test]
fn test_serialized_amount_two_decimals() {
    let payment = base_request();
    let data = build_data_structure(&payment);
    let text = String::from_utf8(data).unwrap();
    let fields: Vec<&str> = text.split('\t').collect();
    assert_eq!(fields[1], "100.50");
}

#[test]
fn test_serialized_full_record() {
    let mut payment = base_request();
    payment.iban = None;
    payment.bank_accounts = Some(vec![
        BankAccount { iban: "SK9611000000002918599669".to_string(), swift: Some("TATRSKBX".to_string()) },
        BankAccount { iban: "CZ6508000000192000145399".to_string(), swift: None },
    ]);
    payment.payment_options = Some(vec![
        PaymentOption::PaymentOrder,
        PaymentOption::StandingOrder,
        PaymentOption::DirectDebit,
    ]);
    payment.standing_order = Some(StandingOrder {
        day: 5,
        month: vec![1, 6, 12],
        periodicity: Periodicity::Monthly,
        last_date: Date { year: 2025, month: 12, day: 31 },
    });
    payment.direct_debit = Some(DirectDebit {
        scheme: DirectDebitScheme::Sepa,
        debit_type: DirectDebitType::Recurrent,
        mandate_id: Some("MND42".to_string()),
        creditor_id: Some("CRD7".to_string()),
        max_amount: None,
        valid_till_date: None,
    });
    let data = build_data_structure(&payment);
    let text = String::from_utf8(data).unwrap();
    let fields: Vec<&str> = text.split('\t').collect();
    assert_eq!(fields.len(), 17);
    assert_eq!(fields[0], "1,2,3");
    assert_eq!(
        fields[9],
        "SK9611000000002918599669|TATRSKBX,CZ6508000000192000145399"
    );
    assert_eq!(fields[15], "5|1,6,12|M|20251231");
    assert_eq!(fields[16], "SEPA|RCUR|MND42|CRD7");
}

#[test]
fn test_missing_account_rejected() {
    let mut payment = base_request();
    payment.iban = None;
    payment.bank_accounts = None;
    assert_eq!(
        generate_code_only(&payment).unwrap_err(),
        PayBySquareError::MissingBankAccount
    );
}

#[test]
fn test_zero_or_negative_amount_rejected() {
    let mut payment = base_request();
    payment.amount = 0;
    assert_eq!(
        generate_code_only(&payment).unwrap_err(),
        PayBySquareError::InvalidAmount
    );
    payment.amount = -500;
    assert_eq!(
        generate_code_only(&payment).unwrap_err(),
        PayBySquareError::InvalidAmount
    );
}

#[test]
fn test_iban_length_bounds() {
    assert_eq!(
        validate_iban("SK12345678901").unwrap_err(),
        PayBySquareError::InvalidIban(IbanFault::Length)
    );
    assert_eq!(
        validate_iban("SK123456789012345678901234567890123").unwrap_err(),
        PayBySquareError::InvalidIban(IbanFault::Length)
    );
    // 24 characters, two letters, two digits, rest alphanumeric.
    assert!(validate_iban("SK9611000000002918599669").is_ok());
}

#[test]
fn test_iban_spaces_stripped() {
    assert!(validate_iban("SK96 1100 0000 0029 1859 9669").is_ok());
}

#[test]
fn test_iban_reasons() {
    assert_eq!(
        validate_iban("1234567890123456").unwrap_err(),
        PayBySquareError::InvalidIban(IbanFault::CountryCode)
    );
    assert_eq!(
        validate_iban("SKAB567890123456").unwrap_err(),
        PayBySquareError::InvalidIban(IbanFault::CheckDigits)
    );
    assert_eq!(
        validate_iban("SK965678901234_6").unwrap_err(),
        PayBySquareError::InvalidIban(IbanFault::Charset)
    );
}

#[test]
fn test_swift_lengths() {
    assert_eq!(
        validate_swift("TATRSKB").unwrap_err(),
        PayBySquareError::InvalidSwift(SwiftFault::Length)
    );
    assert_eq!(
        validate_swift("TATRSKBXX").unwrap_err(),
        PayBySquareError::InvalidSwift(SwiftFault::Length)
    );
    assert!(validate_swift("TATRSKBX").is_ok());
    assert!(validate_swift("TATRSKBXXXX").is_ok());
    assert_eq!(
        validate_swift("TATRSKB!").unwrap_err(),
        PayBySquareError::InvalidSwift(SwiftFault::Charset)
    );
}

#[test]
fn test_field_too_long() {
    let mut payment = base_request();
    payment.note = Some("x".repeat(141));
    assert_eq!(
        generate_code_only(&payment).unwrap_err(),
        PayBySquareError::FieldTooLong { field: FieldName::Note, max: 140, actual: 141 }
    );
    payment.note = Some("x".repeat(140));
    assert!(generate_code_only(&payment).is_ok());
}

#[test]
fn test_validation_order_first_failure_wins() {
    let mut payment = base_request();
    payment.amount = 0;
    payment.iban = None;
    payment.bank_accounts = None;
    // The amount check comes before the account-presence check.
    assert_eq!(
        generate_code_only(&payment).unwrap_err(),
        PayBySquareError::InvalidAmount
    );
}

#[test]
fn test_bank_account_swift_checked() {
    let mut payment = base_request();
    payment.iban = None;
    payment.bank_accounts = Some(vec![BankAccount {
        iban: "SK9611000000002918599669".to_string(),
        swift: Some("BAD".to_string()),
    }]);
    assert_eq!(
        generate_code_only(&payment).unwrap_err(),
        PayBySquareError::InvalidSwift(SwiftFault::Length)
    );
}

#[test]
fn test_default_currency_is_eur() {
    assert_eq!(default_currency(), "EUR");
}

#[test]
fn test_client_fault_classification() {
    assert!(PayBySquareError::InvalidAmount.client_fault());
    assert!(PayBySquareError::MissingBankAccount.client_fault());
    assert!(!PayBySquareError::CompressionError.client_fault());
    assert!(!PayBySquareError::QrError.client_fault());
}
