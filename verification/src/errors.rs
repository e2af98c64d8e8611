//! Error kinds of the encode and rendering pipeline.
//!
//! Every failure is plain data: the reason an IBAN or SWIFT code was
//! refused, which field overran its maximum, or which stage of the
//! image pipeline gave up.

use vstd::prelude::*;

verus! {

/// Why an IBAN was refused.
#[derive(Clone, Copy, Debug, PartialEq, Eq, Structural)]
pub enum IbanFault {
    /// Not between 15 and 34 characters after stripping spaces.
    Length,
    /// Does not start with a two-letter country code.
    CountryCode,
    /// Characters three and four are not digits.
    CheckDigits,
    /// Holds a character that is not alphanumeric.
    Charset,
}

/// Why a SWIFT/BIC code was refused.
#[derive(Clone, Copy, Debug, PartialEq, Eq, Structural)]
pub enum SwiftFault {
    /// Not exactly 8 or 11 characters after stripping spaces.
    Length,
    /// Holds a character that is not alphanumeric.
    Charset,
}

/// The bounded-length text fields of a payment record.
#[derive(Clone, Copy, Debug, PartialEq, Eq, Structural)]
pub enum FieldName {
    InvoiceId,
    BeneficiaryName,
    BeneficiaryAddress1,
    BeneficiaryAddress2,
    VariableSymbol,
    ConstantSymbol,
    SpecificSymbol,
    OriginatorsReferenceInformation,
    Note,
}

/// Which stage of the image pipeline failed.
#[derive(Clone, Copy, Debug, PartialEq, Eq, Structural)]
pub enum ImageFault {
    /// The QR image bytes could not be decoded.
    SourceDecode,
    /// The frame image bytes could not be decoded.
    FrameDecode,
    /// An image could not be serialized as PNG.
    Encode,
}

/// Everything that can go wrong while encoding a payment record or
/// rendering its code.
#[derive(Clone, Copy, Debug, PartialEq, Eq, Structural)]
pub enum PayBySquareError {
    /// The IBAN is malformed.
    InvalidIban(IbanFault),
    /// The SWIFT/BIC code is malformed.
    InvalidSwift(SwiftFault),
    /// Neither `iban` nor `bank_accounts` was provided.
    MissingBankAccount,
    /// The amount is zero or negative.
    InvalidAmount,
    /// A text field overran its maximum byte length.
    FieldTooLong { field: FieldName, max: usize, actual: usize },
    /// The compressor reported a failure.
    CompressionError,
    /// The code could not be represented as a QR symbol.
    QrError,
    /// An image could not be decoded or re-encoded.
    ImageError(ImageFault),
}

impl PayBySquareError {
    /// Validation and format errors are caused by the caller's input;
    /// everything else is an internal failure.
    pub open spec fn is_client_fault(self) -> bool {
        match self {
            PayBySquareError::InvalidIban(_) => true,
            PayBySquareError::InvalidSwift(_) => true,
            PayBySquareError::MissingBankAccount => true,
            PayBySquareError::InvalidAmount => true,
            PayBySquareError::FieldTooLong { .. } => true,
            PayBySquareError::CompressionError => false,
            PayBySquareError::QrError => false,
            PayBySquareError::ImageError(_) => false,
        }
    }

    /// Whether the caller must correct the request, as executable code.
    pub fn client_fault(&self) -> (r: bool)
        ensures
            r == self.is_client_fault(),
    {
        match self {
            PayBySquareError::InvalidIban(_) => true,
            PayBySquareError::InvalidSwift(_) => true,
            PayBySquareError::MissingBankAccount => true,
            PayBySquareError::InvalidAmount => true,
            PayBySquareError::FieldTooLong { .. } => true,
            _ => false,
        }
    }
}

} // verus!
