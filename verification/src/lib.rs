//! Encoder for a national QR-payment standard.
//!
//! A structured payment instruction is validated, serialized into a
//! tab-separated field list, checksummed, compressed, tagged with a
//! format header and encoded as base-32 extended-hex text; that text
//! can then be rendered as a QR symbol and composited onto a frame.

use vstd::prelude::*;

pub mod errors;
pub mod generator;
pub mod models;
pub mod qr;
pub mod validation;

pub use errors::PayBySquareError;
pub use generator::generate_pay_by_square_code;
pub use models::{
    BankAccount, CodeResponse, Date, DirectDebit, DirectDebitScheme, DirectDebitType,
    PaymentOption, PaymentRequest, Periodicity, QrOptions, StandingOrder,
};
pub use qr::{add_frame, generate_default_frame, generate_qr_image};
pub use validation::validate_payment_request;

use crate::generator::code_chars;
use crate::qr::{frame_compositable, png_dims_of, qr_encodable};
use crate::validation::{is_valid, validation_check};
use vstd::utf8::encode_utf8;

verus! {

/// Generates only the text code: the record is validated, then run
/// through the encode pipeline.
pub fn generate_code_only(payment: &PaymentRequest) -> (r: Result<String, PayBySquareError>)
    requires
        payment.dates_wf(),
    ensures
        validation_check(*payment) matches Err(e) ==> (r matches Err(e2) && e2 == e),
        is_valid(*payment) ==> (r matches Ok(c) ==> c@ == code_chars(*payment)),
        is_valid(*payment) ==> (r matches Err(e) ==> e == PayBySquareError::CompressionError),
{
    match validate_payment_request(payment) {
        Err(e) => Err(e),
        Ok(()) => generator::generate_pay_by_square_code(payment),
    }
}

/// Generates the complete QR image for a payment record: validate,
/// encode the text code, render it as a PNG of `opts.qr_size` pixels,
/// and overlay it on the frame when one is requested and supplied.
pub fn generate_pay_by_square_qr(
    payment: &PaymentRequest,
    opts: QrOptions,
    frame_data: Option<&[u8]>,
) -> (r: Result<Vec<u8>, PayBySquareError>)
    requires
        payment.dates_wf(),
        16 * (opts.qr_size as int) * (opts.qr_size as int) <= usize::MAX as int,
    ensures
        validation_check(*payment) matches Err(e) ==> (r matches Err(e2) && e2 == e),
        r matches Ok(v) ==> is_valid(*payment) && v@.len() > 0,
        (!opts.with_frame || frame_data is None) ==> (r matches Ok(v) ==> png_dims_of(v@) == (
        opts.qr_size as nat,
        opts.qr_size as nat,
        )),
        opts.with_frame ==> (frame_data matches Some(f) ==> (r matches Ok(v) ==> png_dims_of(v@)
            == png_dims_of(f@))),
        is_valid(*payment) ==> (r matches Err(e) ==> !e.is_client_fault()),
        (is_valid(*payment) && (!opts.with_frame || frame_data is None) && qr_encodable(
            encode_utf8(code_chars(*payment)),
        ) && 1 <= opts.qr_size <= 0x2000_0000) ==> (r is Ok || r == Err::<
            Vec<u8>,
            PayBySquareError,
        >(PayBySquareError::CompressionError)),
        opts.with_frame ==> (frame_data matches Some(f) ==> ((is_valid(*payment) && qr_encodable(
            encode_utf8(code_chars(*payment)),
        ) && 1 <= opts.qr_size <= 0x2000_0000 && 4 * (opts.qr_size as int) * (
        opts.qr_size as int) <= 0x1000_0000 && frame_compositable(f@)) ==> (r is Ok || r == Err::<
            Vec<u8>,
            PayBySquareError,
        >(PayBySquareError::CompressionError)))),
{
    match validate_payment_request(payment) {
        Err(e) => {
            return Err(e);
        },
        Ok(()) => {},
    }
    let code = match generator::generate_pay_by_square_code(payment) {
        Ok(c) => c,
        Err(e) => {
            return Err(e);
        },
    };
    let qr_data = match qr::generate_qr_image(code.as_str(), opts.qr_size) {
        Ok(v) => v,
        Err(e) => {
            return Err(e);
        },
    };
    if opts.with_frame {
        qr::add_frame(qr_data, frame_data)
    } else {
        Ok(qr_data)
    }
}

} // verus!
