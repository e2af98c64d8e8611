use pay_by_square_generator::errors::ImageFault;
use pay_by_square_generator::models::{default_qr_size, default_with_frame};
use pay_by_square_generator::qr::{center_offset, frame_inner_size};
use pay_by_square_generator::{
    add_frame, generate_default_frame, generate_pay_by_square_qr, generate_qr_image, Date,
    PaymentRequest, PayBySquareError, QrOptions,
};

fn base_request() -> PaymentRequest {
    PaymentRequest {
        amount: 10050,
        iban: Some("SK9611000000002918599669".to_string()),
        bank_accounts: None,
        currency: "EUR".to_string(),
        swift: None,
        date: Some(Date { year: 2024, month: 3, day: 15 }),
        payment_due_date: None,
        invoice_id: None,
        beneficiary_name: None,
        beneficiary_address_1: None,
        beneficiary_address_2: None,
        variable_symbol: None,
        constant_symbol: None,
        specific_symbol: None,
        originators_reference_information: None,
        note: None,
        payment_options: None,
        standing_order: None,
        direct_debit: None,
    }
}

fn png_dimensions(data: &[u8]) -> (u32, u32) {
    let img = image::load_from_memory(data).unwrap();
    (img.width(), img.height())
}

#[test]
fn test_generate_qr_image() {
    let result = generate_qr_image("TEST", 300);
    assert!(result.is_ok());
    let png_data = result.unwrap();
    assert!(!png_data.is_empty());
}

#[test]
fn test_qr_image_dimensions() {
    let png_data = generate_qr_image("TEST", 300).unwrap();
    assert_eq!(png_dimensions(&png_data), (300, 300));
}

#[test]
fn test_generate_default_frame() {
    let frame = generate_default_frame(400).unwrap();
    assert!(!frame.is_empty());
}

#[test]
fn test_default_frame_pixels() {
    let frame = generate_default_frame(40).unwrap();
    let img = image::load_from_memory(&frame).unwrap().to_rgba8();
    assert_eq!(img.dimensions(), (40, 40));
    // A border pixel is blue, an inner pixel white.
    assert_eq!(img.get_pixel(0, 0).0, [0, 102, 204, 255]);
    assert_eq!(img.get_pixel(20, 20).0, [255, 255, 255, 255]);
    assert_eq!(img.get_pixel(39, 39).0, [0, 102, 204, 255]);
    assert_eq!(img.get_pixel(10, 10).0, [255, 255, 255, 255]);
    assert_eq!(img.get_pixel(9, 20).0, [0, 102, 204, 255]);
}

#[test]
fn test_frame_geometry() {
    assert_eq!(frame_inner_size(500, 500), 425);
    assert_eq!(center_offset(500, 425), 37);
    assert_eq!(frame_inner_size(600, 500), 425);
    assert_eq!(frame_inner_size(500, 600), 425);
}

#[test]
fn test_add_frame_composites_centered() {
    let qr = generate_qr_image("TEST", 300).unwrap();
    let frame = generate_default_frame(500).unwrap();
    let result = add_frame(qr.clone(), Some(&frame)).unwrap();
    assert_eq!(png_dimensions(&result), (500, 500));
    let img = image::load_from_memory(&result).unwrap().to_rgba8();
    // The overlaid QR starts at offset (37, 37): its quiet zone is
    // white, while the untouched frame corner is still blue.
    assert_eq!(img.get_pixel(0, 0).0, [0, 102, 204, 255]);
    assert_eq!(img.get_pixel(40, 40).0, [255, 255, 255, 255]);
}

#[test]
fn test_add_frame_passthrough_without_frame() {
    let qr = generate_qr_image("TEST", 300).unwrap();
    let result = add_frame(qr.clone(), None).unwrap();
    assert_eq!(result, qr);
}

#[test]
fn test_add_frame_rejects_bad_bytes() {
    let frame = generate_default_frame(500).unwrap();
    assert_eq!(
        add_frame(vec![1, 2, 3], Some(&frame)).unwrap_err(),
        PayBySquareError::ImageError(ImageFault::SourceDecode)
    );
    let qr = generate_qr_image("TEST", 300).unwrap();
    assert_eq!(
        add_frame(qr, Some(&[9, 9, 9])).unwrap_err(),
        PayBySquareError::ImageError(ImageFault::FrameDecode)
    );
}

#[test]
fn test_qr_error_on_oversized_payload() {
    let huge = "A".repeat(5000);
    assert_eq!(
        generate_qr_image(&huge, 300).unwrap_err(),
        PayBySquareError::QrError
    );
}

#[test]
fn test_full_pipeline_without_frame() {
    let payment = base_request();
    let opts = QrOptions { with_frame: false, qr_size: 300 };
    let png_data = generate_pay_by_square_qr(&payment, opts, None).unwrap();
    assert_eq!(png_dimensions(&png_data), (300, 300));
}

#[test]
fn test_full_pipeline_with_frame() {
    let payment = base_request();
    let frame = generate_default_frame(500).unwrap();
    let opts = QrOptions { with_frame: true, qr_size: 300 };
    let png_data = generate_pay_by_square_qr(&payment, opts, Some(&frame)).unwrap();
    assert_eq!(png_dimensions(&png_data), (500, 500));
}

#[test]
fn test_pipeline_with_frame_flag_but_no_frame_bytes() {
    let payment = base_request();
    let opts = QrOptions { with_frame: true, qr_size: 300 };
    let png_data = generate_pay_by_square_qr(&payment, opts, None).unwrap();
    assert_eq!(png_dimensions(&png_data), (300, 300));
}

#[test]
fn test_add_frame_small_frame_succeeds() {
    let qr = generate_qr_image("TEST", 300).unwrap();
    let frame = generate_default_frame(30).unwrap();
    let result = add_frame(qr, Some(&frame)).unwrap();
    // inner = floor(30 * 0.85) = 25, centered at offset 2.
    assert_eq!(frame_inner_size(30, 30), 25);
    assert_eq!(center_offset(30, 25), 2);
    assert_eq!(png_dimensions(&result), (30, 30));
}

#[test]
fn test_default_frame_single_pixel() {
    let frame = generate_default_frame(1).unwrap();
    let img = image::load_from_memory(&frame).unwrap().to_rgba8();
    assert_eq!(img.dimensions(), (1, 1));
    assert_eq!(img.get_pixel(0, 0).0, [0, 102, 204, 255]);
}

#[test]
fn test_qr_options_defaults() {
    let opts = QrOptions::default();
    assert!(opts.with_frame);
    assert_eq!(opts.qr_size, 300);
    assert!(default_with_frame());
    assert_eq!(default_qr_size(), 300);
}
