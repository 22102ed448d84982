use pixify::api::image::{parse_number, read_cells_in_width, read_colors, FieldKind, PayloadReader};
use pixify::error::{CanvasError, InvalidPayloadError, UploadError};
use pixify::http::multipart::MultipartBuilder;
use pixify::text::{decimal_bytes, digit_str, digits_of};

#[test]
fn a_body_holds_files_then_texts() {
    let pic = vec![1u8, 2, 3, 255];
    let mut multipart = MultipartBuilder::new();
    multipart.add_text("n_colors", "5");
    multipart.add_file("file", "pic.png", &pic);
    multipart.add_text("n_cells_in_width", "10");
    let ((name, value), payload) = multipart.build();

    let mut expected: Vec<u8> = Vec::new();
    expected.extend(
        "--12345\r\nContent-Disposition: form-data; name=\"file\"; filename=\"pic.png\"\r\n\
         Content-Type: image/png\r\nContent-Length: 4\r\n\r\n"
            .as_bytes(),
    );
    expected.extend(&pic);
    expected.extend("\r\n".as_bytes());
    expected.extend(
        "--12345\r\nContent-Disposition: form-data; name=\"n_colors\"\r\n\
         Content-Type: text/plain\r\nContent-Length: 1\r\n\r\n5\r\n"
            .as_bytes(),
    );
    expected.extend(
        "--12345\r\nContent-Disposition: form-data; name=\"n_cells_in_width\"\r\n\
         Content-Type: text/plain\r\nContent-Length: 2\r\n\r\n10\r\n"
            .as_bytes(),
    );
    expected.extend("--12345--\r\n".as_bytes());

    assert_eq!(payload, expected);
    assert_eq!(name, "content-type");
    assert_eq!(value, "multipart/form-data; boundary=12345");
}

#[test]
fn an_empty_body_is_the_closing_boundary() {
    let ((_, _), payload) = MultipartBuilder::new().build();
    assert_eq!(payload, "--12345--\r\n".as_bytes());
}

#[test]
fn a_length_counts_bytes() {
    let mut multipart = MultipartBuilder::new();
    multipart.add_text("name", "é");
    let (_, payload) = multipart.build();
    let text = String::from_utf8(payload).unwrap();
    assert!(text.contains("Content-Length: 2\r\n\r\né\r\n"));
}

#[test]
fn numbers_are_written_in_decimal() {
    assert_eq!(decimal_bytes(0), b"0");
    assert_eq!(decimal_bytes(7), b"7");
    assert_eq!(decimal_bytes(10), b"10");
    assert_eq!(decimal_bytes(12345), b"12345");
    assert_eq!(decimal_bytes(usize::MAX), usize::MAX.to_string().as_bytes());
    assert_eq!(digits_of(907), vec![9, 0, 7]);
    assert_eq!(digit_str(0), "0");
    assert_eq!(digit_str(9), "9");
}

#[test]
fn a_number_is_digits_with_or_without_a_plus() {
    let parse = |text: &str| parse_number(&text.as_bytes().to_vec());
    assert_eq!(parse("0"), Some(0));
    assert_eq!(parse("20"), Some(20));
    assert_eq!(parse("255"), Some(255));
    assert_eq!(parse("+7"), Some(7));
    assert_eq!(parse("007"), Some(7));
    assert_eq!(parse("0000000255"), Some(255));
    assert_eq!(parse("256"), None);
    assert_eq!(parse("300"), None);
    assert_eq!(parse("99999999999999999999999"), None);
    assert_eq!(parse(""), None);
    assert_eq!(parse("+"), None);
    assert_eq!(parse("-1"), None);
    assert_eq!(parse("-0"), None);
    assert_eq!(parse("++1"), None);
    assert_eq!(parse("2x"), None);
    assert_eq!(parse("999x"), None);
    assert_eq!(parse(" 2"), None);
    assert_eq!(parse("2 "), None);
    assert_eq!(parse("1.5"), None);
    for n in 0..=255u8 {
        assert_eq!(parse(&n.to_string()), Some(n));
        assert_eq!(parse(&n.to_string()), n.to_string().parse::<u8>().ok());
    }
}

#[test]
fn colors_out_of_range_are_refused() {
    for text in ["1", "2", "0", "201", "255", "300", "", "many"] {
        let err = read_colors(&text.as_bytes().to_vec()).unwrap_err();
        assert_eq!(err.to_string(), "Invalid value in 'nColors'. Value should be within 2 and 200");
        assert_eq!(err.status(), 400);
    }
    assert_eq!(read_colors(&b"3".to_vec()).unwrap(), 3);
    assert_eq!(read_colors(&b"200".to_vec()).unwrap(), 200);
    assert_eq!(read_colors(&b"+20".to_vec()).unwrap(), 20);
}

#[test]
fn cells_that_are_no_number_are_missing() {
    for text in ["", "256", "ten", "-3"] {
        let err = read_cells_in_width(&text.as_bytes().to_vec()).unwrap_err();
        assert_eq!(err.to_string(), "Missing value. Expected 'nCellsInWidth' to be provided");
    }
    assert_eq!(read_cells_in_width(&b"0".to_vec()).unwrap(), 0);
    assert_eq!(read_cells_in_width(&b"32".to_vec()).unwrap(), 32);
}

#[test]
fn bytes_that_are_no_text_are_a_conversion_error() {
    let bytes = vec![0x32, 0xff, 0x30];
    let expected = String::from_utf8(bytes.clone()).unwrap_err().to_string();
    let err = read_colors(&bytes).unwrap_err();
    assert!(matches!(err, InvalidPayloadError::Conversion(_)));
    assert_eq!(err.to_string(), expected);
    let err = read_cells_in_width(&bytes).unwrap_err();
    assert!(matches!(err, InvalidPayloadError::Conversion(_)));
    assert_eq!(err.to_string(), expected);
}

#[test]
fn a_form_is_read_field_by_field() {
    let mut reader = PayloadReader::new();
    assert_eq!(reader.begin("nColors").unwrap(), FieldKind::Colors);
    reader.colors(&b"5".to_vec()).unwrap();
    assert_eq!(reader.begin("file").unwrap(), FieldKind::File);
    reader.file(Some("pic.png"), vec![1, 2, 3]);
    assert_eq!(reader.begin("comment").unwrap(), FieldKind::Other);
    assert_eq!(reader.begin("nCellsInWidth").unwrap(), FieldKind::CellsInWidth);
    reader.cells_in_width(&b"10".to_vec()).unwrap();
    assert_eq!(reader.begin("n_colors").unwrap(), FieldKind::Other);
    let data = reader.finish().unwrap();
    assert_eq!(data.file.buffer, vec![1, 2, 3]);
    assert_eq!(data.file.filename, "pic.png");
    assert_eq!(data.n_cells_in_width, Some(10));
    assert_eq!(data.n_colors, Some(5));
}

#[test]
fn a_form_has_its_defaults() {
    let mut reader = PayloadReader::new();
    assert_eq!(reader.begin("file").unwrap(), FieldKind::File);
    reader.file(None, vec![9]);
    let data = reader.finish().unwrap();
    assert_eq!(data.file.filename, "filename");
    assert_eq!(data.n_cells_in_width, None);
    assert_eq!(data.n_colors, None);
}

#[test]
fn a_field_comes_once() {
    let mut reader = PayloadReader::new();
    reader.begin("file").unwrap();
    reader.begin("other").unwrap();
    let err = reader.begin("file").unwrap_err();
    assert_eq!(err.to_string(), "Invalid value in 'file'. Field should contain 1 item");
    let err = reader.begin("other").unwrap_err();
    assert_eq!(err.to_string(), "Invalid value in 'other'. Field should contain 1 item");
    assert_eq!(reader.names.len(), 2);
}

#[test]
fn a_form_without_an_image_is_refused() {
    let mut reader = PayloadReader::new();
    assert_eq!(reader.begin("wrong_field").unwrap(), FieldKind::Other);
    let err = reader.finish().unwrap_err();
    assert_eq!(err.to_string(), "Missing value. Expected 'file' to be provided");
    assert_eq!(err.status(), 400);

    let mut reader = PayloadReader::new();
    reader.begin("file").unwrap();
    reader.file(Some("pic.png"), Vec::new());
    assert!(reader.finish().is_err());
}

#[test]
fn a_refused_number_leaves_the_form_as_it_was() {
    let mut reader = PayloadReader::new();
    reader.begin("nColors").unwrap();
    reader.colors(&b"20".to_vec()).unwrap();
    assert!(reader.colors(&b"300".to_vec()).is_err());
    assert!(reader.cells_in_width(&b"x".to_vec()).is_err());
    assert_eq!(reader.data.n_colors, Some(20));
    assert_eq!(reader.data.n_cells_in_width, None);
}

#[test]
fn a_bad_form_is_a_bad_request() {
    let form = UploadError::InvalidPayload(InvalidPayloadError::MissingValue("file".into()));
    assert_eq!(form.status(), 400);
    assert_eq!(form.to_string(), "Missing value. Expected 'file' to be provided");
    let canvas = UploadError::Canvas(CanvasError::DmcNotFound);
    assert_eq!(canvas.status(), 500);
    assert_eq!(canvas.to_string(), "Error during DMC determination");
    let text = UploadError::Conversion("no text".into());
    assert_eq!(text.status(), 500);
    assert_eq!(text.to_string(), "no text");
}
