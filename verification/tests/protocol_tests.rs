use pixelflut_pong::client::commands_to_bytes;
use pixelflut_pong::decode::{parse_request, parse_response};
use pixelflut_pong::protocol::{ClientError, PixelflutRequest, PixelflutResponse, Serialize};

fn line_of(request: PixelflutRequest) -> Vec<u8> {
    let mut bytes = Vec::new();
    request.serialize(&mut bytes);
    bytes
}

#[test]
fn size_query_is_the_bare_keyword() {
    assert_eq!(line_of(PixelflutRequest::GetSize), b"SIZE\n".to_vec());
}

#[test]
fn set_pixel_has_six_lowercase_hex_digits() {
    let line = line_of(PixelflutRequest::SetPixel { x: 12, y: 345, rgb: 0x00ab_cdef });
    assert_eq!(line, b"PX 12 345 abcdef\n".to_vec());
}

#[test]
fn set_pixel_keeps_leading_zeros_of_the_colour() {
    let line = line_of(PixelflutRequest::SetPixel { x: 0, y: 65535, rgb: 0x0000_0a01 });
    assert_eq!(line, b"PX 0 65535 000a01\n".to_vec());
}

#[test]
fn set_pixel_leaves_the_padding_byte_out() {
    let line = line_of(PixelflutRequest::SetPixel { x: 1, y: 2, rgb: 0xff12_3456 });
    assert_eq!(line, b"PX 1 2 123456\n".to_vec());
}

#[test]
fn get_pixel_has_no_colour() {
    assert_eq!(line_of(PixelflutRequest::GetPixel { x: 800, y: 600 }), b"PX 800 600\n".to_vec());
}

#[test]
fn a_batch_is_its_lines_in_order() {
    let batch = vec![
        PixelflutRequest::GetSize,
        PixelflutRequest::GetPixel { x: 1, y: 2 },
        PixelflutRequest::SetPixel { x: 3, y: 4, rgb: 0xff },
    ];
    assert_eq!(commands_to_bytes(&batch), b"SIZE\nPX 1 2\nPX 3 4 0000ff\n".to_vec());
    assert_eq!(commands_to_bytes(&[]), Vec::<u8>::new());
}

#[test]
fn size_reply_is_read() {
    assert_eq!(
        parse_response(b"SIZE 800 600\n"),
        Ok(PixelflutResponse::Size { width: 800, height: 600 })
    );
    assert_eq!(
        parse_response(b"size 1920 1080"),
        Ok(PixelflutResponse::Size { width: 1920, height: 1080 })
    );
}

#[test]
fn pixel_reply_is_read() {
    assert_eq!(
        parse_response(b"PX 10 20 00ff7f\n"),
        Ok(PixelflutResponse::Pixel { x: 10, y: 20, rgb: 0x00ff7f })
    );
    assert_eq!(
        parse_response(b"px 0 0 ABCDEF\n"),
        Ok(PixelflutResponse::Pixel { x: 0, y: 0, rgb: 0xabcdef })
    );
}

#[test]
fn malformed_replies_are_protocol_errors() {
    let bad: Vec<&[u8]> = vec![
        b"",
        b"\n",
        b"HELLO\n",
        b"SIZE\n",
        b"SIZE 800\n",
        b"SIZE 800 600 1\n",
        b"SIZE  800 600\n",
        b"SIZE 800 x\n",
        b"SIZE 65536 1\n",
        b"SIZE -1 1\n",
        b"SIZE +1 1\n",
        b"PX 1 2\n",
        b"PX 1 2 fffff\n",
        b"PX 1 2 fffffff\n",
        b"PX 1 2 gggggg\n",
        b"PX 1 2 ffffff \n",
        b"PX 1 2 ffffff\n\n",
        b"PX 1 2 ffffff\r\n",
        b" PX 1 2 ffffff\n",
        b"PX 99999 2 ffffff\n",
    ];
    for line in bad {
        assert_eq!(parse_response(line), Err(ClientError::ProtocolError), "{:?}", line);
    }
}

#[test]
fn leading_zeros_of_a_number_are_read() {
    assert_eq!(
        parse_response(b"SIZE 000000800 0600\n"),
        Ok(PixelflutResponse::Size { width: 800, height: 600 })
    );
}

#[test]
fn commands_read_back_as_they_were_written() {
    let samples = [
        PixelflutRequest::GetSize,
        PixelflutRequest::GetPixel { x: 0, y: 0 },
        PixelflutRequest::GetPixel { x: 65535, y: 9 },
        PixelflutRequest::GetPixel { x: 10, y: 10000 },
        PixelflutRequest::SetPixel { x: 0, y: 0, rgb: 0 },
        PixelflutRequest::SetPixel { x: 100, y: 1000, rgb: 0x00ff_ffff },
        PixelflutRequest::SetPixel { x: 65535, y: 65535, rgb: 0x0000_0001 },
        PixelflutRequest::SetPixel { x: 7, y: 70, rgb: 0x0010_0000 },
    ];
    for request in samples {
        assert_eq!(parse_request(&line_of(request)), Ok(request));
    }
}

#[test]
fn every_coordinate_reads_back() {
    let mut x: u32 = 0;
    while x <= 65535 {
        let request = PixelflutRequest::GetPixel { x: x as u16, y: (65535 - x) as u16 };
        assert_eq!(parse_request(&line_of(request)), Ok(request));
        x += 1;
    }
}

#[test]
fn a_set_command_reads_as_the_reply_for_its_pixel() {
    let line = line_of(PixelflutRequest::SetPixel { x: 5, y: 6, rgb: 0x00_00_99 });
    assert_eq!(parse_response(&line), Ok(PixelflutResponse::Pixel { x: 5, y: 6, rgb: 0x99 }));
}

#[test]
fn malformed_commands_are_protocol_errors() {
    assert_eq!(parse_request(b"SIZE 1\n"), Err(ClientError::ProtocolError));
    assert_eq!(parse_request(b"PX 1\n"), Err(ClientError::ProtocolError));
    assert_eq!(parse_request(b"PX 1 2 3\n"), Err(ClientError::ProtocolError));
    assert_eq!(parse_request(b"PY 1 2\n"), Err(ClientError::ProtocolError));
}
