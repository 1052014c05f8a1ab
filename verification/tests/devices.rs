use sparko_embedded_std::color::Rgb8;
use sparko_embedded_std::dns::build_dns_response;
use sparko_embedded_std::imu::{decode_imu_sample, i16_from_le, RawImuSample};
use sparko_embedded_std::panel::{panel_config, Board, PanelModel};
use sparko_embedded_std::smart_led::{encode_byte, required_spi_transfer_size, PixelError, RmtLedBuffer, SpiLedBuffer};
use sparko_embedded_std::status::{
    color_rgb565_channels, display_status_color, led_pin_high, rgb565_channels_from_rgb8, rgb_led_duty,
    rgb_led_status_color, simple_led_status_on, Color, DisplayOrientation, InitStatus, Status,
};
use sparko_embedded_std::touch::{apply_rotation, read_touch_report, TouchPoint};

#[test]
fn dns_answer_points_every_name_at_the_server() {
    let query = [0x12u8, 0x34, 0x01, 0x00, 0x00, 0x01, 0x00, 0x00, 0x00, 0x00, 0x00, 0x00, 3, b'f', b'o', b'o', 0, 0, 1, 0, 1];
    let resp = build_dns_response(&query, &[192, 168, 71, 1]);
    let mut expected = query.to_vec();
    expected[2] |= 0x80;
    expected[3] |= 0x80;
    expected[6] = 0;
    expected[7] = 1;
    expected.extend_from_slice(&[0xc0, 0x0c, 0x00, 0x01, 0x00, 0x01, 0x00, 0x00, 0x00, 0x3c, 0x00, 0x04]);
    expected.extend_from_slice(&[192, 168, 71, 1]);
    assert_eq!(resp, expected);
    assert_eq!(resp.len(), query.len() + 16);
}

#[test]
fn imu_samples_are_little_endian_signed() {
    assert_eq!(i16_from_le(0x34, 0x12), 0x1234);
    assert_eq!(i16_from_le(0xff, 0xff), -1);
    assert_eq!(i16_from_le(0x00, 0x80), i16::MIN);
    let buf = [1u8, 0, 0xff, 0xff, 0, 0x80, 0xff, 0x7f, 2, 0, 0xfe, 0xff];
    assert_eq!(
        decode_imu_sample(&buf),
        RawImuSample { ax: 1, ay: -1, az: i16::MIN, gx: i16::MAX, gy: 2, gz: -2 }
    );
}

#[test]
fn touch_reports() {
    let report = [0u8, 2, 0x01, 0x23, 0x0f, 0x45, 0, 0, 0xf0, 0x10, 0x00, 0x20, 0, 0];
    let data = read_touch_report(&report).unwrap();
    assert_eq!(data.points, vec![TouchPoint { x: 0x123, y: 0xf45 }, TouchPoint { x: 0x010, y: 0x020 }]);
    assert!(read_touch_report(&[0u8, 0, 0, 0]).is_none());
}

#[test]
fn touch_rotation() {
    let p = TouchPoint { x: 10, y: 20 };
    assert_eq!(apply_rotation(&p, DisplayOrientation::Rotate0, 172, 320), TouchPoint { x: 161, y: 20 });
    assert_eq!(apply_rotation(&p, DisplayOrientation::Rotate90, 172, 320), TouchPoint { x: 20, y: 10 });
    assert_eq!(apply_rotation(&p, DisplayOrientation::Rotate180, 172, 320), TouchPoint { x: 10, y: 299 });
    assert_eq!(apply_rotation(&p, DisplayOrientation::Rotate270, 172, 320), TouchPoint { x: 299, y: 161 });
}

#[test]
fn status_colours() {
    assert_eq!(display_status_color(&Status::Initializing(InitStatus::Starting)), Some(Color::Yellow));
    assert_eq!(display_status_color(&Status::Initializing(InitStatus::StartingFeatures)), Some(Color::Black));
    assert_eq!(display_status_color(&Status::Running), None);
    assert_eq!(display_status_color(&Status::Error), Some(Color::Red));
    assert_eq!(color_rgb565_channels(&Color::Cyan), (0, 63, 31));
    assert_eq!(rgb565_channels_from_rgb8(&Rgb8 { r: 255, g: 128, b: 7 }), (31, 32, 0));
    assert_eq!(rgb_led_status_color(&Status::Setup), Rgb8 { r: 0, g: 0, b: 255 });
    assert!(simple_led_status_on(&Status::Error));
    assert!(!simple_led_status_on(&Status::Running));
    assert!(led_pin_high(true, false));
    assert!(!led_pin_high(true, true));
    assert_eq!(rgb_led_duty(255, 32, false), 32);
    assert_eq!(rgb_led_duty(255, 32, true), 223);
    assert_eq!(rgb_led_duty(100, 255, false), 100);
}

#[test]
fn spi_encoding_of_bytes() {
    assert_eq!(encode_byte(0x00), [0x92, 0x49, 0x24]);
    assert_eq!(encode_byte(0xff), [0xdb, 0x6d, 0xb6]);
    assert_eq!(encode_byte(0x80), [0xd2, 0x49, 0x24]);
    assert_eq!(required_spi_transfer_size(64), 628);
    assert_eq!(required_spi_transfer_size(1), 60);
}

#[test]
fn spi_buffer_of_a_strip() {
    let mut leds = SpiLedBuffer::new(2);
    let dark = leds.bytes_to_send().clone();
    assert_eq!(dark.len(), 2 * 9 + 50);
    assert_eq!(&dark[0..9], &[0x92, 0x49, 0x24, 0x92, 0x49, 0x24, 0x92, 0x49, 0x24]);
    assert!(dark[18..].iter().all(|b| *b == 0));
    leds.set_pixel_rgb(1, Rgb8 { r: 0xff, g: 0x00, b: 0x80 });
    let bytes = leds.bytes_to_send();
    assert_eq!(&bytes[9..18], &[0x92, 0x49, 0x24, 0xdb, 0x6d, 0xb6, 0xd2, 0x49, 0x24]);
    assert_eq!(&bytes[0..9], &dark[0..9]);
}

#[test]
fn rmt_buffer_of_a_strip() {
    let mut leds = RmtLedBuffer::new(2, 0u8, 1u8, 9u8);
    assert_eq!(leds.symbols_to_send().len(), 49);
    assert_eq!(leds.symbols_to_send()[48], 9);
    assert_eq!(leds.set_pixel_rgb(1, Rgb8 { r: 0x01, g: 0x80, b: 0x00 }), Ok(()));
    let s = leds.symbols_to_send();
    let mut expected = vec![1u8, 0, 0, 0, 0, 0, 0, 0];
    expected.extend_from_slice(&[0, 0, 0, 0, 0, 0, 0, 1]);
    expected.extend_from_slice(&[0; 8]);
    assert_eq!(&s[24..48], &expected[..]);
    assert!(s[0..24].iter().all(|b| *b == 0));
    assert_eq!(leds.set_pixel_rgb(2, Rgb8 { r: 1, g: 1, b: 1 }), Err(PixelError::OutOfBounds));
    assert_eq!(leds.to_signal(Rgb8 { r: 0, g: 0, b: 0x01 })[23], 1);
}

#[test]
fn panel_set_up_per_board() {
    let c = panel_config(Board::WaveEsp32c6Touch147, DisplayOrientation::Rotate270);
    assert_eq!(c.model, PanelModel::St7789);
    assert_eq!((c.width, c.height), (172, 320));
    assert_eq!((c.x_offset, c.y_offset), (0, -34));
    assert_eq!(c.rotation_degrees, 270);
    assert!(c.flip_horizontal && c.bgr && !c.inverted);
    let c = panel_config(Board::WaveEsp32c6Lcd147, DisplayOrientation::Rotate0);
    assert_eq!((c.x_offset, c.y_offset), (34, 0));
    assert!(c.inverted && !c.bgr && !c.flip_horizontal);
    let c = panel_config(Board::Cyd, DisplayOrientation::Rotate90);
    assert_eq!(c.model, PanelModel::Ili9341Rgb565);
    assert_eq!((c.width, c.height, c.x_offset, c.y_offset, c.rotation_degrees), (240, 320, 0, 0, 90));
}
