use ef_drivers::accel::{DataRate, FifoMode, GRange};
use ef_drivers::display::{AddressMode, ColorFormat, ColorOrder};
use ef_drivers::color::{Rgb565, Rgb666, Rgb888};
use ef_drivers::gps::{find_newline, BufferGuard};
use ef_drivers::gt911;
use ef_drivers::tca9554::{Blocking, TCA9554};
use ef_drivers::touch;
use ef_drivers::touch::DetectedGesture;

#[test]
fn grange_from_byte_decodes_low_bits() {
    assert_eq!(GRange::from_byte(0b0000_0000), GRange::Two);
    assert_eq!(GRange::from_byte(0b0000_0001), GRange::Four);
    assert_eq!(GRange::from_byte(0b0000_0010), GRange::Eight);
    assert_eq!(GRange::from_byte(0b0000_0011), GRange::Sixteen);
    // higher register bits are ignored
    assert_eq!(GRange::from_byte(0b1111_1101), GRange::Four);
    assert_eq!(GRange::default(), GRange::Two);
}

#[test]
fn fifo_mode_from_byte_decodes_high_bits() {
    assert_eq!(FifoMode::from_byte(0b0000_0000), FifoMode::Bypass);
    assert_eq!(FifoMode::from_byte(0b0100_0000), FifoMode::Fifo);
    assert_eq!(FifoMode::from_byte(0b1000_0000), FifoMode::Stream);
    assert_eq!(FifoMode::from_byte(0b1100_0000), FifoMode::Trigger);
    // lower register bits (trigger, samples) are ignored
    assert_eq!(FifoMode::from_byte(0b0111_1111), FifoMode::Fifo);
    assert_eq!(FifoMode::default(), FifoMode::Bypass);
    assert_eq!(DataRate::default(), DataRate::Hz100);
}

#[test]
fn data_rate_bits_round_trip() {
    assert_eq!(DataRate::Hz0_10.to_bits(), 0x0);
    assert_eq!(DataRate::Hz100.to_bits(), 0xA);
    assert_eq!(DataRate::Hz3200.to_bits(), 0xF);
    assert_eq!(DataRate::from_byte(0x0A), DataRate::Hz100);
    // higher register bits (the low-power flag) are ignored
    assert_eq!(DataRate::from_byte(0x1A), DataRate::Hz100);
    for bits in 0u8..16 {
        assert_eq!(DataRate::from_byte(bits).to_bits(), bits);
    }
}

#[test]
fn address_mode_bytes() {
    let forward_rgb = AddressMode { color_order: ColorOrder::RGB, refresh_direction: false };
    assert_eq!(forward_rgb.to_byte(), 0x08);
    let backward_rgb = AddressMode { color_order: ColorOrder::RGB, refresh_direction: true };
    assert_eq!(backward_rgb.to_byte(), 0x00);
    let forward_bgr = AddressMode { color_order: ColorOrder::BGR, refresh_direction: false };
    assert_eq!(forward_bgr.to_byte(), 0x0C);
    let backward_bgr = AddressMode { color_order: ColorOrder::BGR, refresh_direction: true };
    assert_eq!(backward_bgr.to_byte(), 0x04);
    assert_eq!(AddressMode::default().to_byte(), 0x08);
}

#[test]
fn color_format_bytes() {
    assert_eq!(<Rgb565 as ColorFormat>::format_byte(), 0x50);
    assert_eq!(<Rgb666 as ColorFormat>::format_byte(), 0x60);
    assert_eq!(<Rgb888 as ColorFormat>::format_byte(), 0x70);
}

#[test]
fn touch_point_from_bytes() {
    let p = gt911::TouchPoint::from_bytes([3, 0x34, 0x12, 0x78, 0x56, 0xBC, 0x9A]);
    assert_eq!(p.point, 3);
    assert_eq!(p.x, 0x1234);
    assert_eq!(p.y, 0x5678);
    assert_eq!(p.area, 0x9ABC);
    let q = touch::TouchPoint::from_bytes([0, 0xFF, 0xFF, 0x00, 0x00, 0x01, 0x00]);
    assert_eq!(q.x, 0xFFFF);
    assert_eq!(q.y, 0x0000);
    assert_eq!(q.area, 0x0001);
}

#[test]
fn gt911_status_bits() {
    let status = gt911::GT911Status(0b1011_0101);
    assert!(status.is_ready());
    assert!(status.is_touched());
    assert!(status.is_triggered());
    assert!(!status.is_large_touched());
    assert_eq!(status.touch_count(), 5);
    let idle = gt911::GT911Status(0);
    assert!(!idle.is_ready());
    assert_eq!(idle.touch_count(), 0);
}

#[test]
fn detected_touch_bits() {
    let status = touch::DetectedTouch(0b1101_0011);
    assert!(status.is_ready());
    assert!(status.is_large_touched());
    assert!(status.has_touch_key());
    assert!(!status.is_triggered());
    assert_eq!(status.touch_count(), 3);
}

#[test]
fn gesture_from_byte() {
    assert_eq!(DetectedGesture::from_byte(b'A'), DetectedGesture::Char('A'));
    assert_eq!(DetectedGesture::from_byte(0x27), DetectedGesture::Char('\''));
    assert_eq!(DetectedGesture::from_byte(0x7F), DetectedGesture::Char('\u{7F}'));
    assert_eq!(DetectedGesture::from_byte(0xAA), DetectedGesture::SwipeRight);
    assert_eq!(DetectedGesture::from_byte(0xBB), DetectedGesture::SwipeLeft);
    assert_eq!(DetectedGesture::from_byte(0xAB), DetectedGesture::SwipeDown);
    assert_eq!(DetectedGesture::from_byte(0xBA), DetectedGesture::SwipeUp);
    assert_eq!(DetectedGesture::from_byte(0xCC), DetectedGesture::DoubleTap);
    assert_eq!(DetectedGesture::from_byte(0x00), DetectedGesture::NoGesture);
    assert_eq!(DetectedGesture::from_byte(0x26), DetectedGesture::NoGesture);
    assert!(DetectedGesture::from_byte(0xCC).is_any());
    assert!(!DetectedGesture::from_byte(0x10).is_any());
}

#[test]
fn gesture_point_from_bytes() {
    let p = touch::GesturePoint::from_bytes([0x10, 0x01, 0xFE, 0x00]);
    assert_eq!(p.x, 0x0110);
    assert_eq!(p.y, 0x00FE);
}

#[test]
fn gt911_driver_handle() {
    let mut driver = gt911::GT911::new("bus", 0x5D);
    assert_eq!(driver.address(), 0x5D);
    assert_eq!(*driver.i2c(), "bus");
    *driver.i2c_mut() = "other";
    assert_eq!(driver.release(), "other");
}

#[test]
fn touch_driver_handle() {
    let mut driver: touch::GT911<&str, touch::Touch> = touch::GT911::new("bus", 0x14);
    assert_eq!(driver.address(), 0x14);
    assert_eq!(*driver.i2c(), "bus");
    *driver.i2c_mut() = "swapped";
    assert_eq!(driver.release(), "swapped");
}

#[test]
fn tca9554_driver_handle() {
    let mut driver: TCA9554<&str, Blocking> = TCA9554::new("bus", 0x20);
    assert_eq!(driver.address(), 0x20);
    assert_eq!(*driver.i2c(), "bus");
    *driver.i2c_mut() = "bus2";
    assert_eq!(driver.release(), "bus2");
}

#[test]
fn newline_search() {
    assert_eq!(find_newline(b"$GPGLL,x\ny"), Some(8));
    assert_eq!(find_newline(b"\n"), Some(0));
    assert_eq!(find_newline(b"no newline"), None);
    assert_eq!(find_newline(b""), None);
    assert_eq!(find_newline(b"a\nb\nc"), Some(1));
}

#[test]
fn buffer_guard_covers_prefix() {
    let data = b"$GPGLL,4916.45,N\nleftover";
    let end = find_newline(data).unwrap();
    let guard = BufferGuard::new(data, end);
    assert_eq!(guard.as_slice(), b"$GPGLL,4916.45,N");
}
