use jetsongpio::error::Error;
use jetsongpio::gpio_cdev::{
    label_bytes, label_matches, pinmux_direction, pinmux_page, pinmux_verdict, request_event, request_handle, GpioEventRequest,
    GpioHandleRequest, PadCtlRegister, PinmuxVerdict, GPIOHANDLE_REQUEST_INPUT,
    GPIOHANDLE_REQUEST_OUTPUT,
};

#[test]
fn test_pad_ctl_register() {
    let reg = PadCtlRegister::from_value(0x12345678);
    assert_eq!(reg.is_gpio, false);
    assert_eq!(reg.is_input, false);
    assert_eq!(reg.is_tristate, true);
}

#[test]
fn test_request_handle() {
    let request = request_handle(10, GPIOHANDLE_REQUEST_OUTPUT, Some(0), "test").unwrap();
    assert_eq!(request.lineoffsets[0], 10);
    assert_eq!(request.flags, GPIOHANDLE_REQUEST_OUTPUT);
    assert_eq!(request.default_values[0], 0);
    assert_eq!(request.lines, 1);
}

#[test]
fn request_handle_output_defaults_high() {
    let request = request_handle(7, GPIOHANDLE_REQUEST_OUTPUT, None, "abc").unwrap();
    assert_eq!(request.default_values[0], 1);
    assert_eq!(&request.consumer_label[..4], &[b'a', b'b', b'c', 0]);
    assert_eq!(request.fd, -1);
    assert!(request.lineoffsets[1..].iter().all(|&x| x == 0));
}

#[test]
fn request_handle_rejects_initial_for_input() {
    let r = request_handle(3, GPIOHANDLE_REQUEST_INPUT, Some(1), "x");
    assert_eq!(r.err(), Some(Error::InitialForInput));
    let ok = request_handle(3, GPIOHANDLE_REQUEST_INPUT, None, "x").unwrap();
    assert_eq!(ok.default_values[0], 0);
    assert_eq!(ok.flags, GPIOHANDLE_REQUEST_INPUT);
}

#[test]
fn request_label_is_truncated_to_32_bytes() {
    let long = "abcdefghijklmnopqrstuvwxyz0123456789";
    let request = request_handle(1, GPIOHANDLE_REQUEST_OUTPUT, Some(1), long).unwrap();
    assert_eq!(&request.consumer_label[..], &long.as_bytes()[..32]);
}

#[test]
fn request_event_fields() {
    let request = request_event(12, 3, "ev").unwrap();
    assert_eq!(request.lineoffset, 12);
    assert_eq!(request.handleflags, GPIOHANDLE_REQUEST_INPUT);
    assert_eq!(request.eventflags, 3);
    assert_eq!(&request.consumer_label[..3], &[b'e', b'v', 0]);
    assert_eq!(request.fd, -1);
}

#[test]
fn default_requests_are_zeroed() {
    let h = GpioHandleRequest::default();
    assert_eq!(h.fd, -1);
    assert_eq!(h.lines, 0);
    let e = GpioEventRequest::default();
    assert_eq!(e.fd, -1);
    assert_eq!(e.eventflags, 0);
}

#[test]
fn pad_ctl_register_bits() {
    let reg = PadCtlRegister::from_value(0x40);
    assert!(reg.is_gpio);
    assert!(reg.is_input);
    assert!(!reg.is_tristate);
    assert!(reg.is_bidi());
    // not a GPIO, but input enabled and not tristate: still bidirectional
    let reg = PadCtlRegister::from_value(0x400 | 0x40);
    assert!(!reg.is_gpio);
    assert!(reg.is_input);
    assert!(reg.is_bidi());
    // tristate
    let reg = PadCtlRegister::from_value(0x50);
    assert!(reg.is_tristate);
    assert!(!reg.is_input);
    assert!(!reg.is_bidi());
    assert!(!PadCtlRegister::from_value(0x12345678).is_bidi());
    for v in [0u32, 0x10, 0x40, 0x50, 0x440, 0x450, 0x12345678, u32::MAX] {
        let expected = (v & 0x40) != 0 && (v & 0x10) == 0;
        assert_eq!(PadCtlRegister::from_value(v).is_bidi(), expected);
    }
}

#[test]
fn pinmux_page_and_offset() {
    assert_eq!(pinmux_page(0x0243_d038), (0x0243_d000, 0x38));
    assert_eq!(pinmux_page(0x1000), (0x1000, 0));
}

#[test]
fn pinmux_verdicts() {
    assert_eq!(pinmux_verdict(0x40, 1), PinmuxVerdict::Bidirectional);
    assert_eq!(
        pinmux_verdict(0x0, 1),
        PinmuxVerdict::InputRequestedOnOutput { corrected: 0x50 }
    );
    assert_eq!(
        pinmux_verdict(0x250, 0),
        PinmuxVerdict::OutputRequestedOnInput { corrected: 0x200 }
    );
    assert_eq!(pinmux_verdict(0x0, 0), PinmuxVerdict::Consistent);
    assert_eq!(pinmux_verdict(0x50, 2), PinmuxVerdict::Consistent);
    // a pad with bit 10 set is bidirectional when bit 6 is set and bit 4 clear
    assert_eq!(pinmux_verdict(0x440, 1), PinmuxVerdict::Bidirectional);
    assert_eq!(pinmux_verdict(0x440, 0), PinmuxVerdict::Bidirectional);
}

#[test]
fn pinmux_direction_of_requests() {
    assert_eq!(pinmux_direction(GPIOHANDLE_REQUEST_OUTPUT), 0);
    assert_eq!(pinmux_direction(GPIOHANDLE_REQUEST_INPUT), 1);
}

#[test]
fn chip_label_bytes() {
    let mut field = [0u8; 32];
    field[..13].copy_from_slice(b"tegra234-gpio");
    assert_eq!(label_bytes(&field), b"tegra234-gpio".to_vec());
    // bytes after the first zero are not part of the label
    field[14] = b'x';
    assert_eq!(label_bytes(&field), b"tegra234-gpio".to_vec());
    assert_eq!(label_bytes(&[0u8; 32]), Vec::<u8>::new());
    // a field without a zero byte is taken whole
    assert_eq!(label_bytes(&[b'a'; 32]), vec![b'a'; 32]);
}

#[test]
fn chip_label_comparison() {
    let mut field = [0u8; 32];
    field[..13].copy_from_slice(b"tegra234-gpio");
    assert!(label_matches(&field, "tegra234-gpio"));
    assert!(!label_matches(&field, "tegra234-gpio-aon"));
    assert!(!label_matches(&field, "tegra234-gpi"));
    assert!(!label_matches(&field, "tegra234-gpix"));
    assert!(label_matches(&[0u8; 32], ""));
}
