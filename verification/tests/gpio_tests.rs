use jetsongpio::error::Error;
use jetsongpio::gpio::{
    pwm_duty_cycle_path, pwm_enable_path, pwm_export_path, pwm_path, pwm_period_path,
    pwm_steps, pwm_unexport_path, push_decimal, PwmSteps, CleanupAction, CleanupPlan, Direction, Edge, Level,
    PullUpDown, GPIO,
};
use jetsongpio::gpio_cdev::{GPIOHANDLE_REQUEST_INPUT, GPIOHANDLE_REQUEST_OUTPUT};
use jetsongpio::gpio_event::EventManager;
use jetsongpio::gpio_pin_data::{GpioPin, JetsonInfo, Mode};

fn info() -> JetsonInfo {
    JetsonInfo {
        p1_revision: 1,
        ram: "8192M".to_string(),
        revision: "Unknown".to_string(),
        type_: "Test board".to_string(),
        manufacturer: "NVIDIA".to_string(),
        processor: "ARM".to_string(),
    }
}

fn pins() -> Vec<GpioPin> {
    vec![
        GpioPin::new(144, "PAC.06", "tegra234-gpio", 7, 4, "GPIO09", "AUD_MCLK", None, None, Some(0x2448030)),
        GpioPin::new(112, "PR.04", "tegra234-gpio", 11, 17, "UART1_RTS", "UART1_RTS", None, None, None),
        GpioPin::new(
            50,
            "PH.00",
            "tegra234-gpio",
            18,
            24,
            "GPIO14",
            "GP39",
            Some("/sys/devices/platform/3280000.pwm"),
            Some(0),
            None,
        ),
        GpioPin::new(0, "", "", 27, 0, "I2C_SDA", "GEN2_I2C_SDA", None, None, None),
    ]
}

fn board() -> GPIO {
    let mut gpio = GPIO::new("JETSON_TEST".to_string(), info(), &pins());
    gpio.setmode(Mode::BOARD).unwrap();
    gpio
}

/// Sets a channel up and records its line as the device would have opened it.
fn setup_and_commit(gpio: &mut GPIO, channel: u32, direction: Direction, initial: Option<Level>, handle: i32) {
    let plan = gpio.setup(vec![channel], direction, initial, None).unwrap();
    let lines = plan.lines.unwrap();
    for line in lines {
        let flags = line.request.flags;
        gpio.commit_line(line.ch_info, flags, 3, handle);
    }
}

#[test]
fn new_board_has_no_mode() {
    let gpio = GPIO::new("JETSON_TEST".to_string(), info(), &pins());
    assert_eq!(gpio.getmode(), None);
    assert!(gpio.gpio_warnings);
    assert_eq!(gpio.gpio_function(7), Err(Error::ModeNotSet));
    assert_eq!(gpio.model, "JETSON_TEST");
}

#[test]
fn mode_is_locked_once_set() {
    let mut gpio = GPIO::new("JETSON_TEST".to_string(), info(), &pins());
    assert_eq!(gpio.setmode(Mode::BCM), Ok(()));
    assert_eq!(gpio.getmode(), Some(Mode::BCM));
    assert_eq!(gpio.setmode(Mode::BOARD), Err(Error::DifferentModeSet));
    assert_eq!(gpio.getmode(), Some(Mode::BCM));
    assert_eq!(gpio.setmode(Mode::BCM), Ok(()));
    // BCM numbering: board pin 7 is BCM 4
    assert_eq!(gpio.gpio_function(4), Ok(Direction::UNKNOWN));
    assert_eq!(gpio.gpio_function(7), Err(Error::InvalidChannel(7)));
}

#[test]
fn setwarnings_toggles() {
    let mut gpio = board();
    gpio.setwarnings(false);
    assert!(!gpio.gpio_warnings);
}

#[test]
fn setup_output_then_read_and_write() {
    let mut gpio = board();
    let plan = gpio.setup(vec![7], Direction::OUT, Some(Level::LOW), None).unwrap();
    assert!(plan.cleanups.is_empty());
    let lines = plan.lines.unwrap();
    assert_eq!(lines.len(), 1);
    assert_eq!(lines[0].ch_info.channel, 7);
    assert_eq!(lines[0].request.flags, GPIOHANDLE_REQUEST_OUTPUT);
    assert_eq!(lines[0].request.lineoffsets[0], 144);
    assert_eq!(lines[0].request.default_values[0], 0);
    assert_eq!(&lines[0].request.consumer_label[..13], b"jetsongpio-rs");
    for line in lines {
        let flags = line.request.flags;
        gpio.commit_line(line.ch_info, flags, 3, 42);
    }
    assert_eq!(gpio.gpio_function(7), Ok(Direction::OUT));
    assert_eq!(gpio.input(7), Ok(42));
    let plan = gpio.output(vec![7], vec![Level::HIGH]).unwrap();
    assert_eq!(plan.writes, vec![(42, 1)]);
    assert!(!plan.missing_handle);
}

#[test]
fn setup_with_consumer_label() {
    let mut gpio = board();
    let plan = gpio.setup(vec![11], Direction::IN, None, Some("mine")).unwrap();
    let lines = plan.lines.unwrap();
    assert_eq!(lines[0].request.flags, GPIOHANDLE_REQUEST_INPUT);
    assert_eq!(&lines[0].request.consumer_label[..5], b"mine\0");
}

#[test]
fn setup_refusals() {
    let mut gpio = board();
    assert_eq!(gpio.setup(vec![99], Direction::OUT, None, None).err(), Some(Error::InvalidChannel(99)));
    assert_eq!(gpio.setup(vec![27], Direction::OUT, None, None).err(), Some(Error::NotAGpio(27)));
    assert_eq!(gpio.setup(vec![7], Direction::UNKNOWN, None, None).err(), Some(Error::InvalidDirection));
    let plan = gpio.setup(vec![7], Direction::HardPwm, None, None).unwrap();
    assert_eq!(plan.lines.err(), Some(Error::UnsupportedDirection));
    let plan = gpio.setup(vec![7], Direction::IN, Some(Level::HIGH), None).unwrap();
    assert_eq!(plan.lines.err(), Some(Error::InitialForInput));
    let mut fresh = GPIO::new("JETSON_TEST".to_string(), info(), &pins());
    assert_eq!(fresh.setup(vec![7], Direction::OUT, None, None).err(), Some(Error::ModeNotSet));
}

#[test]
fn setup_again_releases_first() {
    let mut gpio = board();
    setup_and_commit(&mut gpio, 7, Direction::OUT, None, 42);
    let plan = gpio.setup(vec![7], Direction::IN, Some(Level::LOW), None).unwrap();
    assert!(matches!(plan.cleanups.as_slice(), [CleanupAction::CloseLine(42)]));
    assert_eq!(plan.lines.err(), Some(Error::InitialForInput));
    // the release already happened even though the setup was refused
    assert_eq!(gpio.gpio_function(7), Ok(Direction::UNKNOWN));
}

#[test]
fn input_refusals() {
    let mut gpio = board();
    assert_eq!(gpio.input(7), Err(Error::NotSetUp));
    assert_eq!(gpio.input(27), Err(Error::NotAGpio(27)));
    setup_and_commit(&mut gpio, 7, Direction::IN, None, 5);
    assert_eq!(gpio.gpio_function(7), Ok(Direction::IN));
    assert_eq!(gpio.input(7), Ok(5));
    assert_eq!(gpio.take_line_handle(7), Some(5));
    assert_eq!(gpio.input(7), Err(Error::LineHandleMissing));
}

#[test]
fn level_values() {
    assert_eq!(Level::from_value(0), Level::LOW);
    assert_eq!(Level::from_value(1), Level::HIGH);
    assert_eq!(Level::from_value(7), Level::HIGH);
    assert_eq!(Level::LOW.to_value(), 0);
    assert_eq!(Level::HIGH.to_value(), 1);
}

#[test]
fn output_refusals_and_partial_writes() {
    let mut gpio = board();
    setup_and_commit(&mut gpio, 7, Direction::OUT, None, 42);
    setup_and_commit(&mut gpio, 11, Direction::OUT, None, 43);
    assert_eq!(gpio.output(vec![7, 11], vec![Level::HIGH]).err(), Some(Error::ValueCountMismatch));
    let plan = gpio.output(vec![7, 11], vec![Level::HIGH, Level::LOW]).unwrap();
    assert_eq!(plan.writes, vec![(42, 1), (43, 0)]);
    gpio.take_line_handle(11);
    let plan = gpio.output(vec![7, 11, 7], vec![Level::HIGH, Level::LOW, Level::LOW]).unwrap();
    assert_eq!(plan.writes, vec![(42, 1)]);
    assert!(plan.missing_handle);
    setup_and_commit(&mut gpio, 11, Direction::IN, None, 44);
    assert_eq!(gpio.output(vec![7, 11], vec![Level::HIGH, Level::LOW]).err(), Some(Error::NotAnOutput));
    assert_eq!(gpio.output(vec![7, 99], vec![Level::HIGH, Level::LOW]).err(), Some(Error::InvalidChannel(99)));
}

#[test]
fn cleanup_listed_channels() {
    let mut gpio = board();
    setup_and_commit(&mut gpio, 7, Direction::OUT, None, 42);
    let plan = gpio.cleanup(Some(vec![7, 11]), &mut EventManager::new()).unwrap();
    match plan {
        CleanupPlan::Channels(acts) => assert!(matches!(acts.as_slice(), [CleanupAction::CloseLine(42)])),
        _ => panic!("expected a channel cleanup"),
    }
    assert_eq!(gpio.gpio_function(7), Ok(Direction::UNKNOWN));
    assert_eq!(gpio.getmode(), Some(Mode::BOARD));
    assert_eq!(gpio.cleanup(Some(vec![99]), &mut EventManager::new()).err(), Some(Error::InvalidChannel(99)));
}

#[test]
fn cleanup_twice_listed_closes_twice() {
    let mut gpio = board();
    setup_and_commit(&mut gpio, 7, Direction::OUT, None, 42);
    match gpio.cleanup(Some(vec![7, 7]), &mut EventManager::new()).unwrap() {
        CleanupPlan::Channels(acts) => assert!(matches!(
            acts.as_slice(),
            [CleanupAction::CloseLine(42), CleanupAction::CloseLine(42)]
        )),
        _ => panic!("expected a channel cleanup"),
    }
}

#[test]
fn cleanup_all_unsets_mode() {
    let mut gpio = board();
    setup_and_commit(&mut gpio, 7, Direction::OUT, None, 42);
    setup_and_commit(&mut gpio, 11, Direction::IN, None, 43);
    match gpio.cleanup(None, &mut EventManager::new()).unwrap() {
        CleanupPlan::All { actions: acts, detections } => {
            assert!(detections.is_empty());
            assert_eq!(acts.len(), 4);
            let closes = acts.iter().filter(|a| matches!(a, CleanupAction::CloseLine(_))).count();
            assert_eq!(closes, 2);
        }
        _ => panic!("expected a full cleanup"),
    }
    assert_eq!(gpio.getmode(), None);
    assert!(gpio.channel_configuration.is_empty());
    // a different mode may now be chosen
    assert_eq!(gpio.setmode(Mode::BCM), Ok(()));
}

#[test]
fn cleanup_without_mode_does_nothing() {
    let mut gpio = GPIO::new("JETSON_TEST".to_string(), info(), &pins());
    assert!(matches!(gpio.cleanup(None, &mut EventManager::new()), Ok(CleanupPlan::NothingSetUp { warn: true })));
    gpio.setwarnings(false);
    assert!(matches!(gpio.cleanup(Some(vec![7]), &mut EventManager::new()), Ok(CleanupPlan::NothingSetUp { warn: false })));
}

#[test]
fn pwm_claims() {
    let mut gpio = board();
    assert_eq!(gpio.pwm_claim(7).err(), Some(Error::NotAPwm(7)));
    let claim = gpio.pwm_claim(18).unwrap();
    assert_eq!(claim.ch_info.channel, 18);
    assert!(claim.cleanup.is_none());
    gpio.mark_hard_pwm(18);
    assert_eq!(gpio.gpio_function(18), Ok(Direction::HardPwm));
    assert_eq!(gpio.pwm_claim(18).err(), Some(Error::DuplicatePwm));
    // releasing a PWM channel stops the PWM
    match gpio.cleanup(Some(vec![18]), &mut EventManager::new()).unwrap() {
        CleanupPlan::Channels(acts) => assert!(matches!(acts.as_slice(), [CleanupAction::StopPwm(c)] if c.channel == 18)),
        _ => panic!("expected a channel cleanup"),
    }
}

#[test]
fn pwm_claim_releases_gpio_setup() {
    let mut gpio = board();
    setup_and_commit(&mut gpio, 18, Direction::OUT, None, 9);
    let claim = gpio.pwm_claim(18).unwrap();
    let acts = claim.cleanup.unwrap();
    assert!(matches!(acts.as_slice(), [CleanupAction::CloseLine(9)]));
    assert_eq!(gpio.gpio_function(18), Ok(Direction::UNKNOWN));
    let mut fresh = GPIO::new("JETSON_TEST".to_string(), info(), &pins());
    assert_eq!(fresh.pwm_claim(18).err(), Some(Error::ModeNotSet));
}

#[test]
fn direction_cdev_flags() {
    assert!(Direction::from_cdev(1) == Direction::IN);
    assert!(Direction::from_cdev(2) == Direction::OUT);
    assert!(Direction::from_cdev(0) == Direction::UNKNOWN);
    assert_eq!(Direction::IN.to_cdev(), 1);
    assert_eq!(Direction::OUT.to_cdev(), 2);
    assert_eq!(Direction::HardPwm.to_cdev(), 1);
    assert!(Direction::OUT.is_valid());
    assert!(!Direction::UNKNOWN.is_valid());
    assert!(Edge::RISING.is_valid());
    assert!(PullUpDown::PudUp.is_valid());
}

#[test]
fn pwm_paths() {
    let gpio = board();
    let ch = gpio.channel_data.get(&18).unwrap();
    assert_eq!(pwm_path(ch), "/sys/devices/platform/3280000.pwm/pwm0");
    assert_eq!(pwm_export_path(ch), "/sys/devices/platform/3280000.pwm/export");
    assert_eq!(pwm_unexport_path(ch), "/sys/devices/platform/3280000.pwm/unexport");
    assert_eq!(pwm_period_path(ch), "/sys/devices/platform/3280000.pwm/pwm0/period");
    assert_eq!(pwm_duty_cycle_path(ch), "/sys/devices/platform/3280000.pwm/pwm0/duty_cycle");
    assert_eq!(pwm_enable_path(ch), "/sys/devices/platform/3280000.pwm/pwm0/enable");
    let plain = gpio.channel_data.get(&7).unwrap();
    assert_eq!(pwm_path(plain), "/pwm0");
}

#[test]
fn decimal_notation() {
    for n in [0u32, 7, 10, 42, 1000, 4294967295] {
        let mut s = String::from("x");
        push_decimal(&mut s, n);
        assert_eq!(s, format!("x{}", n));
    }
}

#[test]
fn pwm_reconfiguration_steps() {
    // starting a stopped PWM: new period, then enable
    assert_eq!(
        pwm_steps(false, true, false),
        PwmSteps { disable_first: false, set_period: true, enable_after: true }
    );
    // a frequency change on a running PWM disables it and enables it again
    assert_eq!(
        pwm_steps(true, false, true),
        PwmSteps { disable_first: true, set_period: true, enable_after: true }
    );
    // a duty cycle change alone touches neither the period nor the enable
    assert_eq!(
        pwm_steps(true, false, false),
        PwmSteps { disable_first: false, set_period: false, enable_after: false }
    );
    // a frequency change on a stopped PWM only writes the period
    assert_eq!(
        pwm_steps(false, false, true),
        PwmSteps { disable_first: false, set_period: true, enable_after: false }
    );
}

#[test]
fn cleanup_all_removes_edge_detection() {
    let mut gpio = board();
    setup_and_commit(&mut gpio, 7, Direction::IN, None, 42);
    let mut events = EventManager::new();
    events.add_edge_detect("tegra234-gpio", 7, None).unwrap();
    events.add_edge_detect("tegra234-gpio", 11, Some(5)).unwrap();
    // cleaning up listed channels leaves edge detection alone
    gpio.cleanup(Some(vec![11]), &mut events).unwrap();
    assert!(events.event_added("tegra234-gpio", 7));
    match gpio.cleanup(None, &mut events).unwrap() {
        CleanupPlan::All { detections, .. } => {
            let mut d = detections;
            d.sort();
            assert_eq!(d, vec![("tegra234-gpio".to_string(), 7), ("tegra234-gpio".to_string(), 11)]);
        }
        _ => panic!("expected a full cleanup"),
    }
    assert!(!events.event_added("tegra234-gpio", 7));
    assert!(!events.event_added("tegra234-gpio", 11));
}
