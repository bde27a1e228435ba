//! The GPIO state: pin numbering mode, channel lookup and the configuration of
//! each channel.
//!
//! Operations that touch the hardware are split in two. The library decides
//! and updates the bookkeeping; it hands back what the caller has to do on the
//! device (open a line, close a line, stop a PWM) and takes back what the device
//! answered.
use crate::error::Error;
use crate::gpio_cdev::{
    is_handle_request, request_handle, GpioHandleRequest, GPIOHANDLE_REQUEST_INPUT,
    GPIOHANDLE_REQUEST_OUTPUT,
};
use crate::gpio_event::{key_pairs_view, EventManager, EventRecord};
use crate::gpio_pin_data::{get_data, ChannelInfo, ChannelTables, GpioPin, JetsonInfo, Mode};
use std::collections::HashMap;
use vstd::prelude::*;
use vstd::std_specs::iter::IteratorSpec;
use vstd::string::{StringExecFns, StringSliceAdditionalSpecFns};

verus! {

broadcast use vstd::std_specs::hash::group_hash_axioms;

/// The value of a GPIO pin.
#[derive(PartialEq, Eq, Structural, Clone, Copy, Debug)]
pub enum Level {
    LOW,
    HIGH,
}

impl Level {
    /// The number written to the line for this level.
    pub open spec fn spec_value(self) -> u8 {
        match self {
            Level::LOW => 0,
            Level::HIGH => 1,
        }
    }

    /// Returns the number written to the line for this level.
    pub fn to_value(&self) -> (r: u8)
        ensures
            r == self.spec_value(),
    {
        match self {
            Level::LOW => 0,
            Level::HIGH => 1,
        }
    }

    /// Reads a line value: zero is low, anything else is high.
    pub fn from_value(value: u8) -> (r: Level)
        ensures
            r == (if value == 0 { Level::LOW } else { Level::HIGH }),
    {
        if value == 0 {
            Level::LOW
        } else {
            Level::HIGH
        }
    }
}

/// The direction of a GPIO pin.
#[derive(PartialEq, Eq, Structural, Clone, Copy, Debug)]
pub enum Direction {
    UNKNOWN,
    OUT,
    IN,
    HardPwm,
}

impl Direction {
    /// Every direction but `UNKNOWN` is valid.
    pub fn is_valid(&self) -> (r: bool)
        ensures
            r == (*self != Direction::UNKNOWN),
    {
        match self {
            Direction::OUT | Direction::IN | Direction::HardPwm => true,
            Direction::UNKNOWN => false,
        }
    }

    /// The direction named by a character device request flag.
    pub open spec fn spec_from_cdev(value: i32) -> Direction {
        if value == GPIOHANDLE_REQUEST_INPUT as i32 {
            Direction::IN
        } else if value == GPIOHANDLE_REQUEST_OUTPUT as i32 {
            Direction::OUT
        } else {
            Direction::UNKNOWN
        }
    }

    /// Returns the direction named by a character device request flag.
    pub fn from_cdev(value: i32) -> (r: Direction)
        ensures
            r == Self::spec_from_cdev(value),
    {
        if value == GPIOHANDLE_REQUEST_INPUT as i32 {
            Direction::IN
        } else if value == GPIOHANDLE_REQUEST_OUTPUT as i32 {
            Direction::OUT
        } else {
            Direction::UNKNOWN
        }
    }

    /// The request flag of a direction; anything but an output is requested as an input.
    pub open spec fn spec_to_cdev(self) -> u32 {
        match self {
            Direction::OUT => GPIOHANDLE_REQUEST_OUTPUT,
            _ => GPIOHANDLE_REQUEST_INPUT,
        }
    }

    /// Returns the request flag of a direction.
    pub fn to_cdev(&self) -> (r: u32)
        ensures
            r == self.spec_to_cdev(),
    {
        match self {
            Direction::IN => GPIOHANDLE_REQUEST_INPUT,
            Direction::OUT => GPIOHANDLE_REQUEST_OUTPUT,
            _ => GPIOHANDLE_REQUEST_INPUT,
        }
    }
}

/// Edge selection of the GPIO API.
#[derive(PartialEq, Eq, Structural, Clone, Copy, Debug)]
pub enum Edge {
    RISING,
    FALLING,
    BOTH,
}

impl Edge {
    /// Every edge value is valid.
    pub fn is_valid(&self) -> (r: bool)
        ensures
            r,
    {
        match self {
            Edge::RISING | Edge::FALLING | Edge::BOTH => true,
        }
    }
}

/// Pull-up and pull-down options.
#[derive(PartialEq, Eq, Structural, Clone, Copy, Debug)]
pub enum PullUpDown {
    PudOff,
    PudDown,
    PudUp,
}

impl PullUpDown {
    /// Every pull option is valid.
    pub fn is_valid(&self) -> (r: bool)
        ensures
            r,
    {
        match self {
            PullUpDown::PudOff | PullUpDown::PudDown | PullUpDown::PudUp => true,
        }
    }
}

/// The configuration of a channel in a configuration map, if any.
pub open spec fn config_get(m: Map<u32, Direction>, k: u32) -> Option<Direction> {
    if m.contains_key(k) {
        Some(m[k])
    } else {
        None
    }
}

/// The abstract state of a [`GPIO`].
pub struct GpioState {
    pub tables: Map<Mode, Map<u32, ChannelInfo>>,
    pub channel_data: Map<u32, ChannelInfo>,
    pub warnings: bool,
    pub mode: Option<Mode>,
    pub config: Map<u32, Direction>,
}

/// The state of the GPIO pins of one board.
pub struct GPIO {
    pub model: String,
    pub jetson_info: JetsonInfo,
    pub channel_data_by_mode: ChannelTables,
    /// The channels of the current numbering mode, as last set up.
    pub channel_data: HashMap<u32, ChannelInfo>,
    pub gpio_warnings: bool,
    pub gpio_mode: Option<Mode>,
    /// How this process configured each channel.
    pub channel_configuration: HashMap<u32, Direction>,
}

impl View for GPIO {
    type V = GpioState;

    open spec fn view(&self) -> GpioState {
        GpioState {
            tables: Map::new(|m: Mode| true, |m: Mode| self.channel_data_by_mode.spec_table(m)),
            channel_data: self.channel_data@,
            warnings: self.gpio_warnings,
            mode: self.gpio_mode,
            config: self.channel_configuration@,
        }
    }
}

impl GpioState {
    /// The invariant of the bookkeeping.
    pub open spec fn wf(self) -> bool {
        &&& forall|m: Mode, k: u32| #[trigger] self.tables[m].contains_key(k) ==> self.tables[m][k].channel == k
        &&& forall|k: u32| #[trigger] self.channel_data.contains_key(k) ==> self.channel_data[k].channel == k
        &&& forall|k: u32| #[trigger] self.config.contains_key(k) ==> self.channel_data.contains_key(k)
        &&& self.mode is None ==> self.config.dom() == Set::<u32>::empty()
        &&& self.mode matches Some(m) ==> self.channel_data.dom() == self.tables[m].dom()
    }

    /// The state after `setmode(mode)`, and its result.
    pub open spec fn setmode_next(self, mode: Mode) -> (GpioState, Result<(), Error>) {
        if self.mode is Some && self.mode != Some(mode) {
            (self, Err(Error::DifferentModeSet))
        } else {
            (GpioState { channel_data: self.tables[mode], mode: Some(mode), ..self }, Ok(()))
        }
    }

    /// Looks a channel up in the current channel data.
    pub open spec fn lookup(self, channel: u32, need_gpio: bool, need_pwm: bool) -> Result<ChannelInfo, Error> {
        if !self.channel_data.contains_key(channel) {
            Err(Error::InvalidChannel(channel))
        } else if need_gpio && self.channel_data[channel].gpio_chip@.len() == 0 {
            Err(Error::NotAGpio(channel))
        } else if need_pwm && self.channel_data[channel].pwm_chip_dir is None {
            Err(Error::NotAPwm(channel))
        } else {
            Ok(self.channel_data[channel])
        }
    }

    /// Looks channels up in order; the first refusal is the result.
    pub open spec fn lookup_seq(self, channels: Seq<u32>, need_gpio: bool, need_pwm: bool) -> Result<Seq<ChannelInfo>, Error>
        decreases channels.len(),
    {
        if channels.len() == 0 {
            Ok(Seq::empty())
        } else {
            match self.lookup_seq(channels.drop_last(), need_gpio, need_pwm) {
                Err(e) => Err(e),
                Ok(v) => match self.lookup(channels.last(), need_gpio, need_pwm) {
                    Err(e) => Err(e),
                    Ok(c) => Ok(v.push(c)),
                },
            }
        }
    }

    /// The state after the line of channel `ch.channel` was opened in direction
    /// `direction` with the given chip and line descriptors.
    pub open spec fn commit_next(self, ch: ChannelInfo, direction: u32, chip_fd: i32, line_handle: i32) -> GpioState {
        GpioState {
            config: self.config.insert(ch.channel, Direction::spec_from_cdev(direction as i32)),
            channel_data: self.channel_data.insert(
                ch.channel,
                ChannelInfo { chip_fd: Some(chip_fd), line_handle: Some(line_handle), ..ch },
            ),
            ..self
        }
    }

    /// The state after claiming `channel` for a PWM, and the result: the
    /// channel's description and, when it was set up as a GPIO, its release.
    pub open spec fn pwm_claim_next(self, channel: u32) -> (
        GpioState,
        Result<(ChannelInfo, Option<Seq<CleanupAction>>), Error>,
    ) {
        if self.mode is None {
            (self, Err(Error::ModeNotSet))
        } else {
            match self.lookup(channel, false, true) {
                Err(e) => (self, Err(e)),
                Ok(ch) => {
                    let cfg = config_get(self.config, channel);
                    if cfg == Some(Direction::HardPwm) {
                        (self, Err(Error::DuplicatePwm))
                    } else if cfg == Some(Direction::OUT) || cfg == Some(Direction::IN) {
                        (
                            GpioState { config: self.config.remove(channel), ..self },
                            Ok((ch, Some(seq![cleanup_action(cfg, ch)]))),
                        )
                    } else {
                        (self, Ok((ch, None)))
                    }
                },
            }
        }
    }

    /// The result of `input(channel)`.
    pub open spec fn input_result(self, channel: u32) -> Result<i32, Error> {
        match self.lookup_all(seq![channel], true, false) {
            Err(e) => Err(e),
            Ok(infos) => {
                let cfg = config_get(self.config, channel);
                if cfg != Some(Direction::IN) && cfg != Some(Direction::OUT) {
                    Err(Error::NotSetUp)
                } else {
                    match infos[0].line_handle {
                        None => Err(Error::LineHandleMissing),
                        Some(h) => Ok(h),
                    }
                }
            },
        }
    }

    /// The result of `gpio_function(channel)`.
    pub open spec fn function_result(self, channel: u32) -> Result<Direction, Error> {
        match self.lookup_all(seq![channel], false, false) {
            Err(e) => Err(e),
            Ok(_) => Ok(
                match config_get(self.config, channel) {
                    Some(d) => d,
                    None => Direction::UNKNOWN,
                },
            ),
        }
    }

    /// Looks channels up once a numbering mode is set.
    pub open spec fn lookup_all(self, channels: Seq<u32>, need_gpio: bool, need_pwm: bool) -> Result<Seq<ChannelInfo>, Error> {
        if self.mode is None {
            Err(Error::ModeNotSet)
        } else {
            self.lookup_seq(channels, need_gpio, need_pwm)
        }
    }
}

/// Looking one channel up as a list.
pub proof fn lemma_lookup_single(s: GpioState, channel: u32, g: bool, p: bool)
    ensures
        s.lookup_seq(seq![channel], g, p) == match s.lookup(channel, g, p) {
            Ok(c) => Ok(seq![c]),
            Err(e) => Err::<Seq<ChannelInfo>, Error>(e),
        },
{
    assert(seq![channel].drop_last() =~= Seq::<u32>::empty());
    assert(s.lookup_seq(Seq::<u32>::empty(), g, p) == Ok::<Seq<ChannelInfo>, Error>(Seq::empty()));
    if let Ok(c) = s.lookup(channel, g, p) {
        assert(Seq::<ChannelInfo>::empty().push(c) =~= seq![c]);
    }
}

/// A refusal among the first channels is the refusal of the whole list.
pub proof fn lemma_lookup_seq_prefix_err(s: GpioState, channels: Seq<u32>, i: int, g: bool, p: bool)
    requires
        0 <= i <= channels.len(),
        s.lookup_seq(channels.take(i), g, p) is Err,
    ensures
        s.lookup_seq(channels, g, p) == s.lookup_seq(channels.take(i), g, p),
    decreases channels.len(),
{
    if i < channels.len() {
        assert(channels.drop_last().take(i) =~= channels.take(i));
        lemma_lookup_seq_prefix_err(s, channels.drop_last(), i, g, p);
    } else {
        assert(channels.take(i) =~= channels);
    }
}

/// A successful lookup gives one description per channel, each filed under its channel.
pub proof fn lemma_lookup_seq_ok(s: GpioState, channels: Seq<u32>, g: bool, p: bool)
    requires
        s.lookup_seq(channels, g, p) is Ok,
    ensures
        s.lookup_seq(channels, g, p).unwrap().len() == channels.len(),
        forall|i: int| 0 <= i < channels.len() ==> s.lookup(#[trigger] channels[i], g, p) == Ok::<ChannelInfo, Error>(
            s.lookup_seq(channels, g, p).unwrap()[i],
        ),
    decreases channels.len(),
{
    if channels.len() > 0 {
        lemma_lookup_seq_ok(s, channels.drop_last(), g, p);
        let v = s.lookup_seq(channels.drop_last(), g, p).unwrap();
        assert forall|i: int| 0 <= i < channels.len() implies s.lookup(#[trigger] channels[i], g, p) == Ok::<ChannelInfo, Error>(
            s.lookup_seq(channels, g, p).unwrap()[i],
        ) by {
            if i < channels.len() - 1 {
                assert(channels.drop_last()[i] == channels[i]);
            }
        }
    }
}

/// What has to be done on the device to release a channel.
#[derive(Debug)]
pub enum CleanupAction {
    /// Disable and unexport the PWM of the channel.
    StopPwm(ChannelInfo),
    /// Close the line handle.
    CloseLine(i32),
    /// Nothing is open for the channel.
    Nothing,
}

/// The release of a channel described by `ch` that was configured as `cfg`.
pub open spec fn cleanup_action(cfg: Option<Direction>, ch: ChannelInfo) -> CleanupAction {
    match cfg {
        Some(Direction::HardPwm) => CleanupAction::StopPwm(ch),
        _ => match ch.line_handle {
            Some(h) => CleanupAction::CloseLine(h),
            None => CleanupAction::Nothing,
        },
    }
}

/// Releases each channel in turn: the configuration that results, and the
/// actions taken.
pub open spec fn cleanup_seq(config: Map<u32, Direction>, infos: Seq<ChannelInfo>) -> (
    Map<u32, Direction>,
    Seq<CleanupAction>,
)
    decreases infos.len(),
{
    if infos.len() == 0 {
        (config, Seq::empty())
    } else {
        let (c, a) = cleanup_seq(config, infos.drop_last());
        let x = infos.last();
        (c.remove(x.channel), a.push(cleanup_action(config_get(c, x.channel), x)))
    }
}

/// Releases in turn each channel that is configured when its turn comes.
pub open spec fn cleanup_configured(config: Map<u32, Direction>, infos: Seq<ChannelInfo>) -> (
    Map<u32, Direction>,
    Seq<CleanupAction>,
)
    decreases infos.len(),
{
    if infos.len() == 0 {
        (config, Seq::empty())
    } else {
        let (c, a) = cleanup_configured(config, infos.drop_last());
        let x = infos.last();
        if c.contains_key(x.channel) {
            (c.remove(x.channel), a.push(cleanup_action(config_get(c, x.channel), x)))
        } else {
            (c, a)
        }
    }
}

/// The channels of `infos` that are configured in `config`, in order.
pub open spec fn configured_only(config: Map<u32, Direction>, infos: Seq<ChannelInfo>) -> Seq<ChannelInfo>
    decreases infos.len(),
{
    if infos.len() == 0 {
        Seq::empty()
    } else {
        let rest = configured_only(config, infos.drop_last());
        if config.contains_key(infos.last().channel) {
            rest.push(infos.last())
        } else {
            rest
        }
    }
}

/// What `cleanup` leaves to be done on the device.
#[derive(Debug)]
pub enum CleanupPlan {
    /// No mode was set, so nothing was set up; `warn` tells whether to say so.
    NothingSetUp { warn: bool },
    /// Every chip has to be closed, the handlers of the listed edge
    /// detections (by chip name and channel, now removed from the registry)
    /// stopped, then these releases done.
    All { actions: Vec<CleanupAction>, detections: Vec<(String, u32)> },
    /// These releases have to be done.
    Channels(Vec<CleanupAction>),
}

/// A line to request from the device during `setup`.
pub struct LineSetup {
    pub ch_info: ChannelInfo,
    pub request: GpioHandleRequest,
}

/// What `setup` leaves to be done on the device: first the releases, then the
/// line requests, or the refusal that comes after the releases.
pub struct SetupPlan {
    pub cleanups: Vec<CleanupAction>,
    pub lines: Result<Vec<LineSetup>, Error>,
}

/// The bytes of the consumer name used when none is given.
pub open spec fn default_consumer_bytes() -> Seq<u8> {
    "jetsongpio-rs".spec_bytes()
}

/// `lines` requests, for each channel of `infos` in order, its line in
/// direction `flag` starting at `initial`.
pub open spec fn requests_for(
    lines: Seq<LineSetup>,
    infos: Seq<ChannelInfo>,
    flag: u32,
    initial: Option<u8>,
    consumer: Seq<u8>,
) -> bool {
    &&& lines.len() == infos.len()
    &&& forall|i: int| 0 <= i < lines.len() ==> {
        &&& (#[trigger] lines[i]).ch_info == infos[i]
        &&& is_handle_request(lines[i].request, infos[i].line_offset, flag, initial, consumer)
    }
}

/// The line value of an optional level.
pub open spec fn level_value(l: Option<Level>) -> Option<u8> {
    match l {
        Some(v) => Some(v.spec_value()),
        None => None,
    }
}

/// The writes of `output`: one per channel in order, up to the first channel
/// without a line handle; the flag tells whether such a channel was met.
pub open spec fn output_writes(infos: Seq<ChannelInfo>, values: Seq<Level>) -> (Seq<(i32, u8)>, bool)
    decreases infos.len(),
{
    if infos.len() == 0 {
        (Seq::empty(), false)
    } else {
        let (w, missing) = output_writes(infos.drop_last(), values);
        if missing {
            (w, true)
        } else {
            match infos.last().line_handle {
                Some(h) => (w.push((h, values[infos.len() - 1].spec_value())), false),
                None => (w, true),
            }
        }
    }
}

/// What `output` leaves to be done on the device: the writes, then a refusal
/// when a channel without a line handle was met.
pub struct OutputPlan {
    pub writes: Vec<(i32, u8)>,
    pub missing_handle: bool,
}

/// The outcome of claiming a channel for a PWM.
pub struct PwmClaim {
    /// The description of the channel.
    pub ch_info: ChannelInfo,
    /// The releases to do first, when the channel was set up as a GPIO.
    pub cleanup: Option<Vec<CleanupAction>>,
}

impl GPIO {
    /// Creates the state of a board from its model, its information and its pin
    /// definitions; no mode is set, no channel is configured, warnings are on.
    pub fn new(model: String, jetson_info: JetsonInfo, pin_defs: &Vec<GpioPin>) -> (r: GPIO)
        ensures
            r@.wf(),
            r.model == model,
            r.jetson_info == jetson_info,
            forall|mode: Mode|
                crate::gpio_pin_data::table_view(#[trigger] r@.tables[mode])
                    == crate::gpio_pin_data::mode_table(crate::gpio_pin_data::pins_view(pin_defs@), mode),
            r@.channel_data == Map::<u32, ChannelInfo>::empty(),
            r@.warnings,
            r@.mode is None,
            r@.config == Map::<u32, Direction>::empty(),
    {
        let (model, jetson_info, channel_data_by_mode) = get_data(model, jetson_info, pin_defs);
        let r = GPIO {
            model,
            jetson_info,
            channel_data_by_mode,
            channel_data: HashMap::new(),
            gpio_warnings: true,
            gpio_mode: None,
            channel_configuration: HashMap::new(),
        };
        proof {
            assert(r@.config.dom() =~= Set::<u32>::empty());
        }
        r
    }

    /// Turns the warnings printed during setup and cleanup on or off.
    pub fn setwarnings(&mut self, warnings: bool)
        ensures
            final(self)@ == (GpioState { warnings, ..old(self)@ }),
            final(self).model == old(self).model,
            final(self).jetson_info == old(self).jetson_info,
    {
        self.gpio_warnings = warnings;
    }

    /// Sets the pin numbering mode. Once a mode is set, only the same mode is
    /// accepted again; setting it selects the channel table of that mode.
    pub fn setmode(&mut self, mode: Mode) -> (r: Result<(), Error>)
        requires
            old(self)@.wf(),
        ensures
            (final(self)@, r) == old(self)@.setmode_next(mode),
            final(self)@.wf(),
            final(self).model == old(self).model,
            final(self).jetson_info == old(self).jetson_info,
    {
        if let Some(current_mode) = self.gpio_mode {
            if current_mode != mode {
                return Err(Error::DifferentModeSet);
            }
        }
        if !mode.is_valid() {
            return Err(Error::InvalidMode);
        }
        self.channel_data = self.channel_data_by_mode.table(mode).clone();
        self.gpio_mode = Some(mode);
        proof {
            assert(self@.tables =~= old(self)@.tables);
        }
        Ok(())
    }

    /// Returns the pin numbering mode, if one is set.
    pub fn getmode(&self) -> (r: Option<Mode>)
        ensures
            r == self@.mode,
    {
        self.gpio_mode
    }

    /// Succeeds when a pin numbering mode is set.
    pub fn validate_mode_set(&self) -> (r: Result<(), Error>)
        ensures
            r == (if self@.mode is Some { Ok(()) } else { Err(Error::ModeNotSet) }),
    {
        match self.gpio_mode {
            Some(_) => Ok(()),
            None => Err(Error::ModeNotSet),
        }
    }

    /// Looks a channel up in the current channel data, checking that it is a
    /// GPIO and that it has a PWM controller when asked to.
    pub fn channel_to_info_lookup(&self, channel: u32, need_gpio: bool, need_pwm: bool) -> (r: Result<
        &ChannelInfo,
        Error,
    >)
        ensures
            match r {
                Ok(c) => self@.lookup(channel, need_gpio, need_pwm) == Ok::<ChannelInfo, Error>(*c),
                Err(e) => self@.lookup(channel, need_gpio, need_pwm) == Err::<ChannelInfo, Error>(e),
            },
    {
        if !self.channel_data.contains_key(&channel) {
            return Err(Error::InvalidChannel(channel));
        }
        let ch_info = self.channel_data.get(&channel).unwrap();
        if need_gpio && ch_info.gpio_chip.as_str().is_empty() {
            return Err(Error::NotAGpio(channel));
        }
        if need_pwm && ch_info.pwm_chip_dir.is_none() {
            return Err(Error::NotAPwm(channel));
        }
        Ok(ch_info)
    }

    /// Looks a channel up once a numbering mode is set.
    pub fn channel_to_info(&self, channel: u32, need_gpio: bool, need_pwm: bool) -> (r: Result<
        &ChannelInfo,
        Error,
    >)
        ensures
            match r {
                Ok(c) => self@.lookup_all(seq![channel], need_gpio, need_pwm) == Ok::<Seq<ChannelInfo>, Error>(seq![*c]),
                Err(e) => self@.lookup_all(seq![channel], need_gpio, need_pwm) == Err::<Seq<ChannelInfo>, Error>(e),
            },
    {
        self.validate_mode_set()?;
        proof {
            assert(seq![channel].drop_last() =~= Seq::<u32>::empty());
            assert(self@.lookup_seq(Seq::<u32>::empty(), need_gpio, need_pwm) == Ok::<Seq<ChannelInfo>, Error>(Seq::empty()));
        }
        let r = self.channel_to_info_lookup(channel, need_gpio, need_pwm);
        proof {
            if let Ok(c) = r {
                assert(Seq::<ChannelInfo>::empty().push(*c) =~= seq![*c]);
            }
        }
        r
    }

    /// Looks channels up in order once a numbering mode is set, and returns
    /// copies of their descriptions.
    pub fn channels_to_infos(&self, channels: Vec<u32>, need_gpio: bool, need_pwm: bool) -> (r: Result<
        Vec<ChannelInfo>,
        Error,
    >)
        ensures
            match r {
                Ok(v) => self@.lookup_all(channels@, need_gpio, need_pwm) == Ok::<Seq<ChannelInfo>, Error>(v@),
                Err(e) => self@.lookup_all(channels@, need_gpio, need_pwm) == Err::<Seq<ChannelInfo>, Error>(e),
            },
    {
        self.validate_mode_set()?;
        let mut ret: Vec<ChannelInfo> = Vec::new();
        let n = channels.len();
        let mut i: usize = 0;
        while i < n
            invariant
                n == channels@.len(),
                i <= n,
                self@.mode is Some,
                self@.lookup_seq(channels@.take(i as int), need_gpio, need_pwm) == Ok::<Seq<ChannelInfo>, Error>(ret@),
            decreases n - i,
        {
            proof {
                assert(channels@.take(i + 1).drop_last() =~= channels@.take(i as int));
                assert(channels@.take(i + 1).last() == channels@[i as int]);
            }
            match self.channel_to_info_lookup(channels[i], need_gpio, need_pwm) {
                Ok(c) => {
                    ret.push(c.duplicate());
                },
                Err(e) => {
                    proof {
                        assert(self@.lookup_seq(channels@.take(i + 1), need_gpio, need_pwm) == Err::<Seq<ChannelInfo>, Error>(e));
                        lemma_lookup_seq_prefix_err(self@, channels@, i + 1, need_gpio, need_pwm);
                    }
                    return Err(e);
                },
            }
            i = i + 1;
        }
        proof {
            assert(channels@.take(n as int) =~= channels@);
        }
        Ok(ret)
    }

    /// Returns how this process configured a channel, if it did.
    pub fn app_channel_configuration(&self, ch_info: &ChannelInfo) -> (r: Option<Direction>)
        ensures
            r == config_get(self@.config, ch_info.channel),
    {
        match self.channel_configuration.get(&ch_info.channel) {
            Some(d) => Some(*d),
            None => None,
        }
    }
}

impl GPIO {
    /// Forgets the configuration of a channel and returns how to release it on
    /// the device.
    pub fn cleanup_one(&mut self, ch_info: ChannelInfo) -> (a: CleanupAction)
        ensures
            a == cleanup_action(config_get(old(self)@.config, ch_info.channel), ch_info),
            final(self)@ == (GpioState { config: old(self)@.config.remove(ch_info.channel), ..old(self)@ }),
            final(self).model == old(self).model,
            final(self).jetson_info == old(self).jetson_info,
            old(self)@.wf() ==> final(self)@.wf(),
    {
        let app_cfg = self.app_channel_configuration(&ch_info);
        let channel = ch_info.channel;
        let action = match app_cfg {
            Some(Direction::HardPwm) => CleanupAction::StopPwm(ch_info),
            _ => match ch_info.line_handle {
                Some(h) => CleanupAction::CloseLine(h),
                None => CleanupAction::Nothing,
            },
        };
        self.channel_configuration.remove(&channel);
        proof {
            assert(self@.tables =~= old(self)@.tables);
            if old(self)@.wf() && old(self)@.mode is None {
                assert(self@.config.dom() =~= Set::<u32>::empty());
            }
        }
        action
    }

    /// Prepares the setup of channels in a direction.
    ///
    /// The channels are looked up and the direction checked; channels that are
    /// already configured are released. An input with an initial level, or a
    /// PWM direction, is then refused; otherwise one line request per channel
    /// is returned, to be opened and recorded with [`GPIO::commit_line`].
    pub fn setup(
        &mut self,
        channels: Vec<u32>,
        direction: Direction,
        initial: Option<Level>,
        consumer: Option<&str>,
    ) -> (r: Result<SetupPlan, Error>)
        requires
            old(self)@.wf(),
        ensures
            final(self)@.wf(),
            final(self).model == old(self).model,
            final(self).jetson_info == old(self).jetson_info,
            match old(self)@.lookup_all(channels@, true, false) {
                Err(e) => r == Err::<SetupPlan, Error>(e) && final(self)@ == old(self)@,
                Ok(infos) => if direction == Direction::UNKNOWN {
                    r == Err::<SetupPlan, Error>(Error::InvalidDirection) && final(self)@ == old(self)@
                } else {
                    let consumer_bytes = match consumer {
                        Some(c) => c.spec_bytes(),
                        None => default_consumer_bytes(),
                    };
                    let (config, actions) = cleanup_configured(old(self)@.config, infos);
                    &&& final(self)@ == (GpioState { config, ..old(self)@ })
                    &&& r matches Ok(plan)
                    &&& plan.cleanups@ == actions
                    &&& match direction {
                        Direction::OUT => plan.lines matches Ok(lines) && requests_for(
                            lines@,
                            infos,
                            GPIOHANDLE_REQUEST_OUTPUT,
                            level_value(initial),
                            consumer_bytes,
                        ),
                        Direction::IN => if initial is Some {
                            plan.lines == Err::<Vec<LineSetup>, Error>(Error::InitialForInput)
                        } else {
                            plan.lines matches Ok(lines) && requests_for(
                                lines@,
                                infos,
                                GPIOHANDLE_REQUEST_INPUT,
                                None,
                                consumer_bytes,
                            )
                        },
                        _ => plan.lines == Err::<Vec<LineSetup>, Error>(Error::UnsupportedDirection),
                    }
                },
            },
    {
        let ch_infos = self.channels_to_infos(channels, true, false)?;
        if !direction.is_valid() {
            return Err(Error::InvalidDirection);
        }
        let consumer: &str = match consumer {
            Some(c) => c,
            None => "jetsongpio-rs",
        };
        let ghost infos = ch_infos@;
        let n = ch_infos.len();
        let mut cleanups: Vec<CleanupAction> = Vec::new();
        let mut i: usize = 0;
        while i < n
            invariant
                n == infos.len(),
                infos == ch_infos@,
                i <= n,
                self@.wf(),
                self.model == old(self).model,
                self.jetson_info == old(self).jetson_info,
                old(self)@.lookup_all(channels@, true, false) == Ok::<Seq<ChannelInfo>, Error>(infos),
                ({
                    let (config, actions) = cleanup_configured(old(self)@.config, infos.take(i as int));
                    self@ == (GpioState { config, ..old(self)@ }) && cleanups@ == actions
                }),
            decreases n - i,
        {
            proof {
                assert(infos.take(i + 1).drop_last() =~= infos.take(i as int));
                assert(infos.take(i + 1).last() == infos[i as int]);
            }
            if self.channel_configuration.contains_key(&ch_infos[i].channel) {
                let a = self.cleanup_one(ch_infos[i].duplicate());
                cleanups.push(a);
            }
            i = i + 1;
        }
        proof {
            assert(infos.take(n as int) =~= infos);
        }
        let lines: Result<Vec<LineSetup>, Error> = match direction {
            Direction::OUT => {
                let init: Option<u8> = match initial {
                    Some(l) => Some(l.to_value()),
                    None => None,
                };
                Ok(self.line_requests(&ch_infos, GPIOHANDLE_REQUEST_OUTPUT, init, consumer))
            },
            Direction::IN => {
                if initial.is_some() {
                    Err(Error::InitialForInput)
                } else {
                    Ok(self.line_requests(&ch_infos, GPIOHANDLE_REQUEST_INPUT, None, consumer))
                }
            },
            _ => Err(Error::UnsupportedDirection),
        };
        Ok(SetupPlan { cleanups, lines })
    }

    /// Builds one line request per channel.
    fn line_requests(&self, ch_infos: &Vec<ChannelInfo>, flag: u32, initial: Option<u8>, consumer: &str) -> (r: Vec<
        LineSetup,
    >)
        requires
            flag == GPIOHANDLE_REQUEST_OUTPUT || initial is None,
        ensures
            requests_for(r@, ch_infos@, flag, initial, consumer.spec_bytes()),
    {
        let mut lines: Vec<LineSetup> = Vec::new();
        let n = ch_infos.len();
        let mut i: usize = 0;
        while i < n
            invariant
                n == ch_infos@.len(),
                i <= n,
                flag == GPIOHANDLE_REQUEST_OUTPUT || initial is None,
                lines@.len() == i,
                forall|k: int| 0 <= k < i ==> {
                    &&& (#[trigger] lines@[k]).ch_info == ch_infos@[k]
                    &&& is_handle_request(lines@[k].request, ch_infos@[k].line_offset, flag, initial, consumer.spec_bytes())
                },
            decreases n - i,
        {
            let ch = ch_infos[i].duplicate();
            match request_handle(ch.line_offset, flag, initial, consumer) {
                Ok(request) => {
                    lines.push(LineSetup { ch_info: ch, request });
                },
                Err(_) => {
                    proof {
                        assert(false);
                    }
                },
            }
            i = i + 1;
        }
        lines
    }

    /// Records that the line of a channel was opened on the device in direction
    /// `direction`, with the given chip and line descriptors.
    pub fn commit_line(&mut self, ch_info: ChannelInfo, direction: u32, chip_fd: i32, line_handle: i32)
        requires
            old(self)@.wf(),
            old(self)@.mode is Some,
            old(self)@.channel_data.contains_key(ch_info.channel),
        ensures
            final(self)@.wf(),
            final(self).model == old(self).model,
            final(self).jetson_info == old(self).jetson_info,
            final(self)@ == old(self)@.commit_next(ch_info, direction, chip_fd, line_handle),
    {
        let mut ch_info = ch_info;
        ch_info.chip_fd = Some(chip_fd);
        ch_info.line_handle = Some(line_handle);
        let channel = ch_info.channel;
        self.channel_configuration.insert(channel, Direction::from_cdev(direction as i32));
        self.channel_data.insert(channel, ch_info);
        proof {
            assert(self@.tables =~= old(self)@.tables);
            assert(self@.channel_data.dom() =~= old(self)@.channel_data.dom());
        }
    }
}

/// The release of channel `k` of a state, as `cleanup` of all channels does it.
pub open spec fn release_of(s: GpioState, k: u32) -> CleanupAction {
    cleanup_action(config_get(s.config, k), s.channel_data[k])
}

impl GPIO {
    /// Collects the channel numbers of the current channel data.
    fn channel_keys(&self) -> (keys: Vec<u32>)
        ensures
            keys@.no_duplicates(),
            keys@.to_set() == self@.channel_data.dom(),
    {
        let mut keys: Vec<u32> = Vec::new();
        let ghost ks = vstd::std_specs::hash::spec_keys_iter(&self.channel_data).remaining();
        for k in it: self.channel_data.keys()
            invariant
                it.seq() == ks,
                keys@ == ks.take(it.index()).map_values(|r: &u32| *r),
        {
            proof {
                assert(ks.take(it.index() + 1).map_values(|r: &u32| *r) =~= keys@.push(*k));
            }
            keys.push(*k);
        }
        proof {
            assert(keys@ =~= ks.map_values(|r: &u32| *r));
            assert(keys@ =~= ks.unref());
            assert(keys@.no_duplicates()) by {
                assert forall|a: int, b: int| 0 <= a < keys@.len() && 0 <= b < keys@.len() && a != b
                    implies keys@[a] != keys@[b] by {
                    assert(ks[a] != ks[b]);
                }
            }
        }
        keys
    }

    /// Releases every channel of the current channel data and unsets the mode.
    fn cleanup_all(&mut self) -> (acts: Vec<CleanupAction>)
        requires
            old(self)@.wf(),
        ensures
            final(self)@.wf(),
            final(self).model == old(self).model,
            final(self).jetson_info == old(self).jetson_info,
            final(self)@ == (GpioState { mode: None, config: Map::empty(), ..old(self)@ }),
            exists|ks: Seq<u32>|
                ks.no_duplicates() && ks.to_set() == old(self)@.channel_data.dom() && acts@ == ks.map_values(
                    |k: u32| release_of(old(self)@, k),
                ),
    {
        let keys = self.channel_keys();
        let ghost s0 = self@;
        let mut acts: Vec<CleanupAction> = Vec::new();
        let n = keys.len();
        let mut j: usize = 0;
        while j < n
            invariant
                n == keys@.len(),
                j <= n,
                keys@.no_duplicates(),
                keys@.to_set() == s0.channel_data.dom(),
                s0.wf(),
                self.model == old(self).model,
                self.jetson_info == old(self).jetson_info,
                self@ == (GpioState { config: self@.config, ..s0 }),
                forall|k: u32| #[trigger] self@.config.contains_key(k) <==> s0.config.contains_key(k)
                    && !keys@.take(j as int).contains(k),
                forall|k: u32| #[trigger] self@.config.contains_key(k) ==> self@.config[k] == s0.config[k],
                acts@ == keys@.take(j as int).map_values(|k: u32| release_of(s0, k)),
            decreases n - j,
        {
            let k = keys[j];
            proof {
                assert(keys@.to_set().contains(k));
                assert(!keys@.take(j as int).contains(k)) by {
                    if keys@.take(j as int).contains(k) {
                        let a = choose|a: int| 0 <= a < j && #[trigger] keys@.take(j as int)[a] == k;
                        assert(keys@[a] == keys@[j as int]);
                    }
                }
            }
            let ci = self.channel_data.get(&k).unwrap().duplicate();
            proof {
                assert(config_get(self@.config, k) == config_get(s0.config, k));
                assert(ci.channel == k);
            }
            let a = self.cleanup_one(ci);
            acts.push(a);
            proof {
                assert(keys@.take(j + 1) =~= keys@.take(j as int).push(k));
                assert forall|k2: u32| #[trigger] keys@.take(j + 1).contains(k2)
                    <==> (keys@.take(j as int).contains(k2) || k2 == k) by {
                    if keys@.take(j + 1).contains(k2) && k2 != k {
                        let a = choose|a: int| 0 <= a < j + 1 && #[trigger] keys@.take(j + 1)[a] == k2;
                        assert(keys@.take(j as int)[a] == k2);
                    }
                    if k2 == k {
                        assert(keys@.take(j + 1)[j as int] == k);
                    }
                    if keys@.take(j as int).contains(k2) {
                        let a = choose|a: int| 0 <= a < j && #[trigger] keys@.take(j as int)[a] == k2;
                        assert(keys@.take(j + 1)[a] == k2);
                    }
                }
                assert(acts@ =~= keys@.take(j + 1).map_values(|k: u32| release_of(s0, k)));
            }
            j = j + 1;
        }
        self.gpio_mode = None;
        proof {
            assert(keys@.take(n as int) =~= keys@);
            assert(self@.config =~= Map::<u32, Direction>::empty()) by {
                assert forall|k: u32| !self@.config.contains_key(k) by {
                    if s0.config.contains_key(k) {
                        assert(keys@.to_set().contains(k));
                    }
                }
            }
            assert(self@.config.dom() =~= Set::<u32>::empty());
        }
        acts
    }
}

impl GPIO {
    /// Cleans channels up: all of them when `channels` is `None`, which also
    /// unsets the mode and removes every edge detection from `events`, or the
    /// listed ones that are configured. Without a mode nothing was set up, and
    /// nothing is done.
    pub fn cleanup(&mut self, channels: Option<Vec<u32>>, events: &mut EventManager) -> (r: Result<CleanupPlan, Error>)
        requires
            old(self)@.wf(),
        ensures
            final(self)@.wf(),
            final(self).model == old(self).model,
            final(self).jetson_info == old(self).jetson_info,
            !(old(self)@.mode is Some && channels is None) ==> final(events)@ == old(events)@,
            old(self)@.mode is None ==> {
                &&& final(self)@ == old(self)@
                &&& r matches Ok(CleanupPlan::NothingSetUp { warn })
                &&& warn == old(self)@.warnings
            },
            old(self)@.mode is Some && channels is None ==> {
                &&& final(self)@ == (GpioState { mode: None, config: Map::empty(), ..old(self)@ })
                &&& final(events)@ == Map::<(Seq<char>, u32), EventRecord>::empty()
                &&& r matches Ok(CleanupPlan::All { actions: acts, detections })
                &&& exists|ks: Seq<u32>|
                    ks.no_duplicates() && ks.to_set() == old(self)@.channel_data.dom() && acts@
                        == ks.map_values(|k: u32| release_of(old(self)@, k))
                &&& key_pairs_view(detections@).no_duplicates()
                &&& key_pairs_view(detections@).to_set() == old(events)@.dom()
            },
            old(self)@.mode is Some && channels is Some ==> match old(self)@.lookup_all(
                channels.unwrap()@,
                false,
                false,
            ) {
                Err(e) => r == Err::<CleanupPlan, Error>(e) && final(self)@ == old(self)@,
                Ok(infos) => {
                    let (config, actions) = cleanup_seq(old(self)@.config, configured_only(old(self)@.config, infos));
                    &&& final(self)@ == (GpioState { config, ..old(self)@ })
                    &&& r matches Ok(CleanupPlan::Channels(acts))
                    &&& acts@ == actions
                },
            },
    {
        if self.gpio_mode.is_none() {
            return Ok(CleanupPlan::NothingSetUp { warn: self.gpio_warnings });
        }
        let list = match channels {
            None => {
                let acts = self.cleanup_all();
                let detections = events.clear();
                return Ok(CleanupPlan::All { actions: acts, detections });
            },
            Some(list) => list,
        };
        let ch_infos = self.channels_to_infos(list, false, false)?;
        let ghost infos = ch_infos@;
        let ghost s0 = self@;
        let n = ch_infos.len();
        let mut to_clean: Vec<ChannelInfo> = Vec::new();
        let mut i: usize = 0;
        while i < n
            invariant
                n == infos.len(),
                infos == ch_infos@,
                i <= n,
                self@ == s0,
                to_clean@ == configured_only(s0.config, infos.take(i as int)),
            decreases n - i,
        {
            proof {
                assert(infos.take(i + 1).drop_last() =~= infos.take(i as int));
                assert(infos.take(i + 1).last() == infos[i as int]);
            }
            if self.channel_configuration.contains_key(&ch_infos[i].channel) {
                to_clean.push(ch_infos[i].duplicate());
            }
            i = i + 1;
        }
        proof {
            assert(infos.take(n as int) =~= infos);
        }
        let m = to_clean.len();
        let mut acts: Vec<CleanupAction> = Vec::new();
        let mut j: usize = 0;
        while j < m
            invariant
                m == to_clean@.len(),
                j <= m,
                s0.wf(),
                self.model == old(self).model,
                self.jetson_info == old(self).jetson_info,
                ({
                    let (config, actions) = cleanup_seq(s0.config, to_clean@.take(j as int));
                    self@ == (GpioState { config, ..s0 }) && acts@ == actions
                }),
            decreases m - j,
        {
            proof {
                assert(to_clean@.take(j + 1).drop_last() =~= to_clean@.take(j as int));
                assert(to_clean@.take(j + 1).last() == to_clean@[j as int]);
            }
            let a = self.cleanup_one(to_clean[j].duplicate());
            acts.push(a);
            j = j + 1;
        }
        proof {
            assert(to_clean@.take(m as int) =~= to_clean@);
            let (config, actions) = cleanup_seq(s0.config, to_clean@);
            lemma_cleanup_seq_config(s0.config, to_clean@);
            assert(self@.config.dom() =~= config.dom());
        }
        Ok(CleanupPlan::Channels(acts))
    }

    /// Returns the line handle from which the level of a channel is read: the
    /// channel must be a GPIO set up as an input or an output, with an open line.
    /// The value read from the line gives the level by [`Level::from_value`].
    pub fn input(&self, channel: u32) -> (r: Result<i32, Error>)
        requires
            self@.wf(),
        ensures
            r == self@.input_result(channel),
    {
        let ch_info = self.channel_to_info(channel, true, false)?;
        let app_cfg = self.app_channel_configuration(ch_info);
        proof {
            lemma_lookup_single(self@, channel, true, false);
            lemma_lookup_single(self@, channel, false, false);
            assert(seq![*ch_info][0] == *ch_info);
            assert(ch_info.channel == channel);
        }
        match app_cfg {
            Some(Direction::IN) | Some(Direction::OUT) => {},
            _ => {
                return Err(Error::NotSetUp);
            },
        }
        match ch_info.line_handle {
            Some(h) => Ok(h),
            None => Err(Error::LineHandleMissing),
        }
    }

    /// Plans the writes of `output`: every channel must be a GPIO set up as an
    /// output, with one value per channel.
    pub fn output(&self, channels: Vec<u32>, values: Vec<Level>) -> (r: Result<OutputPlan, Error>)
        ensures
            match self@.lookup_all(channels@, true, false) {
                Err(e) => r matches Err(e2) && e2 == e,
                Ok(infos) => if values@.len() != infos.len() {
                    r matches Err(e) && e == Error::ValueCountMismatch
                } else if exists|i: int|
                    0 <= i < infos.len() && config_get(self@.config, #[trigger] infos[i].channel) != Some(
                        Direction::OUT,
                    ) {
                    r matches Err(e) && e == Error::NotAnOutput
                } else {
                    r matches Ok(plan) && (plan.writes@, plan.missing_handle) == output_writes(infos, values@)
                },
            },
    {
        let ch_infos = self.channels_to_infos(channels, true, false)?;
        if values.len() != ch_infos.len() {
            return Err(Error::ValueCountMismatch);
        }
        let n = ch_infos.len();
        let mut i: usize = 0;
        let mut all_out = true;
        while i < n && all_out
            invariant
                n == ch_infos@.len(),
                i <= n,
                all_out ==> forall|k: int| 0 <= k < i ==> config_get(self@.config, #[trigger] ch_infos@[k].channel) == Some(
                    Direction::OUT,
                ),
                !all_out ==> exists|k: int| 0 <= k < n && config_get(self@.config, #[trigger] ch_infos@[k].channel) != Some(
                    Direction::OUT,
                ),
            decreases n - i,
        {
            let app_cfg = self.app_channel_configuration(&ch_infos[i]);
            if app_cfg != Some(Direction::OUT) {
                all_out = false;
                proof {
                    assert(config_get(self@.config, ch_infos@[i as int].channel) != Some(Direction::OUT));
                }
            }
            i = i + 1;
        }
        if !all_out {
            return Err(Error::NotAnOutput);
        }
        let mut writes: Vec<(i32, u8)> = Vec::new();
        let mut k: usize = 0;
        let mut missing = false;
        while k < n && !missing
            invariant
                n == ch_infos@.len(),
                n == values@.len(),
                k <= n,
                (writes@, missing) == output_writes(ch_infos@.take(k as int), values@),
            decreases n - k,
        {
            proof {
                assert(ch_infos@.take(k + 1).drop_last() =~= ch_infos@.take(k as int));
                assert(ch_infos@.take(k + 1).last() == ch_infos@[k as int]);
            }
            match ch_infos[k].line_handle {
                Some(h) => {
                    writes.push((h, values[k].to_value()));
                },
                None => {
                    missing = true;
                },
            }
            k = k + 1;
        }
        proof {
            lemma_output_writes_stop(ch_infos@, values@, k as int);
        }
        Ok(OutputPlan { writes, missing_handle: missing })
    }

    /// Returns how a channel is configured, `UNKNOWN` when it is not.
    pub fn gpio_function(&self, channel: u32) -> (r: Result<Direction, Error>)
        requires
            self@.wf(),
        ensures
            r == self@.function_result(channel),
    {
        let ch_info = self.channel_to_info(channel, false, false)?;
        proof {
            lemma_lookup_single(self@, channel, true, false);
            lemma_lookup_single(self@, channel, false, false);
            assert(seq![*ch_info][0] == *ch_info);
            assert(ch_info.channel == channel);
        }
        let func = self.app_channel_configuration(ch_info);
        Ok(
            match func {
                Some(d) => d,
                None => Direction::UNKNOWN,
            },
        )
    }
}

/// Releasing channels in turn only removes configurations: the result has the
/// same entries as before except for the released channels.
pub proof fn lemma_cleanup_seq_config(config: Map<u32, Direction>, infos: Seq<ChannelInfo>)
    ensures
        forall|k: u32| #[trigger] cleanup_seq(config, infos).0.contains_key(k) ==> config.contains_key(k)
            && cleanup_seq(config, infos).0[k] == config[k],
    decreases infos.len(),
{
    if infos.len() > 0 {
        lemma_cleanup_seq_config(config, infos.drop_last());
        let (c, a) = cleanup_seq(config, infos.drop_last());
        let c2 = cleanup_seq(config, infos).0;
        assert(c2 == c.remove(infos.last().channel));
        assert forall|k: u32| #[trigger] c2.contains_key(k) implies config.contains_key(k) && c2[k] == config[k] by {
            assert(c.contains_key(k));
        }
    }
}

/// Once a channel without a line handle is met, later channels add no write.
pub proof fn lemma_output_writes_stop(infos: Seq<ChannelInfo>, values: Seq<Level>, k: int)
    requires
        0 <= k <= infos.len(),
        k == infos.len() || output_writes(infos.take(k), values).1,
    ensures
        output_writes(infos, values) == output_writes(infos.take(k), values),
    decreases infos.len(),
{
    if k == infos.len() {
        assert(infos.take(k) =~= infos);
    } else {
        assert(infos.drop_last().take(k) =~= infos.take(k));
        lemma_output_writes_stop(infos.drop_last(), values, k);
    }
}

impl GPIO {
    /// Claims a channel for a hardware PWM: a mode must be set and the channel
    /// must have a PWM controller and no PWM yet. A channel set up as a GPIO is
    /// released first.
    pub fn pwm_claim(&mut self, channel: u32) -> (r: Result<PwmClaim, Error>)
        requires
            old(self)@.wf(),
        ensures
            final(self)@.wf(),
            final(self).model == old(self).model,
            final(self).jetson_info == old(self).jetson_info,
            ({
                let (next, res) = old(self)@.pwm_claim_next(channel);
                &&& final(self)@ == next
                &&& match res {
                    Err(e) => r == Err::<PwmClaim, Error>(e),
                    Ok((ch, acts)) => r matches Ok(claim) && claim.ch_info == ch && match acts {
                        None => claim.cleanup is None,
                        Some(a) => claim.cleanup matches Some(v) && v@ == a,
                    },
                }
            }),
    {
        self.validate_mode_set()?;
        let ch_info = self.channel_to_info_lookup(channel, false, true)?.duplicate();
        proof {
            assert(ch_info.channel == channel);
        }
        let app_cfg = self.app_channel_configuration(&ch_info);
        if app_cfg == Some(Direction::HardPwm) {
            return Err(Error::DuplicatePwm);
        }
        let cleanup = if app_cfg == Some(Direction::OUT) || app_cfg == Some(Direction::IN) {
            let a = self.cleanup_one(ch_info.duplicate());
            let mut acts: Vec<CleanupAction> = Vec::new();
            acts.push(a);
            proof {
                assert(acts@ =~= seq![cleanup_action(app_cfg, ch_info)]);
            }
            Some(acts)
        } else {
            None
        };
        Ok(PwmClaim { ch_info, cleanup })
    }

    /// Records that a channel now drives a hardware PWM.
    pub fn mark_hard_pwm(&mut self, channel: u32)
        requires
            old(self)@.wf(),
            old(self)@.mode is Some,
            old(self)@.channel_data.contains_key(channel),
        ensures
            final(self)@.wf(),
            final(self).model == old(self).model,
            final(self).jetson_info == old(self).jetson_info,
            final(self)@ == (GpioState { config: old(self)@.config.insert(channel, Direction::HardPwm), ..old(self)@ }),
    {
        self.channel_configuration.insert(channel, Direction::HardPwm);
        proof {
            assert(self@.tables =~= old(self)@.tables);
        }
    }
}

/// The device steps of one reconfiguration of a hardware PWM.
#[derive(Debug, Clone, Copy, PartialEq, Eq, Structural)]
pub struct PwmSteps {
    /// Disable the running PWM first.
    pub disable_first: bool,
    /// Write a new period (after zeroing the duty cycle).
    pub set_period: bool,
    /// Enable the PWM at the end.
    pub enable_after: bool,
}

/// Whether a PWM runs after a reconfiguration with the given steps.
pub open spec fn started_after(started: bool, steps: PwmSteps) -> bool {
    if steps.enable_after {
        true
    } else if steps.disable_first {
        false
    } else {
        started
    }
}

/// Decides the steps of a reconfiguration: a new period is written when the
/// PWM is started or its frequency changes, which first disables a running
/// PWM; the PWM is enabled again at the end when it was disabled or is
/// being started.
pub fn pwm_steps(started: bool, start: bool, frequency_changed: bool) -> (r: PwmSteps)
    ensures
        r.set_period == (start || frequency_changed),
        r.disable_first == (started && (start || frequency_changed)),
        r.enable_after == (r.disable_first || start),
        start ==> started_after(started, r),
        !start ==> started_after(started, r) == started,
{
    let freq_change = start || frequency_changed;
    let stop = started && freq_change;
    PwmSteps { disable_first: stop, set_period: freq_change, enable_after: stop || start }
}

/// The character of a decimal digit.
pub open spec fn digit_char(d: nat) -> char {
    seq!['0', '1', '2', '3', '4', '5', '6', '7', '8', '9'][d as int]
}

/// The decimal notation of a number, without leading zeros.
pub open spec fn decimal(n: nat) -> Seq<char>
    decreases n,
{
    if n < 10 {
        seq![digit_char(n)]
    } else {
        decimal(n / 10) + seq![digit_char(n % 10)]
    }
}

/// The string of one decimal digit.
fn digit_str(d: u32) -> (r: &'static str)
    requires
        d < 10,
    ensures
        r@ == seq![digit_char(d as nat)],
{
    proof {
        reveal_strlit("0");
        reveal_strlit("1");
        reveal_strlit("2");
        reveal_strlit("3");
        reveal_strlit("4");
        reveal_strlit("5");
        reveal_strlit("6");
        reveal_strlit("7");
        reveal_strlit("8");
        reveal_strlit("9");
    }
    match d {
        0 => "0",
        1 => "1",
        2 => "2",
        3 => "3",
        4 => "4",
        5 => "5",
        6 => "6",
        7 => "7",
        8 => "8",
        _ => "9",
    }
}

/// Appends the decimal notation of a number.
pub fn push_decimal(s: &mut String, n: u32)
    ensures
        final(s)@ == old(s)@ + decimal(n as nat),
    decreases n,
{
    if n >= 10 {
        push_decimal(s, n / 10);
        s.append(digit_str(n % 10));
        proof {
            assert(final(s)@ =~= old(s)@ + decimal(n as nat)) by {
                assert(decimal(n as nat) == decimal((n / 10) as nat) + seq![digit_char((n % 10) as nat)]);
            }
        }
    } else {
        s.append(digit_str(n));
    }
}

/// The sysfs directory of the PWM chip of a channel, empty when it has none.
pub open spec fn pwm_chip_dir_of(ch: ChannelInfo) -> Seq<char> {
    match ch.pwm_chip_dir {
        Some(d) => d@,
        None => Seq::empty(),
    }
}

/// The sysfs directory of the PWM of a channel.
pub open spec fn spec_pwm_path(ch: ChannelInfo) -> Seq<char> {
    pwm_chip_dir_of(ch) + "/pwm"@ + decimal(ch.pwm_id.unwrap_or(0u32) as nat)
}

/// Returns the sysfs directory of the PWM of a channel.
pub fn pwm_path(ch_info: &ChannelInfo) -> (r: String)
    ensures
        r@ == spec_pwm_path(*ch_info),
{
    let mut s = String::new();
    match &ch_info.pwm_chip_dir {
        Some(d) => s.append(d.as_str()),
        None => {},
    }
    s.append("/pwm");
    let id: u32 = match ch_info.pwm_id {
        Some(i) => i,
        None => 0,
    };
    push_decimal(&mut s, id);
    proof {
        assert(s@ =~= spec_pwm_path(*ch_info));
    }
    s
}

/// Returns the export file of the PWM chip of a channel.
pub fn pwm_export_path(ch_info: &ChannelInfo) -> (r: String)
    ensures
        r@ == pwm_chip_dir_of(*ch_info) + "/export"@,
{
    let mut s = String::new();
    match &ch_info.pwm_chip_dir {
        Some(d) => s.append(d.as_str()),
        None => {},
    }
    s.append("/export");
    proof {
        assert(s@ =~= pwm_chip_dir_of(*ch_info) + "/export"@);
    }
    s
}

/// Returns the unexport file of the PWM chip of a channel.
pub fn pwm_unexport_path(ch_info: &ChannelInfo) -> (r: String)
    ensures
        r@ == pwm_chip_dir_of(*ch_info) + "/unexport"@,
{
    let mut s = String::new();
    match &ch_info.pwm_chip_dir {
        Some(d) => s.append(d.as_str()),
        None => {},
    }
    s.append("/unexport");
    proof {
        assert(s@ =~= pwm_chip_dir_of(*ch_info) + "/unexport"@);
    }
    s
}

/// Returns the period file of the PWM of a channel.
pub fn pwm_period_path(ch_info: &ChannelInfo) -> (r: String)
    ensures
        r@ == spec_pwm_path(*ch_info) + "/period"@,
{
    let mut s = pwm_path(ch_info);
    s.append("/period");
    s
}

/// Returns the duty cycle file of the PWM of a channel.
pub fn pwm_duty_cycle_path(ch_info: &ChannelInfo) -> (r: String)
    ensures
        r@ == spec_pwm_path(*ch_info) + "/duty_cycle"@,
{
    let mut s = pwm_path(ch_info);
    s.append("/duty_cycle");
    s
}

/// Returns the enable file of the PWM of a channel.
pub fn pwm_enable_path(ch_info: &ChannelInfo) -> (r: String)
    ensures
        r@ == spec_pwm_path(*ch_info) + "/enable"@,
{
    let mut s = pwm_path(ch_info);
    s.append("/enable");
    s
}

} // verus!
