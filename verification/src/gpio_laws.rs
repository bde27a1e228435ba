//! Properties of the GPIO bookkeeping that span several operations.
use crate::error::Error;
use crate::cli::mux_register_of;
use crate::gpio::{
    cleanup_configured, cleanup_seq, config_get, configured_only, level_value, output_writes,
    requests_for, CleanupAction, Direction, GpioState, Level, LineSetup,
};
use crate::gpio_cdev::{GPIOHANDLE_REQUEST_INPUT, GPIOHANDLE_REQUEST_OUTPUT};
use crate::gpio_event::{
    add_next, detect_next, lemma_record_all, record_all, record_next, spec_debounce, spec_read_outcome,
    wait_run, EventRecord, ReadOutcome, WaitAction,
};
use crate::gpio_pin_data::{
    env_model, first_matching, first_named, lex_less, mode_table, pin_key, revision_of, spec_select_model,
    string_hash, ChannelInfo, GpioPin, GpioPinView, Mode, ModelChoice,
};
use vstd::prelude::*;

verus! {

/// Setting a mode when none is set, or the same mode again, succeeds, and the
/// mode is then the one set.
pub proof fn law_setmode_sets_mode(s: GpioState, mode: Mode)
    requires
        s.wf(),
        s.mode is None || s.mode == Some(mode),
    ensures
        s.setmode_next(mode).1 == Ok::<(), Error>(()),
        s.setmode_next(mode).0.mode == Some(mode),
        s.setmode_next(mode).0.wf(),
{
}

/// Once a mode is set, setting another mode is refused and changes nothing.
pub proof fn law_mode_is_locked(s: GpioState, m1: Mode, m2: Mode)
    requires
        s.wf(),
        s.setmode_next(m1).1 is Ok,
        m1 != m2,
    ensures
        s.setmode_next(m1).0.setmode_next(m2) == (s.setmode_next(m1).0, Err::<(), Error>(Error::DifferentModeSet)),
{
}

/// Setting the same mode again succeeds and keeps the mode and the
/// configuration of every channel.
pub proof fn law_setmode_again_keeps_configuration(s: GpioState, mode: Mode)
    requires
        s.wf(),
        s.setmode_next(mode).1 is Ok,
    ensures
        ({
            let s1 = s.setmode_next(mode).0;
            &&& s1.setmode_next(mode).1 == Ok::<(), Error>(())
            &&& s1.setmode_next(mode).0.mode == s1.mode
            &&& s1.setmode_next(mode).0.config == s1.config
        }),
{
}

/// Records the opening of each planned line in turn, with the descriptors of `handles`.
pub open spec fn commit_all(s: GpioState, lines: Seq<LineSetup>, handles: Seq<(i32, i32)>) -> GpioState
    decreases lines.len(),
{
    if lines.len() == 0 {
        s
    } else {
        let i = lines.len() - 1;
        commit_all(s, lines.drop_last(), handles).commit_next(
            lines[i].ch_info,
            lines[i].request.flags,
            handles[i].0,
            handles[i].1,
        )
    }
}

/// Committing lines keeps the numbering mode and the channels known, and gives
/// each committed channel the direction of the last line committed for it.
proof fn lemma_commit_all(s: GpioState, lines: Seq<LineSetup>, handles: Seq<(i32, i32)>, flag: u32)
    requires
        forall|i: int| 0 <= i < lines.len() ==> s.channel_data.contains_key(#[trigger] lines[i].ch_info.channel),
        forall|i: int| 0 <= i < lines.len() ==> (#[trigger] lines[i]).request.flags == flag,
    ensures
        commit_all(s, lines, handles).mode == s.mode,
        commit_all(s, lines, handles).tables == s.tables,
        commit_all(s, lines, handles).channel_data.dom() == s.channel_data.dom(),
        forall|i: int| 0 <= i < lines.len() ==> config_get(
            commit_all(s, lines, handles).config,
            #[trigger] lines[i].ch_info.channel,
        ) == Some(Direction::spec_from_cdev(flag as i32)),
    decreases lines.len(),
{
    if lines.len() > 0 {
        let n = lines.len() - 1;
        assert forall|i: int| 0 <= i < lines.drop_last().len() implies s.channel_data.contains_key(
            #[trigger] lines.drop_last()[i].ch_info.channel,
        ) by {
            assert(lines.drop_last()[i] == lines[i]);
        }
        assert forall|i: int| 0 <= i < lines.drop_last().len() implies (#[trigger] lines.drop_last()[i]).request.flags
            == flag by {
            assert(lines.drop_last()[i] == lines[i]);
        }
        lemma_commit_all(s, lines.drop_last(), handles, flag);
        let prev = commit_all(s, lines.drop_last(), handles);
        assert(commit_all(s, lines, handles).channel_data.dom() =~= prev.channel_data.dom());
        assert forall|i: int| 0 <= i < lines.len() implies config_get(
            commit_all(s, lines, handles).config,
            #[trigger] lines[i].ch_info.channel,
        ) == Some(Direction::spec_from_cdev(flag as i32)) by {
            if i < n {
                assert(lines.drop_last()[i] == lines[i]);
            }
        }
    }
}

/// After `setup` of GPIO channels as outputs or inputs and the opening of each
/// planned line, every channel reports the requested direction.
pub proof fn law_setup_configures_channels(
    s: GpioState,
    channels: Seq<u32>,
    flag: u32,
    initial: Option<u8>,
    consumer: Seq<u8>,
    lines: Seq<LineSetup>,
    handles: Seq<(i32, i32)>,
)
    requires
        s.wf(),
        s.lookup_all(channels, true, false) is Ok,
        flag == GPIOHANDLE_REQUEST_OUTPUT || flag == GPIOHANDLE_REQUEST_INPUT,
        requests_for(lines, s.lookup_all(channels, true, false).unwrap(), flag, initial, consumer),
    ensures
        ({
            let infos = s.lookup_all(channels, true, false).unwrap();
            let s1 = GpioState { config: cleanup_configured(s.config, infos).0, ..s };
            let s2 = commit_all(s1, lines, handles);
            forall|i: int| 0 <= i < channels.len() ==> (#[trigger] s2.function_result(channels[i])) == Ok::<
                Direction,
                Error,
            >(if flag == GPIOHANDLE_REQUEST_OUTPUT { Direction::OUT } else { Direction::IN })
        }),
{
    let infos = s.lookup_all(channels, true, false).unwrap();
    let s1 = GpioState { config: cleanup_configured(s.config, infos).0, ..s };
    let s2 = commit_all(s1, lines, handles);
    crate::gpio::lemma_lookup_seq_ok(s, channels, true, false);
    assert forall|i: int| 0 <= i < lines.len() implies s1.channel_data.contains_key(
        #[trigger] lines[i].ch_info.channel,
    ) && lines[i].ch_info.channel == channels[i] by {
        assert(s.lookup(channels[i], true, false) == Ok::<ChannelInfo, Error>(infos[i]));
    }
    lemma_commit_all(s1, lines, handles, flag);
    assert forall|i: int| 0 <= i < channels.len() implies (#[trigger] s2.function_result(channels[i])) == Ok::<
        Direction,
        Error,
    >(if flag == GPIOHANDLE_REQUEST_OUTPUT { Direction::OUT } else { Direction::IN }) by {
        assert(s.lookup(channels[i], true, false) == Ok::<ChannelInfo, Error>(infos[i]));
        assert(lines[i].ch_info.channel == channels[i]);
        crate::gpio::lemma_lookup_single(s2, channels[i], false, false);
        assert(s2.channel_data.contains_key(channels[i]));
    }
}

/// Releasing a list of descriptions removes each of their channels and adds no
/// configuration.
proof fn lemma_cleanup_seq_removes(config: Map<u32, Direction>, infos: Seq<ChannelInfo>)
    ensures
        forall|k: u32| #[trigger] cleanup_seq(config, infos).0.contains_key(k) ==> config.contains_key(k),
        forall|i: int| 0 <= i < infos.len() ==> !cleanup_seq(config, infos).0.contains_key(
            #[trigger] infos[i].channel,
        ),
    decreases infos.len(),
{
    crate::gpio::lemma_cleanup_seq_config(config, infos);
    if infos.len() > 0 {
        lemma_cleanup_seq_removes(config, infos.drop_last());
        assert forall|i: int| 0 <= i < infos.len() implies !cleanup_seq(config, infos).0.contains_key(
            #[trigger] infos[i].channel,
        ) by {
            if i < infos.len() - 1 {
                assert(infos.drop_last()[i] == infos[i]);
            }
        }
    }
}

/// Every description whose channel is configured is kept by `configured_only`.
proof fn lemma_configured_only_keeps(config: Map<u32, Direction>, infos: Seq<ChannelInfo>)
    ensures
        forall|i: int| 0 <= i < infos.len() && config.contains_key(#[trigger] infos[i].channel) ==> exists|j: int|
            0 <= j < configured_only(config, infos).len() && #[trigger] configured_only(config, infos)[j].channel
                == infos[i].channel,
    decreases infos.len(),
{
    if infos.len() > 0 {
        lemma_configured_only_keeps(config, infos.drop_last());
        let rest = configured_only(config, infos.drop_last());
        let all = configured_only(config, infos);
        assert forall|i: int| 0 <= i < infos.len() && config.contains_key(#[trigger] infos[i].channel) implies exists|
            j: int,
        | 0 <= j < all.len() && #[trigger] all[j].channel == infos[i].channel by {
            if i < infos.len() - 1 {
                assert(infos.drop_last()[i] == infos[i]);
                assert(config.contains_key(infos.drop_last()[i].channel));
                let j = choose|j: int| 0 <= j < rest.len() && #[trigger] rest[j].channel == infos.drop_last()[i].channel;
                assert(all[j] == rest[j]);
            } else {
                assert(all[rest.len() as int] == infos[i]);
            }
        }
    }
}

/// After `cleanup` of a list of channels, none of them is configured: each
/// reports `UNKNOWN`.
pub proof fn law_cleanup_unconfigures(s: GpioState, channels: Seq<u32>)
    requires
        s.wf(),
        s.lookup_all(channels, false, false) is Ok,
    ensures
        ({
            let infos = s.lookup_all(channels, false, false).unwrap();
            let s1 = GpioState { config: cleanup_seq(s.config, configured_only(s.config, infos)).0, ..s };
            forall|i: int| 0 <= i < channels.len() ==> (#[trigger] s1.function_result(channels[i])) == Ok::<
                Direction,
                Error,
            >(Direction::UNKNOWN)
        }),
{
    let infos = s.lookup_all(channels, false, false).unwrap();
    let kept = configured_only(s.config, infos);
    let c = cleanup_seq(s.config, kept).0;
    let s1 = GpioState { config: c, ..s };
    crate::gpio::lemma_lookup_seq_ok(s, channels, false, false);
    lemma_cleanup_seq_removes(s.config, kept);
    lemma_configured_only_keeps(s.config, infos);
    assert forall|i: int| 0 <= i < channels.len() implies (#[trigger] s1.function_result(channels[i])) == Ok::<
        Direction,
        Error,
    >(Direction::UNKNOWN) by {
        assert(s.lookup(channels[i], false, false) == Ok::<ChannelInfo, Error>(infos[i]));
        assert(infos[i].channel == channels[i]);
        crate::gpio::lemma_lookup_single(s1, channels[i], false, false);
        if s.config.contains_key(channels[i]) {
            let j = choose|j: int| 0 <= j < kept.len() && #[trigger] kept[j].channel == infos[i].channel;
            assert(!c.contains_key(kept[j].channel));
        }
        assert(!c.contains_key(channels[i]));
    }
}

/// A line recorded as opened for a GPIO channel is the line that `input` reads.
pub proof fn law_committed_line_is_read(s: GpioState, ch: ChannelInfo, flag: u32, chip_fd: i32, line_handle: i32)
    requires
        s.wf(),
        s.mode is Some,
        s.channel_data.contains_key(ch.channel),
        ch.gpio_chip@.len() > 0,
        flag == GPIOHANDLE_REQUEST_OUTPUT || flag == GPIOHANDLE_REQUEST_INPUT,
    ensures
        s.commit_next(ch, flag, chip_fd, line_handle).input_result(ch.channel) == Ok::<i32, Error>(line_handle),
{
    let s2 = s.commit_next(ch, flag, chip_fd, line_handle);
    crate::gpio::lemma_lookup_single(s2, ch.channel, true, false);
}

/// The request flag of an input or an output names that direction again.
pub proof fn law_cdev_roundtrip(d: Direction)
    requires
        d == Direction::IN || d == Direction::OUT,
    ensures
        Direction::spec_from_cdev(d.spec_to_cdev() as i32) == d,
{
}

/// A channel that drives a PWM cannot be claimed for a second one.
pub proof fn law_pwm_is_exclusive(s: GpioState, channel: u32)
    requires
        s.wf(),
        s.mode is Some,
        s.lookup(channel, false, true) is Ok,
    ensures
        (GpioState { config: s.config.insert(channel, Direction::HardPwm), ..s }).pwm_claim_next(channel).1
            == (Err::<(ChannelInfo, Option<Seq<CleanupAction>>), Error>(Error::DuplicatePwm)),
{
}

/// A level written to a line reads back as the same level.
pub proof fn law_level_roundtrip(l: Level)
    ensures
        (if l.spec_value() == 0 { Level::LOW } else { Level::HIGH }) == l,
{
}

/// For a channel set up as an output, `output` writes the value to the very
/// line that `input` reads.
pub proof fn law_output_goes_to_input_line(s: GpioState, channel: u32, value: Level)
    requires
        s.wf(),
        s.lookup_all(seq![channel], true, false) is Ok,
        s.channel_data[channel].line_handle is Some,
        config_get(s.config, channel) == Some(Direction::OUT),
    ensures
        s.input_result(channel) == Ok::<i32, Error>(s.channel_data[channel].line_handle.unwrap()),
        output_writes(s.lookup_all(seq![channel], true, false).unwrap(), seq![value]) == (
            seq![(s.channel_data[channel].line_handle.unwrap(), value.spec_value())],
            false,
        ),
{
    crate::gpio::lemma_lookup_single(s, channel, true, false);
    let infos = s.lookup_all(seq![channel], true, false).unwrap();
    assert(infos.drop_last() =~= Seq::<ChannelInfo>::empty());
    assert(output_writes(Seq::<ChannelInfo>::empty(), seq![value]) == (Seq::<(i32, u8)>::empty(), false));
    assert(Seq::<(i32, u8)>::empty().push((s.channel_data[channel].line_handle.unwrap(), value.spec_value()))
        =~= seq![(s.channel_data[channel].line_handle.unwrap(), value.spec_value())]);
}

/// Setting a channel up again first releases the line it had open.
pub proof fn law_setup_again_releases_line(s: GpioState, channel: u32)
    requires
        s.wf(),
        s.lookup_all(seq![channel], true, false) is Ok,
        s.channel_data[channel].line_handle is Some,
        config_get(s.config, channel) == Some(Direction::OUT) || config_get(s.config, channel) == Some(
            Direction::IN,
        ),
    ensures
        cleanup_configured(s.config, s.lookup_all(seq![channel], true, false).unwrap()).1 == seq![
            CleanupAction::CloseLine(s.channel_data[channel].line_handle.unwrap()),
        ],
{
    crate::gpio::lemma_lookup_single(s, channel, true, false);
    let infos = s.lookup_all(seq![channel], true, false).unwrap();
    assert(infos.drop_last() =~= Seq::<ChannelInfo>::empty());
    assert(cleanup_configured(s.config, Seq::<ChannelInfo>::empty()) == (s.config, Seq::<CleanupAction>::empty()));
    assert(Seq::<CleanupAction>::empty().push(CleanupAction::CloseLine(s.channel_data[channel].line_handle.unwrap()))
        =~= seq![CleanupAction::CloseLine(s.channel_data[channel].line_handle.unwrap())]);
}

/// Cleaning every channel up unsets the mode: any mode can then be set.
pub proof fn law_cleanup_all_frees_mode(s: GpioState, mode: Mode)
    requires
        s.wf(),
    ensures
        (GpioState { mode: None, config: Map::empty(), ..s }).setmode_next(mode).1 == Ok::<(), Error>(()),
        (GpioState { mode: None, config: Map::empty(), ..s }).wf(),
{
    assert(Map::<u32, Direction>::empty().dom() =~= Set::<u32>::empty());
}

/// An edge that fires the callbacks of a channel is reported by the next read
/// of its event flag.
pub proof fn law_fired_edge_is_detected(m: Map<(Seq<char>, u32), EventRecord>, k: (Seq<char>, u32), now: u128)
    requires
        record_next(m, k, now).1,
    ensures
        detect_next(record_next(m, k, now).0, k).1,
{
}

/// Reading the event flag clears it: a second read without an edge between
/// reports nothing.
pub proof fn law_detected_once(m: Map<(Seq<char>, u32), EventRecord>, k: (Seq<char>, u32))
    ensures
        !detect_next(detect_next(m, k).0, k).1,
{
}

/// Adding edge detection to a channel that had none, then removing it, gives
/// back the registry as it was.
pub proof fn law_add_then_remove(m: Map<(Seq<char>, u32), EventRecord>, k: (Seq<char>, u32), bouncetime: Option<u128>)
    requires
        add_next(m, k, bouncetime).1 is Ok,
    ensures
        add_next(m, k, bouncetime).0.contains_key(k),
        add_next(m, k, bouncetime).0.remove(k) == m,
{
    assert(add_next(m, k, bouncetime).0.remove(k) =~= m);
}

/// A channel gets edge detection at most once: adding it again is refused
/// and leaves the registry unchanged.
pub proof fn law_add_twice_refused(m: Map<(Seq<char>, u32), EventRecord>, k: (Seq<char>, u32), b1: Option<u128>, b2: Option<u128>)
    requires
        add_next(m, k, b1).1 is Ok,
    ensures
        add_next(add_next(m, k, b1).0, k, b2) == (add_next(m, k, b1).0, Err::<(), Error>(Error::EventAlreadyAdded(k.1))),
{
}

/// Between two reads of the event flag of a channel with edge detection, the
/// second read reports an edge exactly when some edge read in between fired
/// the callbacks (that is, passed the debounce).
pub proof fn law_event_detected_over_run(m: Map<(Seq<char>, u32), EventRecord>, k: (Seq<char>, u32), times: Seq<u128>)
    requires
        m.contains_key(k),
    ensures
        ({
            let after_read = detect_next(m, k).0;
            let (m2, fired) = record_all(after_read, k, times);
            detect_next(m2, k).1 == exists|i: int| 0 <= i < times.len() && #[trigger] fired[i]
        }),
{
    let after_read = detect_next(m, k).0;
    lemma_record_all(after_read, k, times);
}

/// Right after edge detection is added, the first read of the event flag
/// reports an edge exactly when some edge read since fired the callbacks.
pub proof fn law_event_detected_after_add(
    m: Map<(Seq<char>, u32), EventRecord>,
    k: (Seq<char>, u32),
    bouncetime: Option<u128>,
    times: Seq<u128>,
)
    requires
        add_next(m, k, bouncetime).1 is Ok,
    ensures
        ({
            let (m2, fired) = record_all(add_next(m, k, bouncetime).0, k, times);
            detect_next(m2, k).1 == exists|i: int| 0 <= i < times.len() && #[trigger] fired[i]
        }),
{
    lemma_record_all(add_next(m, k, bouncetime).0, k, times);
}

/// A model named by `JETSON_TESTING_MODEL_NAME` takes precedence over the
/// device tree and over `JETSON_MODEL_NAME`.
pub proof fn law_testing_model_first(
    testing: Option<Seq<char>>,
    device_tree: Option<Option<Seq<String>>>,
    nano_module_id: Option<Seq<char>>,
    fallback: Option<Seq<char>>,
    models: Seq<&str>,
    table: Seq<Vec<&str>>,
    t: int,
)
    requires
        env_model(testing, models) == Some(t),
    ensures
        spec_select_model(testing, device_tree, nano_module_id, fallback, models, table).choice
            == ModelChoice::Named(t as usize),
{
}

/// Without a testing model, a device tree that matches a model other than the
/// Jetson Nano decides, whatever `JETSON_MODEL_NAME` says.
pub proof fn law_device_tree_before_fallback(
    testing: Option<Seq<char>>,
    compatibles: Seq<String>,
    nano_module_id: Option<Seq<char>>,
    fallback: Option<Seq<char>>,
    models: Seq<&str>,
    table: Seq<Vec<&str>>,
    i: int,
)
    requires
        env_model(testing, models) is None,
        first_matching(compatibles, table) == Some(i),
        0 <= i < models.len(),
        models[i]@ != "JETSON_NANO"@,
    ensures
        spec_select_model(testing, Some(Some(compatibles)), nano_module_id, fallback, models, table).choice
            == ModelChoice::Detected(i as usize),
{
}

/// A detected Jetson Nano whose module revision comes before `200` is refused.
pub proof fn law_old_nano_refused(
    testing: Option<Seq<char>>,
    compatibles: Seq<String>,
    module_id: Seq<char>,
    fallback: Option<Seq<char>>,
    models: Seq<&str>,
    table: Seq<Vec<&str>>,
    i: int,
)
    requires
        env_model(testing, models) is None,
        first_matching(compatibles, table) == Some(i),
        0 <= i < models.len(),
        models[i]@ == "JETSON_NANO"@,
        lex_less(revision_of(module_id), "200"@),
    ensures
        spec_select_model(testing, Some(Some(compatibles)), Some(module_id), fallback, models, table).choice
            == ModelChoice::NanoTooOld,
{
}

/// When the device tree has no compatible file or matches no model,
/// `JETSON_MODEL_NAME` decides; when it names no model either, the model is
/// undetermined.
pub proof fn law_fallback_when_device_tree_silent(
    testing: Option<Seq<char>>,
    compatibles: Option<Seq<String>>,
    nano_module_id: Option<Seq<char>>,
    fallback: Option<Seq<char>>,
    models: Seq<&str>,
    table: Seq<Vec<&str>>,
)
    requires
        env_model(testing, models) is None,
        match compatibles {
            Some(c) => first_matching(c, table) is None,
            None => true,
        },
    ensures
        spec_select_model(testing, Some(compatibles), nano_module_id, fallback, models, table).choice == match env_model(
            fallback,
            models,
        ) {
            Some(j) => ModelChoice::Named(j as usize),
            None => ModelChoice::Undetermined,
        },
{
}

/// A blocking wait reports the first edge it reads at once: reads that would
/// block or read nothing before it do not end the wait, and no debounce
/// interval enters the decision.
pub proof fn law_blocking_wait_first_edge(outcomes: Seq<ReadOutcome>, i: int)
    requires
        0 <= i < outcomes.len(),
        outcomes[i] == ReadOutcome::EdgeSeen,
        forall|j: int| 0 <= j < i ==> #[trigger] outcomes[j] == ReadOutcome::Retry || outcomes[j] == ReadOutcome::Empty,
    ensures
        wait_run(outcomes) == Some(WaitAction::EdgeDetected),
    decreases i,
{
    if i > 0 {
        assert forall|j: int| 0 <= j < i - 1 implies #[trigger] outcomes.drop_first()[j] == ReadOutcome::Retry
            || outcomes.drop_first()[j] == ReadOutcome::Empty by {
            assert(outcomes.drop_first()[j] == outcomes[j + 1]);
        }
        assert(outcomes[0] == ReadOutcome::Retry || outcomes[0] == ReadOutcome::Empty);
        law_blocking_wait_first_edge(outcomes.drop_first(), i - 1);
    }
}

/// Any read of a rising or falling edge ends a blocking wait with the edge.
pub proof fn law_edge_read_is_detected(result: isize, errno: i32, would_block: bool, event_id: u32)
    requires
        result > 0,
        event_id == crate::gpio_cdev::GPIOEVENT_REQUEST_RISING_EDGE || event_id
            == crate::gpio_cdev::GPIOEVENT_REQUEST_FALLING_EDGE,
    ensures
        wait_run(seq![spec_read_outcome(result, errno, would_block, event_id)]) == Some(WaitAction::EdgeDetected),
{
}

/// The model that a name picks is the first model whose name is exactly that
/// name; no model is picked when no model has that name.
pub proof fn law_named_model_is_exact(models: Seq<&str>, name: Seq<char>)
    ensures
        first_named(models, name) matches Some(i) ==> 0 <= i < models.len() && models[i]@ == name && forall|j: int|
            0 <= j < i ==> (#[trigger] models[j])@ != name,
        first_named(models, name) is None ==> forall|j: int| 0 <= j < models.len() ==> (#[trigger] models[j])@ != name,
    decreases models.len(),
{
    if models.len() > 0 {
        let rest = models.drop_first();
        law_named_model_is_exact(rest, name);
        if models[0]@ != name {
            assert forall|j: int| 1 <= j < models.len() implies (#[trigger] models[j])@ == rest[j - 1]@ by {}
            if let Some(i) = first_named(models, name) {
                assert forall|j: int| 0 <= j < i implies (#[trigger] models[j])@ != name by {
                    if j > 0 {
                        assert(models[j] == rest[j - 1]);
                    }
                }
            } else {
                assert forall|j: int| 0 <= j < models.len() implies (#[trigger] models[j])@ != name by {
                    if j > 0 {
                        assert(models[j] == rest[j - 1]);
                    }
                }
            }
        }
    }
}

/// Debouncing: without an interval, or at the first edge, the callbacks fire;
/// with an interval they fire exactly when at least the interval has passed
/// since the last call (time going backwards counts as none passing), and
/// firing records the time of the edge while not firing keeps the last call.
pub proof fn law_debounce_fires_after_interval(bouncetime: Option<u128>, last_call: Option<u128>, now: u128)
    ensures
        bouncetime is None ==> spec_debounce(bouncetime, last_call, now) == (true, Some(now)),
        last_call is None ==> spec_debounce(bouncetime, last_call, now) == (true, Some(now)),
        bouncetime matches Some(b) ==> last_call matches Some(last) ==> (last <= now && now - last >= b ==> spec_debounce(
            bouncetime,
            last_call,
            now,
        ) == (true, Some(now))),
        bouncetime matches Some(b) ==> last_call matches Some(last) ==> (last <= now && now - last < b
            ==> spec_debounce(bouncetime, last_call, now) == (false, Some(last))),
        bouncetime matches Some(b) ==> last_call matches Some(last) ==> (now < last && b > 0 ==> spec_debounce(
            bouncetime,
            last_call,
            now,
        ) == (false, Some(last))),
{
}

/// An output set up with an initial level starts at that level: 1 for HIGH,
/// 0 for LOW; without a level it starts high.
pub proof fn law_output_starts_at_initial_level(
    lines: Seq<LineSetup>,
    infos: Seq<ChannelInfo>,
    initial: Option<Level>,
    consumer: Seq<u8>,
    i: int,
)
    requires
        requests_for(lines, infos, GPIOHANDLE_REQUEST_OUTPUT, level_value(initial), consumer),
        0 <= i < lines.len(),
    ensures
        lines[i].request.default_values@[0] == match initial {
            Some(Level::HIGH) => 1u8,
            Some(Level::LOW) => 0u8,
            None => 1u8,
        },
        lines[i].request.lineoffsets@[0] == infos[i].line_offset,
        lines[i].request.flags == GPIOHANDLE_REQUEST_OUTPUT,
{
    assert(lines[i].ch_info == infos[i]);
}

/// The key of a pin in each numbering mode: its header number in BOARD, its
/// BCM number in BCM, the hash of its name in CVM and TegraSoc.
pub proof fn law_pin_keys(p: GpioPinView)
    ensures
        pin_key(p, Mode::BOARD) == p.board_pin,
        pin_key(p, Mode::BCM) == p.bcm_pin,
        pin_key(p, Mode::CVM) == string_hash(p.cvm_pin) as u32,
        pin_key(p, Mode::TegraSoc) == string_hash(p.tegra_soc_pin) as u32,
{
}

/// A channel table holds exactly the keys of the pins; the entry under a key
/// comes from the last pin with that key and carries that pin's line, names,
/// chip, PWM and pad register, with nothing opened yet.
pub proof fn law_table_entries_come_from_pins(pins: Seq<GpioPinView>, mode: Mode, i: int)
    requires
        0 <= i < pins.len(),
        forall|j: int| i < j < pins.len() ==> pin_key(#[trigger] pins[j], mode) != pin_key(pins[i], mode),
    ensures
        mode_table(pins, mode).contains_key(pin_key(pins[i], mode)),
        ({
            let e = mode_table(pins, mode)[pin_key(pins[i], mode)];
            let p = pins[i];
            &&& e.channel == pin_key(p, mode)
            &&& e.line_offset == p.linux_gpio
            &&& e.gpio_name == p.gpio_name
            &&& e.gpio_chip == p.gpio_chip
            &&& e.pwm_chip_dir == p.pwm_chip_sysfs_dir
            &&& e.pwm_id == p.pwm_id
            &&& e.reg_addr == p.padctl_addr
            &&& e.chip_fd is None
            &&& e.line_handle is None
            &&& e.direction is None
            &&& e.edge is None
        }),
    decreases pins.len(),
{
    if i < pins.len() - 1 {
        let rest = pins.drop_last();
        assert forall|j: int| i < j < rest.len() implies pin_key(#[trigger] rest[j], mode) != pin_key(rest[i], mode) by {
            assert(rest[j] == pins[j]);
        }
        law_table_entries_come_from_pins(rest, mode, i);
        assert(rest[i] == pins[i]);
        assert(pin_key(pins.last(), mode) != pin_key(pins[i], mode));
    }
}

/// Every key of a channel table is the key of some pin.
pub proof fn law_table_keys_are_pin_keys(pins: Seq<GpioPinView>, mode: Mode, k: u32)
    requires
        mode_table(pins, mode).contains_key(k),
    ensures
        exists|i: int| 0 <= i < pins.len() && pin_key(#[trigger] pins[i], mode) == k,
    decreases pins.len(),
{
    if pins.len() > 0 && pin_key(pins.last(), mode) != k {
        law_table_keys_are_pin_keys(pins.drop_last(), mode, k);
        let i = choose|i: int| 0 <= i < pins.drop_last().len() && pin_key(#[trigger] pins.drop_last()[i], mode) == k;
        assert(pins[i] == pins.drop_last()[i]);
    } else if pins.len() > 0 {
        assert(pin_key(pins[pins.len() - 1], mode) == k);
    }
}

/// The pinmux register of a BOARD pin number is the register of the first
/// pin with that BOARD number; none when no pin has it.
pub proof fn law_mux_register_of_board_pin(pins: Seq<GpioPin>, n: u32)
    ensures
        forall|i: int|
            0 <= i < pins.len() && (#[trigger] pins[i]).board_pin == n && (forall|j: int|
                0 <= j < i ==> (#[trigger] pins[j]).board_pin != n) ==> mux_register_of(pins, n) == pins[i].padctl_addr,
        (forall|i: int| 0 <= i < pins.len() ==> (#[trigger] pins[i]).board_pin != n) ==> mux_register_of(pins, n)
            is None,
        mux_register_of(pins, n) matches Some(a) ==> exists|i: int|
            0 <= i < pins.len() && (#[trigger] pins[i]).board_pin == n && pins[i].padctl_addr == Some(a),
    decreases pins.len(),
{
    if pins.len() > 0 {
        let rest = pins.drop_first();
        law_mux_register_of_board_pin(rest, n);
        assert forall|i: int|
            0 <= i < pins.len() && (#[trigger] pins[i]).board_pin == n && (forall|j: int|
                0 <= j < i ==> (#[trigger] pins[j]).board_pin != n) implies mux_register_of(pins, n)
            == pins[i].padctl_addr by {
            if i > 0 {
                assert(pins[0].board_pin != n);
                assert(rest[i - 1] == pins[i]);
                assert forall|j: int| 0 <= j < i - 1 implies (#[trigger] rest[j]).board_pin != n by {
                    assert(rest[j] == pins[j + 1]);
                }
            }
        }
        if forall|i: int| 0 <= i < pins.len() ==> (#[trigger] pins[i]).board_pin != n {
            assert(pins[0].board_pin != n);
            assert forall|i: int| 0 <= i < rest.len() implies (#[trigger] rest[i]).board_pin != n by {
                assert(rest[i] == pins[i + 1]);
            }
        }
        if let Some(a) = mux_register_of(pins, n) {
            if pins[0].board_pin != n {
                let i = choose|i: int| 0 <= i < rest.len() && (#[trigger] rest[i]).board_pin == n && rest[i].padctl_addr
                    == Some(a);
                assert(pins[i + 1] == rest[i]);
            }
        }
    }
}

} // verus!
