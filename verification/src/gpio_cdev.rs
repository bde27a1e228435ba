//! The GPIO character device interface: the request structures that are
//! handed to the kernel and the decoding of pad control registers.
use crate::error::Error;
use vstd::prelude::*;
use vstd::string::StringSliceAdditionalSpecFns;

verus! {

/// Request flag of an input line.
pub const GPIOHANDLE_REQUEST_INPUT: u32 = 0x1;
/// Request flag of an output line.
pub const GPIOHANDLE_REQUEST_OUTPUT: u32 = 0x2;

/// Event flag for rising edges.
pub const GPIOEVENT_REQUEST_RISING_EDGE: u32 = 0x1;
/// Event flag for falling edges.
pub const GPIOEVENT_REQUEST_FALLING_EDGE: u32 = 0x2;
/// Event flag for both edges.
pub const GPIOEVENT_REQUEST_BOTH_EDGES: u32 = 0x3;

/// ioctl code that reads chip information.
pub const GPIO_GET_CHIPINFO_IOCTL: u32 = 0x8044B401;
/// ioctl code that reads line information.
pub const GPIO_GET_LINEINFO_IOCTL: u32 = 0xC048B402;
/// ioctl code that requests a line handle.
pub const GPIO_GET_LINEHANDLE_IOCTL: u32 = 0xC16CB403;
/// ioctl code that reads line values.
pub const GPIOHANDLE_GET_LINE_VALUES_IOCTL: u32 = 0xC040B408;
/// ioctl code that writes line values.
pub const GPIOHANDLE_SET_LINE_VALUES_IOCTL: u32 = 0xC040B409;
/// ioctl code that requests an event line.
pub const GPIO_GET_LINEEVENT_IOCTL: u32 = 0xC030B404;

/// Information about a GPIO chip.
#[derive(Debug, Clone)]
pub struct GpioChipInfo {
    pub name: [u8; 32],
    pub label: [u8; 32],
    pub lines: u32,
}

/// A GPIO line handle request.
#[derive(Debug, Clone)]
pub struct GpioHandleRequest {
    pub lineoffsets: [u32; 64],
    pub flags: u32,
    pub default_values: [u8; 64],
    pub consumer_label: [u8; 32],
    pub lines: u32,
    pub fd: i32,
}

impl Default for GpioHandleRequest {
    fn default() -> (r: Self)
        ensures
            r.lineoffsets@ == Seq::new(64, |i: int| 0u32),
            r.flags == 0,
            r.default_values@ == Seq::new(64, |i: int| 0u8),
            r.consumer_label@ == Seq::new(32, |i: int| 0u8),
            r.lines == 0,
            r.fd == -1,
    {
        let r = Self {
            lineoffsets: [0u32; 64],
            flags: 0,
            default_values: [0u8; 64],
            consumer_label: [0u8; 32],
            lines: 0,
            fd: -1,
        };
        proof {
            assert(r.lineoffsets@ =~= Seq::new(64, |i: int| 0u32));
            assert(r.default_values@ =~= Seq::new(64, |i: int| 0u8));
            assert(r.consumer_label@ =~= Seq::new(32, |i: int| 0u8));
        }
        r
    }
}

/// A GPIO line event request.
#[derive(Debug, Clone)]
pub struct GpioEventRequest {
    pub lineoffset: u32,
    pub handleflags: u32,
    pub eventflags: u32,
    pub consumer_label: [u8; 32],
    pub fd: i32,
}

impl Default for GpioEventRequest {
    fn default() -> (r: Self)
        ensures
            r.lineoffset == 0,
            r.handleflags == 0,
            r.eventflags == 0,
            r.consumer_label@ == Seq::new(32, |i: int| 0u8),
            r.fd == -1,
    {
        let r = Self { lineoffset: 0, handleflags: 0, eventflags: 0, consumer_label: [0u8; 32], fd: -1 };
        proof {
            assert(r.consumer_label@ =~= Seq::new(32, |i: int| 0u8));
        }
        r
    }
}

/// Values read from or written to a line handle.
#[derive(Debug, Clone)]
pub struct GpioHandleData {
    pub values: [u8; 64],
}

/// Information about a GPIO line.
#[derive(Debug, Clone)]
pub struct GpioLineInfo {
    pub line_offset: u32,
    pub flags: u32,
    pub name: [u8; 32],
    pub consumer: [u8; 32],
}

/// A change of the information of a GPIO line.
#[derive(Debug, Clone)]
pub struct GpioLineInfoChanged {
    pub line_info: GpioLineInfo,
    pub timestamp: u64,
    pub event_type: u32,
    pub padding: [u32; 5],
}

/// An event read from an event line.
#[derive(Debug, Clone)]
pub struct GpioEventData {
    pub timestamp: u64,
    pub id: u32,
}

/// A failure reported by the operating system.
#[derive(Debug)]
pub struct GpioError {
    pub errno: i32,
    pub message: String,
}

/// The bytes of a zero-terminated field before its first zero byte; the whole
/// field when it holds no zero.
pub open spec fn c_string_bytes(field: Seq<u8>) -> Seq<u8>
    decreases field.len(),
{
    if field.len() == 0 || field[0] == 0 {
        Seq::empty()
    } else {
        seq![field[0]] + c_string_bytes(field.drop_first())
    }
}

/// Returns the text bytes of a chip's name or label field, as the kernel fills
/// it: the bytes before the first zero byte, and at most the field's size.
pub fn label_bytes(field: &[u8; 32]) -> (r: Vec<u8>)
    ensures
        r@ == c_string_bytes(field@),
{
    let mut out: Vec<u8> = Vec::new();
    let mut i: usize = 0;
    proof {
        assert(field@.skip(0) =~= field@);
    }
    while i < 32 && field[i] != 0
        invariant
            field@.len() == 32,
            i <= 32,
            c_string_bytes(field@) == out@ + c_string_bytes(field@.skip(i as int)),
        decreases 32 - i,
    {
        proof {
            assert(field@.skip(i as int)[0] == field@[i as int]);
            assert(field@.skip(i as int).drop_first() =~= field@.skip(i + 1));
            assert(out@.push(field@[i as int]) + c_string_bytes(field@.skip(i + 1)) =~= out@ + (seq![field@[i as int]]
                + c_string_bytes(field@.skip(i + 1))));
        }
        out.push(field[i]);
        i = i + 1;
    }
    proof {
        if i < 32 {
            assert(field@.skip(i as int)[0] == field@[i as int]);
        }
        assert(out@ + Seq::<u8>::empty() =~= out@);
    }
    out
}

/// Tells whether a chip's label field holds the label `label`: its text bytes
/// are exactly the UTF-8 bytes of `label`.
pub fn label_matches(field: &[u8; 32], label: &str) -> (r: bool)
    ensures
        r == (c_string_bytes(field@) == label.spec_bytes()),
{
    let found = label_bytes(field);
    let wanted = label.as_bytes();
    if found.len() != wanted.len() {
        return false;
    }
    let n = found.len();
    let mut i: usize = 0;
    while i < n
        invariant
            n == found@.len(),
            n == wanted@.len(),
            wanted@ == label.spec_bytes(),
            found@ == c_string_bytes(field@),
            i <= n,
            forall|k: int| 0 <= k < i ==> found@[k] == wanted@[k],
        decreases n - i,
    {
        if found[i] != wanted[i] {
            proof {
                assert(found@[i as int] != wanted@[i as int]);
                assert(found@ != wanted@);
            }
            return false;
        }
        i = i + 1;
    }
    proof {
        assert(found@ =~= wanted@);
    }
    true
}

/// The consumer label field for the given bytes: the first 32 bytes are kept,
/// the rest of the field is zero.
pub open spec fn label_field(bytes: Seq<u8>) -> Seq<u8> {
    Seq::new(32, |i: int| if i < bytes.len() { bytes[i] } else { 0u8 })
}

/// The first entry of a field of `n` entries is `first`, the others are zero.
pub open spec fn first_only_u32(n: nat, first: u32) -> Seq<u32> {
    Seq::new(n, |i: int| if i == 0 { first } else { 0u32 })
}

/// The first entry of a field of `n` entries is `first`, the others are zero.
pub open spec fn first_only_u8(n: nat, first: u8) -> Seq<u8> {
    Seq::new(n, |i: int| if i == 0 { first } else { 0u8 })
}

/// `req` requests the single line `line_offset` in direction `direction`; an
/// output starts at `initial`, or high when no level is given.
pub open spec fn is_handle_request(
    req: GpioHandleRequest,
    line_offset: u32,
    direction: u32,
    initial: Option<u8>,
    consumer: Seq<u8>,
) -> bool {
    &&& req.lineoffsets@ == first_only_u32(64, line_offset)
    &&& req.flags == direction
    &&& req.default_values@ == (if direction == GPIOHANDLE_REQUEST_OUTPUT {
        first_only_u8(64, initial.unwrap_or(1u8))
    } else {
        first_only_u8(64, 0u8)
    })
    &&& req.consumer_label@ == label_field(consumer)
    &&& req.lines == 1
    &&& req.fd == -1
}

/// Copies the bytes of a consumer name into a zeroed label field, up to its size.
fn fill_label(label: &mut [u8; 32], consumer: &str)
    requires
        old(label)@ == Seq::new(32, |i: int| 0u8),
    ensures
        final(label)@ == label_field(consumer.spec_bytes()),
{
    let bytes = consumer.as_bytes();
    let n = bytes.len();
    let mut i: usize = 0;
    while i < n && i < 32
        invariant
            n == bytes@.len(),
            bytes@ == consumer.spec_bytes(),
            i <= 32,
            i <= n,
            label@.len() == 32,
            forall|k: int| 0 <= k < i ==> label@[k] == bytes@[k],
            forall|k: int| i <= k < 32 ==> label@[k] == 0u8,
        decreases n - i,
    {
        label[i] = bytes[i];
        i = i + 1;
    }
    proof {
        assert(label@ =~= label_field(consumer.spec_bytes()));
    }
}

/// Builds the request for one line of a chip.
///
/// An output line starts at `initial`, or high when no level is given; an
/// initial level for an input is refused.
pub fn request_handle(line_offset: u32, direction: u32, initial: Option<u8>, consumer: &str) -> (r:
    Result<GpioHandleRequest, Error>)
    ensures
        r is Err <==> direction != GPIOHANDLE_REQUEST_OUTPUT && initial is Some,
        r matches Err(e) ==> e == Error::InitialForInput,
        r matches Ok(req) ==> is_handle_request(req, line_offset, direction, initial, consumer.spec_bytes()),
{
    let mut request = GpioHandleRequest::default();
    request.lineoffsets[0] = line_offset;
    request.flags = direction;
    if direction == GPIOHANDLE_REQUEST_OUTPUT {
        request.default_values[0] = match initial {
            Some(v) => v,
            None => 1u8,
        };
    } else if initial.is_some() {
        return Err(Error::InitialForInput);
    }
    fill_label(&mut request.consumer_label, consumer);
    request.lines = 1;
    proof {
        assert(request.lineoffsets@ =~= first_only_u32(64, line_offset));
        if direction == GPIOHANDLE_REQUEST_OUTPUT {
            assert(request.default_values@ =~= first_only_u8(64, initial.unwrap_or(1u8)));
        } else {
            assert(request.default_values@ =~= first_only_u8(64, 0u8));
        }
    }
    Ok(request)
}

/// Builds the request for an event line; the line is always requested as an input.
pub fn request_event(line_offset: u32, edge: u32, consumer: &str) -> (r: Result<GpioEventRequest, Error>)
    ensures
        r matches Ok(req) && req.lineoffset == line_offset && req.handleflags == GPIOHANDLE_REQUEST_INPUT
            && req.eventflags == edge && req.consumer_label@ == label_field(consumer.spec_bytes())
            && req.fd == -1,
{
    let mut request = GpioEventRequest::default();
    request.lineoffset = line_offset;
    request.handleflags = GPIOHANDLE_REQUEST_INPUT;
    request.eventflags = edge;
    fill_label(&mut request.consumer_label, consumer);
    Ok(request)
}

/// The decoded fields of a PADCTL register.
#[derive(Debug, Clone, Copy, PartialEq, Eq, Structural)]
pub struct PadCtlRegister {
    pub is_gpio: bool,
    pub is_input: bool,
    pub is_tristate: bool,
}

/// Bit `b` of a register value is set.
pub open spec fn bit_set(value: u32, b: nat) -> bool {
    (value as nat / vstd::arithmetic::power2::pow2(b)) % 2 == 1
}

/// The input-enable bit (bit 6) of a register value is set.
pub open spec fn input_enabled(value: u32) -> bool {
    bit_set(value, 6)
}

/// The pad of a register value is bidirectional: input enabled (bit 6) and
/// not tristate (bit 4 clear).
pub open spec fn pad_bidirectional(value: u32) -> bool {
    bit_set(value, 6) && !bit_set(value, 4)
}

impl PadCtlRegister {
    /// Decodes a register value: bit 10 clear means GPIO, bit 4 set means
    /// tristate, and the pad counts as an input when its input-enable bit 6 is
    /// set and it is not tristate.
    pub fn from_value(value: u32) -> (r: Self)
        ensures
            r.is_gpio == !bit_set(value, 10),
            r.is_input == (bit_set(value, 6) && !bit_set(value, 4)),
            r.is_tristate == bit_set(value, 4),
    {
        let r = Self {
            is_gpio: (value & (1u32 << 10u32)) == 0,
            is_input: (value & (1u32 << 6u32)) != 0 && (value & (1u32 << 4u32)) == 0,
            is_tristate: (value & (1u32 << 4u32)) != 0,
        };
        proof {
            vstd::arithmetic::power2::lemma2_to64();
            assert(((value & (1u32 << 10u32)) == 0) == ((value / 1024u32) % 2 != 1)) by (bit_vector);
            assert(((value & (1u32 << 6u32)) != 0) == ((value / 64u32) % 2 == 1)) by (bit_vector);
            assert(((value & (1u32 << 4u32)) != 0) == ((value / 16u32) % 2 == 1)) by (bit_vector);
        }
        r
    }

    /// The pad is bidirectional: input enabled and not tristate.
    pub fn is_bidi(&self) -> (r: bool)
        ensures
            r == (self.is_input && !self.is_tristate),
    {
        self.is_input && !self.is_tristate
    }
}

/// Size of a memory page of `/dev/mem`.
pub const PAGE_SIZE: u32 = 4096;

/// The page that holds a register, and the register's offset in it.
pub fn pinmux_page(reg_addr: u32) -> (r: (u32, u32))
    ensures
        r.0 == reg_addr - reg_addr % 4096,
        r.1 == reg_addr % 4096,
        r.0 % 4096 == 0,
{
    let start = reg_addr & !(PAGE_SIZE - 1);
    proof {
        assert((reg_addr & !4095u32) == reg_addr - reg_addr % 4096) by (bit_vector);
    }
    let offset = reg_addr - start;
    (start, offset)
}

/// What the check of a pin's pinmux register found.
#[derive(Debug, Clone, Copy, PartialEq, Eq, Structural)]
pub enum PinmuxVerdict {
    /// The pad is bidirectional: no check applies.
    Bidirectional,
    /// An input was requested on a pad set to output; `corrected` is the value
    /// that would make it an input.
    InputRequestedOnOutput { corrected: u32 },
    /// An output was requested on a pad set to input; `corrected` is the value
    /// that would make it an output.
    OutputRequestedOnInput { corrected: u32 },
    /// The pad matches the request.
    Consistent,
}

/// Checks a pinmux register value against a requested direction, where
/// direction `0` requests an output and any other value an input. A
/// bidirectional pad needs no check; otherwise the input-enable bit decides
/// whether the pad is set to input.
pub fn pinmux_verdict(reg_value: u32, direction: u32) -> (r: PinmuxVerdict)
    ensures
        r == (if pad_bidirectional(reg_value) {
            PinmuxVerdict::Bidirectional
        } else if direction != 0 && !input_enabled(reg_value) {
            PinmuxVerdict::InputRequestedOnOutput { corrected: reg_value | 0x50u32 }
        } else if direction == 0 && input_enabled(reg_value) {
            PinmuxVerdict::OutputRequestedOnInput { corrected: reg_value & !0x50u32 }
        } else {
            PinmuxVerdict::Consistent
        }),
{
    let reg = PadCtlRegister::from_value(reg_value);
    if reg.is_bidi() {
        return PinmuxVerdict::Bidirectional;
    }
    let input_enable = (reg_value & (1u32 << 6u32)) != 0;
    proof {
        vstd::arithmetic::power2::lemma2_to64();
        assert(((reg_value & (1u32 << 6u32)) != 0) == ((reg_value / 64u32) % 2 == 1)) by (bit_vector);
        assert(((1u32 << 6u32) | (1u32 << 4u32)) == 0x50u32) by (bit_vector);
    }
    let is_out = direction == 0;
    if !is_out && !input_enable {
        let corrected = reg_value | ((1u32 << 6u32) | (1u32 << 4u32));
        return PinmuxVerdict::InputRequestedOnOutput { corrected };
    }
    if is_out && input_enable {
        let corrected = reg_value & !((1u32 << 6u32) | (1u32 << 4u32));
        return PinmuxVerdict::OutputRequestedOnInput { corrected };
    }
    PinmuxVerdict::Consistent
}

/// The direction that the pinmux check expects for a line request: `0` for an
/// output request, `1` for any other.
pub fn pinmux_direction(request_flags: u32) -> (r: u32)
    ensures
        r == (if request_flags == GPIOHANDLE_REQUEST_OUTPUT { 0u32 } else { 1u32 }),
{
    if request_flags == GPIOHANDLE_REQUEST_OUTPUT {
        0
    } else {
        1
    }
}

} // verus!
