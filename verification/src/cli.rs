//! The computations behind the command-line tool.
use crate::gpio_pin_data::GpioPin;
use vstd::prelude::*;

verus! {

/// Why a command of the tool failed.
#[derive(Debug)]
pub enum CliError {
    /// The board pin is not among the pin definitions of the model.
    PinNotFound(u32, String),
    /// The Jetson model could not be determined.
    ModelDetectionFailed(String),
    /// A GPIO operation failed.
    GpioError(String),
}

/// The pinmux register address of the first pin of `pins` whose board number
/// is `gpio_pin`; none when there is no such pin or it has no address.
pub open spec fn mux_register_of(pins: Seq<GpioPin>, gpio_pin: u32) -> Option<u32>
    decreases pins.len(),
{
    if pins.len() == 0 {
        None
    } else if pins[0].board_pin == gpio_pin {
        pins[0].padctl_addr
    } else {
        mux_register_of(pins.drop_first(), gpio_pin)
    }
}

/// Looks up the pinmux register address of a board pin.
pub fn lookup_mux_register(gpio_pin: u32, pin_defs: &[GpioPin]) -> (r: Option<u32>)
    ensures
        r == mux_register_of(pin_defs@, gpio_pin),
{
    let n = pin_defs.len();
    let mut i: usize = 0;
    proof {
        assert(pin_defs@.skip(0) =~= pin_defs@);
    }
    while i < n
        invariant
            n == pin_defs@.len(),
            i <= n,
            mux_register_of(pin_defs@, gpio_pin) == mux_register_of(pin_defs@.skip(i as int), gpio_pin),
        decreases n - i,
    {
        proof {
            assert(pin_defs@.skip(i as int).drop_first() =~= pin_defs@.skip(i + 1));
            assert(pin_defs@.skip(i as int)[0] == pin_defs@[i as int]);
        }
        if pin_defs[i].board_pin == gpio_pin {
            return pin_defs[i].padctl_addr;
        }
        i = i + 1;
    }
    proof {
        assert(pin_defs@.skip(n as int).len() == 0);
    }
    None
}

/// The register address reported by the `pinmux-lookup` command, or the error
/// naming the pin and the model when the pin has none.
pub fn pinmux_lookup(gpio_pin: u32, model: String, pin_defs: &[GpioPin]) -> (r: Result<u32, CliError>)
    ensures
        match mux_register_of(pin_defs@, gpio_pin) {
            Some(a) => r matches Ok(v) && v == a,
            None => r matches Err(CliError::PinNotFound(p, m)) && p == gpio_pin && m == model,
        },
{
    match lookup_mux_register(gpio_pin, pin_defs) {
        Some(addr) => Ok(addr),
        None => Err(CliError::PinNotFound(gpio_pin, model)),
    }
}

} // verus!
