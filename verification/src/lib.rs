//! Control of the GPIO pins of NVIDIA Jetson boards: pin numbering, channel
//! bookkeeping, line requests and edge-event decisions.
pub mod cli;
pub mod error;
pub mod gpio;
pub mod gpio_cdev;
pub mod gpio_event;
pub mod gpio_laws;
pub mod gpio_pin_data;

pub use gpio::{Direction, Level, GPIO};
pub use gpio_event::Edge;
pub use gpio_pin_data::Mode;
