//! Verified core of the Python bindings of the sysworxx I/O library.
//!
//! The crate holds the decisions that the bindings make around the
//! hardware access: which device definition a device name selects, how
//! the channel overview is built, how input callbacks are registered and
//! released, and how I/O errors are classified for Python.
pub mod channel_info;
pub mod definition;
pub mod py_error;
pub mod registry;
mod text;

pub use channel_info::{get_channel_info, to_map, ChannelDesc, ChannelInfo, IoChannelInfo};
pub use definition::{load_device_definition, load_device_definition_shm, Definition};
pub use py_error::{to_py_error, to_py_result, IoError, PyErrorSpec, PyExceptionKind};
pub use registry::{
    Callback, CallbackRegistry, InputTrigger, RegisterAction, RegistryError, UnregisterAction,
};
pub use text::str_equals;
