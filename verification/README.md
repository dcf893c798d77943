# sysworxx-io-py

Python bindings for the sysworxx I/O library, split in two parts:

- `src/` is a library verified with Verus. It holds:
  - the selection of the device definition for a device name
    (`definition`), which the I/O library itself performs when it starts
    and which is stated and proved here;
  - how the channel overview shown to Python is built (`channel_info`);
  - when input callbacks are attached to and released from the I/O
    library, and on which edges (`registry`);
  - which Python exception an I/O error or a refused registry request is
    raised as (`py_error`, `registry`).
- `app/` is the Python extension module itself (pyo3): the `Io` singleton,
  the calls into the hardware library, and the Python classes and functions.
  It needs the `sysworxx-io` crate of this workspace.
