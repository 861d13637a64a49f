# IPU4 camera components, verified

Host-side logic of Intel IPU4 camera components, written in Verus:

- `src/cpd` — parser and validator of the CPD firmware-package container and
  assembly of the package directory handed to the firmware;
- `src/fw_msgs` — ISYS firmware messages, their builders, and byte-exact
  serialization to and from the firmware ABI;
- `src/fw_com` — the syscom token queues, the layout of the memory shared with
  the firmware, and the context lifecycle;
- `src/dw9714` — the DW9714 voice-coil lens actuator driver, with its
  power-down and power-up ramps, over a bus trait and an in-memory bus.

`tests/` exercises the library; `app/` holds the C ABI: `#[repr(C)]` mirrors of
the kernel and firmware structures and `extern "C"` entry points that convert
raw pointers into values and call the library.
