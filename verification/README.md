# NanoChronometer, freestanding

A chronometer for a machine with no operating system underneath: a stopwatch, a
timer and a clock read straight off the processor's counter, the self-test that
says what one read of it costs, and the benchmark harness that goes with them.

`src/` is the library, written in Verus. Everything that decides something is
there, with a contract that says what it decides: which bytes of firmware
memory are believed, what is written to which register and in what order, what
an input byte means, where everything on the screen sits and what it says, and
what a report reads. Nothing in it touches hardware. Memory comes in as a
function from addresses to bytes, registers go out as a list of writes, a frame
goes out as a list of things to draw, and a long exchange is a function from a
state and a reply to the next state and what to do.

`app/` is the kernel around it: the boot entry, the instructions, the ports and
the drawing. The drivers and the theme are supplied by a board-support object.

| module | what it decides |
|---|---|
| `boot`, `multiboot`, `memory`, `acpi`, `psci` | what the loader and the firmware left, and switching off |
| `pmu`, `arch`, `hypervisor`, `abi` | the counters, and what is underneath |
| `serial`, `vga`, `log`, `text` | the console and the figures on it |
| `input`, `i2c_hid` | keyboards, mice and touchpads |
| `framebuffer`, `draw`, `panic_screen` | pixels, and the screen shown on a stop |
| `gui` | the interface, part by part |
| `selftest`, `bench` | what is measured, and how it is said |

The laws the library keeps are public proof functions beside the functions they
speak of. `tests/` runs the library on concrete values.
