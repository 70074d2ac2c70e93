# supvan

A driver core for Supvan label printers (the T50 family and the E10pro tape
printer), written in Verus: what the printer is sent, and what its answers mean,
is stated in contracts and proved.

- `src/cmd.rs`, `src/data.rs`, `src/wire.rs`: command and bulk frames.
- `src/buffer.rs`, `src/raster.rs`: print buffers, the columns they show, and the
  rasters they are made from.
- `src/compress.rs`: the LZMA streams of a page. Encoding and decoding are
  liblzma's; what is believed of it stands at the two functions that call it.
- `src/flow.rs`, `src/printer.rs`: print flows. A flow is a script and a state
  machine: it says what to do next, and is told what came of it.
- `src/job.rs`: jobs, pages, and what a failure means to the job's owner.
- `src/bt_transport.rs`, `src/device.rs`, `src/directory.rs`: the Bluetooth
  framing, how a device URI is opened, and the registry behind it.
- `src/cli.rs`, `src/text.rs`, `src/date.rs`: reports, text and dates.

Proof functions whose names start with `law_` state what holds of the library as
a whole. `app/` holds the command-line tool and the printer application around
the library: it performs the I/O. `tests/` runs the library.
