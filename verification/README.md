# maia_sdr

Verified core of the Maia SDR control software, written in Verus.

- `src/` is the library. Its functions carry contracts that Verus proves:
  the JSON schema enums and their text forms, the DDC decimation splits and
  FIR coefficient RAM layout of the FPGA IP core, the DDC configuration
  update, the register encodings, the spectrometer DMA ring and word format,
  the IQ recording formats, the recording stream, the IQEngine reads, the
  recording metadata patch and the recorder state machine, and the integer
  bookkeeping of the web waterfall (line uploads, frequency scale index
  buffers, pointer gestures, texture units).
- Two functions of `src/fpga.rs` are trusted rather than proved, each a
  single call: the width of the spectrometer integrations field, read from
  the `maia-pac` register definitions, and `usize::is_power_of_two`. The
  `wasm-bindgen` type `JsValue` is declared to Verus in `src/ui/patch.rs`.
- `tests/` runs the library on concrete values.
- `app/` is the thin program around it: AD9361 access through IIO sysfs files,
  reads of the recording device, the floating-point filter design with
  `pm-remez`, SigMF metadata with `serde_json`, and the command line.

Run Verus on `src/lib.rs` to check the proofs.
