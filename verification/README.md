# llama-tune

A terminal program that detects the machine's hardware, recommends llama.cpp
parameters for it, lists GGUF models from Hugging Face that fit, and downloads
and launches them.

- `src/` is the library. It makes every decision of the program, and Verus
  proves its functions against their contracts. Functions named `law_…` state
  what holds across functions.
- `src/outside.rs` holds what is believed, without proof, of `bytesize` and of
  parts of `std`.
- `app/` is the program around the library: the terminal, the network, the file
  system and the processes.
- `tests/` runs the library on concrete values.

The terminal layout, the share of a download in percent, and the parsing of JSON
are in `app/`.
