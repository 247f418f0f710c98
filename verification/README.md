# export_findmy

Exports the keys of one's own FindMy accessories as property list files, one
per accessory.

- `src/` is a library verified with Verus. It reads the command line, describes
  the device that the tool presents itself as, chooses and cleans up escrow
  bottles, sorts the fetched records, puts the accessories together from them,
  and decides what is written to which file.
- `app/` is the program around it: the terminal, the network, the file system.
- `tests/` runs the library.

Among what is proved: no two accessories are written to the same file, no file
name leaves the output directory, the property list of an accessory gives back
every field of its master record, and the clean-up deletes no escrow bottle but
those that the tool itself left.

The library calls `plist`, `sha2`, `uuid` and `rand`. What it relies on of them
stands next to the calls, in `src/property_list.rs`, `src/session.rs` and
`src/device.rs`; of the standard library, it relies on `String::push`
(`src/text.rs`).

Output files contain private key material.
