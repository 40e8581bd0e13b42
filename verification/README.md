# parsio

Parser-related utilities: a `Read` and a `Write` trait suited to zero-copy
environments, verified with Verus.

- `src/error.rs`: `ErrorKind`, `ReadError`, `WriteError` and their conversions.
- `src/read.rs`: the `Read` trait, with what each operation does stated over
  the bytes a reader has left (`remaining`); its implementations on `&[u8]`,
  `Vec<u8>` and `Cow<[u8]>`; `DepthAwareReader` and its guard, which bound the
  nesting depth.
- `src/read/checkpoint.rs`: `Checkpoint`, a reader that counts the bytes read.
- `src/write.rs`: the `Write` trait, with what each operation does stated over
  what a writer has taken in (`output`); its implementations on `Vec<u8>`,
  `&mut [u8]`, `&mut W` and `Box<W>`; `write_all_step`, the decision that
  `write_all` takes on each result of `write`.
- `app/lib.rs`: the readers and writers over `std::io` (`StdReader`,
  `StdWriter`) and error types with `Display` and `std::error::Error`.
