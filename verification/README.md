# extends_rs

Struct "inheritance" for Rust source: an attribute such as

```rust
#[extends_struct(derive="Debug,Clone"&&extends="rsdata::dbs::base_struct::BaseDO@struct")]
struct Child { pub a: Option<i8> }
```

makes `Child` take over the fields, derives and inherent impl of `BaseDO`,
which lives in another crate's source file, and adds `get_struct_name`,
`get_struct_attr_str` and `new_none`.

Layout:

- `src/` — the verified library (Verus): `text` (character sequences),
  `attr` (the attribute's `key=value` text), `path` (where the parent's file
  is), `grammar` (the scanner for struct and impl items), `derive` (merging
  derive lists), `fields` (field summaries and `new_none` initializers),
  `tokens` (the trusted calls into `proc-macro2`, `syn`, `quote` and
  `substring`, stated as relations between the text handed to them and
  what they return), `extends` and `struct_extends` (the generated code),
  `laws`, `laws_derive` and `laws_child` (properties proved across the
  functions).
- `app/` — the entry points that read token streams, the working directory
  and files, and call the library.
- `tests/` — tests of the library on concrete inputs.
