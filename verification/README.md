# RDP PDU encoding, verified

A Verus library for two pieces of the RDP wire format:

- `src/palette.rs`: the clipboard palette (`CLIPRDR_PALETTE`), an array of
  four-byte `PALETTEENTRY` records. Encoding, decoding and size are proved
  against the spec functions `encode_entries` and `decode_entries`, and the
  two round-trip laws are proved as `lemma_decode_encode` and
  `lemma_encode_decode`.
- `src/dvc/`: the dynamic virtual channel header byte, its variable-width
  fields (`FieldType`), and the `DYNVC_DATA_FIRST` PDU
  (`src/dvc/data_first.rs`), with its decode errors and the round-trip law
  `lemma_data_first_roundtrip`.

Tests under `tests/` run the compiled library on concrete inputs.
