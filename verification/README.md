# naumachia (verified core)

The logic of a Cardano smart-contract client, written in Verus and proved
against its contracts:

- `scripts::raw_validator_script::plutus_data`: Plutus data, its model, and
  the conversions of script contexts, inputs, values, datums and validity
  ranges into it. Maps are built as ordered maps with byte-string keys
  (`sorted_map`), proved to be sorted, to let a later key win, and not to
  depend on the order in which entries arrive.
- `scripts::context`: the script context and its builders; values as maps of
  maps, with the amounts that adding assets gives.
- `values`, `output`, `address`: amounts by policy id, wallet outputs, addresses.
- `ledger_client::cml_client`: keys (bech32 addresses through the Cardano
  multiplatform library), errors, and the reading of what the Blockfrost
  service reports into outputs.
- `trireme_ledger_client::blockfrost_ledger`: reading a reported output with
  the answer given for its datum, the API key and execution costs.
- `decimal`, `hex_codec`: decimal and hexadecimal text.

`app/` holds what talks to the network (the Blockfrost HTTP client and the
async traits around it) and the copies of library types with `serde` and
`thiserror` derives. `tests/` runs the library on concrete values.
