pub mod address;
pub mod decimal;
pub mod hex_codec;
pub mod ledger_client;
pub mod output;
pub mod pull_validator;
pub mod scripts;
pub mod trireme_ledger_client;
pub mod values;
