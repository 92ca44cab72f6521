pub mod blockfrost_ledger;
