pub mod plutus_data;
pub mod plutus_text;
pub mod sorted_map;
