pub mod anthropic;
