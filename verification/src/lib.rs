//! Parsing of SWIFT MT940 customer statements into structured data, and
//! export of the statements as JSON, CSV and camt.053 XML.
//!
//! The parser tokenizes the tags of the input and runs them through a
//! finite state machine; the `:86:` texts of the transactions go through a
//! chain of dialect decoders (SWIFT structured, German GVC, Polish/Nordic
//! angular, unstructured), chosen per transaction.
pub mod amounts;
pub mod dates;
pub mod error;
pub mod text;
pub mod models;
pub mod statement;
pub mod decoders;
pub mod digits;
pub mod parser;
pub mod serializers;

pub use self::amounts::Amount;
pub use self::dates::{infer_entry_date, parse_mt940_date, Date};
pub use self::amounts::parse_mt940_amount;
pub use self::decoders::DecoderChain;
pub use self::error::ParseError;
pub use self::models::{Balance, DebitOrCredit, FieldMap, StatementNumber, Transaction};
pub use self::parser::{parse_mt940, parse_mt940_checked};
pub use self::serializers::camt053::to_camt053;
pub use self::serializers::csv::to_csv;
pub use self::serializers::json::json_document;
pub use self::statement::Statement;
