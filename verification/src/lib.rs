//! Transaction-construction request builder for a wallet: an immutable
//! configuration accumulator (`TxBuilder`), an input/output ordering
//! strategy (`TxOrdering`), and a change-output spend filter
//! (`ChangeSpendPolicy`).

pub mod byte_order;
pub mod change_policy;
pub mod coin_selection;
pub mod ordering;
pub mod tx_builder;
pub mod types;

pub use change_policy::ChangeSpendPolicy;
pub use coin_selection::CoinSelection;
pub use coin_selection::CoinSelectionAlgorithm;
pub use coin_selection::DefaultCoinSelectionAlgorithm;
pub use ordering::TxOrdering;
pub use tx_builder::TxBuilder;

pub use types::Address;
pub use types::FeeRate;
pub use types::OutPoint;
pub use types::PolicyPath;
pub use types::SighashType;
pub use types::Transaction;
pub use types::TxIn;
pub use types::TxOut;
pub use types::Txid;
pub use types::Utxo;
pub use types::Version;
