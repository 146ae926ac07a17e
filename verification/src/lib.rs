//! Transaction review, APDU buffering and key helpers of a Ledger
//! application that signs Diem transactions.

pub mod diem_types;
pub mod hex;
pub mod bounded;
pub mod review;
pub mod apdu;
pub mod crypto;
