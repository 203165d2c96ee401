//! Batched forward number-theoretic transforms over the BabyBear field,
//! arranged for accelerators that take either column-strided or
//! row-contiguous batches.

pub mod codec;
pub mod dft;
pub mod domain;
pub mod error;
pub mod field;
pub mod layout;
pub mod matrix;
pub mod transform;

pub use codec::{decode, encode, AcceleratorElement};
pub use dft::{matches_reference, reference_dft_batch, BabyBearIcicleDft, BabyBearSpparkDft, PreparedBatch};
pub use domain::{Action, DomainSession, Event, Phase};
pub use error::DftError;
pub use field::{BabyBear, P, TWO_ADICITY};
pub use layout::{finish, prepare, BatchDescriptor, Layout};
pub use matrix::{power_of_two, RowMajorMatrix};
pub use transform::{column_values, dft_batch_values, dft_column};
