//! What the consumer materializes: the jobsite read model and the checkpoint
//! of each projection group.

pub mod jobsite;
pub mod snapshot_position;
