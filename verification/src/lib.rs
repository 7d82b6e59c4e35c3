pub mod accept;
pub mod accept_checkpoint;
pub mod accept_effects;
pub mod accept_tx;
pub mod arena;
pub mod base;
pub mod builders;
pub mod bytes;
pub mod checkpoint;
pub mod containers;
pub mod effects;
pub mod effects_readback;
pub mod error;
pub mod error_readback;
pub mod fast;
pub mod grpc;
pub mod message;
pub mod execution_status;
pub mod object;
pub mod order;
pub mod reader;
pub mod readback;
pub mod shims;
pub mod signature;
pub mod system_transaction;
pub mod tag_readback;
pub mod transaction;
pub mod tx_index;
pub mod type_tag;
pub mod wire;
pub mod wire_size;
