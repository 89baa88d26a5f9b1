//! Client for a network fault injection service that manages named groups of
//! containers ("blockades"): the wire model and its tolerant decoding, the
//! plans of requests each operation makes, and a local shadow of what the
//! service last reported.
//!
//! The library makes no calls itself: each operation yields an `Action`, the
//! caller performs the HTTP call it names and hands the `Outcome` back.

mod blockade;
mod codec;
mod error;
mod json;
mod table;
mod text;
mod wire;

pub use blockade::{
    Action, BlockadeHandler, Call, Done, Finale, Method, Mode, Outcome, Plan, Request,
    CONFLICT_MESSAGE, NOT_FOUND_MESSAGE, NO_CONTAINERS_MESSAGE,
};
pub use codec::{
    decode_container_state, decode_list, decode_state, encode_command_args, encode_config,
    encode_container, encode_names, encode_net_args, encode_partition_args,
};
pub use error::BlockadeError;
pub use error::BlockadeError as Error;
pub use json::{find_member, Json};
pub use table::Table;
pub use text::{decimal, fold_eq, same_text, text_less};
pub use wire::{
    ip_default_resource, none_str_resource, none_u32_resource, BlockadeCommand,
    BlockadeCommandArgs, BlockadeConfig, BlockadeContainer, BlockadeContainerState,
    BlockadeContainerStatus, BlockadeNetArgs, BlockadeNetConfig, BlockadeNetStatus,
    BlockadePartitionArgs, BlockadeState, Ipv4Address, Stringify,
};
