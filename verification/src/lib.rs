//! A FoundationDB directory and tuple toolkit: tuple text such as `(user-1)`
//! and its tuple-layer encoding, keys and prefix ranges inside directories,
//! and the decisions of an interactive shell over them.

pub mod directory;
pub mod hex_text;
pub mod repl;
pub mod spaces;
pub mod text;
pub mod tuple_text;

pub use crate::directory::{
    prefix_range_for_user, tuple_key_from_string, tuple_prefix_range, CoreSpaces, DirSpace,
};
pub use crate::tuple_text::{parse_simple_tuple_str, tuple_pack_from_string, tuple_unpack_to_string};

use vstd::prelude::*;

verus! {

/// The environment variable that holds the path of the cluster file.
pub const ENV_DB_PATH: &'static str = "SNM_FDBCLI_DB_PATH";

} // verus!
