//! Client side of the connectionless server-status query of a voice-chat
//! server: a twelve-byte ping goes out, a twenty-four-byte pong comes back.
//!
//! [`byte_order`] is the mathematical model of big-endian integers,
//! [`fixed_int`] hands single integers to `bincode`, [`codec`] lays the two
//! messages out on the wire, and [`query`] decides, event by event, what one
//! status query does next.

pub mod byte_order;
pub mod codec;
pub mod fixed_int;
pub mod query;

pub use codec::{
    decode_ping, decode_pong, encode_ping, encode_pong, MalformedError, Ping, Pong, PING_KIND,
    PING_LEN, PONG_LEN,
};
pub use query::{judge, Action, Event, Query, QueryError, Verdict};
