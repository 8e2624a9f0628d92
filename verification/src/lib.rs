//! A shared movie watch-queue behind a chat bot.
//!
//! The queue lives in a remote catalog. This library holds what the bot
//! decides and computes; sending requests and chat messages is left to its
//! caller, who hands back what came.
//!
//! - [`api`]: the client of the catalog, which builds the request of each
//!   operation and says what each reply means.
//! - [`queue`]: the resolution of the queue into one outcome per reference,
//!   in queue order, whichever items fail.
//! - [`movie`]: the records of the catalog, and the text that shows the
//!   outcomes, one line for each.
//! - [`segment`]: the segmentation of that text into messages of bounded
//!   size, cut only after separators.
//! - [`resolver`]: the client of the provider lookup, and the text of its
//!   answer.
//! - [`command`]: what the chat commands read and say.
//! - [`address`], [`status`], [`numeral`], [`text`]: addresses, item
//!   statuses, decimal numerals and strings.

pub mod address;
pub mod api;
pub mod command;
pub mod movie;
pub mod numeral;
pub mod queue;
pub mod resolver;
pub mod segment;
pub mod status;
pub mod text;
