//! File-open intent pipeline of a single-document viewer.
//!
//! Three independent sources can ask for a file to be opened: the arguments the
//! process was launched with, an open-document request that the operating
//! system sends to the running process, and a drag-and-drop onto the window.
//! Each source proposes at most one candidate path per signal. A candidate that
//! passes validation becomes the pending open request of the dispatcher, which
//! holds it until the display surface has reported that it is ready and then
//! hands out exactly one notification for it.
//!
//! The library decides; the caller performs. No function here touches the
//! window system: every operation returns the notification, if any, that the
//! caller has to send to the display layer.
//!
//! - [`candidate`]: candidate paths and the rule that admits them
//! - [`scanner`]: the launch argument scanner
//! - [`bridge`]: the native open-event bridge
//! - [`payload`], [`encoding`]: the payload of a drop and its written form
//! - [`drop_listener`]: the drag-and-drop listener
//! - [`dispatcher`]: the readiness-gated dispatcher and its laws
//! - [`pipeline`]: the sources, the admission rule and the dispatcher together

pub mod bridge;
pub mod candidate;
pub mod dispatcher;
pub mod drop_listener;
pub mod encoding;
pub mod payload;
pub mod pipeline;
pub mod scanner;
