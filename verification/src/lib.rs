//! A retained-mode GUI core: sizing limits and flex-row layout, a closed
//! widget set with verified event dispatch, a content-addressed cache for
//! rasterized vector assets, and the subscription bookkeeping of the update
//! loop.

pub mod cache;
pub mod event;
pub mod layout;
pub mod mouse;
pub mod renderer;
pub mod subscription;
pub mod table;
pub mod widget;
