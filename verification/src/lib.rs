//! Pointer interaction for immediate-mode widgets: which widget is clicked,
//! dragged and hovered in a frame, resolved from the frame's widget geometry,
//! its hit test and the pointer events since the frame before.
//!
//! - [`interaction`] resolves a frame and holds the frame's snapshot.
//! - [`model`] defines on mathematical values what a frame resolves to, and
//!   [`theorems`] proves what follows from that definition.
//! - [`widget_rect`], [`hit_test`], [`input_state`] and [`memory`] hold what a
//!   frame is resolved from; [`id`], [`id_map`] and [`geometry`] what these
//!   are made of.
//! - [`ui`] holds the tables in which a snapshot can be looked at.

pub mod geometry;
pub mod id;
pub mod id_map;
pub mod input_state;
pub mod interaction;
pub mod memory;
pub mod model;
pub mod theorems;
pub mod ui;
pub mod widget_rect;
