//! Turns a photo-diary form submission into a published post.
//!
//! A submission arrives as a stream of form fields. [`fields`] sorts the
//! fields into the record of the post ([`form`]) and the files that await
//! upload; [`geo`] reads the places of the images. [`pipeline`] then leads
//! the request through its stages: it names one action at a time, and the
//! caller performs the action and reports how it went. Along the way the
//! feature image is chosen and the record is validated ([`form`]), and the
//! post is rendered ([`post`], [`slug`]). [`calendar`] gives the paths and
//! addresses that depend on dates.
//!
//! What holds of whole runs and of whole streams is proved in [`trace`] and
//! [`arrival`].

pub mod arrival;
pub mod calendar;
pub mod failure;
pub mod fields;
pub mod form;
pub mod geo;
pub mod json;
pub mod pipeline;
pub mod post;
pub mod slug;
pub mod text;
pub mod trace;
