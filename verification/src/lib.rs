//! Task tracking and progress streaming for downloads that an external
//! downloader process performs.
//!
//! The library decides; whoever drives it does the work. It keeps the
//! download tasks and their state machine, reads progress out of the
//! downloader's output, says what each event of a running process means,
//! and turns the answers of the content platforms into search results. It
//! never reads the clock, starts a process or opens a connection: times are
//! handed in as seconds or milliseconds since the Unix epoch, and every
//! operation is a function of its arguments and of the tasks stored. The
//! one exception are the counts shown with search suggestions, which are
//! drawn at random.
//!
//! Progress is an integer number of hundredths of a percent, so that one
//! hundred percent is `task::FULL_PROGRESS`.

pub mod batch;
pub mod config;
pub mod encoding;
pub mod error;
pub mod ids;
pub mod media;
pub mod platform;
pub mod platforms;
pub mod progress;
pub mod repository;
pub mod requests;
pub mod runner;
pub mod search;
pub mod service;
pub mod status;
pub mod task;
pub mod text;
pub mod time_format;
pub mod yt_dlp;
