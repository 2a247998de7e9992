//! A local service that prints PDF files silently and speaks text.
//!
//! The print side takes a form with a file ([`print_form`]), finds the paper size ([`paper`]),
//! names the file that is printed ([`print_job`]) and tries the engines of the machine in order
//! ([`engines`]). The speech side takes a request ([`request`]), turns its text into phonemes
//! ([`g2p`]) and a prompt, follows the run of a language model ([`speech`]) and writes the sound
//! ([`wav`]); its voices are kept in a store ([`store`]).
pub mod bytes;
pub mod decimal;
pub mod order;
pub mod text;
pub mod unicode;
pub mod wide;

pub mod place;
pub mod server;
pub mod tray;

pub mod engines;
pub mod paper;
pub mod print_form;
pub mod print_job;
pub mod printers;
pub mod reply;

pub mod assets;
pub mod audio;
pub mod base_voices;
pub mod config;
pub mod dict;
pub mod error;
pub mod fit;
pub mod g2p;
pub mod json;
pub mod mock;
pub mod patterns;
pub mod request;
pub mod runtime;
pub mod speech;
pub mod store;
pub mod voice;
pub mod voice_form;
pub mod wav;
