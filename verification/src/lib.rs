//! Verified core of a Japanese language-learning toolkit: ordered ranks,
//! Japanese text processing, EPUB and dictionary structure handling.
pub mod dictionary;
pub mod epub;
pub mod forvo;
pub mod language_pack;
pub mod language_pack_jp;
pub mod lexorank;
pub mod plugin;
pub mod sha256;
pub mod string_of;
pub mod subtitle;
pub mod text;
