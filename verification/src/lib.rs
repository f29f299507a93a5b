//! The rules of an audio tagging desktop application.
//!
//! At the centre stands the local media server that feeds the player of the
//! application: [`range`] settles which bytes of a file a request is served,
//! [`response`] decides status, headers and body of every answer,
//! [`headers`] holds the CORS decorator, and [`url`] builds the URLs that
//! lead to the server and reads them back. Around it stand the rules for
//! tag banks, preferences, the scan of a folder and the tags of a track.
//!
//! The library reads no file and opens no socket. The application does
//! both, and asks the library what to make of what it found.

pub mod banks;
pub mod decimal;
pub mod folder;
pub mod formats;
pub mod headers;
pub mod layout;
pub mod media_type;
pub mod metadata;
pub mod prefs;
pub mod range;
pub mod response;
pub mod sorted;
pub mod text;
pub mod url;
