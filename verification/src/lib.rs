//! comically: the page-processing core of a manga/comic optimizer for
//! e-readers, with its contracts proved by Verus.
//!
//! The crate holds the decisions and the pixel logic: settings and how they
//! change, which pages a double spread becomes, gamma/autocontrast/brightness,
//! white-margin detection and cropping, archive entry filtering, output names
//! and the contents of the packaged CBZ/EPUB files, the KindleGen bookkeeping,
//! and the state and texts behind the screens.

pub mod archive;
pub mod autocrop;
pub mod cbz;
pub mod codec;
pub mod comic;
pub mod config_screen;
pub mod epub;
pub mod gray;
pub mod labels;
pub mod mobi;
pub mod package;
pub mod pages;
pub mod pipeline;
pub mod progress;
pub mod screen;
pub mod settings;
pub mod text;
pub mod tone;
