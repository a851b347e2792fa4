pub mod pexels;
pub mod pixabay;
pub mod youtube;
pub mod archive;
pub mod downloader;
