pub mod archive;
pub mod catalog;
pub mod export;
pub mod model;
pub mod scene;
pub mod references;
pub mod search;
pub mod seed;
pub mod text;
