pub mod command;
pub mod dto;
pub mod filedata;
pub mod filesystem;
pub mod filewriter;
pub mod linecount;
pub mod model;
pub mod pathmatcher;
pub mod paths;
pub mod snapshot;
pub mod sorting;
pub mod state;
