pub mod digest;
pub mod inifile;
pub mod manifest;
pub mod textfmt;
pub mod update;
pub mod xmlparse;
