pub mod text;
pub mod namemap;
pub mod clock;
pub mod types;
pub mod process;
pub mod init;
pub mod deps;
pub mod services;
pub mod boot;
pub mod registry;
pub mod runlevels;
pub mod lifecycle;
pub mod api;
pub mod textproc;
pub mod notify;
pub mod envfile;
pub mod tmpfiles;
pub mod systemd;
pub mod edge_boot;
pub mod security;
pub mod health;
pub mod audit;

pub use init::ArgonautInit;
