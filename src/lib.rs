//! Backend logic of the HC3 QuickApp Manager desktop application: configuration
//! resolution over an environment store, layered `.env` loading, the native menu
//! plan, menu-event routing and the URL launch command.

pub mod env_store;
pub mod config;
pub mod layers;
pub mod menu;
pub mod router;
pub mod launcher;
