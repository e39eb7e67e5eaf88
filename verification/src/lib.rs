pub mod config;
pub mod defaults;
pub mod feature;
pub mod i18n;
pub mod ini_doc;
pub mod json_doc;
pub mod keys;
pub mod replace;
pub mod text;
pub mod units;
pub mod yaml_doc;
