//! Runtime localization: language tags, per-language translation tables,
//! lookup with fallback, positional substitution and a stable string cache.

pub mod language;
pub mod localization;
pub mod manager;
pub mod substitution;
pub mod text;
pub mod translations;

pub use language::Language;
pub use manager::{I18nManager, LocaleSources};
pub use translations::Translations;
pub use localization::{
    clear_static_cache, get_language, init, set_language, t, t_args, t_static, Localization,
};
