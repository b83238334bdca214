//! The application's name, version and links, as its pages show them.
use vstd::prelude::*;

verus! {

/// The application's fixed facts.
pub struct AppConfig;

impl AppConfig {
    /// The application's name.
    pub const NAME: &'static str = "Miku Tunes";
    /// The application's one-line description in Chinese.
    pub const NAME_ZH: &'static str = "基于 Tauri + Rust 的轻量级桌面音乐播放器";
    /// The version shown on the home page.
    pub const VERSION: &'static str = "1.0";
    /// The repository's address.
    pub const GITHUB_URL: &'static str = "https://github.com/your-username/miku-tunes";
    /// A short account of the project.
    pub const DESCRIPTION: &'static str = "一款以初音未来（Hatsune Miku）为核心视觉IP的轻量级桌面音乐播放器，采用Tauri + Rust技术栈构建。";
    /// Who made it.
    pub const AUTHOR: &'static str = "Miku Tunes Team";
}

} // verus!
