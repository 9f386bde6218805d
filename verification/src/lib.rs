//! Verified core of the Prinny desktop shell: the network guards, URL and
//! redirect policy, HTML preview extraction, the Discord-RPC bridge protocol,
//! the icon and drag-drop bookkeeping, and the small decisions the shell makes
//! about the window, the taskbar and the webview's capture permissions.
//!
//! Everything here works on plain values. The native side (the webview host,
//! sockets, files, DNS) hands results in and performs the actions handed back.

pub mod netguard;
pub mod notify_icon;
pub mod numbers;
pub mod og;
pub mod rich_presence;
pub mod shell;
pub mod taskbar;
pub mod capture;
pub mod custom_css;
pub mod dropped;
pub mod fetch;
pub mod text;
pub mod weburl;
