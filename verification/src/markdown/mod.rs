//! A small Markdown-to-HTML renderer: inline formatting, block structure,
//! tables, code highlighting, and `<Card>`/`<LinkCard>`/`<Tabs>` components.
pub mod helpers;
pub mod js;
pub mod highlight;
pub mod render;
pub mod components;
pub mod page;
pub mod laws;
