//! Navigation state of a Hacker News terminal client: the tab bar, the
//! "resume Item reading" screen layout, and the history of visited items that
//! is kept between sessions.

pub mod breakpoints;
pub mod clock;
pub mod history;
pub mod navigation;
pub mod resume;
pub mod router;
