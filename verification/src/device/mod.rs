pub mod ids;
pub mod watcher;

pub use ids::{BootloaderDevice, BootloaderKind, Keyboard};
pub use watcher::WatchStatus;
