//! Collections: ordered-key successors, a double-ended queue, and the merge
//! of buffered map writes over a sorted store.
pub mod next;
pub mod merge;
pub mod ordered_map;
pub use next::{First, Next};
pub use ordered_map::{OrderedKey, OrderedMap};
pub mod deque;
pub use deque::{Deque, Meta};
