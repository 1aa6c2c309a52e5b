//! General-purpose helpers over slices and strings: set relations between
//! collections, removal and deduplication, and an HTML entity codec.

pub mod difference;
pub mod difference_all;
pub mod element;
pub mod escape;
pub mod index_of;
pub mod initial;
pub mod intersect;
pub mod intersect_all;
pub mod pull;
pub mod pull_all;
pub mod sample;
pub mod search;
pub mod shuffle;
pub mod tail;
pub mod unescape;
pub mod uniq;

pub use difference::{difference, Difference};
pub use difference_all::{difference_all, DifferenceAll};
pub use escape::{escape, Escape};
pub use index_of::{index_of, IndexOf};
pub use initial::{initial, Initial};
pub use intersect::{intersect, Intersect};
pub use intersect_all::{intersect_all, IntersectAll};
pub use pull::{pull, Pull};
pub use pull_all::{pull_all, PullAll};
pub use sample::{sample, Sample};
pub use shuffle::{shuffle, Shuffle};
pub use tail::{tail, Tail};
pub use unescape::{unescape, Unescape};
pub use uniq::{uniq, Uniq};
