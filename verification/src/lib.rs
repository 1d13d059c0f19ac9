//! A container that hands out stable, never reused integer identifiers and
//! is tuned for entries that leave roughly in the order in which they came.
//!
//! [`ExpirationList`] keeps new entries in a dense store, a vector of
//! optional values in which an entry's identifier gives its slot. Removing
//! an entry vacates its slot. Once less than half of the dense store is
//! populated, its older part is retired: the entries that are still live
//! there move to an overflow store, a hash map keyed by identifier, and the
//! dense store shrinks. An identifier resolves to its entry wherever the
//! entry is kept.
//!
//! ```
//! use expiration_list::ExpirationList;
//!
//! let mut list = ExpirationList::new();
//! let id = list.add(1234);
//! assert_eq!(list.get(id), Some(&1234));
//! assert_eq!(list.remove(id), Some(1234));
//! assert!(!list.contains(id));
//! ```
//!
//! The list never removes an entry by itself and knows nothing of time.
//!
//! What the operations do is stated over [`ListModel`], the mathematical
//! state of a list; `laws` holds what is proved of every list.

pub mod iter;
pub mod keys;
pub mod laws;
pub mod lemmas;
pub mod list;
pub mod model;
pub mod overflow;

pub use iter::ExpirationListIterator;
pub use list::ExpirationList;
pub use model::ListModel;
