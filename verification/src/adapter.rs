//! Adapters that come with the library.

pub mod dummy;

pub use self::dummy::DummyAdapter;
