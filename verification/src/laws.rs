//! What the operations of the library are for, said of the values that go into a call and those
//! that come out of it, and of several calls together.

pub mod endpoints;
pub mod pages;
pub mod routing;
pub mod sign_in;
pub mod streams;
