//! A singly-linked list with stack-style head operations, positional
//! insertion and removal, and three traversal cursors (consuming,
//! read-only, and mutable). Every operation carries a contract stated
//! over the list's abstract view, a `Seq` of its elements in
//! head-to-tail order.

pub mod list;
