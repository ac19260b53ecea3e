use vstd::prelude::*;

verus! {

/// A color by its red, green and blue components.
pub struct Color {
    red: u8,
    green: u8,
    blue: u8,
}

/// A calendar date by day, month and year.
pub struct Date {
    day: u8,
    month: u8,
    year: u16,
}

/// The values from `start` to `end`.
pub struct Range<T> {
    start: T,
    end: T,
}

/// A key with its value.
pub struct KeyValuePair<K, V> {
    key: K,
    value: V,
}

/// A locator by protocol, host and path.
pub struct URL {
    protocol: String,
    host: String,
    path: String,
}

/// A matrix by its dimensions and its rows.
pub struct Matrix<T> {
    rows: usize,
    columns: usize,
    data: Vec<Vec<T>>,
}

/// A span of time between two timestamps.
pub struct TimeInterval {
    start: u64,
    end: u64,
}

/// A set of options.
pub struct OptionSet<T> {
    options: Vec<T>,
}

/// The items of a priority queue.
pub struct PriorityQueue<T> {
    items: Vec<T>,
}

/// A node of a singly linked list.
pub struct Node<T> {
    data: T,
    next: Option<Box<Node<T>>>,
}

/// A binary tree whose values sit in its leaves.
pub enum BinaryTree<T> {
    Leaf(T),
    Node { left: Box<BinaryTree<T>>, right: Box<BinaryTree<T>> },
}

/// The states of a process.
pub enum State {
    /// The process has not started.
    Initial,
    /// The process is under way.
    InProgress,
    /// The process has finished.
    Completed,
}

/// A state machine by its current state.
pub struct StateMachine {
    current_state: State,
}

} // verus!
