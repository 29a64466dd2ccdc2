//! A schedulable process: a number of tickets and a display name.

use vstd::prelude::*;

verus! {

/// The mathematical value of a [`Process`]: its tickets as an unbounded
/// integer and its name as a sequence of characters.
pub struct ProcessView {
    pub tickets: int,
    pub name: Seq<char>,
}

/// One schedulable unit. The tickets are its weight in the lottery; the name
/// is a label for reporting and plays no part in the selection.
#[derive(Debug)]
pub struct Process {
    tickets: i32,
    name: String,
}

impl View for Process {
    type V = ProcessView;

    closed spec fn view(&self) -> ProcessView {
        ProcessView { tickets: self.tickets as int, name: self.name@ }
    }
}

impl Process {
    /// A process with the given tickets and a copy of the given name. Any
    /// ticket count is accepted, zero and negative ones included.
    pub fn new(tickets: i32, name: &str) -> (process: Process)
        ensures
            process@.tickets == tickets,
            process@.name == name@,
    {
        let new_name = name.to_owned();
        Process { tickets, name: new_name }
    }

    /// The label of this process.
    pub fn name(&self) -> (name: &String)
        ensures
            name@ == self@.name,
    {
        &self.name
    }

    /// The number of tickets this process holds.
    pub fn tickets(&self) -> (tickets: &i32)
        ensures
            *tickets == self@.tickets,
    {
        &self.tickets
    }
}

} // verus!
