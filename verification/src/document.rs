//! A document is a list of commands. Nothing else.

use vstd::prelude::*;

use crate::command::Command;

verus! {

#[derive(Debug, Clone, PartialEq, Eq, Default)]
pub struct Document(pub Vec<Command>);

impl View for Document {
    type V = Seq<Command>;

    open spec fn view(&self) -> Seq<Command> {
        self.0@
    }
}

impl Document {
    pub fn new(commands: Vec<Command>) -> (d: Self)
        ensures
            d@ == commands@,
    {
        Document(commands)
    }

    pub fn commands(&self) -> (c: &[Command])
        ensures
            c@ == self@,
    {
        self.0.as_slice()
    }
}

} // verus!
