//! The commands that the engine executes.
use vstd::prelude::*;

use super::order::{Order, OrderModel};

verus! {

/// A command for the order book.
#[derive(Debug, PartialEq, Clone, Copy)]
pub enum Command {
    Add(Order),
    Get(u32),
    Cancel(u32),
    Reduce { id: u32, amount: u64 },
    Summary,
}

/// What a command holds.
pub enum CommandModel {
    Add(OrderModel),
    Get(u32),
    Cancel(u32),
    Reduce { id: u32, amount: u64 },
    Summary,
}

impl View for Command {
    type V = CommandModel;

    open spec fn view(&self) -> CommandModel {
        match *self {
            Command::Add(o) => CommandModel::Add(o@),
            Command::Get(id) => CommandModel::Get(id),
            Command::Cancel(id) => CommandModel::Cancel(id),
            Command::Reduce { id, amount } => CommandModel::Reduce { id, amount },
            Command::Summary => CommandModel::Summary,
        }
    }
}

} // verus!
