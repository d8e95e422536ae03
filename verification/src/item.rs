use vstd::prelude::*;

verus! {

/// Contents of a breakable block: nothing, a number of coins, or an extra
/// life.
#[derive(Copy, Clone, Debug, PartialEq, Eq, Structural)]
pub enum Item {
    Empty,
    Coins(u32),
    ExtraLife,
}

/// The item table: which characters of a map file stand for which item.
pub open spec fn spec_parse_item(value: char) -> Option<Item> {
    if value == '-' {
        Some(Item::Empty)
    } else if value == 'c' {
        Some(Item::Coins(1))
    } else if value == 'C' {
        Some(Item::Coins(3))
    } else if value == '$' {
        Some(Item::Coins(10))
    } else if value == '+' {
        Some(Item::ExtraLife)
    } else {
        None
    }
}

impl Item {
    /// Parses one map character into an item; any character outside the item
    /// table is handed back as the error.
    pub fn parse(value: char) -> (r: Result<Item, char>)
        ensures
            match r {
                Ok(item) => spec_parse_item(value) == Some(item),
                Err(c) => c == value && spec_parse_item(value) is None,
            },
    {
        match value {
            '-' => Ok(Item::Empty),
            'c' => Ok(Item::Coins(1)),
            'C' => Ok(Item::Coins(3)),
            '$' => Ok(Item::Coins(10)),
            '+' => Ok(Item::ExtraLife),
            _ => Err(value),
        }
    }
}

} // verus!
