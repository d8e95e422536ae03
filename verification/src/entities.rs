use vstd::prelude::*;

verus! {

/// The kinds of entity a map can ask to be spawned.
#[derive(Copy, Clone, Debug, PartialEq, Eq, Structural)]
pub enum EntityType {
    Goal,
    Checkpoint,
    Player,
    Crawler,
}

/// The spawn table: which digit of a map file stands for which entity kind.
pub open spec fn spec_parse_entity(id: u8) -> Option<EntityType> {
    if id == 0 {
        Some(EntityType::Goal)
    } else if id == 1 {
        Some(EntityType::Checkpoint)
    } else if id == 2 {
        Some(EntityType::Player)
    } else if id == 3 {
        Some(EntityType::Crawler)
    } else {
        None
    }
}

impl EntityType {
    /// Parses a spawn digit into an entity kind; a digit outside the table is
    /// handed back as the error.
    pub fn parse(id: u8) -> (r: Result<EntityType, u8>)
        ensures
            match r {
                Ok(entity) => spec_parse_entity(id) == Some(entity),
                Err(e) => e == id && spec_parse_entity(id) is None,
            },
    {
        match id {
            0 => Ok(EntityType::Goal),
            1 => Ok(EntityType::Checkpoint),
            2 => Ok(EntityType::Player),
            3 => Ok(EntityType::Crawler),
            _ => Err(id),
        }
    }
}

} // verus!
