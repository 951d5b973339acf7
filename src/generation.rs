//! The records produced by the listing parser and the diff engine.
use vstd::prelude::*;
use crate::timestamp::Timestamp;

verus! {

/// One generation of the system profile.
#[derive(Debug)]
pub struct Generation {
    pub id: String,
    pub timestamp: Timestamp,
    pub description: Option<String>,
    pub profiles: Vec<String>,
    pub current: bool,
}

/// A generation with its text fields as character sequences.
pub ghost struct GenerationModel {
    pub id: Seq<char>,
    pub timestamp: Timestamp,
    pub description: Option<Seq<char>>,
    pub profiles: Seq<Seq<char>>,
    pub current: bool,
}

pub open spec fn opt_view(o: Option<String>) -> Option<Seq<char>> {
    match o {
        Some(s) => Some(s@),
        None => None,
    }
}

impl View for Generation {
    type V = GenerationModel;

    open spec fn view(&self) -> GenerationModel {
        GenerationModel {
            id: self.id@,
            timestamp: self.timestamp,
            description: opt_view(self.description),
            profiles: self.profiles@.map_values(|p: String| p@),
            current: self.current,
        }
    }
}

/// What changed between two generations.
#[derive(Debug)]
pub struct GenerationDiff {
    pub added: Vec<String>,
    pub removed: Vec<String>,
    pub modified: Vec<String>,
}

/// The three lists of a diff as character sequences.
pub ghost struct DiffModel {
    pub added: Seq<Seq<char>>,
    pub removed: Seq<Seq<char>>,
    pub modified: Seq<Seq<char>>,
}

impl View for GenerationDiff {
    type V = DiffModel;

    open spec fn view(&self) -> DiffModel {
        DiffModel {
            added: self.added@.map_values(|p: String| p@),
            removed: self.removed@.map_values(|p: String| p@),
            modified: self.modified@.map_values(|p: String| p@),
        }
    }
}

} // verus!
