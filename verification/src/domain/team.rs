//! National teams.

use vstd::prelude::*;

use crate::domain::ids::TeamId;
use crate::domain::tournament::Confederation;
use crate::domain::matches::clone_text_option;

verus! {

/// A national team. FIFA's ranking points, a decimal figure that only storage
/// keeps, are not part of this record.
#[derive(Debug)]
pub struct Team {
    pub id: TeamId,
    pub name: String,
    pub abbreviation: String,
    pub country_code: String,
    pub confederation: Confederation,
    pub flag_url_template: Option<String>,
    pub fifa_rank: Option<u16>,
    pub favorite: bool,
}

impl Clone for Team {
    fn clone(&self) -> (r: Self)
        ensures
            r == *self,
    {
        Team {
            id: self.id.clone(),
            name: self.name.clone(),
            abbreviation: self.abbreviation.clone(),
            country_code: self.country_code.clone(),
            confederation: self.confederation,
            flag_url_template: clone_text_option(&self.flag_url_template),
            fifa_rank: self.fifa_rank,
            favorite: self.favorite,
        }
    }
}

} // verus!
