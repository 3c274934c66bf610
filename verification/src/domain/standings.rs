//! First-stage group tables.

use vstd::prelude::*;

use crate::domain::ids::{GroupId, TeamId};
use crate::text::{ascii_lowercase, ascii_lowercase_chars, chars_of, same_chars};

verus! {

/// One team's line in a group table.
#[derive(Debug)]
pub struct StandingRow {
    pub group_id: GroupId,
    pub group_name: String,
    pub team_id: TeamId,
    pub team_name: String,
    pub position: u8,
    pub played: u8,
    pub won: u8,
    pub drawn: u8,
    pub lost: u8,
    pub goals_for: i16,
    pub goals_against: i16,
    pub goal_difference: i16,
    pub points: i16,
    pub qualification_status: Option<String>,
    pub fair_play: Option<i16>,
}

impl Clone for StandingRow {
    fn clone(&self) -> (r: Self)
        ensures
            r == *self,
    {
        StandingRow {
            group_id: self.group_id.clone(),
            group_name: self.group_name.clone(),
            team_id: self.team_id.clone(),
            team_name: self.team_name.clone(),
            position: self.position,
            played: self.played,
            won: self.won,
            drawn: self.drawn,
            lost: self.lost,
            goals_for: self.goals_for,
            goals_against: self.goals_against,
            goal_difference: self.goal_difference,
            points: self.points,
            qualification_status: match &self.qualification_status {
                Some(s) => Some(s.clone()),
                None => None,
            },
            fair_play: self.fair_play,
        }
    }
}

/// Where a team stands with respect to leaving the group stage.
#[derive(Clone, Copy, Debug, Eq, PartialEq, Structural)]
pub enum QualificationState {
    Open,
    Qualified,
    Disqualified,
}

/// How FIFA's qualification status text reads, ignoring ASCII case: the
/// qualified and eliminated spellings FIFA uses; anything else, or no status,
/// leaves the team open.
pub open spec fn qualification_of(status: Option<Seq<char>>) -> QualificationState {
    match status {
        Some(s) => {
            let l = ascii_lowercase(s);
            if l == "confirmedqualified"@ || l == "qualified"@ {
                QualificationState::Qualified
            } else if l == "confirmeddisqualified"@ || l == "disqualified"@ || l
                == "confirmedeliminated"@ || l == "eliminated"@ || l == "confirmednotqualified"@
                || l == "notqualified"@ {
                QualificationState::Disqualified
            } else {
                QualificationState::Open
            }
        },
        None => QualificationState::Open,
    }
}

pub open spec fn text_option_view(o: Option<String>) -> Option<Seq<char>> {
    match o {
        Some(s) => Some(s@),
        None => None,
    }
}

impl StandingRow {
    pub fn qualification_state(&self) -> (r: QualificationState)
        ensures
            r == qualification_of(text_option_view(self.qualification_status)),
    {
        match &self.qualification_status {
            Some(s) => QualificationState::from_fifa_status(Some(s.as_str())),
            None => QualificationState::from_fifa_status(None),
        }
    }
}

fn is_one_of(l: &[char], options: &[&str]) -> (r: bool)
    ensures
        r == exists|i: int| 0 <= i < options@.len() && l@ == options@[i]@,
{
    let mut i: usize = 0;
    while i < options.len()
        invariant
            i <= options@.len(),
            forall|j: int| 0 <= j < i ==> l@ != options@[j]@,
        decreases options@.len() - i,
    {
        let o = chars_of(options[i]);
        if same_chars(l, o.as_slice()) {
            return true;
        }
        i = i + 1;
    }
    false
}

impl QualificationState {
    /// Reads FIFA's qualification status text.
    pub fn from_fifa_status(status: Option<&str>) -> (r: QualificationState)
        ensures
            r == qualification_of(
                match status {
                    Some(s) => Some(s@),
                    None => None,
                },
            ),
    {
        match status {
            None => QualificationState::Open,
            Some(s) => {
                let l = ascii_lowercase_chars(chars_of(s).as_slice());
                let qualified = ["confirmedqualified", "qualified"];
                let out = [
                    "confirmeddisqualified",
                    "disqualified",
                    "confirmedeliminated",
                    "eliminated",
                    "confirmednotqualified",
                    "notqualified",
                ];
                if is_one_of(l.as_slice(), &qualified) {
                    assert(l@ == "confirmedqualified"@ || l@ == "qualified"@);
                    QualificationState::Qualified
                } else if is_one_of(l.as_slice(), &out) {
                    assert(!(l@ == "confirmedqualified"@ || l@ == "qualified"@)) by {
                        assert(qualified@[0]@ == "confirmedqualified"@);
                        assert(qualified@[1]@ == "qualified"@);
                    }
                    QualificationState::Disqualified
                } else {
                    assert(qualified@[0]@ == "confirmedqualified"@);
                    assert(qualified@[1]@ == "qualified"@);
                    assert(out@[0]@ == "confirmeddisqualified"@);
                    assert(out@[1]@ == "disqualified"@);
                    assert(out@[2]@ == "confirmedeliminated"@);
                    assert(out@[3]@ == "eliminated"@);
                    assert(out@[4]@ == "confirmednotqualified"@);
                    assert(out@[5]@ == "notqualified"@);
                    QualificationState::Open
                }
            },
        }
    }

    pub fn is_qualified(self) -> (r: bool)
        ensures
            r == (self == QualificationState::Qualified),
    {
        self == QualificationState::Qualified
    }

    pub fn is_disqualified(self) -> (r: bool)
        ensures
            r == (self == QualificationState::Disqualified),
    {
        self == QualificationState::Disqualified
    }
}

/// How FIFA's qualification texts read, in any letter case: "qualified" and
/// "confirmedQualified" mean through; "disqualified", "eliminated",
/// "notQualified" and their "confirmed" forms mean out; no text, or any
/// other text, leaves it open.
pub proof fn qualification_texts(s: Seq<char>)
    ensures
        (ascii_lowercase(s) == "confirmedqualified"@ || ascii_lowercase(s) == "qualified"@) ==> qualification_of(Some(s)) == QualificationState::Qualified,
        (ascii_lowercase(s) == "confirmeddisqualified"@ || ascii_lowercase(s) == "disqualified"@ || ascii_lowercase(s) == "confirmedeliminated"@ || ascii_lowercase(s) == "eliminated"@ || ascii_lowercase(s) == "confirmednotqualified"@ || ascii_lowercase(s) == "notqualified"@) ==> qualification_of(Some(s)) == QualificationState::Disqualified,
        qualification_of(None) == QualificationState::Open,
        !(ascii_lowercase(s) == "confirmedqualified"@ || ascii_lowercase(s) == "qualified"@ || ascii_lowercase(s) == "confirmeddisqualified"@ || ascii_lowercase(s) == "disqualified"@ || ascii_lowercase(s) == "confirmedeliminated"@ || ascii_lowercase(s) == "eliminated"@ || ascii_lowercase(s) == "confirmednotqualified"@ || ascii_lowercase(s) == "notqualified"@) ==> qualification_of(Some(s)) == QualificationState::Open,
{
    reveal_strlit("confirmedqualified");
    reveal_strlit("qualified");
    reveal_strlit("confirmeddisqualified");
    reveal_strlit("disqualified");
    reveal_strlit("confirmedeliminated");
    reveal_strlit("eliminated");
    reveal_strlit("confirmednotqualified");
    reveal_strlit("notqualified");
    let l = ascii_lowercase(s);
    if l.len() != 9 && l.len() != 18 {
        assert(l != "qualified"@);
        assert(l != "confirmedqualified"@);
    }
}

} // verus!
