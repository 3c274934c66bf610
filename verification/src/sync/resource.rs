//! The units of data that are refreshed from FIFA one at a time.

use vstd::prelude::*;

use crate::domain::ids::{GroupId, MatchId};
use crate::domain::tournament::{all_groups, group_id_text, Group};
use crate::text::{concat2, owned};

verus! {

#[derive(Debug, Eq, Hash, Ord, PartialOrd)]
pub enum ResourceKey {
    Teams,
    Stages,
    Matches,
    StandingsGroup(GroupId),
    TopScorers,
    Timeline(MatchId),
}

/// A resource key with its identifiers taken as text.
pub ghost enum ResourceView {
    Teams,
    Stages,
    Matches,
    StandingsGroup(Seq<char>),
    TopScorers,
    Timeline(Seq<char>),
}

impl View for ResourceKey {
    type V = ResourceView;

    open spec fn view(&self) -> ResourceView {
        match self {
            ResourceKey::Teams => ResourceView::Teams,
            ResourceKey::Stages => ResourceView::Stages,
            ResourceKey::Matches => ResourceView::Matches,
            ResourceKey::StandingsGroup(g) => ResourceView::StandingsGroup(g@),
            ResourceKey::TopScorers => ResourceView::TopScorers,
            ResourceKey::Timeline(m) => ResourceView::Timeline(m@),
        }
    }
}

impl Clone for ResourceKey {
    fn clone(&self) -> (r: Self)
        ensures
            r == *self,
    {
        match self {
            ResourceKey::Teams => ResourceKey::Teams,
            ResourceKey::Stages => ResourceKey::Stages,
            ResourceKey::Matches => ResourceKey::Matches,
            ResourceKey::StandingsGroup(g) => ResourceKey::StandingsGroup(g.clone()),
            ResourceKey::TopScorers => ResourceKey::TopScorers,
            ResourceKey::Timeline(m) => ResourceKey::Timeline(m.clone()),
        }
    }
}

impl PartialEq for ResourceKey {
    fn eq(&self, other: &Self) -> (r: bool) {
        match (self, other) {
            (ResourceKey::Teams, ResourceKey::Teams) => true,
            (ResourceKey::Stages, ResourceKey::Stages) => true,
            (ResourceKey::Matches, ResourceKey::Matches) => true,
            (ResourceKey::StandingsGroup(a), ResourceKey::StandingsGroup(b)) => a == b,
            (ResourceKey::TopScorers, ResourceKey::TopScorers) => true,
            (ResourceKey::Timeline(a), ResourceKey::Timeline(b)) => a == b,
            _ => false,
        }
    }
}

impl vstd::std_specs::cmp::PartialEqSpecImpl for ResourceKey {
    open spec fn obeys_eq_spec() -> bool {
        true
    }

    open spec fn eq_spec(&self, other: &Self) -> bool {
        self@ == other@
    }
}

/// The key under which a resource's refresh bookkeeping is stored.
pub open spec fn storage_key_text(r: ResourceView) -> Seq<char> {
    match r {
        ResourceView::Teams => "teams"@,
        ResourceView::Stages => "stages"@,
        ResourceView::Matches => "matches"@,
        ResourceView::StandingsGroup(g) => "standings:group:"@ + g,
        ResourceView::TopScorers => "top_scorers"@,
        ResourceView::Timeline(m) => "timeline:"@ + m,
    }
}

/// The kind of resource, as stored.
pub open spec fn resource_type_text(r: ResourceView) -> Seq<char> {
    match r {
        ResourceView::Teams => "teams"@,
        ResourceView::Stages => "stages"@,
        ResourceView::Matches => "matches"@,
        ResourceView::StandingsGroup(_) => "standings_group"@,
        ResourceView::TopScorers => "top_scorers"@,
        ResourceView::Timeline(_) => "timeline"@,
    }
}

/// How a resource is named in messages.
pub open spec fn resource_label_text(r: ResourceView) -> Seq<char> {
    match r {
        ResourceView::Teams => "teams"@,
        ResourceView::Stages => "stages"@,
        ResourceView::Matches => "matches"@,
        ResourceView::StandingsGroup(g) => "standings "@ + g,
        ResourceView::TopScorers => "top scorers"@,
        ResourceView::Timeline(m) => "timeline "@ + m,
    }
}

/// Whether refreshing a resource talks to FIFA.
pub open spec fn needs_network(r: ResourceView) -> bool {
    match r {
        ResourceView::Teams | ResourceView::Matches | ResourceView::StandingsGroup(_)
        | ResourceView::Timeline(_) => true,
        _ => false,
    }
}

/// One standings resource per group, in group order.
pub open spec fn standings_resources() -> Seq<ResourceView> {
    all_groups().map_values(|g: Group| ResourceView::StandingsGroup(group_id_text(g)))
}

impl ResourceKey {
    pub fn all_standings_groups() -> (r: Vec<ResourceKey>)
        ensures
            r@.map_values(|k: ResourceKey| k@) == standings_resources(),
            r@.len() == 12,
    {
        let groups = Group::all();
        let mut r: Vec<ResourceKey> = Vec::new();
        let mut i: usize = 0;
        while i < 12
            invariant
                i <= 12,
                groups@ == all_groups(),
                r@.len() == i,
                forall|j: int|
                    0 <= j < i ==> #[trigger] r@[j]@ == ResourceView::StandingsGroup(
                        group_id_text(all_groups()[j]),
                    ),
            decreases 12 - i,
        {
            let k = ResourceKey::StandingsGroup(groups[i].id());
            r.push(k);
            i = i + 1;
        }
        assert(r@.map_values(|k: ResourceKey| k@) =~= standings_resources());
        r
    }

    pub fn requires_network(&self) -> (r: bool)
        ensures
            r == needs_network(self@),
    {
        match self {
            ResourceKey::Teams | ResourceKey::Matches | ResourceKey::StandingsGroup(_)
            | ResourceKey::Timeline(_) => true,
            _ => false,
        }
    }

    pub fn storage_key(&self) -> (r: String)
        ensures
            r@ == storage_key_text(self@),
    {
        match self {
            ResourceKey::Teams => owned("teams"),
            ResourceKey::Stages => owned("stages"),
            ResourceKey::Matches => owned("matches"),
            ResourceKey::StandingsGroup(g) => concat2("standings:group:", g.as_str()),
            ResourceKey::TopScorers => owned("top_scorers"),
            ResourceKey::Timeline(m) => concat2("timeline:", m.as_str()),
        }
    }

    pub fn resource_type(&self) -> (r: &'static str)
        ensures
            r@ == resource_type_text(self@),
    {
        match self {
            ResourceKey::Teams => "teams",
            ResourceKey::Stages => "stages",
            ResourceKey::Matches => "matches",
            ResourceKey::StandingsGroup(_) => "standings_group",
            ResourceKey::TopScorers => "top_scorers",
            ResourceKey::Timeline(_) => "timeline",
        }
    }

    pub fn label(&self) -> (r: String)
        ensures
            r@ == resource_label_text(self@),
    {
        match self {
            ResourceKey::Teams => owned("teams"),
            ResourceKey::Stages => owned("stages"),
            ResourceKey::Matches => owned("matches"),
            ResourceKey::StandingsGroup(g) => concat2("standings ", g.as_str()),
            ResourceKey::TopScorers => owned("top scorers"),
            ResourceKey::Timeline(m) => concat2("timeline ", m.as_str()),
        }
    }
}

/// Storage keys are stable and unambiguous: two resources share a storage key
/// only when they are the same resource.
pub proof fn storage_keys_are_distinct(a: ResourceView, b: ResourceView)
    ensures
        storage_key_text(a) == storage_key_text(b) <==> a == b,
{
    reveal_strlit("teams");
    reveal_strlit("stages");
    reveal_strlit("matches");
    reveal_strlit("standings:group:");
    reveal_strlit("top_scorers");
    reveal_strlit("timeline:");
    let ka = storage_key_text(a);
    let kb = storage_key_text(b);
    if a != b && ka == kb {
        match (a, b) {
            (ResourceView::StandingsGroup(x), ResourceView::StandingsGroup(y)) => {
                assert(x =~= ka.skip(16));
                assert(y =~= kb.skip(16));
            },
            (ResourceView::Timeline(x), ResourceView::Timeline(y)) => {
                assert(x =~= ka.skip(9));
                assert(y =~= kb.skip(9));
            },
            _ => {
                assert(ka[0] != kb[0] || ka[1] != kb[1] || ka[2] != kb[2] || ka[3] != kb[3]
                    || ka.len() != kb.len());
            },
        }
    }
}

/// What one refresh of a resource asks FIFA for: the teams, the match
/// list, one group's table, or one match's timeline. The stages and the top
/// scorers ask for nothing.
#[derive(Debug)]
pub struct FetchPlan {
    pub teams: bool,
    pub matches: bool,
    pub standings_group: Option<GroupId>,
    pub timeline_match: Option<MatchId>,
}

/// The teams come along with the matches and with a group's table, so that
/// the codes they name are known.
pub fn fetch_plan(resource: &ResourceKey) -> (r: FetchPlan)
    ensures
        r.teams == (*resource is Teams || *resource is Matches || *resource is StandingsGroup),
        r.matches == (*resource is Matches),
        r.standings_group == (match *resource {
            ResourceKey::StandingsGroup(g) => Some(g),
            _ => None,
        }),
        r.timeline_match == (match *resource {
            ResourceKey::Timeline(m) => Some(m),
            _ => None,
        }),
{
    match resource {
        ResourceKey::Teams => FetchPlan { teams: true, matches: false, standings_group: None, timeline_match: None },
        ResourceKey::Matches => FetchPlan { teams: true, matches: true, standings_group: None, timeline_match: None },
        ResourceKey::StandingsGroup(g) => FetchPlan {
            teams: true,
            matches: false,
            standings_group: Some(g.clone()),
            timeline_match: None,
        },
        ResourceKey::Timeline(m) => FetchPlan {
            teams: false,
            matches: false,
            standings_group: None,
            timeline_match: Some(m.clone()),
        },
        ResourceKey::Stages | ResourceKey::TopScorers => FetchPlan {
            teams: false,
            matches: false,
            standings_group: None,
            timeline_match: None,
        },
    }
}

} // verus!
