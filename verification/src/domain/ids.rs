//! Opaque identifiers that FIFA assigns to teams, matches, stages and groups.
//! Two identifiers are equal exactly when their texts are equal.

use vstd::prelude::*;

verus! {

/// Identifier of a team, as FIFA assigns it.
#[derive(Debug, Eq, Hash, Ord, PartialOrd)]
pub struct TeamId(String);

impl TeamId {
    pub fn new(value: String) -> (r: Self)
        ensures
            r@ == value@,
    {
        TeamId(value)
    }

    /// Builds the identifier from borrowed text.
    pub fn from_text(value: &str) -> (r: Self)
        ensures
            r@ == value@,
    {
        TeamId(value.to_owned())
    }

    pub fn as_str(&self) -> (r: &str)
        ensures
            r@ == self@,
    {
        self.0.as_str()
    }

    pub fn into_inner(self) -> (r: String)
        ensures
            r@ == self@,
    {
        self.0
    }

    /// The identifier as text, for display.
    pub fn to_text(&self) -> (r: String)
        ensures
            r@ == self@,
    {
        self.0.clone()
    }
}

impl View for TeamId {
    type V = Seq<char>;

    closed spec fn view(&self) -> Seq<char> {
        self.0@
    }
}

impl Clone for TeamId {
    fn clone(&self) -> (r: Self)
        ensures
            r == *self,
    {
        TeamId(self.0.clone())
    }
}

impl PartialEq for TeamId {
    fn eq(&self, other: &Self) -> (r: bool) {
        self.0 == other.0
    }
}

impl vstd::std_specs::cmp::PartialEqSpecImpl for TeamId {
    open spec fn obeys_eq_spec() -> bool {
        true
    }

    open spec fn eq_spec(&self, other: &Self) -> bool {
        self@ == other@
    }
}

impl From<&str> for TeamId {
    fn from(value: &str) -> (r: Self) {
        TeamId(value.to_owned())
    }
}

impl vstd::std_specs::convert::FromSpecImpl<&str> for TeamId {
    open spec fn obeys_from_spec() -> bool {
        false
    }

    closed spec fn from_spec(value: &str) -> Self {
        choose|id: TeamId| id@ == value@
    }
}

impl From<String> for TeamId {
    fn from(value: String) -> (r: Self) {
        TeamId(value)
    }
}

impl vstd::std_specs::convert::FromSpecImpl<String> for TeamId {
    open spec fn obeys_from_spec() -> bool {
        false
    }

    closed spec fn from_spec(value: String) -> Self {
        choose|id: TeamId| id@ == value@
    }
}

/// Identifier of a match, as FIFA assigns it.
#[derive(Debug, Eq, Hash, Ord, PartialOrd)]
pub struct MatchId(String);

impl MatchId {
    pub fn new(value: String) -> (r: Self)
        ensures
            r@ == value@,
    {
        MatchId(value)
    }

    /// Builds the identifier from borrowed text.
    pub fn from_text(value: &str) -> (r: Self)
        ensures
            r@ == value@,
    {
        MatchId(value.to_owned())
    }

    pub fn as_str(&self) -> (r: &str)
        ensures
            r@ == self@,
    {
        self.0.as_str()
    }

    pub fn into_inner(self) -> (r: String)
        ensures
            r@ == self@,
    {
        self.0
    }

    /// The identifier as text, for display.
    pub fn to_text(&self) -> (r: String)
        ensures
            r@ == self@,
    {
        self.0.clone()
    }
}

impl View for MatchId {
    type V = Seq<char>;

    closed spec fn view(&self) -> Seq<char> {
        self.0@
    }
}

impl Clone for MatchId {
    fn clone(&self) -> (r: Self)
        ensures
            r == *self,
    {
        MatchId(self.0.clone())
    }
}

impl PartialEq for MatchId {
    fn eq(&self, other: &Self) -> (r: bool) {
        self.0 == other.0
    }
}

impl vstd::std_specs::cmp::PartialEqSpecImpl for MatchId {
    open spec fn obeys_eq_spec() -> bool {
        true
    }

    open spec fn eq_spec(&self, other: &Self) -> bool {
        self@ == other@
    }
}

impl From<&str> for MatchId {
    fn from(value: &str) -> (r: Self) {
        MatchId(value.to_owned())
    }
}

impl vstd::std_specs::convert::FromSpecImpl<&str> for MatchId {
    open spec fn obeys_from_spec() -> bool {
        false
    }

    closed spec fn from_spec(value: &str) -> Self {
        choose|id: MatchId| id@ == value@
    }
}

impl From<String> for MatchId {
    fn from(value: String) -> (r: Self) {
        MatchId(value)
    }
}

impl vstd::std_specs::convert::FromSpecImpl<String> for MatchId {
    open spec fn obeys_from_spec() -> bool {
        false
    }

    closed spec fn from_spec(value: String) -> Self {
        choose|id: MatchId| id@ == value@
    }
}

/// Identifier of a tournament stage, as FIFA assigns it.
#[derive(Debug, Eq, Hash, Ord, PartialOrd)]
pub struct StageId(String);

impl StageId {
    pub fn new(value: String) -> (r: Self)
        ensures
            r@ == value@,
    {
        StageId(value)
    }

    /// Builds the identifier from borrowed text.
    pub fn from_text(value: &str) -> (r: Self)
        ensures
            r@ == value@,
    {
        StageId(value.to_owned())
    }

    pub fn as_str(&self) -> (r: &str)
        ensures
            r@ == self@,
    {
        self.0.as_str()
    }

    pub fn into_inner(self) -> (r: String)
        ensures
            r@ == self@,
    {
        self.0
    }

    /// The identifier as text, for display.
    pub fn to_text(&self) -> (r: String)
        ensures
            r@ == self@,
    {
        self.0.clone()
    }
}

impl View for StageId {
    type V = Seq<char>;

    closed spec fn view(&self) -> Seq<char> {
        self.0@
    }
}

impl Clone for StageId {
    fn clone(&self) -> (r: Self)
        ensures
            r == *self,
    {
        StageId(self.0.clone())
    }
}

impl PartialEq for StageId {
    fn eq(&self, other: &Self) -> (r: bool) {
        self.0 == other.0
    }
}

impl vstd::std_specs::cmp::PartialEqSpecImpl for StageId {
    open spec fn obeys_eq_spec() -> bool {
        true
    }

    open spec fn eq_spec(&self, other: &Self) -> bool {
        self@ == other@
    }
}

impl From<&str> for StageId {
    fn from(value: &str) -> (r: Self) {
        StageId(value.to_owned())
    }
}

impl vstd::std_specs::convert::FromSpecImpl<&str> for StageId {
    open spec fn obeys_from_spec() -> bool {
        false
    }

    closed spec fn from_spec(value: &str) -> Self {
        choose|id: StageId| id@ == value@
    }
}

impl From<String> for StageId {
    fn from(value: String) -> (r: Self) {
        StageId(value)
    }
}

impl vstd::std_specs::convert::FromSpecImpl<String> for StageId {
    open spec fn obeys_from_spec() -> bool {
        false
    }

    closed spec fn from_spec(value: String) -> Self {
        choose|id: StageId| id@ == value@
    }
}

/// Identifier of a first-stage group, as FIFA assigns it.
#[derive(Debug, Eq, Hash, Ord, PartialOrd)]
pub struct GroupId(String);

impl GroupId {
    pub fn new(value: String) -> (r: Self)
        ensures
            r@ == value@,
    {
        GroupId(value)
    }

    /// Builds the identifier from borrowed text.
    pub fn from_text(value: &str) -> (r: Self)
        ensures
            r@ == value@,
    {
        GroupId(value.to_owned())
    }

    pub fn as_str(&self) -> (r: &str)
        ensures
            r@ == self@,
    {
        self.0.as_str()
    }

    pub fn into_inner(self) -> (r: String)
        ensures
            r@ == self@,
    {
        self.0
    }

    /// The identifier as text, for display.
    pub fn to_text(&self) -> (r: String)
        ensures
            r@ == self@,
    {
        self.0.clone()
    }
}

impl View for GroupId {
    type V = Seq<char>;

    closed spec fn view(&self) -> Seq<char> {
        self.0@
    }
}

impl Clone for GroupId {
    fn clone(&self) -> (r: Self)
        ensures
            r == *self,
    {
        GroupId(self.0.clone())
    }
}

impl PartialEq for GroupId {
    fn eq(&self, other: &Self) -> (r: bool) {
        self.0 == other.0
    }
}

impl vstd::std_specs::cmp::PartialEqSpecImpl for GroupId {
    open spec fn obeys_eq_spec() -> bool {
        true
    }

    open spec fn eq_spec(&self, other: &Self) -> bool {
        self@ == other@
    }
}

impl From<&str> for GroupId {
    fn from(value: &str) -> (r: Self) {
        GroupId(value.to_owned())
    }
}

impl vstd::std_specs::convert::FromSpecImpl<&str> for GroupId {
    open spec fn obeys_from_spec() -> bool {
        false
    }

    closed spec fn from_spec(value: &str) -> Self {
        choose|id: GroupId| id@ == value@
    }
}

impl From<String> for GroupId {
    fn from(value: String) -> (r: Self) {
        GroupId(value)
    }
}

impl vstd::std_specs::convert::FromSpecImpl<String> for GroupId {
    open spec fn obeys_from_spec() -> bool {
        false
    }

    closed spec fn from_spec(value: String) -> Self {
        choose|id: GroupId| id@ == value@
    }
}

} // verus!
