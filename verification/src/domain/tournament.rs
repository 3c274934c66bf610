//! The fixed vocabulary of the tournament: confederations, stages and groups,
//! each with the code or identifier that FIFA's data uses for it.

use vstd::prelude::*;

use crate::domain::ids::{GroupId, StageId};
use crate::text::same_text;

verus! {

/// Which fixed vocabulary a rejected value was checked against.
#[derive(Clone, Copy, Debug, PartialEq, Eq, Structural)]
pub enum ValueKind {
    ConfederationCode,
    StageId,
    GroupId,
}

/// A value that is not part of the tournament's fixed vocabulary.
#[derive(Debug)]
pub struct UnknownValue {
    pub kind: ValueKind,
    pub value: String,
}

#[derive(Clone, Copy, Debug, Eq, Hash, PartialEq, Structural)]
pub enum Confederation {
    Afc,
    Caf,
    Concacaf,
    Conmebol,
    Ofc,
    Uefa,
}

/// FIFA's code of each confederation.
pub open spec fn confederation_code(c: Confederation) -> Seq<char> {
    match c {
        Confederation::Afc => "AFC"@,
        Confederation::Caf => "CAF"@,
        Confederation::Concacaf => "CONCACAF"@,
        Confederation::Conmebol => "CONMEBOL"@,
        Confederation::Ofc => "OFC"@,
        Confederation::Uefa => "UEFA"@,
    }
}

impl Confederation {
    /// All confederations, in FIFA's alphabetical order.
    pub fn all() -> (r: [Confederation; 6])
        ensures
            r@ == seq![
                Confederation::Afc,
                Confederation::Caf,
                Confederation::Concacaf,
                Confederation::Conmebol,
                Confederation::Ofc,
                Confederation::Uefa,
            ],
    {
        let r = [
            Confederation::Afc,
            Confederation::Caf,
            Confederation::Concacaf,
            Confederation::Conmebol,
            Confederation::Ofc,
            Confederation::Uefa,
        ];
        assert(r@ =~= seq![
            Confederation::Afc,
            Confederation::Caf,
            Confederation::Concacaf,
            Confederation::Conmebol,
            Confederation::Ofc,
            Confederation::Uefa,
        ]);
        r
    }

    pub fn code(self) -> (r: &'static str)
        ensures
            r@ == confederation_code(self),
    {
        match self {
            Confederation::Afc => "AFC",
            Confederation::Caf => "CAF",
            Confederation::Concacaf => "CONCACAF",
            Confederation::Conmebol => "CONMEBOL",
            Confederation::Ofc => "OFC",
            Confederation::Uefa => "UEFA",
        }
    }

    /// The confederation whose code is `value`; codes are matched exactly.
    pub fn from_code(value: &str) -> (r: Result<Confederation, UnknownValue>)
        ensures
            r matches Ok(c) ==> confederation_code(c) == value@,
            r is Err ==> (forall|c: Confederation| confederation_code(c) != value@),
            r matches Err(e) ==> e.kind == ValueKind::ConfederationCode && e.value@ == value@,
    {
        if same_text(value, "AFC") {
            Ok(Confederation::Afc)
        } else if same_text(value, "CAF") {
            Ok(Confederation::Caf)
        } else if same_text(value, "CONCACAF") {
            Ok(Confederation::Concacaf)
        } else if same_text(value, "CONMEBOL") {
            Ok(Confederation::Conmebol)
        } else if same_text(value, "OFC") {
            Ok(Confederation::Ofc)
        } else if same_text(value, "UEFA") {
            Ok(Confederation::Uefa)
        } else {
            assert forall|c: Confederation| confederation_code(c) != value@ by {
                match c {
                    Confederation::Afc => {},
                    Confederation::Caf => {},
                    Confederation::Concacaf => {},
                    Confederation::Conmebol => {},
                    Confederation::Ofc => {},
                    Confederation::Uefa => {},
                }
            }
            Err(UnknownValue { kind: ValueKind::ConfederationCode, value: value.to_owned() })
        }
    }
}

#[derive(Clone, Copy, Debug, Eq, Hash, PartialEq, Structural)]
pub enum Stage {
    FirstStage,
    RoundOf32,
    RoundOf16,
    QuarterFinal,
    SemiFinal,
    ThirdPlace,
    Final,
}

/// FIFA's identifier of each stage.
pub open spec fn stage_id_text(s: Stage) -> Seq<char> {
    match s {
        Stage::FirstStage => "289273"@,
        Stage::RoundOf32 => "289287"@,
        Stage::RoundOf16 => "289288"@,
        Stage::QuarterFinal => "289289"@,
        Stage::SemiFinal => "289290"@,
        Stage::ThirdPlace => "289291"@,
        Stage::Final => "289292"@,
    }
}

pub open spec fn stage_name_text(s: Stage) -> Seq<char> {
    match s {
        Stage::FirstStage => "First Stage"@,
        Stage::RoundOf32 => "Round of 32"@,
        Stage::RoundOf16 => "Round of 16"@,
        Stage::QuarterFinal => "Quarter-final"@,
        Stage::SemiFinal => "Semi-final"@,
        Stage::ThirdPlace => "Play-off for third place"@,
        Stage::Final => "Final"@,
    }
}

/// Position of each stage in the tournament's progression, from 1.
pub open spec fn stage_rank(s: Stage) -> u8 {
    match s {
        Stage::FirstStage => 1,
        Stage::RoundOf32 => 2,
        Stage::RoundOf16 => 3,
        Stage::QuarterFinal => 4,
        Stage::SemiFinal => 5,
        Stage::ThirdPlace => 6,
        Stage::Final => 7,
    }
}

impl Stage {
    /// All stages, in tournament order.
    pub fn all() -> (r: [Stage; 7])
        ensures
            r@ == seq![
                Stage::FirstStage,
                Stage::RoundOf32,
                Stage::RoundOf16,
                Stage::QuarterFinal,
                Stage::SemiFinal,
                Stage::ThirdPlace,
                Stage::Final,
            ],
    {
        let r = [
            Stage::FirstStage,
            Stage::RoundOf32,
            Stage::RoundOf16,
            Stage::QuarterFinal,
            Stage::SemiFinal,
            Stage::ThirdPlace,
            Stage::Final,
        ];
        assert(r@ =~= seq![
            Stage::FirstStage,
            Stage::RoundOf32,
            Stage::RoundOf16,
            Stage::QuarterFinal,
            Stage::SemiFinal,
            Stage::ThirdPlace,
            Stage::Final,
        ]);
        r
    }

    pub fn id(self) -> (r: StageId)
        ensures
            r@ == stage_id_text(self),
    {
        StageId::from_text(
            match self {
                Stage::FirstStage => "289273",
                Stage::RoundOf32 => "289287",
                Stage::RoundOf16 => "289288",
                Stage::QuarterFinal => "289289",
                Stage::SemiFinal => "289290",
                Stage::ThirdPlace => "289291",
                Stage::Final => "289292",
            },
        )
    }

    pub fn name(self) -> (r: &'static str)
        ensures
            r@ == stage_name_text(self),
    {
        match self {
            Stage::FirstStage => "First Stage",
            Stage::RoundOf32 => "Round of 32",
            Stage::RoundOf16 => "Round of 16",
            Stage::QuarterFinal => "Quarter-final",
            Stage::SemiFinal => "Semi-final",
            Stage::ThirdPlace => "Play-off for third place",
            Stage::Final => "Final",
        }
    }

    pub fn sort_order(self) -> (r: u8)
        ensures
            r == stage_rank(self),
    {
        match self {
            Stage::FirstStage => 1,
            Stage::RoundOf32 => 2,
            Stage::RoundOf16 => 3,
            Stage::QuarterFinal => 4,
            Stage::SemiFinal => 5,
            Stage::ThirdPlace => 6,
            Stage::Final => 7,
        }
    }

    /// The stage whose FIFA identifier is `value`.
    pub fn from_id(value: &str) -> (r: Result<Stage, UnknownValue>)
        ensures
            r matches Ok(s) ==> stage_id_text(s) == value@,
            r is Err ==> (forall|s: Stage| stage_id_text(s) != value@),
            r matches Err(e) ==> e.kind == ValueKind::StageId && e.value@ == value@,
    {
        if same_text(value, "289273") {
            Ok(Stage::FirstStage)
        } else if same_text(value, "289287") {
            Ok(Stage::RoundOf32)
        } else if same_text(value, "289288") {
            Ok(Stage::RoundOf16)
        } else if same_text(value, "289289") {
            Ok(Stage::QuarterFinal)
        } else if same_text(value, "289290") {
            Ok(Stage::SemiFinal)
        } else if same_text(value, "289291") {
            Ok(Stage::ThirdPlace)
        } else if same_text(value, "289292") {
            Ok(Stage::Final)
        } else {
            assert forall|s: Stage| stage_id_text(s) != value@ by {
                match s {
                    Stage::FirstStage => {},
                    Stage::RoundOf32 => {},
                    Stage::RoundOf16 => {},
                    Stage::QuarterFinal => {},
                    Stage::SemiFinal => {},
                    Stage::ThirdPlace => {},
                    Stage::Final => {},
                }
            }
            Err(UnknownValue { kind: ValueKind::StageId, value: value.to_owned() })
        }
    }
}

#[derive(Clone, Copy, Debug, Eq, Hash, PartialEq, Structural)]
pub enum Group {
    A,
    B,
    C,
    D,
    E,
    F,
    G,
    H,
    I,
    J,
    K,
    L,
}

/// Zero-based position of each group in alphabetical order.
pub open spec fn group_index(g: Group) -> int {
    match g {
        Group::A => 0,
        Group::B => 1,
        Group::C => 2,
        Group::D => 3,
        Group::E => 4,
        Group::F => 5,
        Group::G => 6,
        Group::H => 7,
        Group::I => 8,
        Group::J => 9,
        Group::K => 10,
        Group::L => 11,
    }
}

/// The groups in alphabetical order.
pub open spec fn all_groups() -> Seq<Group> {
    seq![
        Group::A,
        Group::B,
        Group::C,
        Group::D,
        Group::E,
        Group::F,
        Group::G,
        Group::H,
        Group::I,
        Group::J,
        Group::K,
        Group::L,
    ]
}

/// FIFA's identifier of each group.
pub open spec fn group_id_text(g: Group) -> Seq<char> {
    match g {
        Group::A => "289275"@,
        Group::B => "289276"@,
        Group::C => "289277"@,
        Group::D => "289278"@,
        Group::E => "289279"@,
        Group::F => "289280"@,
        Group::G => "289281"@,
        Group::H => "289282"@,
        Group::I => "289283"@,
        Group::J => "289284"@,
        Group::K => "289285"@,
        Group::L => "289286"@,
    }
}

pub open spec fn group_name_text(g: Group) -> Seq<char> {
    match g {
        Group::A => "Group A"@,
        Group::B => "Group B"@,
        Group::C => "Group C"@,
        Group::D => "Group D"@,
        Group::E => "Group E"@,
        Group::F => "Group F"@,
        Group::G => "Group G"@,
        Group::H => "Group H"@,
        Group::I => "Group I"@,
        Group::J => "Group J"@,
        Group::K => "Group K"@,
        Group::L => "Group L"@,
    }
}

impl Group {
    /// All groups, in alphabetical order.
    pub fn all() -> (r: [Group; 12])
        ensures
            r@ == all_groups(),
    {
        let r = [
            Group::A,
            Group::B,
            Group::C,
            Group::D,
            Group::E,
            Group::F,
            Group::G,
            Group::H,
            Group::I,
            Group::J,
            Group::K,
            Group::L,
        ];
        assert(r@ =~= all_groups());
        r
    }

    pub fn id(self) -> (r: GroupId)
        ensures
            r@ == group_id_text(self),
    {
        GroupId::from_text(
            match self {
                Group::A => "289275",
                Group::B => "289276",
                Group::C => "289277",
                Group::D => "289278",
                Group::E => "289279",
                Group::F => "289280",
                Group::G => "289281",
                Group::H => "289282",
                Group::I => "289283",
                Group::J => "289284",
                Group::K => "289285",
                Group::L => "289286",
            },
        )
    }

    pub fn name(self) -> (r: &'static str)
        ensures
            r@ == group_name_text(self),
    {
        match self {
            Group::A => "Group A",
            Group::B => "Group B",
            Group::C => "Group C",
            Group::D => "Group D",
            Group::E => "Group E",
            Group::F => "Group F",
            Group::G => "Group G",
            Group::H => "Group H",
            Group::I => "Group I",
            Group::J => "Group J",
            Group::K => "Group K",
            Group::L => "Group L",
        }
    }

    /// The group whose FIFA identifier is `value`.
    pub fn from_id(value: &str) -> (r: Result<Group, UnknownValue>)
        ensures
            r matches Ok(g) ==> group_id_text(g) == value@,
            r is Err ==> (forall|g: Group| group_id_text(g) != value@),
            r matches Err(e) ==> e.kind == ValueKind::GroupId && e.value@ == value@,
    {
        if same_text(value, "289275") {
            Ok(Group::A)
        } else if same_text(value, "289276") {
            Ok(Group::B)
        } else if same_text(value, "289277") {
            Ok(Group::C)
        } else if same_text(value, "289278") {
            Ok(Group::D)
        } else if same_text(value, "289279") {
            Ok(Group::E)
        } else if same_text(value, "289280") {
            Ok(Group::F)
        } else if same_text(value, "289281") {
            Ok(Group::G)
        } else if same_text(value, "289282") {
            Ok(Group::H)
        } else if same_text(value, "289283") {
            Ok(Group::I)
        } else if same_text(value, "289284") {
            Ok(Group::J)
        } else if same_text(value, "289285") {
            Ok(Group::K)
        } else if same_text(value, "289286") {
            Ok(Group::L)
        } else {
            assert forall|g: Group| group_id_text(g) != value@ by {
                match g {
                    Group::A => {},
                    Group::B => {},
                    Group::C => {},
                    Group::D => {},
                    Group::E => {},
                    Group::F => {},
                    Group::G => {},
                    Group::H => {},
                    Group::I => {},
                    Group::J => {},
                    Group::K => {},
                    Group::L => {},
                }
            }
            Err(UnknownValue { kind: ValueKind::GroupId, value: value.to_owned() })
        }
    }
}

/// Each confederation's code reads back as that confederation, and distinct
/// confederations have distinct codes.
pub proof fn confederation_code_round_trip(a: Confederation, b: Confederation)
    ensures
        confederation_code(a) == confederation_code(b) <==> a == b,
{
    reveal_strlit("AFC");
    reveal_strlit("CAF");
    reveal_strlit("CONCACAF");
    reveal_strlit("CONMEBOL");
    reveal_strlit("OFC");
    reveal_strlit("UEFA");
    if a != b {
        assert(confederation_code(a).len() != confederation_code(b).len()
            || confederation_code(a)[0] != confederation_code(b)[0]
            || confederation_code(a)[1] != confederation_code(b)[1]
            || confederation_code(a)[3] != confederation_code(b)[3]);
    }
}

/// Distinct stages have distinct identifiers, so an identifier reads back as
/// the one stage it names.
pub proof fn stage_id_round_trip(a: Stage, b: Stage)
    ensures
        stage_id_text(a) == stage_id_text(b) <==> a == b,
{
    reveal_strlit("289273");
    reveal_strlit("289287");
    reveal_strlit("289288");
    reveal_strlit("289289");
    reveal_strlit("289290");
    reveal_strlit("289291");
    reveal_strlit("289292");
    if a != b {
        assert(stage_id_text(a)[4] != stage_id_text(b)[4] || stage_id_text(a)[5] != stage_id_text(b)[5]);
    }
}

/// Distinct groups have distinct identifiers, so an identifier reads back as
/// the one group it names.
pub proof fn group_id_round_trip(a: Group, b: Group)
    ensures
        group_id_text(a) == group_id_text(b) <==> a == b,
{
    reveal_strlit("289275");
    reveal_strlit("289276");
    reveal_strlit("289277");
    reveal_strlit("289278");
    reveal_strlit("289279");
    reveal_strlit("289280");
    reveal_strlit("289281");
    reveal_strlit("289282");
    reveal_strlit("289283");
    reveal_strlit("289284");
    reveal_strlit("289285");
    reveal_strlit("289286");
    if a != b {
        assert(group_id_text(a)[4] != group_id_text(b)[4] || group_id_text(a)[5] != group_id_text(b)[5]);
    }
}

/// No stage identifier is also a group identifier.
pub proof fn stage_and_group_ids_are_disjoint(s: Stage, g: Group)
    ensures
        stage_id_text(s) != group_id_text(g),
{
    reveal_strlit("289273");
    reveal_strlit("289287");
    reveal_strlit("289288");
    reveal_strlit("289289");
    reveal_strlit("289290");
    reveal_strlit("289291");
    reveal_strlit("289292");
    reveal_strlit("289275");
    reveal_strlit("289276");
    reveal_strlit("289277");
    reveal_strlit("289278");
    reveal_strlit("289279");
    reveal_strlit("289280");
    reveal_strlit("289281");
    reveal_strlit("289282");
    reveal_strlit("289283");
    reveal_strlit("289284");
    reveal_strlit("289285");
    reveal_strlit("289286");
    assert(stage_id_text(s)[4] != group_id_text(g)[4] || stage_id_text(s)[5] != group_id_text(g)[5]);
}

} // verus!
