//! The kinds of entities.

use crate::color::Color;
use vstd::prelude::*;
use vstd::string::StringExecFns;

verus! {

/// The kinds of entities.
#[derive(Clone, Copy, Debug, PartialEq, Eq, Structural)]
pub enum EntityClassId {
    Player,
    Torch,
    Snake,
}

/// What all entities of a kind have in common.
#[derive(Clone, Copy, Debug)]
pub struct EntityClass {
    pub token: &'static str,
    pub color: Color,
    /// How many twelfths of an action the entity gains in a turn.
    pub speed: u8,
    pub occludes: bool,
}

impl EntityClassId {
    /// The glyph that stands for entities of this kind.
    pub open spec fn token(self) -> Seq<char> {
        match self {
            EntityClassId::Player => "@"@,
            EntityClassId::Torch => "i"@,
            EntityClassId::Snake => "s"@,
        }
    }

    /// The color of entities of this kind.
    pub open spec fn color(self) -> Color {
        match self {
            EntityClassId::Player => Color::from_hex(0xffffff),
            EntityClassId::Torch => Color::from_hex(0xe25822),
            EntityClassId::Snake => Color::from_hex(0x47ff2a),
        }
    }

    /// How many twelfths of an action entities of this kind gain in a turn.
    pub open spec fn speed(self) -> u8 {
        match self {
            EntityClassId::Player => 12,
            EntityClassId::Torch => 0,
            EntityClassId::Snake => 8,
        }
    }

    /// Whether entities of this kind block sight and light.
    pub open spec fn occludes(self) -> bool {
        self == EntityClassId::Player
    }

    /// The name of the kind.
    pub open spec fn name(self) -> Seq<char> {
        match self {
            EntityClassId::Player => "Player"@,
            EntityClassId::Torch => "Torch"@,
            EntityClassId::Snake => "Snake"@,
        }
    }

    /// What entities of this kind have in common.
    pub fn flyweight(&self) -> (class: EntityClass)
        ensures
            class.token@ == self.token(),
            class.color == self.color(),
            class.speed == self.speed(),
            class.occludes == self.occludes(),
    {
        match self {
            EntityClassId::Player => EntityClass {
                token: "@",
                color: Color::new(0xffffff),
                speed: 12,
                occludes: true,
            },
            EntityClassId::Torch => EntityClass {
                token: "i",
                color: Color::new(0xe25822),
                speed: 0,
                occludes: false,
            },
            EntityClassId::Snake => EntityClass {
                token: "s",
                color: Color::new(0x47ff2a),
                speed: 8,
                occludes: false,
            },
        }
    }

    pub fn to_string(&self) -> (name: String)
        ensures
            name@ == self.name(),
    {
        match self {
            EntityClassId::Player => "Player".to_owned(),
            EntityClassId::Torch => "Torch".to_owned(),
            EntityClassId::Snake => "Snake".to_owned(),
        }
    }

    /// What the player is told when one of this kind attacks one of
    /// another.
    pub open spec fn attack_report(self, attackee: EntityClassId) -> Seq<char> {
        "The "@ + self.name() + " attacks the "@ + attackee.name() + "!"@
    }

    pub fn attack_message(&self, attackee: EntityClassId) -> (message: String)
        ensures
            message@ == self.attack_report(attackee),
    {
        let mut message = "The ".to_owned();
        let attacker = self.to_string();
        message.append(attacker.as_str());
        message.append(" attacks the ");
        let attacked = attackee.to_string();
        message.append(attacked.as_str());
        message.append("!");
        message
    }
}

} // verus!
