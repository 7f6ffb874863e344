//! Items and what an entity carries of them.

use crate::color::Color;
use crate::world::ItemKey;
use vstd::prelude::*;
use vstd::string::StringExecFns;

verus! {

/// The kinds of items.
#[derive(Clone, Copy, Debug, PartialEq, Eq, Structural)]
pub enum ItemClassId {
    Sword,
}

/// What all items of a kind have in common.
#[derive(Clone, Copy, Debug)]
pub struct ItemClass {
    pub token: &'static str,
    pub color: Color,
}

impl ItemClassId {
    /// The glyph that stands for items of this kind.
    pub open spec fn token(self) -> Seq<char> {
        match self {
            ItemClassId::Sword => "/"@,
        }
    }

    /// The color of items of this kind.
    pub open spec fn color(self) -> Color {
        match self {
            ItemClassId::Sword => Color::from_hex(0xffd700),
        }
    }

    /// The name of the kind.
    pub open spec fn name(self) -> Seq<char> {
        match self {
            ItemClassId::Sword => "Sword"@,
        }
    }

    /// What items of this kind have in common.
    pub fn flyweight(&self) -> (class: ItemClass)
        ensures
            class.token@ == self.token(),
            class.color == self.color(),
    {
        match self {
            ItemClassId::Sword => ItemClass { token: "/", color: Color::new(0xffd700) },
        }
    }

    pub fn to_string(&self) -> (name: String)
        ensures
            name@ == self.name(),
    {
        match self {
            ItemClassId::Sword => "Sword".to_owned(),
        }
    }
}

/// An item: its kind, and whether water has got to it.
#[derive(Clone, Copy, Debug, PartialEq, Eq, Structural)]
pub struct Item {
    pub class: ItemClassId,
    pub corroded: bool,
}

impl Item {
    /// How the item is listed: its kind's name, after "corroded " where it
    /// is corroded.
    pub open spec fn label(self) -> Seq<char> {
        if self.corroded {
            "corroded "@ + self.class.name()
        } else {
            self.class.name()
        }
    }

    /// A new item of a kind, not corroded.
    pub fn new(class: ItemClassId) -> (item: Item)
        ensures
            item == (Item { class, corroded: false }),
    {
        Item { class, corroded: false }
    }

    pub fn token(&self) -> (token: &'static str)
        ensures
            token@ == self.class.token(),
    {
        self.class.flyweight().token
    }

    pub fn color(&self) -> (color: Color)
        ensures
            color == self.class.color(),
    {
        self.class.flyweight().color
    }

    /// What the player is told when the item corrodes.
    pub open spec fn corrosion_message(self) -> Seq<char> {
        "Your "@ + self.class.name() + " corrodes!"@
    }

    /// Lets water get to the item. An item that was sound corrodes, and the
    /// message that says so is returned; a corroded one stays as it is.
    pub fn corrode(&mut self) -> (message: Option<String>)
        ensures
            *final(self) == (Item { corroded: true, ..*old(self) }),
            message is Some <==> !old(self).corroded,
            message is Some ==> message.unwrap()@ == old(self).corrosion_message(),
    {
        if self.corroded {
            None
        } else {
            self.corroded = true;
            let mut message = "Your ".to_owned();
            let name = self.class.to_string();
            message.append(name.as_str());
            message.append(" corrodes!");
            Some(message)
        }
    }

    pub fn to_string(&self) -> (label: String)
        ensures
            label@ == self.label(),
    {
        if self.corroded {
            let mut label = "corroded ".to_owned();
            let name = self.class.to_string();
            label.append(name.as_str());
            label
        } else {
            self.class.to_string()
        }
    }
}

/// What an entity carries, in the order in which it was picked up.
#[derive(Debug)]
pub struct InventoryComponent {
    inventory: Vec<ItemKey>,
}

impl View for InventoryComponent {
    type V = Seq<ItemKey>;

    closed spec fn view(&self) -> Seq<ItemKey> {
        self.inventory@
    }
}

impl Clone for InventoryComponent {
    fn clone(&self) -> (copy: InventoryComponent)
        ensures
            copy@ == self@,
    {
        let inventory = self.inventory.clone();
        assert(inventory@ =~= self.inventory@);
        InventoryComponent { inventory }
    }
}

impl Default for InventoryComponent {
    fn default() -> (component: InventoryComponent)
        ensures
            component@ == Seq::<ItemKey>::empty(),
    {
        InventoryComponent { inventory: Vec::new() }
    }
}

impl InventoryComponent {
    pub fn inventory(&self) -> (items: &Vec<ItemKey>)
        ensures
            items@ == self@,
    {
        &self.inventory
    }

    pub fn inventory_mut(&mut self) -> (items: &mut Vec<ItemKey>)
        ensures
            items@ == old(self)@,
            final(self)@ == final(items)@,
    {
        &mut self.inventory
    }
}

} // verus!
