//! Items of the game and the actions the player derives from contacts:
//! taking, putting away, giving, dropping and picking up items, at most one
//! action per tick, gated by a cooldown.

use vstd::prelude::*;

use crate::collisions::{Position, TriggerArea};
use crate::constants::GIVE_HAPPINESS_DELTA;
use crate::contacts::{ContactRecord, ContactStore, EntityId};
use crate::cooldown::Cooldown;
use crate::happiness::Happiness;

verus! {

/// An item that can be produced, carried and received.
#[derive(Debug, Clone, Copy, PartialEq, Eq, Structural)]
pub enum Item {
    /// A delicious ice cream.
    IceCream,
    /// A glass of water.
    WaterGlass,
    /// A bag of chips.
    Chips,
}

/// Component on entities carrying an item.
#[derive(Debug, Clone, Copy, PartialEq, Eq, Structural)]
pub struct Carrying(pub Item);

/// Component on entities that can produce the item.
#[derive(Debug, Clone, Copy, PartialEq, Eq, Structural)]
pub struct ItemProducer(pub Item);

/// Component on entities that can ask for the item.
#[derive(Debug, Clone, Copy, PartialEq, Eq, Structural)]
pub struct AskingItem(pub Item);

/// An event about an action the player made. At most one is emitted per
/// tick.
#[derive(Debug, Clone, Copy, PartialEq, Eq, Structural)]
pub enum ActionEvent {
    /// The player takes an item from an item producer.
    Take(Item),
    /// The player puts the carried item away, back into its producer.
    PutAway(Item),
    /// The player drops the carried item on the ground.
    Drop(Item),
    /// The player picks up an item lying on the ground.
    PickUp(EntityId, Item),
    /// The player keeps the carried item when standing at a producer of a
    /// different one.
    Keep(Item),
    /// The player gives the carried item to the asking entity.
    Give(Item),
}

/// Cooldown of the action of picking or dropping items.
#[derive(Clone, Debug)]
pub struct PickAndDropCooldown(pub Cooldown);

/// The item at index `n % 3` of the closed item enumeration.
pub open spec fn item_of_index(n: int) -> Item {
    if n % 3 == 0 {
        Item::IceCream
    } else if n % 3 == 1 {
        Item::WaterGlass
    } else {
        Item::Chips
    }
}

/// Maps an arbitrary number onto the closed item enumeration.
pub fn item_from_roll(n: u64) -> (it: Item)
    ensures
        it == item_of_index(n as int),
{
    let r = n % 3;
    if r == 0 {
        Item::IceCream
    } else if r == 1 {
        Item::WaterGlass
    } else {
        Item::Chips
    }
}

/// Relies on rand::random: draws a uniformly random value from the thread's
/// generator. Nothing can be promised of the result.
#[verifier::external_body]
fn random_u64() -> u64 {
    rand::random::<u64>()
}

/// Returns a randomly chosen item.
pub fn random_item() -> (it: Item) {
    item_from_roll(random_u64())
}

/// The item different from `item` selected by `roll`: one of the other two
/// variants, cycling forward from `item` by one or two places.
pub open spec fn other_item(item: Item, roll: u64) -> Item {
    let offset: int = 1 + roll % 2;
    let base: int = match item {
        Item::IceCream => 0int,
        Item::WaterGlass => 1int,
        Item::Chips => 2int,
    };
    item_of_index(base + offset)
}

/// Picks the item different from `item` that `roll` selects among the other
/// two variants.
pub fn different_item(item: Item, roll: u64) -> (r: Item)
    ensures
        r == other_item(item, roll),
        r != item,
{
    let offset: u64 = 1 + roll % 2;
    let base: u64 = match item {
        Item::IceCream => 0,
        Item::WaterGlass => 1,
        Item::Chips => 2,
    };
    item_from_roll(base + offset)
}

/// Returns a random item different from the given one: each of the other
/// two variants can come out, the given one never.
pub fn random_different_item(item: Item) -> (r: Item)
    ensures
        r != item,
{
    different_item(item, random_u64())
}

/// The item produced by the entity `e`, if `producers` lists one, searching
/// from index `i`.
pub open spec fn producer_item_from(
    producers: Seq<(EntityId, ItemProducer)>,
    e: EntityId,
    i: int,
) -> Option<Item>
    decreases producers.len() - i,
{
    if i < 0 || i >= producers.len() {
        None
    } else if producers[i].0 == e {
        Some(producers[i].1.0)
    } else {
        producer_item_from(producers, e, i + 1)
    }
}

/// The item produced by the entity `e`, if `producers` lists one.
pub open spec fn producer_item_of(producers: Seq<(EntityId, ItemProducer)>, e: EntityId) -> Option<
    Item,
> {
    producer_item_from(producers, e, 0)
}

/// Looks the entity `e` up among the item producers.
fn find_producer_item(producers: &Vec<(EntityId, ItemProducer)>, e: EntityId) -> (r: Option<Item>)
    ensures
        r == producer_item_of(producers@, e),
{
    let n = producers.len();
    let mut i: usize = 0;
    while i < n
        invariant
            n == producers@.len(),
            0 <= i <= n,
            producer_item_of(producers@, e) == producer_item_from(producers@, e, i as int),
        decreases n - i,
    {
        if producers[i].0 == e {
            return Some(producers[i].1.0);
        }
        i += 1;
    }
    None
}

/// The item asked for by the entity `e`, if `askers` lists one, searching
/// from index `i`.
pub open spec fn asked_item_from(
    askers: Seq<(EntityId, AskingItem)>,
    e: EntityId,
    i: int,
) -> Option<Item>
    decreases askers.len() - i,
{
    if i < 0 || i >= askers.len() {
        None
    } else if askers[i].0 == e {
        Some(askers[i].1.0)
    } else {
        asked_item_from(askers, e, i + 1)
    }
}

/// The item asked for by the entity `e`, if `askers` lists one.
pub open spec fn asked_item_of(askers: Seq<(EntityId, AskingItem)>, e: EntityId) -> Option<Item> {
    asked_item_from(askers, e, 0)
}

/// Looks the entity `e` up among the asking entities.
fn find_asked_item(askers: &Vec<(EntityId, AskingItem)>, e: EntityId) -> (r: Option<Item>)
    ensures
        r == asked_item_of(askers@, e),
{
    let n = askers.len();
    let mut i: usize = 0;
    while i < n
        invariant
            n == askers@.len(),
            0 <= i <= n,
            asked_item_of(askers@, e) == asked_item_from(askers@, e, i as int),
        decreases n - i,
    {
        if askers[i].0 == e {
            return Some(askers[i].1.0);
        }
        i += 1;
    }
    None
}

/// The item lying on the ground as the entity `e`, if `items` lists one,
/// searching from index `i`.
pub open spec fn ground_item_from(items: Seq<(EntityId, Item)>, e: EntityId, i: int) -> Option<
    Item,
>
    decreases items.len() - i,
{
    if i < 0 || i >= items.len() {
        None
    } else if items[i].0 == e {
        Some(items[i].1)
    } else {
        ground_item_from(items, e, i + 1)
    }
}

/// The item lying on the ground as the entity `e`, if `items` lists one.
pub open spec fn ground_item_of(items: Seq<(EntityId, Item)>, e: EntityId) -> Option<Item> {
    ground_item_from(items, e, 0)
}

/// Looks the entity `e` up among the items on the ground.
fn find_ground_item(items: &Vec<(EntityId, Item)>, e: EntityId) -> (r: Option<Item>)
    ensures
        r == ground_item_of(items@, e),
{
    let n = items.len();
    let mut i: usize = 0;
    while i < n
        invariant
            n == items@.len(),
            0 <= i <= n,
            ground_item_of(items@, e) == ground_item_from(items@, e, i as int),
        decreases n - i,
    {
        if items[i].0 == e {
            return Some(items[i].1);
        }
        i += 1;
    }
    None
}

/// The produced item of the first persisted contact, from index `i` on,
/// that pairs the player with an item producer.
pub open spec fn first_producer_contact_from(
    contacts: Seq<ContactRecord>,
    producers: Seq<(EntityId, ItemProducer)>,
    didi: EntityId,
    i: int,
) -> Option<Item>
    decreases contacts.len() - i,
{
    if i < 0 || i >= contacts.len() {
        None
    } else if contacts[i].contact.0 == didi && producer_item_of(
        producers,
        contacts[i].contact.1,
    ) is Some {
        producer_item_of(producers, contacts[i].contact.1)
    } else {
        first_producer_contact_from(contacts, producers, didi, i + 1)
    }
}

/// The produced item of the first persisted contact pairing the player with
/// an item producer.
pub open spec fn first_producer_contact(
    contacts: Seq<ContactRecord>,
    producers: Seq<(EntityId, ItemProducer)>,
    didi: EntityId,
) -> Option<Item> {
    first_producer_contact_from(contacts, producers, didi, 0)
}

/// Scans the persisted contacts for the first one pairing the player with
/// an item producer.
fn find_producer_contact(
    contacts: &Vec<ContactRecord>,
    producers: &Vec<(EntityId, ItemProducer)>,
    didi: EntityId,
) -> (r: Option<Item>)
    ensures
        r == first_producer_contact(contacts@, producers@, didi),
{
    let n = contacts.len();
    let mut i: usize = 0;
    while i < n
        invariant
            n == contacts@.len(),
            0 <= i <= n,
            first_producer_contact(contacts@, producers@, didi) == first_producer_contact_from(
                contacts@,
                producers@,
                didi,
                i as int,
            ),
        decreases n - i,
    {
        let c = contacts[i].contact;
        if c.0 == didi {
            let found = find_producer_item(producers, c.1);
            if found.is_some() {
                return found;
            }
        }
        i += 1;
    }
    None
}

/// The asked item of the first persisted contact, from index `i` on, that
/// pairs the player with an asking entity.
pub open spec fn first_asker_contact_from(
    contacts: Seq<ContactRecord>,
    askers: Seq<(EntityId, AskingItem)>,
    didi: EntityId,
    i: int,
) -> Option<Item>
    decreases contacts.len() - i,
{
    if i < 0 || i >= contacts.len() {
        None
    } else if contacts[i].contact.0 == didi && asked_item_of(
        askers,
        contacts[i].contact.1,
    ) is Some {
        asked_item_of(askers, contacts[i].contact.1)
    } else {
        first_asker_contact_from(contacts, askers, didi, i + 1)
    }
}

/// The asked item of the first persisted contact pairing the player with an
/// asking entity.
pub open spec fn first_asker_contact(
    contacts: Seq<ContactRecord>,
    askers: Seq<(EntityId, AskingItem)>,
    didi: EntityId,
) -> Option<Item> {
    first_asker_contact_from(contacts, askers, didi, 0)
}

/// Scans the persisted contacts for the first one pairing the player with
/// an asking entity.
fn find_asker_contact(
    contacts: &Vec<ContactRecord>,
    askers: &Vec<(EntityId, AskingItem)>,
    didi: EntityId,
) -> (r: Option<Item>)
    ensures
        r == first_asker_contact(contacts@, askers@, didi),
{
    let n = contacts.len();
    let mut i: usize = 0;
    while i < n
        invariant
            n == contacts@.len(),
            0 <= i <= n,
            first_asker_contact(contacts@, askers@, didi) == first_asker_contact_from(
                contacts@,
                askers@,
                didi,
                i as int,
            ),
        decreases n - i,
    {
        let c = contacts[i].contact;
        if c.0 == didi {
            let found = find_asked_item(askers, c.1);
            if found.is_some() {
                return found;
            }
        }
        i += 1;
    }
    None
}

/// The first persisted contact, from index `i` on, pairing the player with
/// an item on the ground: the item's entity and the item.
pub open spec fn first_ground_contact_from(
    contacts: Seq<ContactRecord>,
    items: Seq<(EntityId, Item)>,
    didi: EntityId,
    i: int,
) -> Option<(EntityId, Item)>
    decreases contacts.len() - i,
{
    if i < 0 || i >= contacts.len() {
        None
    } else if contacts[i].contact.0 == didi && ground_item_of(
        items,
        contacts[i].contact.1,
    ) is Some {
        match ground_item_of(items, contacts[i].contact.1) {
            Some(it) => Some((contacts[i].contact.1, it)),
            None => None,
        }
    } else {
        first_ground_contact_from(contacts, items, didi, i + 1)
    }
}

/// The first persisted contact pairing the player with an item on the
/// ground.
pub open spec fn first_ground_contact(
    contacts: Seq<ContactRecord>,
    items: Seq<(EntityId, Item)>,
    didi: EntityId,
) -> Option<(EntityId, Item)> {
    first_ground_contact_from(contacts, items, didi, 0)
}

/// Scans the persisted contacts for the first one pairing the player with
/// an item on the ground.
fn find_ground_contact(
    contacts: &Vec<ContactRecord>,
    items: &Vec<(EntityId, Item)>,
    didi: EntityId,
) -> (r: Option<(EntityId, Item)>)
    ensures
        r == first_ground_contact(contacts@, items@, didi),
{
    let n = contacts.len();
    let mut i: usize = 0;
    while i < n
        invariant
            n == contacts@.len(),
            0 <= i <= n,
            first_ground_contact(contacts@, items@, didi) == first_ground_contact_from(
                contacts@,
                items@,
                didi,
                i as int,
            ),
        decreases n - i,
    {
        let c = contacts[i].contact;
        if c.0 == didi {
            let found = find_ground_item(items, c.1);
            match found {
                Some(it) => {
                    return Some((c.1, it));
                },
                None => {},
            }
        }
        i += 1;
    }
    None
}

/// The horizontal offset from the player at which a dropped item lands.
pub const DROP_OFFSET_X: i32 = -51;

/// The vertical offset from the player at which a dropped item lands.
pub const DROP_OFFSET_Y: i32 = -3;

/// Width of the pickup trigger area given back to a dropped item.
pub const DROP_TRIGGER_WIDTH: i32 = 75;

/// Height of the pickup trigger area given back to a dropped item.
pub const DROP_TRIGGER_HEIGHT: i32 = 100;

/// An item put back on the ground: it regains a standalone position and a
/// pickup trigger area, so it becomes pickable again.
#[derive(Debug, Clone, Copy, PartialEq, Eq, Structural)]
pub struct DroppedItem {
    /// The item lying on the ground.
    pub item: Item,
    /// Where it lies.
    pub position: Position,
    /// The trigger area through which it can be picked up again.
    pub trigger: TriggerArea,
}

/// The single action of this tick, decided with strict priority: a contact
/// with an item producer wins — put away a matching carried item, keep a
/// different one, take the produced item when empty-handed; otherwise a
/// carried item is given to a contacted asker, or dropped; otherwise an
/// item on the ground in contact is picked up.
pub open spec fn action_spec(
    producer: Option<Item>,
    carrying: Option<Carrying>,
    asker_contact: bool,
    ground: Option<(EntityId, Item)>,
) -> Option<ActionEvent> {
    match producer {
        Some(produced) => match carrying {
            Some(Carrying(item)) => if item == produced {
                Some(ActionEvent::PutAway(item))
            } else {
                Some(ActionEvent::Keep(item))
            },
            None => Some(ActionEvent::Take(produced)),
        },
        None => match carrying {
            Some(Carrying(item)) => if asker_contact {
                Some(ActionEvent::Give(item))
            } else {
                Some(ActionEvent::Drop(item))
            },
            None => match ground {
                Some((e, item)) => Some(ActionEvent::PickUp(e, item)),
                None => None,
            },
        },
    }
}

/// Derives at most one action for this tick from the persisted contacts,
/// the carried item and the interact key, gated by the cooldown: the
/// cooldown is first advanced by `delta_millis`; no action fires unless it
/// is then available and the key is pressed; firing an action starts the
/// cooldown again, which blocks every further action until it elapses.
pub fn pick_or_drop_system(
    cooldown: &mut Cooldown,
    delta_millis: u64,
    interact_pressed: bool,
    didi: EntityId,
    contacts: &ContactStore,
    producers: &Vec<(EntityId, ItemProducer)>,
    askers: &Vec<(EntityId, AskingItem)>,
    ground_items: &Vec<(EntityId, Item)>,
    carrying: &Option<Carrying>,
) -> (action: Option<ActionEvent>)
    ensures
        ({
            let ticked = old(cooldown).tick_spec(delta_millis);
            let gate = ticked.spec_available() && interact_pressed;
            let chosen = action_spec(
                first_producer_contact(contacts.records@, producers@, didi),
                *carrying,
                first_asker_contact(contacts.records@, askers@, didi) is Some,
                first_ground_contact(contacts.records@, ground_items@, didi),
            );
            &&& action == (if gate {
                chosen
            } else {
                None::<ActionEvent>
            })
            &&& *final(cooldown) == (if gate && chosen is Some {
                ticked.start_spec()
            } else {
                ticked
            })
        }),
{
    let available = cooldown.tick(delta_millis);
    if !available || !interact_pressed {
        return None;
    }
    let produced = find_producer_contact(&contacts.records, producers, didi);
    match produced {
        Some(p) => {
            let act = match *carrying {
                Some(Carrying(item)) => if item == p {
                    ActionEvent::PutAway(item)
                } else {
                    ActionEvent::Keep(item)
                },
                None => ActionEvent::Take(p),
            };
            cooldown.start();
            Some(act)
        },
        None => match *carrying {
            Some(Carrying(item)) => {
                let asked = find_asker_contact(&contacts.records, askers, didi);
                cooldown.start();
                if asked.is_some() {
                    Some(ActionEvent::Give(item))
                } else {
                    Some(ActionEvent::Drop(item))
                }
            },
            None => {
                match find_ground_contact(&contacts.records, ground_items, didi) {
                    Some((e, item)) => {
                        cooldown.start();
                        Some(ActionEvent::PickUp(e, item))
                    },
                    None => None,
                }
            },
        },
    }
}

/// Where an item dropped by a player standing at `p` lands.
pub open spec fn drop_position(p: Position) -> Position {
    Position { x: (p.x + DROP_OFFSET_X) as i32, y: (p.y + DROP_OFFSET_Y) as i32, z: p.z }
}

/// The carried slot after handling an action.
pub open spec fn carrying_after(
    action: ActionEvent,
    carrying: Option<Carrying>,
    asked: Item,
) -> Option<Carrying> {
    match action {
        ActionEvent::Take(item) => Some(Carrying(item)),
        ActionEvent::PutAway(_) => None,
        ActionEvent::Drop(_) => None,
        ActionEvent::PickUp(_, item) => Some(Carrying(item)),
        ActionEvent::Keep(_) => carrying,
        ActionEvent::Give(item) => if asked == item {
            None
        } else {
            carrying
        },
    }
}

/// The happiness value after handling an action: giving the asked item adds
/// the fixed delta, giving a different one subtracts it, both clamped to
/// the 0 to 100 range; every other action leaves it alone.
pub open spec fn happiness_after(action: ActionEvent, asked: Item, h: int) -> int {
    match action {
        ActionEvent::Give(item) => if asked == item {
            if h + GIVE_HAPPINESS_DELTA > 100 {
                100int
            } else {
                h + GIVE_HAPPINESS_DELTA
            }
        } else {
            if h < GIVE_HAPPINESS_DELTA {
                0int
            } else {
                h - GIVE_HAPPINESS_DELTA
            }
        },
        _ => h,
    }
}

/// What lands on the ground after handling an action: dropping re-creates a
/// pickable item at the drop position with a standalone trigger area; no
/// other action puts anything down.
pub open spec fn dropped_after(action: ActionEvent, player: Position) -> Option<DroppedItem> {
    match action {
        ActionEvent::Drop(item) => Some(
            DroppedItem {
                item,
                position: drop_position(player),
                trigger: (TriggerArea { width: DROP_TRIGGER_WIDTH, height: DROP_TRIGGER_HEIGHT }),
            },
        ),
        _ => None,
    }
}

/// Handles one action event, updating the carried slot, the asking entity
/// and its happiness, and returning the item put on the ground when the
/// action drops one. Giving the asked item rolls the asker's next request
/// to a randomly chosen different item — never the one just given.
pub fn handle_action(
    action: &ActionEvent,
    carrying: &mut Option<Carrying>,
    asker: &mut AskingItem,
    happiness: &mut Happiness,
    player_position: &Position,
) -> (dropped: Option<DroppedItem>)
    requires
        old(happiness).wf(),
        i32::MIN <= player_position.x + DROP_OFFSET_X <= i32::MAX,
        i32::MIN <= player_position.y + DROP_OFFSET_Y <= i32::MAX,
    ensures
        *final(carrying) == carrying_after(*action, *old(carrying), old(asker).0),
        final(happiness).wf(),
        final(happiness).spec_value() == happiness_after(
            *action,
            old(asker).0,
            old(happiness).spec_value() as int,
        ),
        dropped == dropped_after(*action, *player_position),
        ({
            match *action {
                ActionEvent::Give(item) => if old(asker).0 == item {
                    final(asker).0 != item
                } else {
                    *final(asker) == *old(asker)
                },
                _ => *final(asker) == *old(asker),
            }
        }),
{
    match action {
        ActionEvent::Take(item) => {
            *carrying = Some(Carrying(*item));
            None
        },
        ActionEvent::PutAway(_) => {
            *carrying = None;
            None
        },
        ActionEvent::Keep(_) => None,
        ActionEvent::Drop(item) => {
            *carrying = None;
            Some(
                DroppedItem {
                    item: *item,
                    position: Position {
                        x: player_position.x + DROP_OFFSET_X,
                        y: player_position.y + DROP_OFFSET_Y,
                        z: player_position.z,
                    },
                    trigger: TriggerArea::new(DROP_TRIGGER_WIDTH, DROP_TRIGGER_HEIGHT),
                },
            )
        },
        ActionEvent::PickUp(_, item) => {
            *carrying = Some(Carrying(*item));
            None
        },
        ActionEvent::Give(item) => {
            if asker.0 != *item {
                happiness.sub(GIVE_HAPPINESS_DELTA);
            } else {
                happiness.add(GIVE_HAPPINESS_DELTA);
                *carrying = None;
                *asker = AskingItem(random_different_item(*item));
            }
            None
        },
    }
}

/// Law: action priority. Whenever the player is in contact with an item
/// producer, the producer branch decides the whole tick — take, put away or
/// keep — and neither a give, a drop nor a pick-up can fire, whatever other
/// contacts exist at the same time.
pub proof fn lemma_producer_priority(
    produced: Item,
    carrying: Option<Carrying>,
    asker_contact: bool,
    ground: Option<(EntityId, Item)>,
)
    ensures
        action_spec(Some(produced), carrying, asker_contact, ground) == (match carrying {
            Some(Carrying(item)) => if item == produced {
                Some(ActionEvent::PutAway(item))
            } else {
                Some(ActionEvent::Keep(item))
            },
            None => Some(ActionEvent::Take(produced)),
        }),
        !(action_spec(Some(produced), carrying, asker_contact, ground) matches Some(
            ActionEvent::Give(_),
        )),
        !(action_spec(Some(produced), carrying, asker_contact, ground) matches Some(
            ActionEvent::Drop(_),
        )),
        !(action_spec(Some(produced), carrying, asker_contact, ground) matches Some(
            ActionEvent::PickUp(_, _),
        )),
{
}

/// Law: round trip pick-up and drop. Starting empty-handed, picking an item
/// up makes the player carry it; dropping it afterwards empties the carried
/// slot again and re-creates a ground-pickable item, at the drop position,
/// with a standalone trigger area.
pub proof fn lemma_pick_up_drop_round_trip(e: EntityId, item: Item, asked: Item, player: Position)
    ensures
        carrying_after(ActionEvent::PickUp(e, item), None, asked) == Some(Carrying(item)),
        carrying_after(
            ActionEvent::Drop(item),
            carrying_after(ActionEvent::PickUp(e, item), None, asked),
            asked,
        ) == None::<Carrying>,
        dropped_after(ActionEvent::Drop(item), player) == Some(
            DroppedItem {
                item,
                position: drop_position(player),
                trigger: (TriggerArea { width: DROP_TRIGGER_WIDTH, height: DROP_TRIGGER_HEIGHT }),
            },
        ),
{
}

} // verus!
