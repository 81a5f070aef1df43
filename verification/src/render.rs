//! What a renderer is given: the pictures of a world in the order in which
//! they are to be painted.

use vstd::prelude::*;
use crate::components::{Entity, EntityKind};
use crate::grid::Position;
use crate::store::{
    entity_table, lists_table, read_resources, records, storages_ready, stored_resources,
};

verus! {

/// One picture: which, where, and how late it is painted.
#[derive(Clone, Copy, Debug, PartialEq, Eq, Structural)]
pub struct Sprite {
    pub position: Position,
    pub tag: EntityKind,
    pub priority: u8,
}

/// The floor under each of the cells, in order.
pub open spec fn floor_of(cells: Seq<Position>) -> Seq<Sprite> {
    Seq::new(
        cells.len(),
        |i: int| Sprite { position: cells[i], tag: EntityKind::Floor, priority: 0 },
    )
}

/// The pictures of the entities that have one, in order.
pub open spec fn looks_of(list: Seq<Entity>) -> Seq<Sprite>
    decreases list.len(),
{
    if list.len() == 0 {
        Seq::empty()
    } else {
        match list.last().components.renderable {
            None => looks_of(list.drop_last()),
            Some(look) => looks_of(list.drop_last()).push(
                Sprite {
                    position: list.last().components.position,
                    tag: look.tag,
                    priority: look.priority,
                },
            ),
        }
    }
}

/// The pictures of one priority, in order.
pub open spec fn layer(sprites: Seq<Sprite>, priority: int) -> Seq<Sprite> {
    sprites.filter(|sprite: Sprite| sprite.priority == priority)
}

/// The pictures of the priorities below `upto`, layer after layer.
pub open spec fn layers(sprites: Seq<Sprite>, upto: int) -> Seq<Sprite>
    decreases upto,
{
    if upto <= 0 {
        Seq::empty()
    } else {
        layers(sprites, upto - 1) + layer(sprites, upto - 1)
    }
}

/// The pictures of a grid and its entities in paint order: by priority, and
/// within one priority the floor first and the rest as listed.
pub open spec fn painted(cells: Seq<Position>, list: Seq<Entity>) -> Seq<Sprite> {
    layers(floor_of(cells) + looks_of(list), 256)
}

/// Whether no picture comes before one of lower priority.
pub open spec fn in_paint_order(sprites: Seq<Sprite>) -> bool {
    forall|i: int, j: int|
        0 <= i < j < sprites.len() ==> (#[trigger] sprites[i]).priority <= (
        #[trigger] sprites[j]).priority
}

/// Layers are in paint order, and hold no priority from `upto` on.
proof fn layers_are_ordered(sprites: Seq<Sprite>, upto: int)
    ensures
        in_paint_order(layers(sprites, upto)),
        forall|i: int|
            0 <= i < layers(sprites, upto).len() ==> (#[trigger] layers(
                sprites,
                upto,
            )[i]).priority < upto,
    decreases upto,
{
    if upto > 0 {
        layers_are_ordered(sprites, upto - 1);
        let top = layer(sprites, upto - 1);
        assert forall|i: int| 0 <= i < top.len() implies (#[trigger] top[i]).priority == upto
            - 1 by {
            sprites.lemma_filter_pred(|sprite: Sprite| sprite.priority == upto - 1, i);
        }
    }
}

/// The floor under each of the cells, then the pictures of the entities.
fn collect(cells: &Vec<Position>, list: &Vec<Entity>) -> (sprites: Vec<Sprite>)
    ensures
        sprites@ == floor_of(cells@) + looks_of(list@),
{
    let mut sprites: Vec<Sprite> = Vec::new();
    let mut i: usize = 0;
    while i < cells.len()
        invariant
            0 <= i <= cells.len(),
            sprites@ == floor_of(cells@.take(i as int)),
        decreases cells.len() - i,
    {
        sprites.push(Sprite { position: cells[i], tag: EntityKind::Floor, priority: 0 });
        i += 1;
    }
    let mut j: usize = 0;
    while j < list.len()
        invariant
            0 <= j <= list.len(),
            sprites@ == floor_of(cells@) + looks_of(list@.take(j as int)),
        decreases list.len() - j,
    {
        assert(list@.take(j + 1).drop_last() =~= list@.take(j as int));
        match list[j].components.renderable {
            None => {},
            Some(look) => {
                sprites.push(
                    Sprite {
                        position: list[j].components.position,
                        tag: look.tag,
                        priority: look.priority,
                    },
                );
            },
        }
        j += 1;
    }
    assert(list@.take(list.len() as int) =~= list@);
    sprites
}

/// The pictures of a grid and its entities in paint order: floor, walls,
/// spots, boxes, player.
pub fn paint(cells: &Vec<Position>, list: &Vec<Entity>) -> (sprites: Vec<Sprite>)
    ensures
        sprites@ == painted(cells@, list@),
        in_paint_order(sprites@),
{
    let all = collect(cells, list);
    let mut sprites: Vec<Sprite> = Vec::new();
    let mut priority: u16 = 0;
    while priority < 256
        invariant
            0 <= priority <= 256,
            sprites@ == layers(all@, priority as int),
        decreases 256 - priority,
    {
        let ghost below = sprites@;
        let mut i: usize = 0;
        proof {
            reveal(Seq::filter);
        }
        while i < all.len()
            invariant
                0 <= i <= all.len(),
                0 <= priority < 256,
                sprites@ == below + layer(all@.take(i as int), priority as int),
            decreases all.len() - i,
        {
            proof {
                reveal(Seq::filter);
                assert(all@.take(i + 1).drop_last() =~= all@.take(i as int));
            }
            if all[i].priority as u16 == priority {
                sprites.push(all[i]);
            }
            i += 1;
        }
        assert(all@.take(all.len() as int) =~= all@);
        priority += 1;
    }
    proof {
        layers_are_ordered(all@, 256);
    }
    sprites
}

/// The pictures of a world in paint order, for some listing of its entities.
pub fn paint_list(world: &specs::World) -> (sprites: Vec<Sprite>)
    requires
        storages_ready(*world),
        stored_resources(*world) is Some,
    ensures
        exists|list: Seq<Entity>|
            lists_table(list, entity_table(*world)) && sprites@ == painted(
                stored_resources(*world)->Some_0.cells,
                list,
            ),
        in_paint_order(sprites@),
{
    let list = records(world);
    let cells = read_resources(world).2;
    paint(&cells, &list)
}

} // verus!
