use vstd::prelude::*;

use crate::buffer::{dec, Input, Output};
use crate::geom::{offset_spec, Bounds2i, Vec2i};
use crate::grid::{Sprite, Tile};
use crate::resource::{Error, Resource};
use crate::state::{Command, GameState};

verus! {

/// What a factory does each tick.
#[derive(Clone, Copy, PartialEq, Eq, Structural, Debug)]
pub enum FactoryLogic {
    /// Turns one item of every input into one item of every output.
    Produce,
    /// Becomes the factory prototype of the given index once its inputs are full.
    BuildingSite { factory_prototype: usize },
    /// Turns its cell into `tile` once its inputs are full, then goes away.
    DigSite { tile: Tile },
}

impl Default for FactoryLogic {
    fn default() -> (r: FactoryLogic)
        ensures
            r == FactoryLogic::Produce,
    {
        FactoryLogic::Produce
    }
}

/// A building with input and output buffers.
#[derive(Clone, Debug)]
pub struct Factory {
    pub position: Vec2i,
    pub scale: u8,
    pub sprite: Sprite,
    pub inputs: Vec<Input>,
    pub outputs: Vec<Output>,
    pub priority: u8,
    pub logic: FactoryLogic,
}

/// `i` is the first index in `s` whose resource is `r`.
pub open spec fn is_first_index(s: Seq<Resource>, r: Resource, i: int) -> bool {
    &&& 0 <= i < s.len()
    &&& s[i] == r
    &&& forall|j: int| 0 <= j < i ==> s[j] != r
}

/// The first index in `s` whose resource is `r`, if any.
pub open spec fn first_index(s: Seq<Resource>, r: Resource) -> Option<int> {
    if exists|i: int| is_first_index(s, r, i) {
        Some(choose|i: int| is_first_index(s, r, i))
    } else {
        None
    }
}

/// An index that is the first holding `r` is what `first_index` names.
pub proof fn lemma_first_index_unique(s: Seq<Resource>, r: Resource, i: int)
    requires
        is_first_index(s, r, i),
    ensures
        first_index(s, r) == Some(i),
{
    let k = choose|k: int| is_first_index(s, r, k);
    assert(is_first_index(s, r, k));
    if k < i {
        assert(s[k] != r);
    }
    if i < k {
        assert(s[i] != r);
    }
}

/// Without any index holding `r`, `first_index` names none.
pub proof fn lemma_first_index_none(s: Seq<Resource>, r: Resource)
    requires
        forall|j: int| 0 <= j < s.len() ==> s[j] != r,
    ensures
        first_index(s, r) is None,
{
}

pub open spec fn input_resources(s: Seq<Input>) -> Seq<Resource> {
    s.map_values(|b: Input| b.resource)
}

pub open spec fn output_resources(s: Seq<Output>) -> Seq<Resource> {
    s.map_values(|b: Output| b.resource)
}

pub const NUM_PROTOTYPES: usize = 5;

/// Every factory has grown from itself.
pub proof fn lemma_grown_refl(f: &Factory)
    ensures
        f.grown_from(f),
{
}

/// Growing twice is growing.
pub proof fn lemma_grown_trans(a: &Factory, b: &Factory, c: &Factory)
    requires
        a.grown_from(b),
        b.grown_from(c),
    ensures
        a.grown_from(c),
{
    assert forall|i: int| 0 <= i < a.inputs@.len() implies (#[trigger] a.inputs@[i]) == (Input {
        reserved_slots: a.inputs@[i].reserved_slots,
        ..c.inputs@[i]
    }) && a.inputs@[i].reserved_slots >= c.inputs@[i].reserved_slots by {
        assert(b.inputs@[i] == (Input { reserved_slots: b.inputs@[i].reserved_slots, ..c.inputs@[i] }));
    }
    assert forall|i: int| 0 <= i < a.outputs@.len() implies (#[trigger] a.outputs@[i]) == (Output {
        reserved_items: a.outputs@[i].reserved_items,
        ..c.outputs@[i]
    }) && a.outputs@[i].reserved_items >= c.outputs@[i].reserved_items by {
        assert(b.outputs@[i] == (Output { reserved_items: b.outputs@[i].reserved_items, ..c.outputs@[i] }));
    }
}

/// The input slot for `r` exists and takes `r`.
pub proof fn lemma_input_slot(f: &Factory, r: Resource)
    requires
        f.input_slot(r) is Some,
    ensures
        0 <= f.input_slot(r)->0 < f.inputs@.len(),
        f.inputs@[f.input_slot(r)->0].resource == r,
{
    let s = input_resources(f.inputs@);
    let i = choose|i: int| is_first_index(s, r, i);
    assert(is_first_index(s, r, i));
}

/// The output slot for `r` exists and gives `r`.
pub proof fn lemma_output_slot(f: &Factory, r: Resource)
    requires
        f.output_slot(r) is Some,
    ensures
        0 <= f.output_slot(r)->0 < f.outputs@.len(),
        f.outputs@[f.output_slot(r)->0].resource == r,
{
    let s = output_resources(f.outputs@);
    let i = choose|i: int| is_first_index(s, r, i);
    assert(is_first_index(s, r, i));
}

/// Promising an output item keeps the factory well formed and only raises a counter.
pub proof fn lemma_reserve_output_grows(n: &Factory, o: &Factory, r: Resource)
    requires
        o.wf(),
        match o.output_slot(r) {
            None => n.unchanged_from(o),
            Some(i) => n.output_set_from(o, i, o.outputs@[i].spec_reserve_item().1),
        },
    ensures
        n.wf(),
        n.grown_from(o),
{
    if o.output_slot(r) is Some {
        lemma_output_slot(o, r);
    }
}

/// Promising an input slot keeps the factory well formed and only raises a counter.
pub proof fn lemma_reserve_input_grows(n: &Factory, o: &Factory, r: Resource)
    requires
        o.wf(),
        match o.input_slot(r) {
            None => n.unchanged_from(o),
            Some(i) => n.input_set_from(o, i, o.inputs@[i].spec_reserve_slot().1),
        },
    ensures
        n.wf(),
        n.grown_from(o),
{
    if o.input_slot(r) is Some {
        lemma_input_slot(o, r);
    }
}

/// Raising reservations keeps the buffers' kinds, and can only take away the room to reserve.
pub proof fn lemma_grown_monotone(n: &Factory, o: &Factory, r: Resource)
    requires
        n.grown_from(o),
    ensures
        input_resources(n.inputs@) == input_resources(o.inputs@),
        output_resources(n.outputs@) == output_resources(o.outputs@),
        n.input_slot(r) == o.input_slot(r),
        n.output_slot(r) == o.output_slot(r),
        n.spec_can_reserve_input(r) ==> o.spec_can_reserve_input(r),
        n.spec_can_reserve_output(r) ==> o.spec_can_reserve_output(r),
        n.spec_is_pile() == o.spec_is_pile(),
{
    assert forall|i: int| 0 <= i < n.inputs@.len() implies n.inputs@[i].resource == o.inputs@[i].resource by {
        assert(n.inputs@[i] == (Input { reserved_slots: n.inputs@[i].reserved_slots, ..o.inputs@[i] }));
    }
    assert forall|i: int| 0 <= i < n.outputs@.len() implies n.outputs@[i].resource == o.outputs@[i].resource by {
        assert(n.outputs@[i] == (Output { reserved_items: n.outputs@[i].reserved_items, ..o.outputs@[i] }));
    }
    assert(input_resources(n.inputs@) =~= input_resources(o.inputs@));
    assert(output_resources(n.outputs@) =~= output_resources(o.outputs@));
    if n.spec_is_pile() || o.spec_is_pile() {
        assert(n.inputs@[0].resource == o.inputs@[0].resource);
        assert(n.outputs@[0].resource == o.outputs@[0].resource);
    }
}

impl Factory {
    /// A building site names an existing prototype, and no output promises more items than
    /// its capacity.
    pub open spec fn wf(&self) -> bool {
        &&& (self.logic matches FactoryLogic::BuildingSite { factory_prototype }
            ==> factory_prototype < NUM_PROTOTYPES)
        &&& forall|i: int|
            0 <= i < self.outputs@.len() ==> (#[trigger] self.outputs@[i]).reserved_items
                <= self.outputs@[i].capacity
    }

    /// `self` is `o` with some reservation counters raised, and nothing else changed.
    pub open spec fn grown_from(&self, o: &Factory) -> bool {
        &&& self.same_frame(o)
        &&& self.inputs@.len() == o.inputs@.len()
        &&& self.outputs@.len() == o.outputs@.len()
        &&& forall|i: int|
            0 <= i < self.inputs@.len() ==> (#[trigger] self.inputs@[i]) == (Input {
                reserved_slots: self.inputs@[i].reserved_slots,
                ..o.inputs@[i]
            }) && self.inputs@[i].reserved_slots >= o.inputs@[i].reserved_slots
        &&& forall|i: int|
            0 <= i < self.outputs@.len() ==> (#[trigger] self.outputs@[i]) == (Output {
                reserved_items: self.outputs@[i].reserved_items,
                ..o.outputs@[i]
            }) && self.outputs@[i].reserved_items >= o.outputs@[i].reserved_items
    }

    /// Index of the input that takes `r`.
    pub open spec fn input_slot(&self, r: Resource) -> Option<int> {
        first_index(input_resources(self.inputs@), r)
    }

    /// Index of the output that gives `r`.
    pub open spec fn output_slot(&self, r: Resource) -> Option<int> {
        first_index(output_resources(self.outputs@), r)
    }

    /// Everything but the buffers is the same.
    pub open spec fn same_frame(&self, o: &Factory) -> bool {
        &&& self.position == o.position
        &&& self.scale == o.scale
        &&& self.sprite == o.sprite
        &&& self.priority == o.priority
        &&& self.logic == o.logic
    }

    /// `self` is `o` with its input `i` replaced by `b`.
    pub open spec fn input_set_from(&self, o: &Factory, i: int, b: Input) -> bool {
        &&& self.same_frame(o)
        &&& self.outputs@ == o.outputs@
        &&& self.inputs@ == o.inputs@.update(i, b)
    }

    /// `self` is `o` with its output `i` replaced by `b`.
    pub open spec fn output_set_from(&self, o: &Factory, i: int, b: Output) -> bool {
        &&& self.same_frame(o)
        &&& self.inputs@ == o.inputs@
        &&& self.outputs@ == o.outputs@.update(i, b)
    }

    pub open spec fn unchanged_from(&self, o: &Factory) -> bool {
        &&& self.same_frame(o)
        &&& self.inputs@ == o.inputs@
        &&& self.outputs@ == o.outputs@
    }

    /// Some input takes `r` and has room beyond what is already promised.
    pub open spec fn spec_can_reserve_input(&self, r: Resource) -> bool {
        match self.input_slot(r) {
            Some(i) => !self.inputs@[i].virtually_full(),
            None => false,
        }
    }

    /// Some output gives `r` and holds an item not yet promised.
    pub open spec fn spec_can_reserve_output(&self, r: Resource) -> bool {
        match self.output_slot(r) {
            Some(i) => !self.outputs@[i].virtually_empty(),
            None => false,
        }
    }

    pub open spec fn spec_is_pile(&self) -> bool {
        &&& self.inputs@.len() == 1
        &&& self.outputs@.len() == 1
        &&& self.inputs@[0].resource == self.outputs@[0].resource
    }

    pub open spec fn spec_bounds(&self) -> Bounds2i {
        Bounds2i {
            min: self.position,
            max: offset_spec(self.position, self.scale as int, self.scale as int),
        }
    }

    fn find_input(&self, resource: Resource) -> (r: Option<usize>)
        ensures
            match r {
                Some(i) => self.input_slot(resource) == Some(i as int),
                None => self.input_slot(resource) is None,
            },
    {
        let ghost s = input_resources(self.inputs@);
        let mut i: usize = 0;
        while i < self.inputs.len()
            invariant
                s == input_resources(self.inputs@),
                i <= self.inputs@.len(),
                forall|j: int| 0 <= j < i ==> s[j] != resource,
            decreases self.inputs@.len() - i,
        {
            if self.inputs[i].resource == resource {
                proof {
                    lemma_first_index_unique(s, resource, i as int);
                }
                return Some(i);
            }
            i = i + 1;
        }
        proof {
            lemma_first_index_none(s, resource);
        }
        None
    }

    fn find_output(&self, resource: Resource) -> (r: Option<usize>)
        ensures
            match r {
                Some(i) => self.output_slot(resource) == Some(i as int),
                None => self.output_slot(resource) is None,
            },
    {
        let ghost s = output_resources(self.outputs@);
        let mut i: usize = 0;
        while i < self.outputs.len()
            invariant
                s == output_resources(self.outputs@),
                i <= self.outputs@.len(),
                forall|j: int| 0 <= j < i ==> s[j] != resource,
            decreases self.outputs@.len() - i,
        {
            if self.outputs[i].resource == resource {
                proof {
                    lemma_first_index_unique(s, resource, i as int);
                }
                return Some(i);
            }
            i = i + 1;
        }
        proof {
            lemma_first_index_none(s, resource);
        }
        None
    }

    pub fn can_reserve_input(&self, resource: Resource) -> (r: bool)
        ensures
            r == self.spec_can_reserve_input(resource),
    {
        match self.find_input(resource) {
            None => false,
            Some(i) => !self.inputs[i].is_virtually_full(),
        }
    }

    /// Promises a slot of the input that takes `resource`: `Mismatch` when there is none, else
    /// as `Input::reserve_slot`.
    pub fn reserve_input(&mut self, resource: Resource) -> (r: Result<(), Error>)
        ensures
            match old(self).input_slot(resource) {
                None => r == Err::<(), Error>(Error::Mismatch) && final(self).unchanged_from(old(self)),
                Some(i) => {
                    let (res, b) = old(self).inputs@[i].spec_reserve_slot();
                    r == res && final(self).input_set_from(old(self), i, b)
                },
            },
    {
        match self.find_input(resource) {
            None => Err(Error::Mismatch),
            Some(i) => self.inputs[i].reserve_slot(),
        }
    }

    /// Puts one item into the input that takes `resource`: `Mismatch` when there is none, else
    /// as `Input::add_to`.
    pub fn add_input(&mut self, resource: Resource) -> (r: Result<(), Error>)
        ensures
            match old(self).input_slot(resource) {
                None => r == Err::<(), Error>(Error::Mismatch) && final(self).unchanged_from(old(self)),
                Some(i) => {
                    let (res, b) = old(self).inputs@[i].spec_add_to();
                    r == res && final(self).input_set_from(old(self), i, b)
                },
            },
    {
        match self.find_input(resource) {
            None => Err(Error::Mismatch),
            Some(i) => self.inputs[i].add_to(),
        }
    }

    pub fn can_reserve_output(&self, resource: Resource) -> (r: bool)
        ensures
            r == self.spec_can_reserve_output(resource),
    {
        match self.find_output(resource) {
            None => false,
            Some(i) => !self.outputs[i].is_vitrually_empty(),
        }
    }

    /// Promises an item of the output that gives `resource`: `Mismatch` when there is none, else
    /// as `Output::reserve_item`.
    pub fn reserve_output(&mut self, resource: Resource) -> (r: Result<(), Error>)
        ensures
            match old(self).output_slot(resource) {
                None => r == Err::<(), Error>(Error::Mismatch) && final(self).unchanged_from(old(self)),
                Some(i) => {
                    let (res, b) = old(self).outputs@[i].spec_reserve_item();
                    r == res && final(self).output_set_from(old(self), i, b)
                },
            },
    {
        match self.find_output(resource) {
            None => Err(Error::Mismatch),
            Some(i) => self.outputs[i].reserve_item(),
        }
    }

    /// Takes one item out of the output that gives `resource`: `Mismatch` when there is none,
    /// else as `Output::take_item`.
    pub fn take_output(&mut self, resource: Resource) -> (r: Result<(), Error>)
        ensures
            match old(self).output_slot(resource) {
                None => r == Err::<(), Error>(Error::Mismatch) && final(self).unchanged_from(old(self)),
                Some(i) => {
                    let (res, b) = old(self).outputs@[i].spec_take_item();
                    r == res && final(self).output_set_from(old(self), i, b)
                },
            },
    {
        match self.find_output(resource) {
            None => Err(Error::Mismatch),
            Some(i) => self.outputs[i].take_item(),
        }
    }

    /// A pile stores one resource: a single input and a single output of the same kind.
    pub fn is_pile(&self) -> (r: bool)
        ensures
            r == self.spec_is_pile(),
    {
        self.inputs.len() == 1 && self.outputs.len() == 1 && self.inputs[0].resource
            == self.outputs[0].resource
    }

    /// The square the factory covers.
    pub fn bounds(&self) -> (r: Bounds2i)
        ensures
            r == self.spec_bounds(),
    {
        Bounds2i { min: self.position, max: self.position.offset(self.scale as i32, self.scale as i32) }
    }
}

/// Every input is physically full.
pub open spec fn all_inputs_full(s: Seq<Input>) -> bool {
    forall|i: int| 0 <= i < s.len() ==> (#[trigger] s[i]).physically_full()
}

fn inputs_full(inputs: &Vec<Input>) -> (r: bool)
    ensures
        r == all_inputs_full(inputs@),
{
    let mut i: usize = 0;
    while i < inputs.len()
        invariant
            i <= inputs@.len(),
            forall|j: int| 0 <= j < i ==> (#[trigger] inputs@[j]).physically_full(),
        decreases inputs@.len() - i,
    {
        if !inputs[i].is_physically_full() {
            return false;
        }
        i = i + 1;
    }
    true
}

/// Scale, priority, inputs and outputs of each factory prototype: a rock pile, a seaweed pile, a
/// brick pile, a brick oven and a seaweed dryer.
pub open spec fn prototype_scale(i: int) -> u8 {
    if i == 3 {
        3
    } else {
        2
    }
}

pub open spec fn prototype_priority(i: int) -> u8 {
    if i == 0 {
        10
    } else if i == 1 {
        20
    } else {
        30
    }
}

pub open spec fn prototype_inputs(i: int) -> Seq<Input> {
    if i == 0 {
        seq![Input { resource: Resource { index: 2 }, capacity: 20, num_items: 0, reserved_slots: 0 }]
    } else if i == 1 {
        seq![Input { resource: Resource { index: 1 }, capacity: 20, num_items: 0, reserved_slots: 0 }]
    } else if i == 2 {
        seq![Input { resource: Resource { index: 4 }, capacity: 20, num_items: 0, reserved_slots: 0 }]
    } else if i == 3 {
        seq![
            Input { resource: Resource { index: 2 }, capacity: 12, num_items: 0, reserved_slots: 0 },
            Input { resource: Resource { index: 3 }, capacity: 15, num_items: 0, reserved_slots: 0 },
        ]
    } else {
        seq![Input { resource: Resource { index: 1 }, capacity: 18, num_items: 0, reserved_slots: 0 }]
    }
}

pub open spec fn prototype_outputs(i: int) -> Seq<Output> {
    if i == 0 {
        seq![Output { resource: Resource { index: 2 }, capacity: 20, num_items: 0, reserved_items: 0 }]
    } else if i == 1 {
        seq![Output { resource: Resource { index: 1 }, capacity: 20, num_items: 0, reserved_items: 0 }]
    } else if i == 2 {
        seq![Output { resource: Resource { index: 4 }, capacity: 20, num_items: 0, reserved_items: 0 }]
    } else if i == 3 {
        seq![Output { resource: Resource { index: 4 }, capacity: 5, num_items: 0, reserved_items: 0 }]
    } else {
        seq![Output { resource: Resource { index: 3 }, capacity: 6, num_items: 0, reserved_items: 0 }]
    }
}

/// `f` is prototype `i`, placed at `position`.
pub open spec fn is_prototype(f: &Factory, i: int, position: Vec2i) -> bool {
    &&& f.position == position
    &&& f.scale == prototype_scale(i)
    &&& f.sprite == Sprite(1)
    &&& f.inputs@ == prototype_inputs(i)
    &&& f.outputs@ == prototype_outputs(i)
    &&& f.priority == prototype_priority(i)
    &&& f.logic == FactoryLogic::Produce
}

/// Factory prototype `i`, at the origin.
pub fn factory_prototype(i: usize) -> (r: Factory)
    requires
        i < NUM_PROTOTYPES,
    ensures
        is_prototype(&r, i as int, Vec2i { x: 0, y: 0 }),
        r.wf(),
{
    let (scale, priority, inputs, outputs) = if i == 0 {
        (2u8, 10u8, vec![Input::new(Resource::rock(), 20)], vec![Output::new(Resource::rock(), 20)])
    } else if i == 1 {
        (2u8, 20u8, vec![Input::new(Resource::seaweed(), 20)], vec![Output::new(Resource::seaweed(), 20)])
    } else if i == 2 {
        (2u8, 30u8, vec![Input::new(Resource::brick(), 20)], vec![Output::new(Resource::brick(), 20)])
    } else if i == 3 {
        (
            3u8,
            30u8,
            vec![Input::new(Resource::rock(), 12), Input::new(Resource::dryweed(), 15)],
            vec![Output::new(Resource::brick(), 5)],
        )
    } else {
        (2u8, 30u8, vec![Input::new(Resource::seaweed(), 18)], vec![Output::new(Resource::dryweed(), 6)])
    };
    assert(inputs@ =~= prototype_inputs(i as int));
    assert(outputs@ =~= prototype_outputs(i as int));
    Factory {
        position: Vec2i { x: 0, y: 0 },
        scale,
        sprite: Sprite::factory(),
        inputs,
        outputs,
        priority,
        logic: FactoryLogic::Produce,
    }
}

/// A building site for prototype `factory_prototype`: its footprint, taking 24 bricks.
pub fn building_site_prototype(factory_prototype: usize) -> (r: Factory)
    requires
        factory_prototype < NUM_PROTOTYPES,
    ensures
        r.wf(),
        r.position == (Vec2i { x: 0, y: 0 }),
        r.scale == prototype_scale(factory_prototype as int),
        r.sprite == Sprite(1),
        r.inputs@ == seq![Input { resource: Resource { index: 4 }, capacity: 24, num_items: 0, reserved_slots: 0 }],
        r.outputs@.len() == 0,
        r.priority == 100,
        r.logic == (FactoryLogic::BuildingSite { factory_prototype }),
{
    let prototype = crate::factory::factory_prototype(factory_prototype);
    let inputs = vec![Input::new(Resource::brick(), 24)];
    assert(inputs@ =~= seq![Input { resource: Resource { index: 4 }, capacity: 24, num_items: 0, reserved_slots: 0 }]);
    Factory {
        position: prototype.position,
        scale: prototype.scale,
        sprite: prototype.sprite,
        inputs,
        outputs: Vec::new(),
        priority: 100,
        logic: FactoryLogic::BuildingSite { factory_prototype },
    }
}

/// A dig site that turns its cell into `tile`, taking 6 bricks.
pub fn dig_site_prototype(tile: Tile) -> (r: Factory)
    ensures
        r.wf(),
        r.position == (Vec2i { x: 0, y: 0 }),
        r.scale == 1,
        r.sprite == Sprite(2),
        r.inputs@ == seq![Input { resource: Resource { index: 4 }, capacity: 6, num_items: 0, reserved_slots: 0 }],
        r.outputs@.len() == 0,
        r.priority == 100,
        r.logic == (FactoryLogic::DigSite { tile }),
{
    let inputs = vec![Input::new(Resource::brick(), 6)];
    assert(inputs@ =~= seq![Input { resource: Resource { index: 4 }, capacity: 6, num_items: 0, reserved_slots: 0 }]);
    Factory {
        inputs,
        outputs: Vec::new(),
        priority: 100,
        logic: FactoryLogic::DigSite { tile },
        position: Vec2i { x: 0, y: 0 },
        scale: 1,
        sprite: Sprite::recticle(),
    }
}

/// What a production tick does.
pub open spec fn produce_ticked(n: &Factory, o: &Factory) -> bool {
    &&& n.wf()
    &&& n.same_frame(o)
    &&& n.inputs@.len() == o.inputs@.len()
    &&& n.outputs@.len() == o.outputs@.len()
    &&& ({
        let go = (forall|i: int| 0 <= i < o.inputs@.len() ==> (#[trigger] o.inputs@[i]).num_items > 0)
            && (forall|i: int| 0 <= i < o.outputs@.len() ==> !(#[trigger] o.outputs@[i]).full());
        &&& go ==> forall|i: int| 0 <= i < o.inputs@.len() ==> #[trigger] n.inputs@[i] == (Input {
            num_items: (o.inputs@[i].num_items - 1) as u16,
            ..o.inputs@[i]
        })
        &&& go ==> forall|i: int| 0 <= i < o.outputs@.len() ==> #[trigger] n.outputs@[i] == (Output {
            num_items: (o.outputs@[i].num_items + 1) as u16,
            ..o.outputs@[i]
        })
        &&& !go ==> n.unchanged_from(o)
    })
}

/// What a building-site tick does.
pub open spec fn building_site_ticked(n: &Factory, o: &Factory, factory_prototype: usize) -> bool {
    &&& n.wf()
    &&& all_inputs_full(o.inputs@) ==> is_prototype(n, factory_prototype as int, o.position)
    &&& !all_inputs_full(o.inputs@) ==> *n == *o
}

/// What a dig-site tick does.
pub open spec fn dig_site_ticked(n: &Factory, o: &Factory, g: &GameState, og: &GameState, tile: Tile) -> bool {
    &&& g.wf()
    &&& *n == *o
    &&& g.same_but_tiles_and_commands(og)
    &&& all_inputs_full(o.inputs@) ==> {
        &&& (og.tilemap.tiles.in_bounds(o.position) ==> g.tilemap.tiles.is_set_from(
            &og.tilemap.tiles,
            o.position,
            tile,
        ))
        &&& (!og.tilemap.tiles.in_bounds(o.position) ==> g.tilemap.tiles == og.tilemap.tiles)
        &&& g.commands@ == og.commands@.push(Command::RemoveFactory { position: o.position })
    }
    &&& !all_inputs_full(o.inputs@) ==> *g == *og
}

/// What a factory tick does, by the factory's logic; only a dig site touches the world.
pub open spec fn factory_ticked(n: &Factory, o: &Factory, g: &GameState, og: &GameState) -> bool {
    match o.logic {
        FactoryLogic::Produce => produce_ticked(n, o) && *g == *og,
        FactoryLogic::BuildingSite { factory_prototype } => building_site_ticked(n, o, factory_prototype) && *g == *og,
        FactoryLogic::DigSite { tile } => dig_site_ticked(n, o, g, og, tile),
    }
}

impl Factory {
    /// Immediate one-to-one production: when every input holds an item and no output is full,
    /// take one item from every input and put one into every output.
    pub fn tick_produce(&mut self)
        requires
            old(self).wf(),
        ensures
            produce_ticked(final(self), old(self)),
    {
        let mut ready = true;
        let mut i: usize = 0;
        while i < self.inputs.len()
            invariant
                i <= self.inputs@.len(),
                ready == forall|j: int| 0 <= j < i ==> (#[trigger] self.inputs@[j]).num_items > 0,
            decreases self.inputs@.len() - i,
        {
            if self.inputs[i].is_empty() {
                ready = false;
            }
            i = i + 1;
        }
        let mut j: usize = 0;
        while j < self.outputs.len()
            invariant
                j <= self.outputs@.len(),
                ready == ((forall|k: int| 0 <= k < self.inputs@.len() ==> (#[trigger] self.inputs@[k]).num_items > 0)
                    && forall|k: int| 0 <= k < j ==> !(#[trigger] self.outputs@[k]).full()),
            decreases self.outputs@.len() - j,
        {
            if self.outputs[j].is_full() {
                ready = false;
            }
            j = j + 1;
        }
        if !ready {
            return;
        }
        let ghost ins = self.inputs@;
        let mut i: usize = 0;
        while i < self.inputs.len()
            invariant
                self.inputs@.len() == ins.len(),
                i <= ins.len(),
                forall|k: int| 0 <= k < ins.len() ==> (#[trigger] ins[k]).num_items > 0,
                forall|k: int| 0 <= k < i ==> #[trigger] self.inputs@[k] == (Input { num_items: (ins[k].num_items - 1) as u16, ..ins[k] }),
                forall|k: int| i <= k < ins.len() ==> #[trigger] self.inputs@[k] == ins[k],
                self.outputs@ == old(self).outputs@,
                self.same_frame(old(self)),
                ins == old(self).inputs@,
            decreases ins.len() - i,
        {
            let _ = self.inputs[i].consume_items(1);
            i = i + 1;
        }
        let ghost outs = self.outputs@;
        let mut j: usize = 0;
        while j < self.outputs.len()
            invariant
                self.outputs@.len() == outs.len(),
                j <= outs.len(),
                forall|k: int| 0 <= k < outs.len() ==> !(#[trigger] outs[k]).full(),
                forall|k: int| 0 <= k < j ==> #[trigger] self.outputs@[k] == (Output { num_items: (outs[k].num_items + 1) as u16, ..outs[k] }),
                forall|k: int| j <= k < outs.len() ==> #[trigger] self.outputs@[k] == outs[k],
                forall|k: int| 0 <= k < outs.len() ==> (#[trigger] outs[k]).reserved_items <= outs[k].capacity,
                self.same_frame(old(self)),
                outs == old(self).outputs@,
                self.inputs@.len() == old(self).inputs@.len(),
                forall|k: int| 0 <= k < self.inputs@.len() ==> #[trigger] self.inputs@[k] == (Input { num_items: (old(self).inputs@[k].num_items - 1) as u16, ..old(self).inputs@[k] }),
            decreases outs.len() - j,
        {
            let _ = self.outputs[j].produce_items(1);
            j = j + 1;
        }
    }

    /// A building site whose inputs are all full becomes its prototype, where it stands.
    pub fn tick_building_site(&mut self, factory_prototype: usize)
        requires
            factory_prototype < NUM_PROTOTYPES,
            old(self).wf(),
        ensures
            building_site_ticked(final(self), old(self), factory_prototype),
    {
        if inputs_full(&self.inputs) {
            let mut f = crate::factory::factory_prototype(factory_prototype);
            f.position = self.position;
            *self = f;
        }
    }

    /// A dig site whose inputs are all full turns its cell into `tile` (off the map: no change)
    /// and asks to be removed at the end of the tick.
    pub fn tick_dig_site(&mut self, gs: &mut GameState, tile: Tile)
        requires
            old(gs).wf(),
        ensures
            dig_site_ticked(final(self), old(self), final(gs), old(gs), tile),
    {
        if inputs_full(&self.inputs) {
            gs.tilemap.try_set(self.position, tile);
            gs.commands.push(Command::RemoveFactory { position: self.position });
        }
    }

    /// Withdraws one promise from every buffer (saturating).
    pub fn unreserve_all(&mut self)
        requires
            old(self).wf(),
        ensures
            final(self).wf(),
            final(self).same_frame(old(self)),
            final(self).inputs@.len() == old(self).inputs@.len(),
            final(self).outputs@.len() == old(self).outputs@.len(),
            forall|i: int| 0 <= i < old(self).inputs@.len() ==> #[trigger] final(self).inputs@[i] == (Input {
                reserved_slots: dec(old(self).inputs@[i].reserved_slots),
                ..old(self).inputs@[i]
            }),
            forall|i: int| 0 <= i < old(self).outputs@.len() ==> #[trigger] final(self).outputs@[i] == (Output {
                reserved_items: dec(old(self).outputs@[i].reserved_items),
                ..old(self).outputs@[i]
            }),
    {
        let mut i: usize = 0;
        while i < self.inputs.len()
            invariant
                i <= self.inputs@.len(),
                self.inputs@.len() == old(self).inputs@.len(),
                self.outputs@ == old(self).outputs@,
                self.same_frame(old(self)),
                forall|k: int| 0 <= k < i ==> #[trigger] self.inputs@[k] == (Input {
                    reserved_slots: dec(old(self).inputs@[k].reserved_slots),
                    ..old(self).inputs@[k]
                }),
                forall|k: int| i <= k < self.inputs@.len() ==> #[trigger] self.inputs@[k] == old(self).inputs@[k],
            decreases self.inputs@.len() - i,
        {
            self.inputs[i].unreserve_slot();
            i = i + 1;
        }
        let mut j: usize = 0;
        while j < self.outputs.len()
            invariant
                j <= self.outputs@.len(),
                self.outputs@.len() == old(self).outputs@.len(),
                self.inputs@.len() == old(self).inputs@.len(),
                self.same_frame(old(self)),
                old(self).wf(),
                forall|k: int| 0 <= k < self.inputs@.len() ==> #[trigger] self.inputs@[k] == (Input {
                    reserved_slots: dec(old(self).inputs@[k].reserved_slots),
                    ..old(self).inputs@[k]
                }),
                forall|k: int| 0 <= k < j ==> #[trigger] self.outputs@[k] == (Output {
                    reserved_items: dec(old(self).outputs@[k].reserved_items),
                    ..old(self).outputs@[k]
                }),
                forall|k: int| j <= k < self.outputs@.len() ==> #[trigger] self.outputs@[k] == old(self).outputs@[k],
            decreases self.outputs@.len() - j,
        {
            self.outputs[j].unreserve_item();
            j = j + 1;
        }
    }

    /// Empties every buffer and forgets its promises.
    pub fn drain_all(&mut self)
        requires
            old(self).wf(),
        ensures
            final(self).wf(),
            final(self).same_frame(old(self)),
            final(self).inputs@.len() == old(self).inputs@.len(),
            final(self).outputs@.len() == old(self).outputs@.len(),
            forall|i: int| 0 <= i < old(self).inputs@.len() ==> #[trigger] final(self).inputs@[i] == (Input {
                num_items: 0,
                reserved_slots: 0,
                ..old(self).inputs@[i]
            }),
            forall|i: int| 0 <= i < old(self).outputs@.len() ==> #[trigger] final(self).outputs@[i] == (Output {
                num_items: 0,
                reserved_items: 0,
                ..old(self).outputs@[i]
            }),
    {
        let mut i: usize = 0;
        while i < self.inputs.len()
            invariant
                i <= self.inputs@.len(),
                self.inputs@.len() == old(self).inputs@.len(),
                self.outputs@ == old(self).outputs@,
                self.same_frame(old(self)),
                forall|k: int| 0 <= k < i ==> #[trigger] self.inputs@[k] == (Input {
                    num_items: 0,
                    reserved_slots: 0,
                    ..old(self).inputs@[k]
                }),
                forall|k: int| i <= k < self.inputs@.len() ==> #[trigger] self.inputs@[k] == old(self).inputs@[k],
            decreases self.inputs@.len() - i,
        {
            self.inputs[i].drain();
            i = i + 1;
        }
        let mut j: usize = 0;
        while j < self.outputs.len()
            invariant
                j <= self.outputs@.len(),
                self.outputs@.len() == old(self).outputs@.len(),
                self.inputs@.len() == old(self).inputs@.len(),
                self.same_frame(old(self)),
                old(self).wf(),
                forall|k: int| 0 <= k < self.inputs@.len() ==> #[trigger] self.inputs@[k] == (Input {
                    num_items: 0,
                    reserved_slots: 0,
                    ..old(self).inputs@[k]
                }),
                forall|k: int| 0 <= k < j ==> #[trigger] self.outputs@[k] == (Output {
                    num_items: 0,
                    reserved_items: 0,
                    ..old(self).outputs@[k]
                }),
                forall|k: int| j <= k < self.outputs@.len() ==> #[trigger] self.outputs@[k] == old(self).outputs@[k],
            decreases self.outputs@.len() - j,
        {
            self.outputs[j].drain();
            j = j + 1;
        }
    }

    /// One tick, by the factory's logic.
    pub fn tick(&mut self, gs: &mut GameState)
        requires
            old(gs).wf(),
            old(self).wf(),
        ensures
            final(gs).wf(),
            final(self).wf(),
            final(gs).same_but_tiles_and_commands(old(gs)),
            factory_ticked(final(self), old(self), final(gs), old(gs)),
    {
        match self.logic {
            FactoryLogic::Produce => self.tick_produce(),
            FactoryLogic::BuildingSite { factory_prototype } => self.tick_building_site(factory_prototype),
            FactoryLogic::DigSite { tile } => self.tick_dig_site(gs, tile),
        }
    }
}

} // verus!
