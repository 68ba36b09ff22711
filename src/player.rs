use vstd::prelude::*;

use crate::actions::{Actions, Outcome};
use crate::board::{lemma_plan_with_deposit_wf, plan_with_deposit, DepositView, GamePlan, PlanView, UnitInField};
use crate::buildings::Building;
use crate::errors::ActionError;
use crate::limits;
use crate::properties::{HasCapacity, HasValue};
use crate::resources::{Resource, ResourceType};
use crate::troops::{Unit, UnitType};
use crate::value_types::{Quantity, ResourceValue};

verus! {

/// A player's state, as a mathematical value.
pub struct PlayerView {
    pub nick: Seq<char>,
    pub buildings: Seq<Building>,
    pub archers: int,
    pub warriors: int,
    pub wood: int,
    pub gold: int,
}

/// A player: name, buildings, trained fighters not yet sent away, and
/// resource stocks.
pub struct Player {
    pub nick: String,
    buildings: Vec<Building>,
    archers: Unit,
    warriors: Unit,
    wood: Resource,
    gold: Resource,
}

/// How many of the buildings are of kind `b`.
pub open spec fn count_of(bs: Seq<Building>, b: Building) -> int
    decreases bs.len(),
{
    if bs.len() == 0 {
        0
    } else {
        count_of(bs.drop_last(), b) + if bs.last() == b {
            1int
        } else {
            0int
        }
    }
}

/// How many fighters the buildings house together.
pub open spec fn capacity_of(bs: Seq<Building>) -> int
    decreases bs.len(),
{
    if bs.len() == 0 {
        0
    } else {
        capacity_of(bs.drop_last()) + bs.last().spec_capacity()
    }
}

impl PlayerView {
    /// Fighters of `kind` in the pool.
    pub open spec fn held(self, kind: UnitType) -> int {
        match kind {
            UnitType::Archer => self.archers,
            UnitType::Warrior => self.warriors,
        }
    }

    /// The same player with `n` fighters of `kind` in the pool.
    pub open spec fn with_held(self, kind: UnitType, n: int) -> PlayerView {
        match kind {
            UnitType::Archer => PlayerView { archers: n, ..self },
            UnitType::Warrior => PlayerView { warriors: n, ..self },
        }
    }

    /// Stock of resource `kind`.
    pub open spec fn balance(self, kind: ResourceType) -> int {
        match kind {
            ResourceType::Wood => self.wood,
            ResourceType::Gold => self.gold,
        }
    }

    /// Fighters in the pool, all kinds together.
    pub open spec fn used(self) -> int {
        self.archers + self.warriors
    }

    /// Fighters the buildings can house.
    pub open spec fn total_capacity(self) -> int {
        capacity_of(self.buildings)
    }
}

/// Pays `quantity` times `price`: refused, naming every stock that falls
/// short, when one does.
pub open spec fn pay_result(p: PlayerView, price: ResourceValue, quantity: int) -> Result<
    PlayerView,
    ActionError,
> {
    let wood = price.0 * quantity;
    let gold = price.1 * quantity;
    if p.wood < wood && p.gold < gold {
        Err(
            ActionError::InsufficientResources {
                wood_available: p.wood as i64,
                wood_required: wood as i64,
                gold_available: p.gold as i64,
                gold_required: gold as i64,
            },
        )
    } else if p.wood < wood {
        Err(
            ActionError::InsufficientResource {
                resource: ResourceType::Wood,
                available: p.wood as i64,
                required: wood as i64,
            },
        )
    } else if p.gold < gold {
        Err(
            ActionError::InsufficientResource {
                resource: ResourceType::Gold,
                available: p.gold as i64,
                required: gold as i64,
            },
        )
    } else {
        Ok(PlayerView { wood: p.wood - wood, gold: p.gold - gold, ..p })
    }
}

/// Building one `b`: paid for, then added to the buildings.
pub open spec fn build_result(p: PlayerView, b: Building) -> Result<(PlayerView, Outcome), ActionError> {
    match pay_result(p, b.spec_value(), 1) {
        Ok(paid) => {
            let q = PlayerView { buildings: paid.buildings.push(b), ..paid };
            Ok((q, Outcome::Built { building: b, count: count_of(q.buildings, b) as i32 }))
        },
        Err(e) => Err(e),
    }
}

/// Harvesting: the fixed yield is added to both stocks.
pub open spec fn harvest_result(p: PlayerView) -> (PlayerView, Outcome) {
    let q = PlayerView {
        wood: p.wood + limits::HARVEST_GAIN.0,
        gold: p.gold + limits::HARVEST_GAIN.1,
        ..p
    };
    (
        q,
        Outcome::Harvested {
            wood_gained: limits::HARVEST_GAIN.0,
            gold_gained: limits::HARVEST_GAIN.1,
            wood: q.wood as i32,
            gold: q.gold as i32,
        },
    )
}

/// Training `n` of `kind`: the count must be positive, then fit the free
/// capacity, then be paid for.
pub open spec fn train_result(p: PlayerView, kind: UnitType, n: Quantity) -> Result<
    (PlayerView, Outcome),
    ActionError,
> {
    if n <= 0 {
        Err(ActionError::InvalidQuantity { value: n })
    } else if p.used() + n > p.total_capacity() {
        Err(
            ActionError::CapacityExceeded {
                requested: n,
                available: (p.total_capacity() - p.used()) as i32,
            },
        )
    } else {
        match pay_result(p, kind.spec_value(), n as int) {
            Ok(paid) => {
                let held = p.held(kind) + n;
                Ok(
                    (
                        paid.with_held(kind, held),
                        Outcome::Trained { unit: kind, quantity: n, held: held as i32 },
                    ),
                )
            },
            Err(e) => Err(e),
        }
    }
}

/// Sending `n` of `kind` to the field at (x, y): the count must be
/// positive, then the field must exist, then the fighters must be in the
/// pool; they leave the pool and become a deposit of the player there.
pub open spec fn occupy_result(
    p: PlayerView,
    plan: PlanView,
    x: usize,
    y: usize,
    kind: UnitType,
    n: Quantity,
) -> Result<(PlayerView, PlanView, Outcome), ActionError> {
    if n <= 0 {
        Err(ActionError::InvalidQuantity { value: n })
    } else if !(x < plan.width && y < plan.height) {
        Err(ActionError::FieldNotFound { x, y })
    } else if p.held(kind) < n {
        Err(
            ActionError::InsufficientUnits {
                unit: kind,
                available: p.held(kind) as i32,
                requested: n,
            },
        )
    } else {
        let d = DepositView { owner: p.nick, kind, quantity: n as int };
        Ok(
            (
                p.with_held(kind, p.held(kind) - n),
                plan_with_deposit(plan, x as int, y as int, d),
                Outcome::Occupied { x, y, unit: kind, quantity: n },
            ),
        )
    }
}

/// What an action does to a player and the battlefield, and what it
/// reports; an error leaves both unchanged. Every check comes before any
/// change.
pub open spec fn action_effect(p: PlayerView, plan: PlanView, action: Actions) -> Result<
    (PlayerView, PlanView, Outcome),
    ActionError,
> {
    match action {
        Actions::Build(b) => match build_result(p, b) {
            Ok((q, out)) => Ok((q, plan, out)),
            Err(e) => Err(e),
        },
        Actions::Harvest => Ok((harvest_result(p).0, plan, harvest_result(p).1)),
        Actions::Train(kind, n) => match train_result(p, kind, n) {
            Ok((q, out)) => Ok((q, plan, out)),
            Err(e) => Err(e),
        },
        Actions::Conquer(x, y, kind, n) => occupy_result(p, plan, x, y, kind, n),
        Actions::Quit => Ok((p, plan, Outcome::Quit)),
    }
}

/// The action's result stays within the machine's integers: a harvest does
/// not push a stock past `i32::MAX`, and a new building does not push the
/// capacity past it.
pub open spec fn action_fits(p: PlayerView, action: Actions) -> bool {
    match action {
        Actions::Harvest => p.wood + limits::HARVEST_GAIN.0 <= i32::MAX && p.gold
            + limits::HARVEST_GAIN.1 <= i32::MAX,
        Actions::Build(b) => p.total_capacity() + b.spec_capacity() <= i32::MAX,
        _ => true,
    }
}

/// The most fighters of `kind` that could be trained now: as many as the
/// stocks pay for, and no more than the free capacity.
pub open spec fn max_trainable(p: PlayerView, kind: UnitType) -> int {
    let price = kind.spec_value();
    let free = p.total_capacity() - p.used();
    let by_wood = if price.0 > 0 {
        p.wood / (price.0 as int)
    } else {
        free
    };
    let by_gold = if price.1 > 0 {
        p.gold / (price.1 as int)
    } else {
        free
    };
    vstd::math::min(vstd::math::min(by_wood, by_gold), free)
}

/// A prefix of the buildings holds no more of a kind, and no more
/// capacity, than all of them.
proof fn lemma_prefix_counts(bs: Seq<Building>, i: int, b: Building)
    requires
        0 <= i <= bs.len(),
    ensures
        0 <= count_of(bs.take(i), b) <= count_of(bs, b),
        0 <= capacity_of(bs.take(i)) <= capacity_of(bs),
        count_of(bs, b) * limits::BASE_CAPACITY <= capacity_of(bs),
    decreases bs.len(),
{
    if bs.len() > 0 {
        let rest = bs.drop_last();
        if i == bs.len() {
            assert(bs.take(i) =~= bs);
            lemma_prefix_counts(rest, i - 1, b);
        } else {
            assert(bs.take(i) =~= rest.take(i));
            lemma_prefix_counts(rest, i, b);
        }
    } else {
        assert(bs.take(i) =~= bs);
    }
}

/// Extending a prefix of the buildings by one counts that building.
proof fn lemma_building_step(bs: Seq<Building>, i: int)
    requires
        0 <= i < bs.len(),
    ensures
        forall|b: Building|
            #[trigger] count_of(bs.take(i + 1), b) == count_of(bs.take(i), b) + if bs[i] == b {
                1int
            } else {
                0int
            },
        capacity_of(bs.take(i + 1)) == capacity_of(bs.take(i)) + bs[i].spec_capacity(),
{
    assert(bs.take(i + 1).drop_last() =~= bs.take(i));
}

impl View for Player {
    type V = PlayerView;

    closed spec fn view(&self) -> PlayerView {
        PlayerView {
            nick: self.nick@,
            buildings: self.buildings@,
            archers: self.archers.quantity as int,
            warriors: self.warriors.quantity as int,
            wood: self.wood.quantity as int,
            gold: self.gold.quantity as int,
        }
    }
}

impl Player {
    /// Stocks and pools are of the right kinds and never negative, the
    /// capacity fits an `i32`, and the pools fit the capacity.
    pub closed spec fn wf(&self) -> bool {
        &&& self.wood.resource_type == ResourceType::Wood
        &&& self.gold.resource_type == ResourceType::Gold
        &&& self.archers.unit_type == UnitType::Archer
        &&& self.warriors.unit_type == UnitType::Warrior
        &&& self.wood.wf()
        &&& self.gold.wf()
        &&& self.archers.wf()
        &&& self.warriors.wf()
        &&& self@.total_capacity() <= i32::MAX
        &&& self@.used() <= self@.total_capacity()
    }

    /// A new player with nothing.
    pub fn new(nick: &str) -> (r: Self)
        ensures
            r.wf(),
            r@ == (PlayerView {
                nick: nick@,
                buildings: Seq::empty(),
                archers: 0,
                warriors: 0,
                wood: 0,
                gold: 0,
            }),
    {
        let r = Player {
            nick: nick.to_owned(),
            buildings: Vec::new(),
            archers: Unit::new(UnitType::Archer),
            warriors: Unit::new(UnitType::Warrior),
            wood: Resource::new(ResourceType::Wood),
            gold: Resource::new(ResourceType::Gold),
        };
        assert(r@.buildings =~= Seq::<Building>::empty());
        r
    }

    /// The player's name.
    pub fn nick(&self) -> (r: &String)
        ensures
            r@ == self@.nick,
    {
        &self.nick
    }

    /// Number of buildings of kind `building_type`.
    pub fn number_of_buildings(&self, building_type: Building) -> (r: Quantity)
        requires
            self.wf(),
        ensures
            r == count_of(self@.buildings, building_type),
    {
        let ghost bs = self.buildings@;
        proof {
            lemma_prefix_counts(bs, bs.len() as int, building_type);
        }
        let mut count: Quantity = 0;
        let n = self.buildings.len();
        let mut i: usize = 0;
        while i < n
            invariant
                n == bs.len(),
                bs == self.buildings@,
                i <= n,
                count == count_of(bs.take(i as int), building_type),
                count_of(bs, building_type) * limits::BASE_CAPACITY <= i32::MAX,
            decreases n - i,
        {
            proof {
                lemma_building_step(bs, i as int);
                lemma_prefix_counts(bs, i as int + 1, building_type);
            }
            if self.buildings[i] == building_type {
                count = count + 1;
            }
            i = i + 1;
        }
        assert(bs.take(n as int) =~= bs);
        count
    }

    /// How many fighters the buildings house together.
    pub fn fighters_capacity(&self) -> (r: Quantity)
        requires
            self.wf(),
        ensures
            r == self@.total_capacity(),
    {
        let ghost bs = self.buildings@;
        let mut total: Quantity = 0;
        let n = self.buildings.len();
        let mut i: usize = 0;
        while i < n
            invariant
                n == bs.len(),
                bs == self.buildings@,
                i <= n,
                total == capacity_of(bs.take(i as int)),
                capacity_of(bs) <= i32::MAX,
            decreases n - i,
        {
            proof {
                lemma_building_step(bs, i as int);
                lemma_prefix_counts(bs, i as int + 1, Building::Base);
            }
            total = total + self.buildings[i].capacity();
            i = i + 1;
        }
        assert(bs.take(n as int) =~= bs);
        total
    }

    /// How many more fighters the buildings can house.
    pub fn current_fighters_capacity(&self) -> (r: Quantity)
        requires
            self.wf(),
        ensures
            r == self@.total_capacity() - self@.used(),
    {
        self.fighters_capacity() - self.archers.quantity - self.warriors.quantity
    }

    /// Whether any fighter is in the pool.
    pub fn has_fighters_available(&self) -> (r: bool)
        requires
            self.wf(),
        ensures
            r == (self@.used() > 0),
    {
        self.archers.quantity + self.warriors.quantity > 0
    }

    /// Fighters of `unit_type` in the pool, all of which can be sent.
    pub fn send_max_units(&self, unit_type: UnitType) -> (r: Quantity)
        ensures
            r == self@.held(unit_type),
    {
        match unit_type {
            UnitType::Archer => self.archers.quantity,
            UnitType::Warrior => self.warriors.quantity,
        }
    }

    /// Stock of resource `kind`.
    pub fn balance(&self, kind: ResourceType) -> (r: Quantity)
        ensures
            r == self@.balance(kind),
    {
        match kind {
            ResourceType::Wood => self.wood.quantity,
            ResourceType::Gold => self.gold.quantity,
        }
    }

    /// Pays for `quantity` items: checks both stocks before taking from
    /// either, and names every stock that falls short.
    fn pay_for_item<T: HasValue>(&mut self, item: T, quantity: Quantity) -> (r: Result<
        (),
        ActionError,
    >)
        requires
            old(self).wf(),
            quantity >= 0,
        ensures
            final(self).wf(),
            match pay_result(old(self)@, item.spec_value(), quantity as int) {
                Ok(q) => r is Ok && final(self)@ == q,
                Err(e) => r == Err::<(), ActionError>(e) && final(self)@ == old(self)@,
            },
    {
        let (wood_price, gold_price) = item.value();
        assert(0 <= wood_price * quantity <= 0x8000_0000 * 0x8000_0000) by (nonlinear_arith)
            requires
                0 <= wood_price <= i32::MAX,
                0 <= quantity <= i32::MAX,
        ;
        assert(0 <= gold_price * quantity <= 0x8000_0000 * 0x8000_0000) by (nonlinear_arith)
            requires
                0 <= gold_price <= i32::MAX,
                0 <= quantity <= i32::MAX,
        ;
        let wood = wood_price as i64 * quantity as i64;
        let gold = gold_price as i64 * quantity as i64;
        let wood_short = !self.wood.can_pay(wood);
        let gold_short = !self.gold.can_pay(gold);
        if wood_short && gold_short {
            return Err(
                ActionError::InsufficientResources {
                    wood_available: self.wood.quantity as i64,
                    wood_required: wood,
                    gold_available: self.gold.quantity as i64,
                    gold_required: gold,
                },
            );
        }
        if wood_short {
            return Err(self.wood.cannot_pay(wood));
        }
        if gold_short {
            return Err(self.gold.cannot_pay(gold));
        }
        let _ = self.wood.subtract(wood as i32);
        let _ = self.gold.subtract(gold as i32);
        Ok(())
    }

    /// Builds one building after paying for it.
    fn build_a_building(&mut self, building_type: Building) -> (r: Result<Outcome, ActionError>)
        requires
            old(self).wf(),
            action_fits(old(self)@, Actions::Build(building_type)),
        ensures
            final(self).wf(),
            match build_result(old(self)@, building_type) {
                Ok((p, out)) => r == Ok::<Outcome, ActionError>(out) && final(self)@ == p,
                Err(e) => r == Err::<Outcome, ActionError>(e) && final(self)@ == old(self)@,
            },
    {
        match self.pay_for_item(building_type, 1) {
            Ok(()) => {},
            Err(e) => {
                return Err(e);
            },
        }
        let ghost before = self.buildings@;
        self.buildings.push(building_type);
        proof {
            assert(self.buildings@.drop_last() =~= before);
        }
        let count = self.number_of_buildings(building_type);
        Ok(Outcome::Built { building: building_type, count })
    }

    /// Gathers the fixed harvest yield.
    fn harvest(&mut self) -> (r: Result<Outcome, ActionError>)
        requires
            old(self).wf(),
            action_fits(old(self)@, Actions::Harvest),
        ensures
            final(self).wf(),
            final(self)@ == harvest_result(old(self)@).0,
            r == Ok::<Outcome, ActionError>(harvest_result(old(self)@).1),
    {
        let (wood, gold) = limits::HARVEST_GAIN;
        let _ = self.wood.add(wood);
        let _ = self.gold.add(gold);
        Ok(
            Outcome::Harvested {
                wood_gained: wood,
                gold_gained: gold,
                wood: self.wood.quantity,
                gold: self.gold.quantity,
            },
        )
    }

    /// Checks that `new_quantity` more fighters fit the buildings.
    fn check_fighters_capacity(&self, new_quantity: Quantity) -> (r: Result<(), ActionError>)
        requires
            self.wf(),
        ensures
            self@.used() + new_quantity <= self@.total_capacity() ==> r is Ok,
            self@.used() + new_quantity > self@.total_capacity() ==> r == Err::<(), ActionError>(
                ActionError::CapacityExceeded {
                    requested: new_quantity,
                    available: (self@.total_capacity() - self@.used()) as i32,
                },
            ),
    {
        let available = self.current_fighters_capacity();
        if available < new_quantity {
            return Err(ActionError::CapacityExceeded { requested: new_quantity, available });
        }
        Ok(())
    }

    /// Trains `quantity` fighters of `unit_type`: the count must be
    /// positive, fit the free capacity, and be paid for.
    fn train_units(&mut self, unit_type: UnitType, quantity: Quantity) -> (r: Result<
        Outcome,
        ActionError,
    >)
        requires
            old(self).wf(),
        ensures
            final(self).wf(),
            match train_result(old(self)@, unit_type, quantity) {
                Ok((p, out)) => r == Ok::<Outcome, ActionError>(out) && final(self)@ == p,
                Err(e) => r == Err::<Outcome, ActionError>(e) && final(self)@ == old(self)@,
            },
    {
        if quantity <= 0 {
            return Err(ActionError::InvalidQuantity { value: quantity });
        }
        match self.check_fighters_capacity(quantity) {
            Ok(()) => {},
            Err(e) => {
                return Err(e);
            },
        }
        match self.pay_for_item(unit_type, quantity) {
            Ok(()) => {},
            Err(e) => {
                return Err(e);
            },
        }
        let held = match unit_type {
            UnitType::Archer => {
                self.archers.train(quantity);
                self.archers.quantity
            },
            UnitType::Warrior => {
                self.warriors.train(quantity);
                self.warriors.quantity
            },
        };
        Ok(Outcome::Trained { unit: unit_type, quantity, held })
    }

    /// Checks that at least `quantity` fighters of `unit_type` are in the pool.
    fn enough_units_to_send(&self, unit_type: UnitType, quantity: Quantity) -> (r: Result<
        (),
        ActionError,
    >)
        ensures
            self@.held(unit_type) >= quantity ==> r is Ok,
            self@.held(unit_type) < quantity ==> r == Err::<(), ActionError>(
                ActionError::InsufficientUnits {
                    unit: unit_type,
                    available: self@.held(unit_type) as i32,
                    requested: quantity,
                },
            ),
    {
        let current_quantity = self.send_max_units(unit_type);
        if current_quantity < quantity {
            return Err(
                ActionError::InsufficientUnits {
                    unit: unit_type,
                    available: current_quantity,
                    requested: quantity,
                },
            );
        }
        Ok(())
    }

    /// Sends `quantity` fighters of `unit_type` to the field at (x, y): the
    /// count must be positive, the field must exist, and the fighters must
    /// be in the pool.
    fn occupy_fields(
        &mut self,
        game_plan: &mut GamePlan,
        x: usize,
        y: usize,
        unit_type: UnitType,
        quantity: Quantity,
    ) -> (r: Result<Outcome, ActionError>)
        requires
            old(self).wf(),
            old(game_plan).wf(),
        ensures
            final(self).wf(),
            final(game_plan).wf(),
            match occupy_result(old(self)@, old(game_plan)@, x, y, unit_type, quantity) {
                Ok((p, plan, out)) => r == Ok::<Outcome, ActionError>(out) && final(self)@ == p
                    && final(game_plan)@ == plan,
                Err(e) => r == Err::<Outcome, ActionError>(e) && final(self)@ == old(self)@
                    && final(game_plan)@ == old(game_plan)@,
            },
    {
        if quantity <= 0 {
            return Err(ActionError::InvalidQuantity { value: quantity });
        }
        if !(x < game_plan.width() && y < game_plan.height()) {
            return Err(ActionError::FieldNotFound { x, y });
        }
        match self.enough_units_to_send(unit_type, quantity) {
            Ok(()) => {},
            Err(e) => {
                return Err(e);
            },
        }
        let sent = match unit_type {
            UnitType::Archer => self.archers.send_occupy(quantity),
            UnitType::Warrior => self.warriors.send_occupy(quantity),
        };
        let unit = match sent {
            Ok(unit) => unit,
            Err(e) => {
                return Err(e);
            },
        };
        let deposit = UnitInField::new(self.nick.clone(), unit);
        proof {
            lemma_plan_with_deposit_wf(game_plan@, x as int, y as int, deposit@);
        }
        match game_plan.get_game_field(x, y) {
            Some(field) => {
                field.add_units(deposit);
            },
            None => {},
        }
        Ok(Outcome::Occupied { x, y, unit: unit_type, quantity })
    }

    /// Carries out `action`: either it succeeds and reports what it did, or
    /// it is refused and neither the player nor the battlefield changes.
    pub fn perform_action(&mut self, action: Actions, game_plan: &mut GamePlan) -> (r: Result<
        Outcome,
        ActionError,
    >)
        requires
            old(self).wf(),
            old(game_plan).wf(),
            action_fits(old(self)@, action),
        ensures
            final(self).wf(),
            final(game_plan).wf(),
            match action_effect(old(self)@, old(game_plan)@, action) {
                Ok((p, plan, out)) => r == Ok::<Outcome, ActionError>(out) && final(self)@ == p
                    && final(game_plan)@ == plan,
                Err(e) => r == Err::<Outcome, ActionError>(e) && final(self)@ == old(self)@
                    && final(game_plan)@ == old(game_plan)@,
            },
    {
        match action {
            Actions::Build(building) => self.build_a_building(building),
            Actions::Conquer(x, y, unit_type, quantity) => self.occupy_fields(
                game_plan,
                x,
                y,
                unit_type,
                quantity,
            ),
            Actions::Harvest => self.harvest(),
            Actions::Train(unit_type, quantity) => self.train_units(unit_type, quantity),
            Actions::Quit => Ok(Outcome::Quit),
        }
    }

    /// The most fighters of `unit_type` that could be trained now: as many
    /// as the stocks pay for, and no more than the free capacity.
    pub fn train_max_units(&self, unit_type: UnitType) -> (r: Quantity)
        requires
            self.wf(),
        ensures
            r == max_trainable(self@, unit_type),
    {
        let (unit_wood, unit_gold) = unit_type.value();
        let capacity = self.current_fighters_capacity();
        let by_wood = if unit_wood > 0 {
            self.wood.quantity / unit_wood
        } else {
            capacity
        };
        let by_gold = if unit_gold > 0 {
            self.gold.quantity / unit_gold
        } else {
            capacity
        };
        let mut most = if by_wood < by_gold {
            by_wood
        } else {
            by_gold
        };
        if capacity < most {
            most = capacity;
        }
        most
    }

    /// Whether `action` keeps every count within the machine's integers,
    /// which `perform_action` needs.
    pub fn fits_limits(&self, action: &Actions) -> (r: bool)
        requires
            self.wf(),
        ensures
            r == action_fits(self@, *action),
    {
        match action {
            Actions::Harvest => {
                let (wood, gold) = limits::HARVEST_GAIN;
                self.wood.quantity <= i32::MAX - wood && self.gold.quantity <= i32::MAX - gold
            },
            Actions::Build(building) => self.fighters_capacity() <= i32::MAX - building.capacity(),
            _ => true,
        }
    }
}

/// Harvesting never fails and adds exactly the fixed yield, 200 wood and
/// 120 gold, whatever the player had; nothing else changes.
pub proof fn harvest_adds_fixed_yield(p: PlayerView, plan: PlanView)
    ensures
        action_effect(p, plan, Actions::Harvest) matches Ok((q, after, _)) && q == (PlayerView {
            wood: p.wood + 200,
            gold: p.gold + 120,
            ..p
        }) && after == plan,
{
}

/// Training more fighters than the free capacity is refused with
/// `CapacityExceeded`, so no resource is spent.
pub proof fn training_over_capacity_refused(
    p: PlayerView,
    plan: PlanView,
    kind: UnitType,
    quantity: Quantity,
)
    requires
        p.used() <= p.total_capacity(),
        p.used() + quantity > p.total_capacity(),
    ensures
        action_effect(p, plan, Actions::Train(kind, quantity)) == Err::<
            (PlayerView, PlanView, Outcome),
            ActionError,
        >(
            ActionError::CapacityExceeded {
                requested: quantity,
                available: (p.total_capacity() - p.used()) as i32,
            },
        ),
{
}

/// Building a base takes exactly 220 wood and 100 gold and adds one base
/// when both stocks cover that; otherwise it is refused, so neither stock
/// changes.
pub proof fn base_costs_exact_price(p: PlayerView, plan: PlanView)
    ensures
        p.wood >= 220 && p.gold >= 100 ==> (action_effect(p, plan, Actions::Build(Building::Base))
            matches Ok((q, after, _)) && q.wood == p.wood - 220 && q.gold == p.gold - 100
            && count_of(q.buildings, Building::Base) == count_of(p.buildings, Building::Base) + 1
            && q.archers == p.archers && q.warriors == p.warriors && q.nick == p.nick
            && after == plan),
        !(p.wood >= 220 && p.gold >= 100) ==> action_effect(p, plan, Actions::Build(Building::Base))
            is Err,
{
    assert(p.buildings.push(Building::Base).drop_last() =~= p.buildings);
}

/// Sending more fighters than the pool holds is refused: with
/// `InsufficientUnits` when the field exists, with `FieldNotFound` when it
/// does not; either way neither the pool nor any field changes.
pub proof fn sending_too_many_refused(
    p: PlayerView,
    plan: PlanView,
    x: usize,
    y: usize,
    kind: UnitType,
    quantity: Quantity,
)
    requires
        p.held(kind) >= 0,
        quantity > p.held(kind),
    ensures
        x < plan.width && y < plan.height ==> action_effect(
            p,
            plan,
            Actions::Conquer(x, y, kind, quantity),
        ) == Err::<(PlayerView, PlanView, Outcome), ActionError>(
            ActionError::InsufficientUnits {
                unit: kind,
                available: p.held(kind) as i32,
                requested: quantity,
            },
        ),
        !(x < plan.width && y < plan.height) ==> action_effect(
            p,
            plan,
            Actions::Conquer(x, y, kind, quantity),
        ) == Err::<(PlayerView, PlanView, Outcome), ActionError>(
            ActionError::FieldNotFound { x, y },
        ),
{
}

} // verus!
