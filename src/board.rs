use vstd::prelude::*;

use crate::limits::POWER_TOLERANCE;
use crate::properties::HasPower;
use crate::troops::{Unit, UnitType};
use crate::value_types::FighterPower;

verus! {

/// Largest power one deposit can carry, in tenths: the strongest kind
/// (19 tenths) times the largest count.
const MAX_DEPOSIT_POWER: i128 = 19 * 0x8000_0000;

/// One deposit on a field, as a mathematical value.
pub struct DepositView {
    pub owner: Seq<char>,
    pub kind: UnitType,
    pub quantity: int,
}

/// One field: its coordinates and the deposits sent to it, oldest first.
pub struct FieldView {
    pub x: nat,
    pub y: nat,
    pub deposits: Seq<DepositView>,
}

/// The battlefield: its size and its fields in row-major order
/// (the field at (x, y) stands at `height * x + y`).
pub struct PlanView {
    pub width: nat,
    pub height: nat,
    pub fields: Seq<FieldView>,
}

/// Units that a player has sent to a field.
#[derive(Clone, Debug)]
pub struct UnitInField {
    pub owner: String,
    pub unit: Unit,
}

/// One field of the battlefield, with every deposit ever sent to it.
pub struct GameField {
    x: usize,
    y: usize,
    units_occupying: Vec<UnitInField>,
}

/// The battlefield: a grid of fields.
pub struct GamePlan {
    fields: Vec<GameField>,
    width: usize,
    height: usize,
}

/// Result of a whole match.
#[derive(Clone, PartialEq, Eq, Debug)]
pub enum MatchOutcome {
    /// Nobody won a single field.
    NoWinner,
    /// One owner won more fields than anyone else.
    Winner { owner: String, fields: usize },
    /// Several owners share the highest number of won fields.
    Draw { owners: Vec<String>, fields: usize },
}

impl View for UnitInField {
    type V = DepositView;

    open spec fn view(&self) -> DepositView {
        DepositView {
            owner: self.owner@,
            kind: self.unit.unit_type,
            quantity: self.unit.quantity as int,
        }
    }
}

impl View for GameField {
    type V = FieldView;

    closed spec fn view(&self) -> FieldView {
        FieldView {
            x: self.x as nat,
            y: self.y as nat,
            deposits: self.units_occupying@.map_values(|u: UnitInField| u@),
        }
    }
}

impl View for GamePlan {
    type V = PlanView;

    closed spec fn view(&self) -> PlanView {
        PlanView {
            width: self.width as nat,
            height: self.height as nat,
            fields: self.fields@.map_values(|f: GameField| f@),
        }
    }
}

/// Power of one deposit, in tenths.
pub open spec fn deposit_power(d: DepositView) -> int {
    d.kind.spec_power() * d.quantity
}

/// What a deposit adds to the total of `owner`.
pub open spec fn power_for(d: DepositView, owner: Seq<char>) -> int {
    if d.owner == owner {
        deposit_power(d)
    } else {
        0
    }
}

/// Total power that `owner` has on a field, summed over all its deposits.
pub open spec fn owner_power(ds: Seq<DepositView>, owner: Seq<char>) -> int
    decreases ds.len(),
{
    if ds.len() == 0 {
        0
    } else {
        owner_power(ds.drop_last(), owner) + power_for(ds.last(), owner)
    }
}

/// Whether `owner` has sent anything to the field.
pub open spec fn has_deposit_from(ds: Seq<DepositView>, owner: Seq<char>) -> bool {
    exists|i: int| 0 <= i < ds.len() && ds[i].owner == owner
}

/// `w` wins the field: it has sent units there, and every other owner there
/// falls short of its power by more than the tolerance, so that `w` is the
/// only contender within the tolerance of the highest power.
pub open spec fn is_field_winner(ds: Seq<DepositView>, w: Seq<char>) -> bool {
    &&& has_deposit_from(ds, w)
    &&& forall|o: Seq<char>|
        #[trigger] has_deposit_from(ds, o) && o != w ==> owner_power(ds, o) + POWER_TOLERANCE
            < owner_power(ds, w)
}

/// The winner of a field, if there is one: nobody wins an empty field or a
/// field where two owners are tied within the tolerance.
pub open spec fn field_winner(ds: Seq<DepositView>) -> Option<Seq<char>> {
    if exists|w: Seq<char>| is_field_winner(ds, w) {
        Some(choose|w: Seq<char>| is_field_winner(ds, w))
    } else {
        None
    }
}

/// How many of the fields `owner` has won.
pub open spec fn fields_won(fs: Seq<FieldView>, owner: Seq<char>) -> int
    decreases fs.len(),
{
    if fs.len() == 0 {
        0
    } else {
        fields_won(fs.drop_last(), owner) + if field_winner(fs.last().deposits) == Some(owner) {
            1int
        } else {
            0int
        }
    }
}

/// The deposits of `owner`, in their order.
pub open spec fn deposits_of(ds: Seq<DepositView>, owner: Seq<char>) -> Seq<DepositView>
    decreases ds.len(),
{
    if ds.len() == 0 {
        ds
    } else if ds.last().owner == owner {
        deposits_of(ds.drop_last(), owner).push(ds.last())
    } else {
        deposits_of(ds.drop_last(), owner)
    }
}

/// How many units of `kind` the deposits hold together.
pub open spec fn units_of_type(ds: Seq<DepositView>, kind: UnitType) -> int
    decreases ds.len(),
{
    if ds.len() == 0 {
        0
    } else {
        units_of_type(ds.drop_last(), kind) + if ds.last().kind == kind {
            ds.last().quantity
        } else {
            0
        }
    }
}

/// The field at (x, y) of a battlefield.
pub open spec fn field_at(p: PlanView, x: int, y: int) -> FieldView {
    p.fields[p.height * x + y]
}

/// The field count matches the size, and the field at (x, y) has
/// coordinates (x, y).
pub open spec fn plan_wf(p: PlanView) -> bool {
    &&& p.fields.len() == p.width * p.height
    &&& forall|x: int, y: int|
        0 <= x < p.width && 0 <= y < p.height ==> (#[trigger] field_at(p, x, y)).x == x && field_at(
            p,
            x,
            y,
        ).y == y
}

/// The battlefield with deposit `d` appended to the field at (x, y).
pub open spec fn plan_with_deposit(p: PlanView, x: int, y: int, d: DepositView) -> PlanView {
    PlanView {
        fields: p.fields.update(
            p.height * x + y,
            FieldView { deposits: field_at(p, x, y).deposits.push(d), ..field_at(p, x, y) },
        ),
        ..p
    }
}

/// `r` is the result of a match over these fields: no winner when no field
/// was won; otherwise the owner, or the several owners, with the highest
/// number of won fields, together with that number.
pub open spec fn is_match_result(fs: Seq<FieldView>, r: MatchOutcome) -> bool {
    match r {
        MatchOutcome::NoWinner => forall|o: Seq<char>| fields_won(fs, o) == 0,
        MatchOutcome::Winner { owner, fields } => {
            &&& fields == fields_won(fs, owner@)
            &&& fields > 0
            &&& forall|o: Seq<char>|
                o != owner@ ==> #[trigger] fields_won(fs, o) < fields
        },
        MatchOutcome::Draw { owners, fields } => {
            &&& fields > 0
            &&& owners@.len() >= 2
            &&& forall|j: int, k: int|
                0 <= j < k < owners@.len() ==> owners@[j]@ != owners@[k]@
            &&& forall|j: int|
                0 <= j < owners@.len() ==> fields_won(fs, #[trigger] owners@[j]@)
                    == fields
            &&& forall|o: Seq<char>| #[trigger] fields_won(fs, o) <= fields
            &&& forall|o: Seq<char>|
                #[trigger] fields_won(fs, o) == fields ==> exists|j: int|
                    0 <= j < owners@.len() && owners@[j]@ == o
        },
    }
}

/// Appending a deposit to a field keeps the battlefield well formed.
pub proof fn lemma_plan_with_deposit_wf(p: PlanView, x: int, y: int, d: DepositView)
    requires
        plan_wf(p),
        0 <= x < p.width,
        0 <= y < p.height,
    ensures
        plan_wf(plan_with_deposit(p, x, y, d)),
{
    let q = plan_with_deposit(p, x, y, d);
    assert(p.height * x + y < p.width * p.height) by (nonlinear_arith)
        requires
            x < p.width,
            y < p.height,
    ;
    assert forall|a: int, b: int|
        0 <= a < q.width && 0 <= b < q.height implies (#[trigger] field_at(q, a, b)).x == a
            && field_at(q, a, b).y == b by {
        assert(p.height * a + b < p.width * p.height) by (nonlinear_arith)
            requires
                a < p.width,
                b < p.height,
        ;
        assert(field_at(p, a, b).x == a);
    }
}

/// Deposit counts fit the machine's integers.
pub open spec fn quantities_fit(ds: Seq<DepositView>) -> bool {
    forall|i: int| 0 <= i < ds.len() ==> i32::MIN <= #[trigger] ds[i].quantity <= i32::MAX
}

/// A field has at most one winner.
pub proof fn lemma_field_winner_unique(ds: Seq<DepositView>, w1: Seq<char>, w2: Seq<char>)
    requires
        is_field_winner(ds, w1),
        is_field_winner(ds, w2),
    ensures
        w1 == w2,
{
    if w1 != w2 {
        assert(has_deposit_from(ds, w2));
        assert(has_deposit_from(ds, w1));
    }
}

/// `field_winner` names exactly the owner that wins the field.
pub proof fn lemma_field_winner_is(ds: Seq<DepositView>, w: Seq<char>)
    requires
        is_field_winner(ds, w),
    ensures
        field_winner(ds) == Some(w),
{
    let c = choose|v: Seq<char>| is_field_winner(ds, v);
    lemma_field_winner_unique(ds, w, c);
}

/// Extending a prefix of the deposits by one adds that deposit's power to
/// its owner's total and that owner to those present.
proof fn lemma_prefix_step(ds: Seq<DepositView>, i: int)
    requires
        0 <= i < ds.len(),
    ensures
        forall|o: Seq<char>|
            #[trigger] owner_power(ds.take(i + 1), o) == owner_power(ds.take(i), o) + power_for(
                ds[i],
                o,
            ),
        forall|o: Seq<char>|
            #[trigger] has_deposit_from(ds.take(i + 1), o) <==> has_deposit_from(ds.take(i), o)
                || ds[i].owner == o,
{
    let a = ds.take(i);
    let b = ds.take(i + 1);
    assert(b.drop_last() =~= a);
    assert forall|o: Seq<char>|
        #[trigger] has_deposit_from(b, o) <==> has_deposit_from(a, o) || ds[i].owner == o by {
        if has_deposit_from(a, o) {
            let k = choose|k: int| 0 <= k < a.len() && #[trigger] a[k].owner == o;
            assert(b[k] == a[k]);
        }
        if ds[i].owner == o {
            assert(b[i] == ds[i]);
        }
        if has_deposit_from(b, o) {
            let k = choose|k: int| 0 <= k < b.len() && #[trigger] b[k].owner == o;
            if k < i {
                assert(a[k] == b[k]);
            }
        }
    }
}

/// An owner with no deposit on a field has no power there.
proof fn lemma_absent_owner_power(ds: Seq<DepositView>, o: Seq<char>)
    requires
        !has_deposit_from(ds, o),
    ensures
        owner_power(ds, o) == 0,
    decreases ds.len(),
{
    if ds.len() > 0 {
        let rest = ds.drop_last();
        assert(!has_deposit_from(rest, o)) by {
            if has_deposit_from(rest, o) {
                let k = choose|k: int| 0 <= k < rest.len() && #[trigger] rest[k].owner == o;
                assert(ds[k] == rest[k]);
            }
        }
        lemma_absent_owner_power(rest, o);
        assert(ds[ds.len() - 1] == ds.last());
    }
}

/// A total over `n` deposits lies within `n` times the largest deposit power.
proof fn lemma_owner_power_bound(ds: Seq<DepositView>, o: Seq<char>)
    requires
        quantities_fit(ds),
    ensures
        -(ds.len() * MAX_DEPOSIT_POWER) <= owner_power(ds, o) <= ds.len() * MAX_DEPOSIT_POWER,
    decreases ds.len(),
{
    if ds.len() > 0 {
        let rest = ds.drop_last();
        assert(quantities_fit(rest)) by {
            assert forall|i: int| 0 <= i < rest.len() implies i32::MIN <= #[trigger] rest[i].quantity
                <= i32::MAX by {
                assert(rest[i] == ds[i]);
            }
        }
        lemma_owner_power_bound(rest, o);
        let d = ds.last();
        assert(ds[ds.len() - 1] == d);
        let p = d.kind.spec_power();
        assert(-MAX_DEPOSIT_POWER <= p * d.quantity <= MAX_DEPOSIT_POWER) by (nonlinear_arith)
            requires
                0 <= p <= 19,
                i32::MIN <= d.quantity <= i32::MAX,
                MAX_DEPOSIT_POWER == 19 * 0x8000_0000,
        ;
    }
}

/// Adding one more field to the tally counts it for its winner.
proof fn lemma_won_step(fs: Seq<FieldView>, i: int)
    requires
        0 <= i < fs.len(),
    ensures
        forall|o: Seq<char>|
            #[trigger] fields_won(fs.take(i + 1), o) == fields_won(fs.take(i), o) + if field_winner(
                fs[i].deposits,
            ) == Some(o) {
                1int
            } else {
                0int
            },
{
    assert(fs.take(i + 1).drop_last() =~= fs.take(i));
}

/// Nobody wins more fields than there are.
proof fn lemma_won_bound(fs: Seq<FieldView>, o: Seq<char>)
    ensures
        0 <= fields_won(fs, o) <= fs.len(),
    decreases fs.len(),
{
    if fs.len() > 0 {
        lemma_won_bound(fs.drop_last(), o);
    }
}

/// Removing one deposit takes its power away from its owner's total.
proof fn lemma_owner_power_remove(s: Seq<DepositView>, j: int, o: Seq<char>)
    requires
        0 <= j < s.len(),
    ensures
        owner_power(s, o) == owner_power(s.remove(j), o) + power_for(s[j], o),
    decreases s.len(),
{
    if j == s.len() - 1 {
        assert(s.remove(j) =~= s.drop_last());
    } else {
        let rest = s.drop_last();
        assert(rest.remove(j) =~= s.remove(j).drop_last());
        assert(s.remove(j).last() == s.last());
        lemma_owner_power_remove(rest, j, o);
    }
}

/// Reordering the deposits keeps every owner's total.
proof fn lemma_owner_power_reorder(a: Seq<DepositView>, b: Seq<DepositView>)
    requires
        a.to_multiset() == b.to_multiset(),
    ensures
        forall|o: Seq<char>| #[trigger] owner_power(a, o) == owner_power(b, o),
    decreases a.len(),
{
    broadcast use vstd::seq_lib::group_to_multiset_ensures;

    if a.len() == 0 {
        assert(a.to_multiset().len() == 0);
        assert(b.to_multiset().len() == 0);
    } else {
        let x = a.last();
        let rest = a.drop_last();
        assert(rest.push(x) =~= a);
        assert(a.to_multiset().count(x) > 0);
        assert(b.contains(x));
        let j = choose|j: int| 0 <= j < b.len() && b[j] == x;
        let others = b.remove(j);
        assert(others.to_multiset() =~= rest.to_multiset());
        lemma_owner_power_reorder(rest, others);
        assert forall|o: Seq<char>| #[trigger] owner_power(a, o) == owner_power(b, o) by {
            lemma_owner_power_remove(b, j, o);
            assert(a.drop_last() == rest);
            assert(owner_power(a, o) == owner_power(rest, o) + power_for(x, o));
            assert(owner_power(rest, o) == owner_power(others, o));
        }
    }
}

/// Reordering the deposits keeps the set of owners present.
proof fn lemma_presence_reorder(a: Seq<DepositView>, b: Seq<DepositView>)
    requires
        a.to_multiset() == b.to_multiset(),
    ensures
        forall|o: Seq<char>| #[trigger] has_deposit_from(a, o) == has_deposit_from(b, o),
{
    broadcast use vstd::seq_lib::group_to_multiset_ensures;

    assert forall|o: Seq<char>| #[trigger] has_deposit_from(a, o) == has_deposit_from(b, o) by {
        if has_deposit_from(a, o) {
            let i = choose|i: int| 0 <= i < a.len() && a[i].owner == o;
            assert(a.contains(a[i]));
            assert(b.to_multiset().count(a[i]) > 0);
            assert(b.contains(a[i]));
        }
        if has_deposit_from(b, o) {
            let i = choose|i: int| 0 <= i < b.len() && b[i].owner == o;
            assert(b.contains(b[i]));
            assert(a.to_multiset().count(b[i]) > 0);
            assert(a.contains(b[i]));
        }
    }
}

/// The winner of a field does not depend on the order in which the
/// deposits arrived: any reordering of the same deposits gives the same
/// winner, or again none.
pub proof fn field_winner_ignores_order(a: Seq<DepositView>, b: Seq<DepositView>)
    requires
        a.to_multiset() == b.to_multiset(),
    ensures
        field_winner(a) == field_winner(b),
{
    lemma_owner_power_reorder(a, b);
    lemma_presence_reorder(a, b);
    assert forall|w: Seq<char>| is_field_winner(a, w) == is_field_winner(b, w) by {
        if is_field_winner(a, w) {
            assert forall|o: Seq<char>| #[trigger]
                has_deposit_from(b, o) && o != w implies owner_power(b, o) + POWER_TOLERANCE
                < owner_power(b, w) by {
                assert(has_deposit_from(a, o));
            }
        }
        if is_field_winner(b, w) {
            assert forall|o: Seq<char>| #[trigger]
                has_deposit_from(a, o) && o != w implies owner_power(a, o) + POWER_TOLERANCE
                < owner_power(a, w) by {
                assert(has_deposit_from(b, o));
            }
        }
    }
    if exists|w: Seq<char>| is_field_winner(a, w) {
        let w = choose|w: Seq<char>| is_field_winner(a, w);
        lemma_field_winner_is(a, w);
        lemma_field_winner_is(b, w);
    }
}

/// Two different owners that sent the same number of the same kind, and
/// nobody else, tie: the field has no winner.
pub proof fn equal_deposits_tie(first: Seq<char>, second: Seq<char>, kind: UnitType, quantity: int)
    requires
        first != second,
    ensures
        field_winner(
            seq![
                DepositView { owner: first, kind, quantity },
                DepositView { owner: second, kind, quantity },
            ],
        ) is None,
{
    let ds = seq![
        DepositView { owner: first, kind, quantity },
        DepositView { owner: second, kind, quantity },
    ];
    let one = seq![DepositView { owner: first, kind, quantity }];
    assert(ds.drop_last() =~= one);
    assert(one.drop_last() =~= Seq::<DepositView>::empty());
    assert(owner_power(Seq::<DepositView>::empty(), first) == 0);
    assert(owner_power(Seq::<DepositView>::empty(), second) == 0);
    assert(one.last() == ds[0]);
    assert(owner_power(one, first) == deposit_power(ds[0]));
    assert(owner_power(one, second) == 0);
    assert(owner_power(ds, first) == owner_power(ds, second));
    assert(has_deposit_from(ds, first)) by {
        assert(ds[0].owner == first);
    }
    assert(has_deposit_from(ds, second)) by {
        assert(ds[1].owner == second);
    }
    assert forall|w: Seq<char>| !is_field_winner(ds, w) by {
        if is_field_winner(ds, w) {
            if w == first {
                assert(has_deposit_from(ds, second));
            } else {
                assert(has_deposit_from(ds, first));
            }
        }
    }
}

/// Position of `owner` among the entries, if it is there.
fn position_of<V>(entries: &Vec<(String, V)>, owner: &String) -> (r: Option<usize>)
    ensures
        r matches Some(j) ==> j < entries@.len() && entries@[j as int].0@ == owner@,
        r is None ==> forall|j: int| 0 <= j < entries@.len() ==> entries@[j].0@ != owner@,
{
    let mut j: usize = 0;
    while j < entries.len()
        invariant
            j <= entries@.len(),
            forall|k: int| 0 <= k < j ==> entries@[k].0@ != owner@,
        decreases entries@.len() - j,
    {
        if entries[j].0 == *owner {
            return Some(j);
        }
        j = j + 1;
    }
    None
}

impl UnitInField {
    /// Units `unit` sent by `unit_owner`.
    pub fn new(unit_owner: String, unit: Unit) -> (r: Self)
        ensures
            r.owner == unit_owner,
            r.unit == unit,
    {
        Self { owner: unit_owner, unit }
    }
}

impl GameField {
    /// Deposit counts come from `i32` values.
    proof fn lemma_quantities_fit(&self)
        ensures
            quantities_fit(self@.deposits),
            self@.deposits.len() == self.units_occupying@.len(),
    {
        assert forall|i: int| 0 <= i < self@.deposits.len() implies i32::MIN
            <= #[trigger] self@.deposits[i].quantity <= i32::MAX by {
            assert(self@.deposits[i] == self.units_occupying@[i]@);
        }
    }

    /// An empty field at (x, y).
    pub fn new(x: usize, y: usize) -> (r: Self)
        ensures
            r@.x == x,
            r@.y == y,
            r@.deposits.len() == 0,
    {
        let r = Self { x, y, units_occupying: Vec::new() };
        assert(r@.deposits =~= Seq::<DepositView>::empty());
        r
    }

    /// Appends a deposit.
    pub fn add_units(&mut self, units: UnitInField)
        ensures
            final(self)@ == (FieldView {
                deposits: old(self)@.deposits.push(units@),
                ..old(self)@
            }),
    {
        self.units_occupying.push(units);
        assert(self@.deposits =~= old(self)@.deposits.push(units@));
    }

    /// Every total on this field fits comfortably in a `FighterPower`.
    proof fn lemma_power_bound(&self, o: Seq<char>)
        requires
            self.units_occupying@.len() <= usize::MAX,
        ensures
            -0x1_0000_0000_0000_0000 * MAX_DEPOSIT_POWER <= owner_power(self@.deposits, o)
                <= 0x1_0000_0000_0000_0000 * MAX_DEPOSIT_POWER,
    {
        self.lemma_quantities_fit();
        let ds = self@.deposits;
        lemma_owner_power_bound(ds, o);
        assert(ds.len() * MAX_DEPOSIT_POWER <= 0x1_0000_0000_0000_0000 * MAX_DEPOSIT_POWER)
            by (nonlinear_arith)
            requires
                ds.len() <= 0x1_0000_0000_0000_0000,
                MAX_DEPOSIT_POWER == 19 * 0x8000_0000,
        ;
    }

    /// The x coordinate.
    pub fn x(&self) -> (r: usize)
        ensures
            r == self@.x,
    {
        self.x
    }

    /// The y coordinate.
    pub fn y(&self) -> (r: usize)
        ensures
            r == self@.y,
    {
        self.y
    }

    /// The deposits, oldest first.
    pub fn units(&self) -> (r: &Vec<UnitInField>)
        ensures
            r@.map_values(|u: UnitInField| u@) == self@.deposits,
    {
        &self.units_occupying
    }

    /// Decides who wins this field: the one owner whose total power exceeds
    /// every other owner's by more than the tolerance; nobody when the field
    /// is empty or the strongest are tied within the tolerance.
    pub fn evaluate_field(&self) -> (r: Option<String>)
        ensures
            match r {
                Some(w) => field_winner(self@.deposits) == Some(w@),
                None => field_winner(self@.deposits) is None,
            },
    {
        let ghost ds = self@.deposits;
        let n = self.units_occupying.len();
        let chart = self.power_chart();
        if chart.len() == 0 {
            proof {
                assert forall|w: Seq<char>| !is_field_winner(ds, w) by {
                    if has_deposit_from(ds, w) {
                        let j = choose|j: int| 0 <= j < chart@.len() && chart@[j].0@ == w;
                    }
                }
            }
            return None;
        }
        let mut m: usize = 0;
        let mut k: usize = 1;
        while k < chart.len()
            invariant
                m < k <= chart@.len(),
                forall|j: int| 0 <= j < k ==> chart@[j].1 <= chart@[m as int].1,
            decreases chart@.len() - k,
        {
            if chart[k].1 > chart[m].1 {
                m = k;
            }
            k = k + 1;
        }
        let ghost best = chart@[m as int].0@;
        let mut t: usize = 0;
        while t < chart.len()
            invariant
                m < chart@.len(),
                t <= chart@.len(),
                best == chart@[m as int].0@,
                forall|j: int| 0 <= j < chart@.len() ==> chart@[j].1 <= chart@[m as int].1,
                n == self.units_occupying@.len(),
                ds == self@.deposits,
                forall|j: int|
                    0 <= j < chart@.len() ==> has_deposit_from(ds, #[trigger] chart@[j].0@)
                        && chart@[j].1 == owner_power(ds, chart@[j].0@),
                forall|j: int, k: int| 0 <= j < k < chart@.len() ==> chart@[j].0@ != chart@[k].0@,
                forall|o: Seq<char>|
                    #[trigger] has_deposit_from(ds, o) ==> exists|j: int|
                        0 <= j < chart@.len() && chart@[j].0@ == o,
                forall|j: int|
                    0 <= j < t && j != m ==> chart@[j].1 + POWER_TOLERANCE < chart@[m as int].1,
            decreases chart@.len() - t,
        {
            proof {
                self.lemma_power_bound(chart@[t as int].0@);
                self.lemma_power_bound(best);
            }
            if t != m && chart[m].1 - chart[t].1 <= POWER_TOLERANCE {
                proof {
                    assert forall|w: Seq<char>| !is_field_winner(ds, w) by {
                        if is_field_winner(ds, w) {
                            let j = choose|j: int| 0 <= j < chart@.len() && chart@[j].0@ == w;
                            if w == best {
                                assert(has_deposit_from(ds, chart@[t as int].0@));
                                assert(chart@[t as int].0@ != w);
                            } else {
                                assert(has_deposit_from(ds, best));
                            }
                        }
                    }
                }
                return None;
            }
            t = t + 1;
        }
        proof {
            assert forall|o: Seq<char>| #[trigger]
                has_deposit_from(ds, o) && o != best implies owner_power(ds, o) + POWER_TOLERANCE
                < owner_power(ds, best) by {
                let j = choose|j: int| 0 <= j < chart@.len() && chart@[j].0@ == o;
                assert(j != m);
            }
            assert(is_field_winner(ds, best));
            lemma_field_winner_is(ds, best);
        }
        Some(chart[m].0.clone())
    }

    /// A copy of this field that keeps only the deposits of `owner_nick`.
    pub fn players_units(&self, owner_nick: String) -> (r: GameField)
        ensures
            r@.x == self@.x,
            r@.y == self@.y,
            r@.deposits == deposits_of(self@.deposits, owner_nick@),
    {
        let ghost ds = self@.deposits;
        let mut units: Vec<UnitInField> = Vec::new();
        let n = self.units_occupying.len();
        let mut i: usize = 0;
        while i < n
            invariant
                n == self.units_occupying@.len(),
                ds == self@.deposits,
                ds.len() == n,
                i <= n,
                units@.map_values(|u: UnitInField| u@) == deposits_of(ds.take(i as int), owner_nick@),
            decreases n - i,
        {
            let ghost before = units@;
            let u = &self.units_occupying[i];
            proof {
                assert(ds.take(i as int + 1).drop_last() =~= ds.take(i as int));
                assert(ds[i as int] == u@);
            }
            if u.owner == owner_nick {
                units.push(UnitInField::new(u.owner.clone(), u.unit));
                assert(units@.map_values(|u: UnitInField| u@) =~= before.map_values(
                    |u: UnitInField| u@,
                ).push(ds[i as int]));
            }
            i = i + 1;
        }
        assert(ds.take(n as int) =~= ds);
        GameField { x: self.x, y: self.y, units_occupying: units }
    }

    /// How many units of `unit_type` the deposits on this field hold together.
    pub fn get_units_by_type(&self, unit_type: UnitType) -> (r: i128)
        ensures
            r == units_of_type(self@.deposits, unit_type),
    {
        let ghost ds = self@.deposits;
        let mut total: i128 = 0;
        let n = self.units_occupying.len();
        let mut i: usize = 0;
        while i < n
            invariant
                n == self.units_occupying@.len(),
                ds == self@.deposits,
                ds.len() == n,
                i <= n,
                total == units_of_type(ds.take(i as int), unit_type),
                -(i * 0x8000_0000) <= total <= i * 0x8000_0000,
            decreases n - i,
        {
            let u = &self.units_occupying[i];
            proof {
                assert(ds.take(i as int + 1).drop_last() =~= ds.take(i as int));
                assert(ds[i as int] == u@);
            }
            if u.unit.unit_type == unit_type {
                total = total + u.unit.quantity as i128;
            }
            i = i + 1;
        }
        assert(ds.take(n as int) =~= ds);
        total
    }

    /// Total power per owner on this field: each owner that has sent units
    /// here appears once, with the sum of the powers of its deposits.
    pub fn power_chart(&self) -> (r: Vec<(String, FighterPower)>)
        ensures
            forall|j: int|
                0 <= j < r@.len() ==> has_deposit_from(self@.deposits, #[trigger] r@[j].0@)
                    && r@[j].1 == owner_power(self@.deposits, r@[j].0@),
            forall|j: int, k: int| 0 <= j < k < r@.len() ==> r@[j].0@ != r@[k].0@,
            forall|o: Seq<char>|
                #[trigger] has_deposit_from(self@.deposits, o) ==> exists|j: int|
                    0 <= j < r@.len() && r@[j].0@ == o,
    {
        let ghost ds = self@.deposits;
        proof {
            self.lemma_quantities_fit();
        }
        let mut chart: Vec<(String, FighterPower)> = Vec::new();
        let n = self.units_occupying.len();
        let mut i: usize = 0;
        while i < n
            invariant
                n == self.units_occupying@.len(),
                ds == self@.deposits,
                ds.len() == n,
                quantities_fit(ds),
                i <= n,
                forall|j: int|
                    0 <= j < chart@.len() ==> has_deposit_from(ds.take(i as int), #[trigger] chart@[j].0@)
                        && chart@[j].1 == owner_power(ds.take(i as int), chart@[j].0@),
                forall|j: int, k: int| 0 <= j < k < chart@.len() ==> chart@[j].0@ != chart@[k].0@,
                forall|o: Seq<char>|
                    #[trigger] has_deposit_from(ds.take(i as int), o) ==> exists|j: int|
                        0 <= j < chart@.len() && chart@[j].0@ == o,
            decreases n - i,
        {
            let deposit = &self.units_occupying[i];
            let p = deposit.unit.fighting_power();
            let ghost before = chart@;
            let ghost a = ds.take(i as int);
            let ghost b = ds.take(i as int + 1);
            let ghost owner = deposit.owner@;
            proof {
                lemma_prefix_step(ds, i as int);
                assert(ds[i as int] == deposit@);
                assert(power_for(ds[i as int], owner) == p);
            }
            match position_of(&chart, &deposit.owner) {
                Some(j) => {
                    proof {
                        assert(quantities_fit(b)) by {
                            assert forall|k: int| 0 <= k < b.len() implies i32::MIN
                                <= #[trigger] b[k].quantity <= i32::MAX by {
                                assert(b[k] == ds[k]);
                            }
                        }
                        lemma_owner_power_bound(b, owner);
                        assert(b.len() * MAX_DEPOSIT_POWER <= 0x1_0000_0000_0000_0000
                            * MAX_DEPOSIT_POWER) by (nonlinear_arith)
                            requires
                                b.len() <= 0x1_0000_0000_0000_0000,
                                MAX_DEPOSIT_POWER == 19 * 0x8000_0000,
                        ;
                    }
                    let name = chart[j].0.clone();
                    let total = chart[j].1 + p;
                    chart.set(j, (name, total));
                    proof {
                        assert forall|k: int| 0 <= k < chart@.len() implies has_deposit_from(
                            b,
                            #[trigger] chart@[k].0@,
                        ) && chart@[k].1 == owner_power(b, chart@[k].0@) by {
                            assert(chart@[k].0@ == before[k].0@);
                            assert(has_deposit_from(a, before[k].0@));
                            if k != j {
                                assert(power_for(ds[i as int], before[k].0@) == 0);
                            }
                        }
                        assert forall|o: Seq<char>| #[trigger] has_deposit_from(b, o) implies exists|
                            k: int,
                        | 0 <= k < chart@.len() && chart@[k].0@ == o by {
                            if o == owner {
                                assert(chart@[j as int].0@ == o);
                            } else {
                                assert(has_deposit_from(a, o));
                                let k = choose|k: int| 0 <= k < before.len() && #[trigger] before[k].0@ == o;
                                assert(chart@[k].0@ == o);
                            }
                        }
                    }
                },
                None => {
                    chart.push((deposit.owner.clone(), p));
                    proof {
                        assert forall|k: int| 0 <= k < chart@.len() implies has_deposit_from(
                            b,
                            #[trigger] chart@[k].0@,
                        ) && chart@[k].1 == owner_power(b, chart@[k].0@) by {
                            if k < before.len() {
                                assert(chart@[k] == before[k]);
                                assert(has_deposit_from(a, before[k].0@));
                                assert(power_for(ds[i as int], before[k].0@) == 0);
                            } else {
                                assert(!has_deposit_from(a, owner));
                                assert(owner_power(a, owner) == 0) by {
                                    lemma_absent_owner_power(a, owner);
                                }
                            }
                        }
                        assert forall|o: Seq<char>| #[trigger] has_deposit_from(b, o) implies exists|
                            k: int,
                        | 0 <= k < chart@.len() && chart@[k].0@ == o by {
                            if o == owner {
                                assert(chart@[before.len() as int].0@ == o);
                            } else {
                                assert(has_deposit_from(a, o));
                                let k = choose|k: int| 0 <= k < before.len() && #[trigger] before[k].0@ == o;
                                assert(chart@[k] == before[k]);
                            }
                        }
                    }
                },
            }
            i = i + 1;
        }
        assert(ds.take(n as int) =~= ds);
        chart
    }
}

impl GamePlan {
    /// The field count matches the size, and the field at (x, y) has
    /// coordinates (x, y).
    pub open spec fn wf(&self) -> bool {
        plan_wf(self@)
    }

    /// A battlefield of `width` by `height` empty fields.
    pub fn new(width: usize, height: usize) -> (r: Self)
        requires
            width * height <= usize::MAX,
        ensures
            r.wf(),
            r@.width == width,
            r@.height == height,
            forall|i: int| 0 <= i < r@.fields.len() ==> (#[trigger] r@.fields[i]).deposits.len() == 0,
            forall|x: int, y: int|
                0 <= x < width && 0 <= y < height ==> (#[trigger] field_at(r@, x, y)).x == x
                    && field_at(r@, x, y).y == y,
    {
        let mut fields_generated: Vec<GameField> = Vec::new();
        let mut x: usize = 0;
        while x < width
            invariant
                width * height <= usize::MAX,
                x <= width,
                fields_generated@.len() == height * x,
                forall|i: int|
                    0 <= i < fields_generated@.len() ==> (#[trigger] fields_generated@[i])@.deposits.len()
                        == 0,
                forall|a: int, b: int|
                    0 <= a < x && 0 <= b < height ==> (#[trigger] fields_generated@[height * a + b])@.x
                        == a && fields_generated@[height * a + b]@.y == b,
            decreases width - x,
        {
            assert(height * x + height <= width * height) by (nonlinear_arith)
                requires
                    x < width,
            ;
            let mut y: usize = 0;
            while y < height
                invariant
                    width * height <= usize::MAX,
                    x < width,
                    height * x + height <= width * height,
                    y <= height,
                    fields_generated@.len() == height * x + y,
                    forall|i: int|
                        0 <= i < fields_generated@.len() ==> (#[trigger] fields_generated@[i])@.deposits.len()
                            == 0,
                    forall|a: int, b: int|
                        0 <= a < x && 0 <= b < height ==> (#[trigger] fields_generated@[height * a
                            + b])@.x == a && fields_generated@[height * a + b]@.y == b,
                    forall|b: int|
                        0 <= b < y ==> (#[trigger] fields_generated@[height * x + b])@.x == x
                            && fields_generated@[height * x + b]@.y == b,
                decreases height - y,
            {
                let ghost before = fields_generated@;
                fields_generated.push(GameField::new(x, y));
                proof {
                    assert forall|a: int, b: int|
                        0 <= a < x && 0 <= b < height implies (#[trigger] fields_generated@[height * a
                            + b])@.x == a && fields_generated@[height * a + b]@.y == b by {
                        assert(height * a + b < height * x) by (nonlinear_arith)
                            requires
                                a < x,
                                b < height,
                        ;
                        assert(fields_generated@[height * a + b] == before[height * a + b]);
                    }
                }
                y = y + 1;
            }
            assert(height * (x + 1) == height * x + height) by (nonlinear_arith);
            x = x + 1;
        }
        let r = Self { fields: fields_generated, width, height };
        assert(width * height == height * width) by (nonlinear_arith);
        proof {
            assert forall|a: int, b: int|
                0 <= a < width && 0 <= b < height implies (#[trigger] field_at(r@, a, b)).x == a
                    && field_at(r@, a, b).y == b by {
                assert(height * a + b < height * width) by (nonlinear_arith)
                    requires
                        a < width,
                        b < height,
                ;
                assert(field_at(r@, a, b) == fields_generated@[height * a + b]@);
            }
        }
        r
    }

    /// Width of the battlefield.
    pub fn width(&self) -> (r: usize)
        ensures
            r == self@.width,
    {
        self.width
    }

    /// Height of the battlefield.
    pub fn height(&self) -> (r: usize)
        ensures
            r == self@.height,
    {
        self.height
    }

    /// All fields, in row-major order.
    pub fn fields(&self) -> (r: &Vec<GameField>)
        ensures
            r@.map_values(|f: GameField| f@) == self@.fields,
    {
        &self.fields
    }

    /// The field at (x, y), for changing it; `None` when the coordinates lie
    /// outside the battlefield.
    pub fn get_game_field(&mut self, x: usize, y: usize) -> (r: Option<&mut GameField>)
        requires
            old(self).wf(),
        ensures
            final(self)@.fields.len() == old(self)@.fields.len(),
            r is Some <==> (x < old(self)@.width && y < old(self)@.height),
            r matches Some(f) ==> f@.x == x && f@.y == y,
            r is None ==> final(self)@ == old(self)@,
            r matches Some(f) ==> f@ == field_at(old(self)@, x as int, y as int) && final(self)@
                == (PlanView {
                fields: old(self)@.fields.update(old(self)@.height * x + y, final(f)@),
                ..old(self)@
            }),
    {
        let len = self.fields.len();
        if x < self.width && y < self.height {
            assert(self.height * x + y < self.width * self.height) by (nonlinear_arith)
                requires
                    x < self.width,
                    y < self.height,
            ;
            assert(self.height * x + y < len);
            assert(field_at(self@, x as int, y as int).x == x);
            let ghost before = self.fields@;
            let i = self.height * x + y;
            let f = &mut self.fields[i];
            proof {
                assert(before.map_values(|f: GameField| f@).update(i as int, final(f)@)
                    =~= before.update(i as int, *final(f)).map_values(|f: GameField| f@));
            }
            Some(f)
        } else {
            None
        }
    }

    /// Counts the won fields per owner: each owner that won a field appears
    /// once, with the number of fields it won.
    fn tally_wins(&self) -> (r: Vec<(String, usize)>)
        ensures
            forall|j: int|
                0 <= j < r@.len() ==> fields_won(self@.fields, #[trigger] r@[j].0@) == r@[j].1
                    && r@[j].1 > 0,
            forall|j: int, k: int| 0 <= j < k < r@.len() ==> r@[j].0@ != r@[k].0@,
            forall|o: Seq<char>|
                #[trigger] fields_won(self@.fields, o) > 0 ==> exists|j: int|
                    0 <= j < r@.len() && r@[j].0@ == o,
    {
        let ghost fs = self@.fields;
        let mut tally: Vec<(String, usize)> = Vec::new();
        let n = self.fields.len();
        let mut i: usize = 0;
        while i < n
            invariant
                n == self.fields@.len(),
                fs == self@.fields,
                fs.len() == n,
                i <= n,
                forall|j: int|
                    0 <= j < tally@.len() ==> fields_won(fs.take(i as int), #[trigger] tally@[j].0@)
                        == tally@[j].1 && tally@[j].1 > 0,
                forall|j: int, k: int| 0 <= j < k < tally@.len() ==> tally@[j].0@ != tally@[k].0@,
                forall|o: Seq<char>|
                    #[trigger] fields_won(fs.take(i as int), o) > 0 ==> exists|j: int|
                        0 <= j < tally@.len() && tally@[j].0@ == o,
            decreases n - i,
        {
            let ghost before = tally@;
            let ghost a = fs.take(i as int);
            let ghost b = fs.take(i as int + 1);
            let winner = self.fields[i].evaluate_field();
            proof {
                lemma_won_step(fs, i as int);
                assert(fs[i as int] == self.fields@[i as int]@);
            }
            match winner {
                Some(name) => {
                    let ghost w = name@;
                    match position_of(&tally, &name) {
                        Some(j) => {
                            proof {
                                lemma_won_bound(a, w);
                            }
                            let count = tally[j].1 + 1;
                            tally.set(j, (name, count));
                            proof {
                                assert forall|k: int| 0 <= k < tally@.len() implies fields_won(
                                    b,
                                    #[trigger] tally@[k].0@,
                                ) == tally@[k].1 && tally@[k].1 > 0 by {
                                    assert(tally@[k].0@ == before[k].0@);
                                }
                                assert forall|o: Seq<char>| #[trigger]
                                    fields_won(b, o) > 0 implies exists|k: int|
                                    0 <= k < tally@.len() && tally@[k].0@ == o by {
                                    if o == w {
                                        assert(tally@[j as int].0@ == o);
                                    } else {
                                        assert(fields_won(a, o) > 0);
                                        let k = choose|k: int|
                                            0 <= k < before.len() && #[trigger] before[k].0@ == o;
                                        assert(tally@[k].0@ == o);
                                    }
                                }
                            }
                        },
                        None => {
                            tally.push((name, 1));
                            proof {
                                assert forall|k: int| 0 <= k < tally@.len() implies fields_won(
                                    b,
                                    #[trigger] tally@[k].0@,
                                ) == tally@[k].1 && tally@[k].1 > 0 by {
                                    if k < before.len() {
                                        assert(tally@[k] == before[k]);
                                    } else {
                                        assert(tally@[k].0@ == w);
                                        lemma_won_bound(a, w);
                                        if fields_won(a, w) > 0 {
                                            let q = choose|q: int|
                                                0 <= q < before.len() && #[trigger] before[q].0@ == w;
                                        }
                                    }
                                }
                                assert forall|o: Seq<char>| #[trigger]
                                    fields_won(b, o) > 0 implies exists|k: int|
                                    0 <= k < tally@.len() && tally@[k].0@ == o by {
                                    if o == w {
                                        assert(tally@[before.len() as int].0@ == o);
                                    } else {
                                        assert(fields_won(a, o) > 0);
                                        let k = choose|k: int|
                                            0 <= k < before.len() && #[trigger] before[k].0@ == o;
                                        assert(tally@[k] == before[k]);
                                    }
                                }
                            }
                        },
                    }
                },
                None => {
                    proof {
                        assert forall|k: int| 0 <= k < tally@.len() implies fields_won(
                            b,
                            #[trigger] tally@[k].0@,
                        ) == tally@[k].1 && tally@[k].1 > 0 by {}
                        assert forall|o: Seq<char>| #[trigger] fields_won(b, o) > 0 implies exists|
                            k: int,
                        | 0 <= k < tally@.len() && tally@[k].0@ == o by {
                            assert(fields_won(a, o) > 0);
                        }
                    }
                },
            }
            i = i + 1;
        }
        assert(fs.take(n as int) =~= fs);
        tally
    }

    /// Decides the match: every field's winner is counted, and the owner
    /// with the most won fields wins; several owners with the most share a
    /// draw; nobody wins when no field was won.
    pub fn evaluate(&self) -> (r: MatchOutcome)
        ensures
            is_match_result(self@.fields, r),
    {
        let ghost fs = self@.fields;
        let tally = self.tally_wins();
        if tally.len() == 0 {
            assert forall|o: Seq<char>| fields_won(fs, o) == 0 by {
                lemma_won_bound(fs, o);
                if fields_won(fs, o) > 0 {
                    let k = choose|k: int| 0 <= k < tally@.len() && tally@[k].0@ == o;
                }
            }
            return MatchOutcome::NoWinner;
        }
        let best = highest_count(&tally);
        let owners = owners_with_count(&tally, best);
        let ghost top = best as int;
        proof {
            assert forall|o: Seq<char>| #[trigger] fields_won(fs, o) <= top by {
                if fields_won(fs, o) > 0 {
                    let j = choose|j: int| 0 <= j < tally@.len() && tally@[j].0@ == o;
                }
            }
            let j0 = choose|j: int| 0 <= j < tally@.len() && tally@[j].1 == best;
            assert(tally@[j0].1 > 0);
            assert forall|o: Seq<char>| #[trigger] fields_won(fs, o) == top implies exists|a: int|
                0 <= a < owners@.len() && owners@[a]@ == o by {
                let j = choose|j: int| 0 <= j < tally@.len() && tally@[j].0@ == o;
                assert(tally@[j].1 == best);
                assert(listed(owners@, tally@[j].0@));
            }
            assert(listed(owners@, tally@[j0].0@));
            assert forall|a: int| 0 <= a < owners@.len() implies fields_won(
                fs,
                #[trigger] owners@[a]@,
            ) == top by {
                assert(counted(tally@, tally@.len() as int, owners@[a]@, best));
            }
        }
        if owners.len() == 1 {
            let owner = owners[0].clone();
            proof {
                assert forall|o: Seq<char>| o != owner@ implies #[trigger] fields_won(fs, o)
                    < top by {
                    if fields_won(fs, o) == top {
                        let a = choose|a: int| 0 <= a < owners@.len() && owners@[a]@ == o;
                    }
                }
            }
            let r = MatchOutcome::Winner { owner, fields: best };
            assert(is_match_result(fs, r));
            r
        } else {
            let r = MatchOutcome::Draw { owners, fields: best };
            proof {
                let os = r->owners@;
                assert(forall|o: Seq<char>|
                    #[trigger] fields_won(fs, o) == best ==> exists|j: int|
                        0 <= j < os.len() && os[j]@ == o);
            }
            r
        }
    }
}

/// The highest count in a non-empty tally.
fn highest_count(tally: &Vec<(String, usize)>) -> (r: usize)
    requires
        tally@.len() > 0,
    ensures
        forall|j: int| 0 <= j < tally@.len() ==> tally@[j].1 <= r,
        exists|j: int| 0 <= j < tally@.len() && tally@[j].1 == r,
{
    let mut best: usize = tally[0].1;
    let mut k: usize = 1;
    while k < tally.len()
        invariant
            0 < k <= tally@.len(),
            forall|j: int| 0 <= j < k ==> tally@[j].1 <= best,
            exists|j: int| 0 <= j < k && tally@[j].1 == best,
        decreases tally@.len() - k,
    {
        if tally[k].1 > best {
            best = tally[k].1;
        }
        k = k + 1;
    }
    best
}

/// Some entry among the first `bound` of the tally has this name and count.
spec fn counted(tally: Seq<(String, usize)>, bound: int, name: Seq<char>, count: usize) -> bool {
    exists|j: int| 0 <= j < bound && tally[j].1 == count && tally[j].0@ == name
}

/// The name is among the listed ones.
spec fn listed(names: Seq<String>, name: Seq<char>) -> bool {
    exists|a: int| 0 <= a < names.len() && names[a]@ == name
}

/// The names in a tally of distinct names whose count is `count`, in tally
/// order.
fn owners_with_count(tally: &Vec<(String, usize)>, count: usize) -> (r: Vec<String>)
    requires
        forall|j: int, q: int| 0 <= j < q < tally@.len() ==> tally@[j].0@ != tally@[q].0@,
    ensures
        forall|a: int| 0 <= a < r@.len() ==> counted(tally@, tally@.len() as int, #[trigger] r@[a]@, count),
        forall|j: int|
            0 <= j < tally@.len() && #[trigger] tally@[j].1 == count ==> listed(r@, tally@[j].0@),
        forall|a: int, c: int| 0 <= a < c < r@.len() ==> r@[a]@ != r@[c]@,
{
    let mut owners: Vec<String> = Vec::new();
    let mut k: usize = 0;
    while k < tally.len()
        invariant
            k <= tally@.len(),
            forall|j: int, q: int| 0 <= j < q < tally@.len() ==> tally@[j].0@ != tally@[q].0@,
            forall|a: int| 0 <= a < owners@.len() ==> counted(tally@, k as int, #[trigger] owners@[a]@, count),
            forall|j: int|
                0 <= j < k && #[trigger] tally@[j].1 == count ==> listed(owners@, tally@[j].0@),
            forall|a: int, c: int| 0 <= a < c < owners@.len() ==> owners@[a]@ != owners@[c]@,
        decreases tally@.len() - k,
    {
        let ghost before = owners@;
        if tally[k].1 == count {
            owners.push(tally[k].0.clone());
            proof {
                let last = before.len() as int;
                assert(owners@[last]@ == tally@[k as int].0@);
                assert forall|a: int| 0 <= a < owners@.len() implies counted(
                    tally@,
                    k + 1,
                    #[trigger] owners@[a]@,
                    count,
                ) by {
                    if a < last {
                        assert(owners@[a] == before[a]);
                        assert(counted(tally@, k as int, before[a]@, count));
                    }
                }
                assert forall|j: int|
                    0 <= j < k + 1 && #[trigger] tally@[j].1 == count implies listed(
                    owners@,
                    tally@[j].0@,
                ) by {
                    if j < k {
                        assert(listed(before, tally@[j].0@));
                        let a = choose|a: int| 0 <= a < before.len() && before[a]@ == tally@[j].0@;
                        assert(owners@[a] == before[a]);
                    }
                }
                assert forall|a: int, c: int|
                    0 <= a < c < owners@.len() implies owners@[a]@ != owners@[c]@ by {
                    assert(owners@[a] == before[a]);
                    if c == last {
                        assert(counted(tally@, k as int, before[a]@, count));
                    } else {
                        assert(owners@[c] == before[c]);
                    }
                }
            }
        } else {
            proof {
                assert forall|a: int| 0 <= a < owners@.len() implies counted(
                    tally@,
                    k + 1,
                    #[trigger] owners@[a]@,
                    count,
                ) by {
                    assert(counted(tally@, k as int, owners@[a]@, count));
                }
            }
        }
        k = k + 1;
    }
    owners
}

} // verus!
