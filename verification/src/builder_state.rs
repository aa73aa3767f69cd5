//! Construction-time semantics of a planned builder.
//!
//! A `BuilderState` is the runtime state of the builder that the
//! synthesized plan describes: one slot per field, in declaration order.
//! Scalar and optional fields hold an absent placeholder until their
//! setter runs; accumulator fields hold a collection that starts empty
//! and grows one element per setter call. `build` validates that every
//! required slot was set - failing with the message that names the first
//! missing field in declaration order - and assembles the field values.
//!
//! The module also states and proves the laws of this semantics: what an
//! empty builder reports, why optional and accumulator fields never
//! block construction, and the round trip from a target record through
//! setter calls back to that record.

use vstd::prelude::*;

use crate::builder::BuilderPlan;
use crate::builder::BuilderPlanV;
use crate::builder::FieldKind;
use crate::builder::build_missing_msg;
use crate::builder::missing_msg;
use crate::builder::spec_member_plan;
use crate::model::FieldDef;
use crate::shape::spec_classify;

verus! {

/// One builder slot at run time.
pub enum Slot<T> {
    /// A scalar field's holder: absent until its setter runs.
    RequiredSlot(Option<T>),
    /// An optional field's holder: absent is a valid final state.
    OptionalSlot(Option<T>),
    /// An accumulator field's collection.
    ListSlot(Vec<T>),
}

/// Specification-level view of one slot.
pub ghost enum SlotV<T> {
    RequiredV(Option<T>),
    OptionalV(Option<T>),
    ListV(Seq<T>),
}

impl<T> View for Slot<T> {
    type V = SlotV<T>;

    open spec fn view(&self) -> SlotV<T> {
        match self {
            Slot::RequiredSlot(o) => SlotV::RequiredV(*o),
            Slot::OptionalSlot(o) => SlotV::OptionalV(*o),
            Slot::ListSlot(l) => SlotV::ListV(l@),
        }
    }
}

/// One assembled field value, as construction returns it.
pub enum FieldVal<T> {
    /// A scalar field's value.
    ScalarVal(T),
    /// An optional field's value, possibly absent.
    OptVal(Option<T>),
    /// An accumulator field's collected elements, in call order.
    ListVal(Vec<T>),
}

/// Specification-level view of one assembled field value.
pub ghost enum FieldValV<T> {
    ScalarValV(T),
    OptValV(Option<T>),
    ListValV(Seq<T>),
}

impl<T> View for FieldVal<T> {
    type V = FieldValV<T>;

    open spec fn view(&self) -> FieldValV<T> {
        match self {
            FieldVal::ScalarVal(v) => FieldValV::ScalarValV(*v),
            FieldVal::OptVal(o) => FieldValV::OptValV(*o),
            FieldVal::ListVal(l) => FieldValV::ListValV(l@),
        }
    }
}

/// The runtime state of a planned builder: one named slot per field, in
/// declaration order.
pub struct BuilderState<T> {
    pub names: Vec<String>,
    pub slots: Vec<Slot<T>>,
}

/// Specification-level view of a builder state.
pub ghost struct BuilderStateV<T> {
    pub names: Seq<Seq<char>>,
    pub slots: Seq<SlotV<T>>,
}

impl<T> View for BuilderState<T> {
    type V = BuilderStateV<T>;

    open spec fn view(&self) -> BuilderStateV<T> {
        BuilderStateV {
            names: self.names@.map_values(|n: String| n@),
            slots: self.slots@.map_values(|s: Slot<T>| s@),
        }
    }
}

impl<T> BuilderStateV<T> {
    /// Every slot has a name.
    pub open spec fn wf(self) -> bool {
        self.names.len() == self.slots.len()
    }
}

/// The fresh slot for a field of the given kind.
pub open spec fn spec_fresh_slot<T>(k: FieldKind) -> SlotV<T> {
    match k {
        FieldKind::Required => SlotV::RequiredV(None),
        FieldKind::Optional => SlotV::OptionalV(None),
        FieldKind::Accumulator => SlotV::ListV(Seq::empty()),
    }
}

/// The state a builder starts in: every scalar and optional slot absent,
/// every accumulator slot an empty collection.
pub open spec fn spec_new_state<T>(p: BuilderPlanV) -> BuilderStateV<T> {
    BuilderStateV {
        names: p.members.map_values(|m: crate::builder::MemberPlanV| m.field_name),
        slots: p.members.map_values(|m: crate::builder::MemberPlanV| spec_fresh_slot(m.kind)),
    }
}

/// A replacing setter's effect on one slot.
pub open spec fn set_slot<T>(sl: SlotV<T>, v: T) -> SlotV<T> {
    match sl {
        SlotV::RequiredV(_) => SlotV::RequiredV(Some(v)),
        SlotV::OptionalV(_) => SlotV::OptionalV(Some(v)),
        SlotV::ListV(l) => SlotV::ListV(l),
    }
}

/// A replacing setter's effect on the state.
pub open spec fn spec_set<T>(s: BuilderStateV<T>, i: int, v: T) -> BuilderStateV<T> {
    BuilderStateV { names: s.names, slots: s.slots.update(i, set_slot(s.slots[i], v)) }
}

/// An appending setter's effect on the state.
pub open spec fn spec_append<T>(s: BuilderStateV<T>, i: int, v: T) -> BuilderStateV<T> {
    BuilderStateV {
        names: s.names,
        slots: s.slots.update(i, SlotV::ListV(s.slots[i]->ListV_0.push(v))),
    }
}

/// Is this slot a required field still missing its value?
pub open spec fn slot_missing<T>(sl: SlotV<T>) -> bool {
    match sl {
        SlotV::RequiredV(o) => o is None,
        _ => false,
    }
}

/// Index of the first missing required slot, in declaration order.
pub open spec fn spec_first_missing<T>(slots: Seq<SlotV<T>>) -> Option<int>
    decreases slots,
{
    if slots.len() == 0 {
        None
    } else if slot_missing(slots[0]) {
        Some(0int)
    } else {
        match spec_first_missing(slots.drop_first()) {
            Some(i) => Some(i + 1),
            None => None,
        }
    }
}

/// The field value a slot assembles into, once validation passed.
pub open spec fn out_of_slot<T>(sl: SlotV<T>) -> FieldValV<T>
    recommends
        !slot_missing(sl),
{
    match sl {
        SlotV::RequiredV(o) => FieldValV::ScalarValV(o->Some_0),
        SlotV::OptionalV(o) => FieldValV::OptValV(o),
        SlotV::ListV(l) => FieldValV::ListValV(l),
    }
}

/// What construction returns: the message naming the first missing
/// required field, or every slot's assembled value in declaration order.
pub open spec fn spec_build<T>(s: BuilderStateV<T>) -> Result<Seq<FieldValV<T>>, Seq<char>> {
    match spec_first_missing(s.slots) {
        Some(i) => Err(missing_msg(s.names[i])),
        None => Ok(s.slots.map_values(|sl: SlotV<T>| out_of_slot(sl))),
    }
}

impl<T> BuilderState<T> {
    /// The builder's starting state for a plan.
    pub fn new_state(plan: &BuilderPlan) -> (s: BuilderState<T>)
        ensures
            s@ == spec_new_state::<T>(plan@),
    {
        let n = plan.members.len();
        let mut names: Vec<String> = Vec::new();
        let mut slots: Vec<Slot<T>> = Vec::new();
        let mut i: usize = 0;
        while i < n
            invariant
                i <= n,
                n == plan.members@.len(),
                names@.len() == i,
                slots@.len() == i,
                forall|j: int|
                    0 <= j < i ==> (#[trigger] names@[j])@ == plan@.members[j].field_name,
                forall|j: int|
                    0 <= j < i ==> (#[trigger] slots@[j])@ == spec_fresh_slot::<T>(
                        plan@.members[j].kind,
                    ),
            decreases n - i,
        {
            let m = &plan.members[i];
            names.push(m.field_name.clone());
            let slot = match m.kind {
                FieldKind::Required => Slot::RequiredSlot(None),
                FieldKind::Optional => Slot::OptionalSlot(None),
                FieldKind::Accumulator => Slot::ListSlot(Vec::new()),
            };
            slots.push(slot);
            i = i + 1;
        }
        let s = BuilderState { names, slots };
        proof {
            assert(s@.names =~= spec_new_state::<T>(plan@).names);
            assert(s@.slots =~= spec_new_state::<T>(plan@).slots);
        }
        s
    }

    /// Runs a replacing setter: stores the value in slot `i`.
    pub fn set(&mut self, i: usize, v: T)
        requires
            i < old(self).slots@.len(),
            !(old(self)@.slots[i as int] is ListV),
        ensures
            final(self)@ == spec_set(old(self)@, i as int, v),
    {
        let slot = self.slots.remove(i);
        let new_slot = match slot {
            Slot::RequiredSlot(_) => Slot::RequiredSlot(Some(v)),
            Slot::OptionalSlot(_) => Slot::OptionalSlot(Some(v)),
            Slot::ListSlot(l) => {
                proof {
                    assert(false);
                }
                Slot::ListSlot(l)
            },
        };
        self.slots.insert(i, new_slot);
        proof {
            assert(self@.slots =~= spec_set(old(self)@, i as int, v).slots);
        }
    }

    /// Runs an appending setter: pushes one element onto the collection
    /// in slot `i`.
    pub fn append(&mut self, i: usize, v: T)
        requires
            i < old(self).slots@.len(),
            old(self)@.slots[i as int] is ListV,
        ensures
            final(self)@ == spec_append(old(self)@, i as int, v),
    {
        let slot = self.slots.remove(i);
        let new_slot = match slot {
            Slot::ListSlot(mut l) => {
                l.push(v);
                Slot::ListSlot(l)
            },
            other => {
                proof {
                    assert(false);
                }
                other
            },
        };
        self.slots.insert(i, new_slot);
        proof {
            assert(self@.slots =~= spec_append(old(self)@, i as int, v).slots);
        }
    }

    /// Validates and assembles the built record: fails with the message
    /// naming the first missing required field in declaration order,
    /// else returns every field's value in declaration order.
    pub fn build(self) -> (r: Result<Vec<FieldVal<T>>, String>)
        requires
            self@.wf(),
        ensures
            match r {
                Ok(vals) => spec_build(self@) == Ok::<Seq<FieldValV<T>>, Seq<char>>(
                    vals@.map_values(|fv: FieldVal<T>| fv@),
                ),
                Err(m) => spec_build(self@) == Err::<Seq<FieldValV<T>>, Seq<char>>(m@),
            },
    {
        let ghost orig = self@;
        let n = self.slots.len();
        let mut i: usize = 0;
        while i < n
            invariant
                i <= n,
                n == self.slots@.len(),
                self.names@.len() == n,
                self@ == orig,
                forall|j: int| 0 <= j < i ==> !slot_missing(#[trigger] orig.slots[j]),
            decreases n - i,
        {
            let missing = match &self.slots[i] {
                Slot::RequiredSlot(o) => o.is_none(),
                _ => false,
            };
            if missing {
                proof {
                    lemma_first_missing_at(orig.slots, i as int);
                    assert(orig.names[i as int] == self.names@[i as int]@);
                }
                return Err(build_missing_msg(&self.names[i]));
            }
            i = i + 1;
        }
        proof {
            lemma_no_missing(orig.slots);
        }
        let mut slots = self.slots;
        let mut vals: Vec<FieldVal<T>> = Vec::new();
        let mut k: usize = 0;
        proof {
            assert(slots@.map_values(|s: Slot<T>| s@).skip(0) =~= orig.slots);
        }
        while k < n
            invariant
                k <= n,
                n == orig.slots.len(),
                vals@.len() == k,
                slots@.map_values(|s: Slot<T>| s@) =~= orig.slots.skip(k as int),
                slots@.len() == n - k,
                forall|j: int| 0 <= j < k ==> !slot_missing(#[trigger] orig.slots[j]),
                forall|j: int|
                    0 <= j < k ==> (#[trigger] vals@[j])@ == out_of_slot(orig.slots[j]),
                forall|j: int| 0 <= j < orig.slots.len() ==> !slot_missing(#[trigger] orig.slots[j]),
            decreases n - k,
        {
            let ghost pre = slots@;
            proof {
                assert(pre.map_values(|s: Slot<T>| s@)[0] == pre[0]@);
            }
            let slot = slots.remove(0);
            proof {
                assert(slot@ == orig.slots[k as int]);
            }
            let val = match slot {
                Slot::RequiredSlot(o) => match o {
                    Some(v) => FieldVal::ScalarVal(v),
                    None => {
                        proof {
                            assert(false);
                        }
                        FieldVal::OptVal(None)
                    },
                },
                Slot::OptionalSlot(o) => FieldVal::OptVal(o),
                Slot::ListSlot(l) => FieldVal::ListVal(l),
            };
            vals.push(val);
            proof {
                assert(slots@ == pre.remove(0));
                assert forall|j: int| 0 <= j < slots@.len() implies slots@.map_values(
                    |s: Slot<T>| s@,
                )[j] == (#[trigger] orig.slots.skip(k as int + 1)[j]) by {
                    assert(pre.remove(0)[j] == pre[j + 1]);
                    assert(pre.map_values(|s: Slot<T>| s@)[j + 1] == pre[j + 1]@);
                }
                assert(slots@.map_values(|s: Slot<T>| s@) =~= orig.slots.skip(k as int + 1));
            }
            k = k + 1;
        }
        proof {
            assert(vals@.map_values(|fv: FieldVal<T>| fv@) =~= orig.slots.map_values(
                |sl: SlotV<T>| out_of_slot(sl),
            ));
        }
        Ok(vals)
    }
}

/// If everything before `i` is present and `i` is missing, `i` is the
/// first missing slot.
proof fn lemma_first_missing_at<T>(slots: Seq<SlotV<T>>, i: int)
    requires
        0 <= i < slots.len(),
        slot_missing(slots[i]),
        forall|j: int| 0 <= j < i ==> !slot_missing(#[trigger] slots[j]),
    ensures
        spec_first_missing(slots) == Some(i),
    decreases slots,
{
    if i > 0 {
        lemma_first_missing_at(slots.drop_first(), i - 1);
    }
}

/// LAW: a builder fresh from a plan with at least one field, all of them
/// scalar, fails construction with the message naming the first declared
/// field.
pub proof fn lemma_empty_builder_names_first_field<T>(p: BuilderPlanV)
    requires
        p.members.len() > 0,
        forall|i: int|
            0 <= i < p.members.len() ==> (#[trigger] p.members[i]).kind == FieldKind::Required,
    ensures
        spec_build(spec_new_state::<T>(p)) == Err::<Seq<FieldValV<T>>, Seq<char>>(
            missing_msg(p.members[0].field_name),
        ),
{
    let s = spec_new_state::<T>(p);
    assert(slot_missing(s.slots[0]));
    lemma_first_missing_at(s.slots, 0);
    assert(s.names[0] == p.members[0].field_name);
}

/// LAW: for a declaration whose fields all classify as scalars, the
/// synthesized plan's fresh builder fails construction with the message
/// naming the first declared field.
pub proof fn lemma_plan_empty_builder_names_first<T>(p: BuilderPlanV, fields: Seq<FieldDef>)
    requires
        fields.len() > 0,
        p.members.len() == fields.len(),
        forall|i: int|
            0 <= i < fields.len() ==> p.members[i] == spec_member_plan(#[trigger] fields[i]),
        forall|i: int|
            0 <= i < fields.len() ==> spec_classify(#[trigger] fields[i]) is ScalarV,
    ensures
        spec_build(spec_new_state::<T>(p)) == Err::<Seq<FieldValV<T>>, Seq<char>>(
            missing_msg(fields[0].name@),
        ),
{
    assert forall|i: int|
        0 <= i < p.members.len() implies (#[trigger] p.members[i]).kind
        == FieldKind::Required by {
        assert(p.members[i] == spec_member_plan(fields[i]));
    }
    lemma_empty_builder_names_first_field::<T>(p);
    assert(p.members[0].field_name == fields[0].name@);
}

/// LAW: construction succeeds as soon as no required slot is still
/// missing; in particular a builder whose scalar setters all ran builds.
pub proof fn lemma_build_succeeds_when_filled<T>(s: BuilderStateV<T>)
    requires
        forall|i: int| 0 <= i < s.slots.len() ==> !slot_missing(#[trigger] s.slots[i]),
    ensures
        spec_build(s) is Ok,
{
    lemma_no_missing(s.slots);
}

/// LAW: a failed construction always names a scalar field: an optional
/// or accumulator slot is never the reported missing field.
pub proof fn lemma_missing_is_required<T>(slots: Seq<SlotV<T>>)
    ensures
        match spec_first_missing(slots) {
            Some(i) => 0 <= i < slots.len() && slots[i] is RequiredV && slot_missing(slots[i]),
            None => forall|j: int| 0 <= j < slots.len() ==> !slot_missing(#[trigger] slots[j]),
        },
    decreases slots,
{
    if slots.len() > 0 && !slot_missing(slots[0]) {
        lemma_missing_is_required(slots.drop_first());
        match spec_first_missing(slots.drop_first()) {
            Some(ip) => {
                assert(slots.drop_first()[ip] == slots[ip + 1]);
            },
            None => {
                assert forall|j: int| 0 <= j < slots.len() implies !slot_missing(
                    #[trigger] slots[j],
                ) by {
                    if j > 0 {
                        assert(slots.drop_first()[j - 1] == slots[j]);
                    }
                }
            },
        }
    }
}

/// LAW: omitting the setter of an optional field is not a construction
/// error, and the constructed record carries the absent value there.
pub proof fn lemma_optional_unset_builds_absent<T>(s: BuilderStateV<T>, i: int)
    requires
        0 <= i < s.slots.len(),
        s.slots[i] == SlotV::OptionalV(None::<T>),
        forall|j: int| 0 <= j < s.slots.len() ==> !slot_missing(#[trigger] s.slots[j]),
    ensures
        spec_build(s) is Ok,
        spec_build(s)->Ok_0[i] == FieldValV::OptValV(None::<T>),
{
    lemma_no_missing(s.slots);
}

/// Repeated appending-setter calls, at the specification level.
pub open spec fn spec_append_all<T>(s: BuilderStateV<T>, i: int, vs: Seq<T>) -> BuilderStateV<T>
    decreases vs,
{
    if vs.len() == 0 {
        s
    } else {
        spec_append_all(spec_append(s, i, vs[0]), i, vs.drop_first())
    }
}

/// LAW: appending the elements of `vs` in order onto an accumulator
/// slot extends exactly that slot by exactly `vs`, in call order.
pub proof fn lemma_accumulator_collects<T>(s: BuilderStateV<T>, i: int, vs: Seq<T>)
    requires
        0 <= i < s.slots.len(),
        s.slots[i] is ListV,
    ensures
        ({
            let t = spec_append_all(s, i, vs);
            &&& t.names == s.names
            &&& t.slots.len() == s.slots.len()
            &&& t.slots[i] == SlotV::ListV(s.slots[i]->ListV_0 + vs)
            &&& forall|j: int|
                0 <= j < s.slots.len() && j != i ==> t.slots[j] == s.slots[j]
        }),
    decreases vs,
{
    if vs.len() == 0 {
        assert(s.slots[i]->ListV_0 + vs =~= s.slots[i]->ListV_0);
    } else {
        let s1 = spec_append(s, i, vs[0]);
        lemma_accumulator_collects(s1, i, vs.drop_first());
        assert(s1.slots[i]->ListV_0 + vs.drop_first() =~= s.slots[i]->ListV_0 + vs);
    }
}

/// LAW: an accumulator slot with no setter calls yields, at a successful
/// construction, the empty collection rather than a missing-field error.
pub proof fn lemma_accumulator_empty_by_default<T>(p: BuilderPlanV, i: int)
    requires
        0 <= i < p.members.len(),
        p.members[i].kind == FieldKind::Accumulator,
        spec_build(spec_new_state::<T>(p)) is Ok,
    ensures
        spec_build(spec_new_state::<T>(p))->Ok_0[i] == FieldValV::ListValV(Seq::<T>::empty()),
{
    let s = spec_new_state::<T>(p);
    assert(s.slots[i] == SlotV::ListV(Seq::<T>::empty()));
}

/// LAW: N appending-setter calls on a fresh accumulator slot yield, at a
/// successful construction, exactly those N elements in call order.
pub proof fn lemma_accumulator_call_order<T>(s: BuilderStateV<T>, i: int, vs: Seq<T>)
    requires
        0 <= i < s.slots.len(),
        s.slots[i] == SlotV::ListV(Seq::<T>::empty()),
        spec_build(spec_append_all(s, i, vs)) is Ok,
    ensures
        spec_build(spec_append_all(s, i, vs))->Ok_0[i] == FieldValV::ListValV(vs),
{
    lemma_accumulator_collects(s, i, vs);
    assert(Seq::<T>::empty() + vs =~= vs);
}

/// One setter call, at the specification level.
pub ghost enum BuildCall<T> {
    /// A replacing setter call on the slot at this index.
    SetCall(int, T),
    /// An appending setter call on the slot at this index.
    AppendCall(int, T),
}

/// The effect of one setter call.
pub open spec fn apply_call<T>(s: BuilderStateV<T>, c: BuildCall<T>) -> BuilderStateV<T> {
    match c {
        BuildCall::SetCall(i, v) => spec_set(s, i, v),
        BuildCall::AppendCall(i, v) => spec_append(s, i, v),
    }
}

/// The effect of a sequence of setter calls, in order.
pub open spec fn apply_calls<T>(s: BuilderStateV<T>, cs: Seq<BuildCall<T>>) -> BuilderStateV<T>
    decreases cs,
{
    if cs.len() == 0 {
        s
    } else {
        apply_calls(apply_call(s, cs[0]), cs.drop_first())
    }
}

/// The setter calls that give one field its value from a target record:
/// a scalar is set once, a present optional is set once, an absent
/// optional is left alone, and a collection is appended element by
/// element in order.
pub open spec fn calls_for_field<T>(i: int, fv: FieldValV<T>) -> Seq<BuildCall<T>> {
    match fv {
        FieldValV::ScalarValV(v) => seq![BuildCall::SetCall(i, v)],
        FieldValV::OptValV(o) => match o {
            Some(v) => seq![BuildCall::SetCall(i, v)],
            None => Seq::empty(),
        },
        FieldValV::ListValV(l) => l.map(|j: int, v: T| BuildCall::AppendCall(i, v)),
    }
}

/// The setter calls for the first `k` fields of a target record.
pub open spec fn calls_for_record_upto<T>(r: Seq<FieldValV<T>>, k: int) -> Seq<BuildCall<T>>
    decreases k,
{
    if k <= 0 {
        Seq::empty()
    } else {
        calls_for_record_upto(r, k - 1) + calls_for_field(k - 1, r[k - 1])
    }
}

/// The setter calls for a whole target record, field by field.
pub open spec fn calls_for_record<T>(r: Seq<FieldValV<T>>) -> Seq<BuildCall<T>> {
    calls_for_record_upto(r, r.len() as int)
}

/// The slot a field's setter calls leave behind.
pub open spec fn filled_slot<T>(fv: FieldValV<T>) -> SlotV<T> {
    match fv {
        FieldValV::ScalarValV(v) => SlotV::RequiredV(Some(v)),
        FieldValV::OptValV(o) => SlotV::OptionalV(o),
        FieldValV::ListValV(l) => SlotV::ListV(l),
    }
}

/// Does a record fit a plan, field for field?
pub open spec fn record_matches_plan<T>(r: Seq<FieldValV<T>>, p: BuilderPlanV) -> bool {
    &&& r.len() == p.members.len()
    &&& forall|i: int|
        0 <= i < r.len() ==> match (#[trigger] r[i], p.members[i].kind) {
            (FieldValV::ScalarValV(_), FieldKind::Required) => true,
            (FieldValV::OptValV(_), FieldKind::Optional) => true,
            (FieldValV::ListValV(_), FieldKind::Accumulator) => true,
            _ => false,
        }
}

/// Splitting a call sequence splits its effect.
proof fn lemma_apply_calls_concat<T>(s: BuilderStateV<T>, a: Seq<BuildCall<T>>, b: Seq<
    BuildCall<T>,
>)
    ensures
        apply_calls(s, a + b) == apply_calls(apply_calls(s, a), b),
    decreases a,
{
    if a.len() == 0 {
        assert(a + b =~= b);
    } else {
        assert((a + b)[0] == a[0]);
        assert((a + b).drop_first() =~= a.drop_first() + b);
        lemma_apply_calls_concat(apply_call(s, a[0]), a.drop_first(), b);
    }
}

/// Appending calls element by element are repeated appends.
proof fn lemma_append_calls<T>(s: BuilderStateV<T>, i: int, l: Seq<T>)
    ensures
        apply_calls(s, l.map(|j: int, v: T| BuildCall::AppendCall(i, v))) == spec_append_all(
            s,
            i,
            l,
        ),
    decreases l,
{
    let m = l.map(|j: int, v: T| BuildCall::AppendCall(i, v));
    if l.len() == 0 {
        assert(m =~= Seq::<BuildCall<T>>::empty());
    } else {
        assert(m[0] == BuildCall::AppendCall(i, l[0]));
        assert(m.drop_first() =~= l.drop_first().map(|j: int, v: T| BuildCall::AppendCall(i, v)));
        lemma_append_calls(spec_append(s, i, l[0]), i, l.drop_first());
    }
}

/// One field's setter calls fill exactly that field's fresh slot.
proof fn lemma_field_calls_fill<T>(s: BuilderStateV<T>, i: int, fv: FieldValV<T>)
    requires
        0 <= i < s.slots.len(),
        match fv {
            FieldValV::ScalarValV(_) => s.slots[i] is RequiredV,
            FieldValV::OptValV(_) => s.slots[i] == SlotV::OptionalV(None::<T>),
            FieldValV::ListValV(_) => s.slots[i] == SlotV::ListV(Seq::<T>::empty()),
        },
    ensures
        ({
            let t = apply_calls(s, calls_for_field(i, fv));
            &&& t.names == s.names
            &&& t.slots.len() == s.slots.len()
            &&& t.slots[i] == filled_slot(fv)
            &&& forall|j: int|
                0 <= j < s.slots.len() && j != i ==> t.slots[j] == s.slots[j]
        }),
{
    reveal_with_fuel(apply_calls, 3);
    match fv {
        FieldValV::ScalarValV(v) => {
            let cs = calls_for_field(i, fv);
            assert(cs.drop_first() =~= Seq::<BuildCall<T>>::empty());
            assert(apply_calls(s, cs) == spec_set(s, i, v));
        },
        FieldValV::OptValV(o) => match o {
            Some(v) => {
                let cs = calls_for_field(i, fv);
                assert(cs.drop_first() =~= Seq::<BuildCall<T>>::empty());
                assert(apply_calls(s, cs) == spec_set(s, i, v));
            },
            None => {},
        },
        FieldValV::ListValV(l) => {
            lemma_append_calls(s, i, l);
            lemma_accumulator_collects(s, i, l);
            assert(Seq::<T>::empty() + l =~= l);
        },
    }
}

/// Running the calls for the first `k` fields fills those slots and
/// leaves the rest fresh.
proof fn lemma_record_calls_upto<T>(p: BuilderPlanV, r: Seq<FieldValV<T>>, k: int)
    requires
        record_matches_plan(r, p),
        0 <= k <= r.len(),
    ensures
        ({
            let s0 = spec_new_state::<T>(p);
            let t = apply_calls(s0, calls_for_record_upto(r, k));
            &&& t.names == s0.names
            &&& t.slots.len() == r.len()
            &&& forall|j: int| 0 <= j < k ==> t.slots[j] == filled_slot(#[trigger] r[j])
            &&& forall|j: int| k <= j < r.len() ==> #[trigger] t.slots[j] == s0.slots[j]
        }),
    decreases k,
{
    let s0 = spec_new_state::<T>(p);
    if k > 0 {
        lemma_record_calls_upto(p, r, k - 1);
        let t1 = apply_calls(s0, calls_for_record_upto(r, k - 1));
        lemma_apply_calls_concat(s0, calls_for_record_upto(r, k - 1), calls_for_field(k - 1, r[k
            - 1]));
        assert(s0.slots[k - 1] == spec_fresh_slot::<T>(p.members[k - 1].kind));
        lemma_field_calls_fill(t1, k - 1, r[k - 1]);
    }
}

/// LAW (round trip): starting from the fresh builder of a plan and
/// running every setter call a matching target record prescribes,
/// construction succeeds and returns exactly that record.
pub proof fn lemma_round_trip<T>(p: BuilderPlanV, r: Seq<FieldValV<T>>)
    requires
        record_matches_plan(r, p),
    ensures
        spec_build(apply_calls(spec_new_state::<T>(p), calls_for_record(r))) == Ok::<
            Seq<FieldValV<T>>,
            Seq<char>,
        >(r),
{
    lemma_record_calls_upto(p, r, r.len() as int);
    let t = apply_calls(spec_new_state::<T>(p), calls_for_record(r));
    assert forall|j: int| 0 <= j < t.slots.len() implies !slot_missing(#[trigger] t.slots[j]) by {
        assert(t.slots[j] == filled_slot(r[j]));
    }
    lemma_no_missing(t.slots);
    assert forall|j: int| 0 <= j < t.slots.len() implies t.slots.map_values(
        |sl: SlotV<T>| out_of_slot(sl),
    )[j] == r[j] by {
        assert(t.slots[j] == filled_slot(r[j]));
    }
    assert(t.slots.map_values(|sl: SlotV<T>| out_of_slot(sl)) =~= r);
}

/// If no slot is missing, validation passes.
proof fn lemma_no_missing<T>(slots: Seq<SlotV<T>>)
    requires
        forall|j: int| 0 <= j < slots.len() ==> !slot_missing(#[trigger] slots[j]),
    ensures
        spec_first_missing(slots) is None,
    decreases slots,
{
    if slots.len() > 0 {
        lemma_no_missing(slots.drop_first());
    }
}

} // verus!
