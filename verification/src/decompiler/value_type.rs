use vstd::prelude::*;

verus! {

/// The basic value kinds a script value can have.
#[derive(Debug, Clone, Copy, PartialEq, Eq, Structural)]
pub enum Primitives {
    Float,
    Int,
    String,
    Bool,
    Unknown,
}

/// How sure the decompiler is of a type; later evidence only replaces
/// earlier evidence of lower confidence.
#[derive(Debug, Clone, Copy, PartialEq, Eq, Structural)]
pub enum Confidence {
    Absent,
    Low,
    Medium,
    High,
}

impl Confidence {
    /// The rank of a confidence: `None < Low < Medium < High`.
    pub open spec fn level(self) -> int {
        match self {
            Confidence::Absent => 0,
            Confidence::Low => 1,
            Confidence::Medium => 2,
            Confidence::High => 3,
        }
    }

    fn level_u8(&self) -> (r: u8)
        ensures
            r == self.level(),
    {
        match self {
            Confidence::Absent => 0,
            Confidence::Low => 1,
            Confidence::Medium => 2,
            Confidence::High => 3,
        }
    }

    /// Whether `self` ranks strictly above `other`.
    pub fn exceeds(&self, other: &Confidence) -> (r: bool)
        ensures
            r == (self.level() > other.level()),
    {
        self.level_u8() > other.level_u8()
    }
}

/// A type. Types that other types are made of are named by their handle in
/// a [`TypeStore`], so that a type can be shared and refined in one place.
#[derive(Debug)]
pub enum ValueType {
    Struct { fields: Vec<usize> },
    Array { item_type: usize },
    Function { params: Vec<usize>, return_type: usize },
    Primitive(Primitives),
    Ref(usize),
}

/// A type together with the confidence it was inferred with.
#[derive(Debug)]
pub struct ValueTypeInfo {
    pub ty: ValueType,
    pub confidence: Confidence,
}

/// A type slot: either a type of its own, or a redirect to the slot it was
/// unified with.
#[derive(Debug)]
pub enum LinkedValueType {
    Type(ValueTypeInfo),
    Redirect(usize),
}

/// The mathematical value of a [`ValueType`].
pub enum TypeView {
    Struct { fields: Seq<usize> },
    Array { item_type: usize },
    Function { params: Seq<usize>, return_type: usize },
    Primitive { primitive: Primitives },
    Ref { target: usize },
}

/// The mathematical value of a [`LinkedValueType`].
pub enum NodeView {
    Type { ty: TypeView, confidence: Confidence },
    Redirect { target: usize },
}

impl View for ValueType {
    type V = TypeView;

    open spec fn view(&self) -> TypeView {
        match self {
            ValueType::Struct { fields } => TypeView::Struct { fields: fields@ },
            ValueType::Array { item_type } => TypeView::Array { item_type: *item_type },
            ValueType::Function { params, return_type } => TypeView::Function {
                params: params@,
                return_type: *return_type,
            },
            ValueType::Primitive(p) => TypeView::Primitive { primitive: *p },
            ValueType::Ref(r) => TypeView::Ref { target: *r },
        }
    }
}

impl View for ValueTypeInfo {
    type V = NodeView;

    open spec fn view(&self) -> NodeView {
        NodeView::Type { ty: self.ty@, confidence: self.confidence }
    }
}

impl View for LinkedValueType {
    type V = NodeView;

    open spec fn view(&self) -> NodeView {
        match self {
            LinkedValueType::Type(info) => info@,
            LinkedValueType::Redirect(r) => NodeView::Redirect { target: *r },
        }
    }
}

impl TypeView {
    /// Every handle the type names is below `n`.
    pub open spec fn handles_below(self, n: nat) -> bool {
        match self {
            TypeView::Struct { fields } => forall|i: int|
                0 <= i < fields.len() ==> #[trigger] fields[i] < n,
            TypeView::Array { item_type } => item_type < n,
            TypeView::Function { params, return_type } => (forall|i: int|
                0 <= i < params.len() ==> #[trigger] params[i] < n) && return_type < n,
            TypeView::Primitive { .. } => true,
            TypeView::Ref { target } => target < n,
        }
    }
}

/// A field of a struct whose handles are below `n` is below `n`.
proof fn lemma_field_handle(fields: Seq<usize>, n: nat, i: int)
    requires
        (TypeView::Struct { fields }).handles_below(n),
        0 <= i < fields.len(),
    ensures
        fields[i] < n,
{
    let t = TypeView::Struct { fields };
    assert(t is Struct);
    assert(t->Struct_fields == fields);
    assert(forall|j: int| 0 <= j < fields.len() ==> #[trigger] fields[j] < n);
}

impl NodeView {
    /// Every handle the slot names is below `n`.
    pub open spec fn handles_below(self, n: nat) -> bool {
        match self {
            NodeView::Type { ty, .. } => ty.handles_below(n),
            NodeView::Redirect { target } => target < n,
        }
    }
}

/// A fresh slot of unknown type, held with no confidence.
pub open spec fn unknown_view() -> NodeView {
    NodeView::Type {
        ty: TypeView::Primitive { primitive: Primitives::Unknown },
        confidence: Confidence::Absent,
    }
}

/// `k` fresh slots of unknown type.
pub open spec fn unknown_views(k: nat) -> Seq<NodeView> {
    Seq::new(k, |i: int| unknown_view())
}

/// The handles `start`, `start + 1`, ..., `start + k - 1`.
pub open spec fn fresh_handles(start: nat, k: nat) -> Seq<usize> {
    Seq::new(k, |i: int| (start + i) as usize)
}

/// All handles are in range, and every redirect points at a slot of lower
/// rank, so that following redirects ends.
pub open spec fn slots_wf(nodes: Seq<NodeView>, rank: Seq<nat>) -> bool {
    &&& rank.len() == nodes.len()
    &&& forall|h: int| 0 <= h < nodes.len() ==> #[trigger] slot_ok(nodes, rank, h)
}

/// Slot `h` names slots in range, and redirects to a slot of lower rank.
pub open spec fn slot_ok(nodes: Seq<NodeView>, rank: Seq<nat>, h: int) -> bool {
    &&& nodes[h].handles_below(nodes.len())
    &&& nodes[h] is Redirect ==> rank[nodes[h]->Redirect_target as int] < rank[h]
}

/// The slot reached from `h` by following redirects.
pub open spec fn concrete_of(nodes: Seq<NodeView>, rank: Seq<nat>, h: int) -> int
    decreases rank[h],
    when 0 <= h < nodes.len() && rank.len() == nodes.len() && (nodes[h] is Redirect ==> 0
        <= nodes[h]->Redirect_target < nodes.len() && rank[nodes[h]->Redirect_target as int]
        < rank[h])
{
    match nodes[h] {
        NodeView::Redirect { target } => concrete_of(nodes, rank, target as int),
        NodeView::Type { .. } => h,
    }
}

/// Following redirects from any slot ends in range, at a slot with a type.
pub proof fn lemma_concrete_of(nodes: Seq<NodeView>, rank: Seq<nat>, h: int)
    requires
        slots_wf(nodes, rank),
        0 <= h < nodes.len(),
    ensures
        0 <= concrete_of(nodes, rank, h) < nodes.len(),
        nodes[concrete_of(nodes, rank, h)] is Type,
        nodes[h] is Type ==> concrete_of(nodes, rank, h) == h,
        nodes[h] is Redirect ==> concrete_of(nodes, rank, h) == concrete_of(
            nodes,
            rank,
            nodes[h]->Redirect_target as int,
        ),
    decreases rank[h],
{
    assert(slot_ok(nodes, rank, h));
    assert(nodes[h] is Redirect ==> 0 <= nodes[h]->Redirect_target < nodes.len());
    assert(nodes[h] is Redirect ==> rank[nodes[h]->Redirect_target as int] < rank[h]);
    assert(nodes[h] is Type ==> concrete_of(nodes, rank, h) == h);
    if nodes[h] is Redirect {
        let t = nodes[h]->Redirect_target as int;
        assert(slot_ok(nodes, rank, t));
        assert(concrete_of(nodes, rank, h) == concrete_of(nodes, rank, t));
        lemma_concrete_of(nodes, rank, t);
    }
}

/// Two arrangements of slots that agree on every redirect of the old slots
/// agree on where the old slots lead.
pub proof fn lemma_concrete_stable(
    nodes: Seq<NodeView>,
    rank: Seq<nat>,
    nodes2: Seq<NodeView>,
    rank2: Seq<nat>,
    h: int,
)
    requires
        slots_wf(nodes, rank),
        slots_wf(nodes2, rank2),
        nodes.len() <= nodes2.len(),
        0 <= h < nodes.len(),
        forall|x: int|
            0 <= x < nodes.len() ==> (#[trigger] nodes[x] is Redirect) == (nodes2[x] is Redirect),
        forall|x: int|
            0 <= x < nodes.len() && #[trigger] nodes[x] is Redirect
                ==> nodes2[x]->Redirect_target == nodes[x]->Redirect_target,
    ensures
        concrete_of(nodes2, rank2, h) == concrete_of(nodes, rank, h),
    decreases rank[h],
{
    lemma_concrete_of(nodes, rank, h);
    lemma_concrete_of(nodes2, rank2, h);
    assert(slot_ok(nodes, rank, h));
    assert(slot_ok(nodes2, rank2, h));
    if nodes[h] is Redirect {
        let t = nodes[h]->Redirect_target as int;
        assert(slot_ok(nodes, rank, t));
        assert(slot_ok(nodes2, rank2, t));
        lemma_concrete_stable(nodes, rank, nodes2, rank2, t);
    }
}

/// Following redirects from `z` passes through slot `x`.
pub open spec fn reaches(nodes: Seq<NodeView>, rank: Seq<nat>, z: int, x: int) -> bool
    decreases rank[z],
    when 0 <= z < nodes.len() && rank.len() == nodes.len() && (nodes[z] is Redirect ==> 0
        <= nodes[z]->Redirect_target < nodes.len() && rank[nodes[z]->Redirect_target as int]
        < rank[z])
{
    z == x || match nodes[z] {
        NodeView::Redirect { target } => reaches(nodes, rank, target as int, x),
        NodeView::Type { .. } => false,
    }
}

/// A slot whose redirects pass through `x` leads where `x` leads.
pub proof fn lemma_reaches_concrete(nodes: Seq<NodeView>, rank: Seq<nat>, z: int, x: int)
    requires
        slots_wf(nodes, rank),
        0 <= z < nodes.len(),
        reaches(nodes, rank, z, x),
    ensures
        concrete_of(nodes, rank, z) == concrete_of(nodes, rank, x),
    decreases rank[z],
{
    assert(slot_ok(nodes, rank, z));
    if z != x {
        let t = nodes[z]->Redirect_target as int;
        assert(slot_ok(nodes, rank, t));
        lemma_reaches_concrete(nodes, rank, t, x);
    }
}

/// The ranks after slot `x` is redirected to slot `y`.
pub open spec fn redirect_rank(nodes: Seq<NodeView>, rank: Seq<nat>, x: int, y: int) -> Seq<nat> {
    Seq::new(
        rank.len(),
        |z: int|
            if reaches(nodes, rank, z, x) {
                rank[z] + rank[y] + 1
            } else {
                rank[z]
            },
    )
}

/// Redirecting `x` to a slot `y` that leads elsewhere keeps the slots well
/// formed.
pub proof fn lemma_redirect_wf(nodes: Seq<NodeView>, rank: Seq<nat>, x: int, y: int)
    requires
        slots_wf(nodes, rank),
        0 <= x < nodes.len(),
        0 <= y < nodes.len(),
        y <= usize::MAX,
        concrete_of(nodes, rank, x) != concrete_of(nodes, rank, y),
    ensures
        slots_wf(
            nodes.update(x, NodeView::Redirect { target: y as usize }),
            redirect_rank(nodes, rank, x, y),
        ),
{
    let n2 = nodes.update(x, NodeView::Redirect { target: y as usize });
    let r2 = redirect_rank(nodes, rank, x, y);
    if reaches(nodes, rank, y, x) {
        lemma_reaches_concrete(nodes, rank, y, x);
    }
    assert(slot_ok(nodes, rank, x));
    assert(slot_ok(nodes, rank, y));
    assert(reaches(nodes, rank, x, x));
    assert(!reaches(nodes, rank, y, x));
    assert(r2[y] == rank[y]);
    assert(r2[x] == rank[x] + rank[y] + 1);
    assert forall|z: int| 0 <= z < n2.len() implies #[trigger] slot_ok(n2, r2, z) by {
        assert(slot_ok(nodes, rank, z));
        if z != x {
            assert(n2[z] == nodes[z]);
            if nodes[z] is Redirect {
                let t = nodes[z]->Redirect_target as int;
                assert(slot_ok(nodes, rank, t));
                assert(reaches(nodes, rank, z, x) == reaches(nodes, rank, t, x));
                assert(r2[t] < r2[z]);
            }
            assert(nodes[z].handles_below(nodes.len()));
            assert(n2[z].handles_below(n2.len()));
        } else {
            assert(n2[z].handles_below(n2.len()));
        }
    }
}

/// Where every slot leads once `x` is redirected to a slot `y` that leads
/// elsewhere: slots whose redirects passed through `x` now lead where `y`
/// leads; all others lead where they led.
pub proof fn lemma_redirect_concrete(nodes: Seq<NodeView>, rank: Seq<nat>, x: int, y: int, z: int)
    requires
        slots_wf(nodes, rank),
        0 <= x < nodes.len(),
        0 <= y < nodes.len(),
        y <= usize::MAX,
        0 <= z < nodes.len(),
        concrete_of(nodes, rank, x) != concrete_of(nodes, rank, y),
    ensures
        concrete_of(
            nodes.update(x, NodeView::Redirect { target: y as usize }),
            redirect_rank(nodes, rank, x, y),
            z,
        ) == if reaches(nodes, rank, z, x) {
            concrete_of(nodes, rank, y)
        } else {
            concrete_of(nodes, rank, z)
        },
    decreases rank[z],
{
    let n2 = nodes.update(x, NodeView::Redirect { target: y as usize });
    let r2 = redirect_rank(nodes, rank, x, y);
    lemma_redirect_wf(nodes, rank, x, y);
    assert(slot_ok(nodes, rank, z));
    if z == x {
        assert(slot_ok(n2, r2, x));
        assert(slot_ok(n2, r2, y));
        if reaches(nodes, rank, y, x) {
            lemma_reaches_concrete(nodes, rank, y, x);
        }
        lemma_redirect_unreached(nodes, rank, x, y, y);
    } else if reaches(nodes, rank, z, x) {
        let t = nodes[z]->Redirect_target as int;
        assert(slot_ok(nodes, rank, t));
        assert(slot_ok(n2, r2, z));
        assert(slot_ok(n2, r2, t));
        lemma_redirect_concrete(nodes, rank, x, y, t);
    } else {
        lemma_redirect_unreached(nodes, rank, x, y, z);
    }
}

/// A slot whose redirects do not pass through `x` leads where it led.
pub proof fn lemma_redirect_unreached(nodes: Seq<NodeView>, rank: Seq<nat>, x: int, y: int, w: int)
    requires
        slots_wf(nodes, rank),
        0 <= x < nodes.len(),
        0 <= y < nodes.len(),
        y <= usize::MAX,
        0 <= w < nodes.len(),
        concrete_of(nodes, rank, x) != concrete_of(nodes, rank, y),
        !reaches(nodes, rank, w, x),
    ensures
        concrete_of(
            nodes.update(x, NodeView::Redirect { target: y as usize }),
            redirect_rank(nodes, rank, x, y),
            w,
        ) == concrete_of(nodes, rank, w),
    decreases rank[w],
{
    lemma_redirect_wf(nodes, rank, x, y);
    assert(slot_ok(nodes, rank, w));
    let n2 = nodes.update(x, NodeView::Redirect { target: y as usize });
    let r2 = redirect_rank(nodes, rank, x, y);
    assert(slot_ok(n2, r2, w));
    if nodes[w] is Redirect {
        let t = nodes[w]->Redirect_target as int;
        assert(slot_ok(nodes, rank, t));
        assert(slot_ok(n2, r2, t));
        lemma_redirect_unreached(nodes, rank, x, y, t);
    }
}

/// The number of value slots the type `h` leads to takes up, looking at most
/// `fuel` struct levels deep: a struct takes up the slots of all its fields,
/// any other type one slot. `None` when `fuel` does not reach the bottom.
pub open spec fn size_within(nodes: Seq<NodeView>, rank: Seq<nat>, h: int, fuel: nat) -> Option<nat>
    decreases fuel, 0nat,
{
    let c = concrete_of(nodes, rank, h);
    match nodes[c] {
        NodeView::Type { ty: TypeView::Struct { fields }, .. } => if fuel == 0 {
            None
        } else {
            fields_size_within(nodes, rank, fields, (fuel - 1) as nat)
        },
        _ => Some(1),
    }
}

/// The slots all of `fields` take up together; see [`size_within`].
pub open spec fn fields_size_within(
    nodes: Seq<NodeView>,
    rank: Seq<nat>,
    fields: Seq<usize>,
    fuel: nat,
) -> Option<nat>
    decreases fuel, fields.len() + 1,
{
    if fields.len() == 0 {
        Some(0)
    } else {
        match (
            fields_size_within(nodes, rank, fields.drop_last(), fuel),
            size_within(nodes, rank, fields.last() as int, fuel),
        ) {
            (Some(a), Some(b)) => Some(a + b),
            _ => None,
        }
    }
}

/// Looking deeper does not change a size that was found.
pub proof fn lemma_size_within_mono(
    nodes: Seq<NodeView>,
    rank: Seq<nat>,
    h: int,
    fields: Seq<usize>,
    f1: nat,
    f2: nat,
)
    requires
        f1 <= f2,
    ensures
        size_within(nodes, rank, h, f1) is Some ==> size_within(nodes, rank, h, f2) == size_within(
            nodes,
            rank,
            h,
            f1,
        ),
        fields_size_within(nodes, rank, fields, f1) is Some ==> fields_size_within(
            nodes,
            rank,
            fields,
            f2,
        ) == fields_size_within(nodes, rank, fields, f1),
    decreases f1, fields.len(),
{
    if f1 > 0 {
        lemma_size_within_mono(nodes, rank, h, concrete_fields(nodes, rank, h), (f1 - 1) as nat, (f2 - 1) as nat);
    }
    if fields.len() > 0 {
        lemma_size_within_mono(nodes, rank, fields.last() as int, fields.drop_last(), f1, f2);
    }
}

/// The fields of the struct type `h` leads to, if it is one.
pub open spec fn concrete_fields(nodes: Seq<NodeView>, rank: Seq<nat>, h: int) -> Seq<usize> {
    nodes[concrete_of(nodes, rank, h)]->Type_ty->Struct_fields
}

/// Adding up field sizes one at a time.
pub proof fn lemma_fields_prefix(
    nodes: Seq<NodeView>,
    rank: Seq<nat>,
    fields: Seq<usize>,
    fuel: nat,
    i: int,
)
    requires
        fields_size_within(nodes, rank, fields, fuel) is Some,
        0 <= i < fields.len(),
    ensures
        fields_size_within(nodes, rank, fields.take(i), fuel) is Some,
        size_within(nodes, rank, fields[i] as int, fuel) is Some,
        fields_size_within(nodes, rank, fields.take(i + 1), fuel) == Some(
            fields_size_within(nodes, rank, fields.take(i), fuel).unwrap() + size_within(
                nodes,
                rank,
                fields[i] as int,
                fuel,
            ).unwrap(),
        ),
        fields_size_within(nodes, rank, fields.take(i + 1), fuel).unwrap() <= fields_size_within(
            nodes,
            rank,
            fields,
            fuel,
        ).unwrap(),
    decreases fields.len(),
{
    if i == fields.len() - 1 {
        assert(fields.take(i + 1) =~= fields);
        assert(fields.take(i) =~= fields.drop_last());
    } else {
        lemma_fields_prefix(nodes, rank, fields.drop_last(), fuel, i);
        assert(fields.drop_last().take(i) =~= fields.take(i));
        assert(fields.drop_last().take(i + 1) =~= fields.take(i + 1));
    }
}

/// The arena that owns every type slot of a decompilation. Slots are named
/// by their index, their handle; a slot lives as long as the store.
pub struct TypeStore {
    nodes: Vec<LinkedValueType>,
    rank: Ghost<Seq<nat>>,
}

impl View for TypeStore {
    type V = Seq<NodeView>;

    closed spec fn view(&self) -> Seq<NodeView> {
        self.nodes@.map_values(|n: LinkedValueType| n@)
    }
}

impl TypeStore {
    /// The slots are well formed: handles are in range and redirects never
    /// loop.
    pub closed spec fn wf(&self) -> bool {
        slots_wf(self@, self.rank@)
    }

    /// The slot that holds the type of `h`, after following redirects.
    pub closed spec fn concrete(&self, h: int) -> int {
        concrete_of(self@, self.rank@, h)
    }

    /// The type and confidence held for `h`, after following redirects.
    pub open spec fn concrete_view(&self, h: int) -> NodeView {
        self@[self.concrete(h)]
    }

    /// Following redirects from a slot ends in range, at a slot with a type;
    /// a slot with a type is its own concrete slot.
    pub proof fn lemma_concrete(&self, h: int)
        requires
            self.wf(),
            0 <= h < self@.len(),
        ensures
            0 <= self.concrete(h) < self@.len(),
            self@[self.concrete(h)] is Type,
            self@[h] is Type ==> self.concrete(h) == h,
            self@[h] is Redirect ==> self.concrete(h) == self.concrete(
                self@[h]->Redirect_target as int,
            ),
            self.concrete(self.concrete(h)) == self.concrete(h),
            self@[h].handles_below(self@.len()),
    {
        lemma_concrete_of(self@, self.rank@, h);
        lemma_concrete_of(self@, self.rank@, self.concrete(h));
        assert(slot_ok(self@, self.rank@, h));
    }

    /// Handles that exist name slots of in-range types.
    pub proof fn lemma_handles(&self, h: int)
        requires
            self.wf(),
            0 <= h < self@.len(),
        ensures
            self@[h].handles_below(self@.len()),
    {
        assert(slot_ok(self@, self.rank@, h));
    }

    /// An empty store.
    pub fn new() -> (r: TypeStore)
        ensures
            r.wf(),
            r@ == Seq::<NodeView>::empty(),
    {
        let r = TypeStore { nodes: Vec::new(), rank: Ghost(Seq::empty()) };
        assert(r@ =~= Seq::<NodeView>::empty());
        r
    }

    /// The number of slots.
    pub fn len(&self) -> (r: usize)
        ensures
            r == self@.len(),
    {
        self.nodes.len()
    }

    /// The slot `h` as it stands.
    pub fn slot(&self, h: usize) -> (r: &LinkedValueType)
        requires
            h < self@.len(),
        ensures
            r@ == self@[h as int],
    {
        &self.nodes[h]
    }

    /// The old slots keep where they lead.
    pub open spec fn keeps_concretes(&self, old_store: &TypeStore) -> bool {
        &&& old_store@.len() <= self@.len()
        &&& forall|x: int|
            0 <= x < old_store@.len() ==> #[trigger] self.concrete(x) == old_store.concrete(x)
    }



    /// Whether the type `h` leads to has a size that fits a `usize`.
    pub closed spec fn has_size(&self, h: int) -> bool {
        exists|fuel: nat|
            #[trigger] size_within(self@, self.rank@, h, fuel) matches Some(v) && v <= usize::MAX
    }

    /// The number of value slots the type `h` leads to takes up.
    pub closed spec fn size_of(&self, h: int) -> nat {
        size_within(
            self@,
            self.rank@,
            h,
            choose|fuel: nat|
                #[trigger] size_within(self@, self.rank@, h, fuel) matches Some(v) && v <= usize::MAX,
        ).unwrap()
    }

    /// The slots `fields` take up together, each as `size_of` gives it.
    pub open spec fn fields_size(&self, fields: Seq<usize>) -> nat
        decreases fields.len(),
    {
        if fields.len() == 0 {
            0
        } else {
            self.fields_size(fields.drop_last()) + self.size_of(fields.last() as int)
        }
    }

    /// A depth at which all of `fields` have their sizes, adding up to
    /// `fields_size`.
    proof fn lemma_fields_sum(&self, fields: Seq<usize>) -> (fuel: nat)
        requires
            forall|i: int| 0 <= i < fields.len() ==> self.has_size(#[trigger] fields[i] as int),
        ensures
            fields_size_within(self@, self.rank@, fields, fuel) == Some(self.fields_size(fields)),
        decreases fields.len(),
    {
        if fields.len() == 0 {
            0
        } else {
            let f1 = self.lemma_fields_sum(fields.drop_last());
            let h = fields.last() as int;
            assert(self.has_size(fields[fields.len() - 1] as int));
            let f2 = choose|fuel: nat|
                #[trigger] size_within(self@, self.rank@, h, fuel) matches Some(v) && v <= usize::MAX;
            let f = if f1 <= f2 { f2 } else { f1 };
            lemma_size_within_mono(self@, self.rank@, h, fields.drop_last(), f1, f);
            lemma_size_within_mono(self@, self.rank@, h, Seq::empty(), f2, f);
            f
        }
    }

    /// A struct takes up the slots of all its fields: where each field has a
    /// size and together they fit a `usize`, the struct has their sum.
    pub proof fn lemma_struct_size(&self, h: int)
        requires
            self.wf(),
            0 <= h < self@.len(),
            self.concrete_view(h)->Type_ty is Struct,
            forall|i: int|
                0 <= i < self.concrete_view(h)->Type_ty->Struct_fields.len() ==> self.has_size(
                    #[trigger] self.concrete_view(h)->Type_ty->Struct_fields[i] as int,
                ),
            self.fields_size(self.concrete_view(h)->Type_ty->Struct_fields) <= usize::MAX,
        ensures
            self.has_size(h),
            self.size_of(h) == self.fields_size(self.concrete_view(h)->Type_ty->Struct_fields),
    {
        let fields = self.concrete_view(h)->Type_ty->Struct_fields;
        let f = self.lemma_fields_sum(fields);
        self.lemma_concrete(h);
        let c = concrete_of(self@, self.rank@, h);
        assert(self@[c] matches NodeView::Type { ty: TypeView::Struct { fields: fs }, .. } && fs == fields);
        assert(size_within(self@, self.rank@, h, f + 1) == fields_size_within(self@, self.rank@, fields, f));
        let k = choose|fuel: nat|
            #[trigger] size_within(self@, self.rank@, h, fuel) matches Some(v) && v <= usize::MAX;
        if k <= f + 1 {
            lemma_size_within_mono(self@, self.rank@, h, fields, k, f + 1);
        } else {
            lemma_size_within_mono(self@, self.rank@, h, fields, f + 1, k);
        }
    }

    /// A type that is not a struct takes up one slot.
    pub proof fn lemma_size_not_struct(&self, h: int)
        requires
            self.wf(),
            0 <= h < self@.len(),
            !(self.concrete_view(h)->Type_ty is Struct),
        ensures
            self.has_size(h),
            self.size_of(h) == 1,
    {
        self.lemma_concrete(h);
        assert(size_within(self@, self.rank@, h, 0) == Some(1nat));
        let f = choose|fuel: nat|
            #[trigger] size_within(self@, self.rank@, h, fuel) matches Some(v) && v <= usize::MAX;
        assert(size_within(self@, self.rank@, h, f) == Some(1nat));
    }

    /// The size of `h`, looking at most `fuel` struct levels deep.
    fn size_rec(&self, h: usize, Ghost(fuel): Ghost<nat>) -> (r: usize)
        requires
            self.wf(),
            h < self@.len(),
            size_within(self@, self.rank@, h as int, fuel) matches Some(v) && v <= usize::MAX,
        ensures
            size_within(self@, self.rank@, h as int, fuel) == Some(r as nat),
        decreases fuel,
    {
        let c = self.concrete_slot(h);
        proof {
            self.lemma_concrete(h as int);
            self.lemma_concrete(c as int);
        }
        match &self.nodes[c] {
            LinkedValueType::Type(info) => match &info.ty {
                ValueType::Struct { fields } => {
                    assert(self@[c as int] == self.nodes@[c as int]@);
                    assert(fuel > 0);
                    let ghost f = (fuel - 1) as nat;
                    let ghost total = size_within(self@, self.rank@, h as int, fuel).unwrap();
                    assert(fields@ == concrete_fields(self@, self.rank@, h as int));
                    let mut sum: usize = 0;
                    let mut i: usize = 0;
                    assert(fields@.take(0) =~= Seq::<usize>::empty());
                    while i < fields.len()
                        invariant
                            self.wf(),
                            0 <= i <= fields@.len(),
                            fields_size_within(self@, self.rank@, fields@, f) == Some(total),
                            total <= usize::MAX,
                            fields_size_within(self@, self.rank@, fields@.take(i as int), f) == Some(
                                sum as nat,
                            ),
                            forall|k: int| 0 <= k < fields@.len() ==> fields@[k] < self@.len(),
                            f < fuel,
                        decreases fields@.len() - i,
                    {
                        proof {
                            lemma_fields_prefix(self@, self.rank@, fields@, f, i as int);
                        }
                        let s = self.size_rec(fields[i], Ghost(f));
                        sum = sum + s;
                        i = i + 1;
                    }
                    assert(fields@.take(fields@.len() as int) =~= fields@);
                    sum
                },
                _ => 1,
            },
            LinkedValueType::Redirect(_) => {
                proof {
                    assert(false);
                }
                1
            },
        }
    }

    /// Redirects slot `x` to slot `y`, which leads elsewhere.
    fn redirect(&mut self, x: usize, y: usize)
        requires
            old(self).wf(),
            x < old(self)@.len(),
            y < old(self)@.len(),
            old(self).concrete(x as int) != old(self).concrete(y as int),
        ensures
            final(self).wf(),
            final(self)@ == old(self)@.update(x as int, NodeView::Redirect { target: y }),
            forall|z: int|
                0 <= z < old(self)@.len() ==> #[trigger] final(self).concrete(z) == if reaches(
                    old(self)@,
                    old(self).rank@,
                    z,
                    x as int,
                ) {
                    old(self).concrete(y as int)
                } else {
                    old(self).concrete(z)
                },
            final(self).concrete(x as int) == old(self).concrete(y as int),
            final(self).concrete(y as int) == old(self).concrete(y as int),
    {
        let ghost old_nodes = self@;
        let ghost old_rank = self.rank@;
        self.nodes.set(x, LinkedValueType::Redirect(y));
        self.rank = Ghost(redirect_rank(old_nodes, old_rank, x as int, y as int));
        proof {
            assert(self@ =~= old_nodes.update(x as int, NodeView::Redirect { target: y }));
            lemma_redirect_wf(old_nodes, old_rank, x as int, y as int);
            assert forall|z: int| 0 <= z < old_nodes.len() implies #[trigger] self.concrete(z)
                == if reaches(old_nodes, old_rank, z, x as int) {
                concrete_of(old_nodes, old_rank, y as int)
            } else {
                concrete_of(old_nodes, old_rank, z)
            } by {
                lemma_redirect_concrete(old_nodes, old_rank, x as int, y as int, z);
            }
            assert(slot_ok(old_nodes, old_rank, x as int));
            assert(reaches(old_nodes, old_rank, x as int, x as int));
            if reaches(old_nodes, old_rank, y as int, x as int) {
                lemma_reaches_concrete(old_nodes, old_rank, y as int, x as int);
            }
        }
    }

    /// The slot `h` leads to, following redirects.
    fn concrete_slot(&self, h: usize) -> (r: usize)
        requires
            self.wf(),
            h < self@.len(),
        ensures
            r == self.concrete(h as int),
            r < self@.len(),
            self@[r as int] is Type,
    {
        proof {
            self.lemma_concrete(h as int);
        }
        let mut cur = h;
        loop
            invariant
                self.wf(),
                cur < self@.len(),
                self.concrete(cur as int) == self.concrete(h as int),
            decreases self.rank@[cur as int],
        {
            proof {
                self.lemma_concrete(cur as int);
                assert(slot_ok(self@, self.rank@, cur as int));
            }
            match &self.nodes[cur] {
                LinkedValueType::Type(_) => {
                    return cur;
                },
                LinkedValueType::Redirect(r) => {
                    assert(self@[cur as int] is Redirect);
                    cur = *r;
                },
            }
        }
    }


    /// Appends one slot of unknown type and gives its handle.
    pub fn push_unknown_slot(&mut self) -> (h: usize)
        requires
            old(self).wf(),
        ensures
            final(self).wf(),
            final(self)@ == old(self)@.push(unknown_view()),
            h == old(self)@.len(),
            final(self).keeps_concretes(old(self)),
    {
        self.push_node(LinkedValueType::new_primitive(Primitives::Unknown))
    }

    /// Appends `k` slots of unknown type and appends their handles to
    /// `handles`.
    pub fn push_unknown_slots(&mut self, k: usize, handles: &mut Vec<usize>)
        requires
            old(self).wf(),
            old(self)@.len() + k <= usize::MAX,
        ensures
            final(self).wf(),
            final(self)@ == old(self)@ + unknown_views(k as nat),
            final(handles)@ == old(handles)@ + fresh_handles(old(self)@.len(), k as nat),
            final(self).keeps_concretes(old(self)),
    {
        self.push_unknowns(k, handles)
    }

    /// Appends a slot and gives its handle.
    fn push_node(&mut self, node: LinkedValueType) -> (h: usize)
        requires
            old(self).wf(),
            node@.handles_below(old(self)@.len()),
        ensures
            final(self).wf(),
            final(self)@ == old(self)@.push(node@),
            h == old(self)@.len(),
            final(self).keeps_concretes(old(self)),
    {
        let ghost old_nodes = self@;
        let ghost old_rank = self.rank@;
        let h = self.nodes.len();
        let ghost new_rank: nat = match node@ {
            NodeView::Redirect { target } => old_rank[target as int] + 1,
            _ => 0,
        };
        let ghost nv = node@;
        self.nodes.push(node);
        self.rank = Ghost(old_rank.push(new_rank));
        proof {
            assert(self@ =~= old_nodes.push(nv));
            assert forall|x: int| 0 <= x < self@.len() implies #[trigger] slot_ok(self@, self.rank@, x) by {
                if x < old_nodes.len() {
                    assert(slot_ok(old_nodes, old_rank, x));
                }
            }
            assert forall|x: int|
                0 <= x < old_nodes.len() implies #[trigger] self.concrete(x) == concrete_of(
                old_nodes,
                old_rank,
                x,
            ) by {
                lemma_concrete_stable(old_nodes, old_rank, self@, self.rank@, x);
            }
        }
        h
    }

    /// Puts a type into slot `h`, which holds a type already.
    fn set_type(&mut self, h: usize, info: ValueTypeInfo)
        requires
            old(self).wf(),
            h < old(self)@.len(),
            old(self)@[h as int] is Type,
            info.ty@.handles_below(old(self)@.len()),
        ensures
            final(self).wf(),
            final(self)@ == old(self)@.update(h as int, info@),
            final(self).keeps_concretes(old(self)),
    {
        let ghost old_nodes = self@;
        let ghost iv = info@;
        assert(slot_ok(old_nodes, self.rank@, h as int));
        self.nodes.set(h, LinkedValueType::Type(info));
        proof {
            assert(self@ =~= old_nodes.update(h as int, iv));
            assert forall|x: int| 0 <= x < self@.len() implies #[trigger] slot_ok(self@, self.rank@, x) by {
                assert(slot_ok(old_nodes, self.rank@, x));
            }
            assert forall|x: int|
                0 <= x < old_nodes.len() implies #[trigger] self.concrete(x) == concrete_of(
                old_nodes,
                self.rank@,
                x,
            ) by {
                lemma_concrete_stable(old_nodes, self.rank@, self@, self.rank@, x);
            }
        }
    }

    /// Takes the type out of slot `h`, leaving an unknown type in its place.
    fn take_type(&mut self, h: usize) -> (r: ValueTypeInfo)
        requires
            old(self).wf(),
            h < old(self)@.len(),
            old(self)@[h as int] is Type,
        ensures
            final(self).wf(),
            final(self)@ == old(self)@.update(h as int, unknown_view()),
            final(self).keeps_concretes(old(self)),
            r@ == old(self)@[h as int],
    {
        let ghost old_nodes = self@;
        assert(slot_ok(old_nodes, self.rank@, h as int));
        let mut slot = LinkedValueType::new_primitive(Primitives::Unknown);
        self.nodes.set_and_swap(h, &mut slot);
        proof {
            assert(self@ =~= old_nodes.update(h as int, unknown_view()));
            assert forall|x: int| 0 <= x < self@.len() implies #[trigger] slot_ok(self@, self.rank@, x) by {
                assert(slot_ok(old_nodes, self.rank@, x));
            }
            assert forall|x: int|
                0 <= x < old_nodes.len() implies #[trigger] self.concrete(x) == concrete_of(
                old_nodes,
                self.rank@,
                x,
            ) by {
                lemma_concrete_stable(old_nodes, self.rank@, self@, self.rank@, x);
            }
        }
        match slot {
            LinkedValueType::Type(info) => info,
            LinkedValueType::Redirect(_) => {
                proof {
                    assert(false);
                }
                ValueTypeInfo { ty: ValueType::Primitive(Primitives::Unknown), confidence: Confidence::Absent }
            },
        }
    }

    /// Appends `k` slots of unknown type and appends their handles to
    /// `handles`.
    fn push_unknowns(&mut self, k: usize, handles: &mut Vec<usize>)
        requires
            old(self).wf(),
            old(self)@.len() + k <= usize::MAX,
        ensures
            final(self).wf(),
            final(self)@ == old(self)@ + unknown_views(k as nat),
            final(handles)@ == old(handles)@ + fresh_handles(old(self)@.len(), k as nat),
            final(self).keeps_concretes(old(self)),
    {
        let ghost start = self@;
        let ghost start_store = *self;
        let ghost start_handles = handles@;
        let mut i: usize = 0;
        while i < k
            invariant
                self.wf(),
                0 <= i <= k,
                start.len() + k <= usize::MAX,
                self@ == start + unknown_views(i as nat),
                handles@ == start_handles + fresh_handles(start.len(), i as nat),
                self.keeps_concretes(&start_store),
                start_store@ == start,
            decreases k - i,
        {
            let ghost before = *self;
            let h = self.push_node(LinkedValueType::new_primitive(Primitives::Unknown));
            handles.push(h);
            i = i + 1;
            proof {
                assert(self@ =~= start + unknown_views(i as nat));
                assert(handles@ =~= start_handles + fresh_handles(start.len(), i as nat));
                assert forall|x: int| 0 <= x < start.len() implies #[trigger] self.concrete(x)
                    == start_store.concrete(x) by {
                    assert(self.concrete(x) == before.concrete(x));
                }
            }
        }
    }
}


/// `old_store` with `k` unknown slots appended and slot `c` holding `node`.
pub open spec fn grown_with(old_store: Seq<NodeView>, k: nat, c: int, node: NodeView) -> Seq<NodeView> {
    (old_store + unknown_views(k)).update(c, node)
}

/// What `LinkedValueType::link` does to the store.
pub open spec fn link_post(old_store: TypeStore, new_store: TypeStore, a: usize, b: usize) -> bool {
    &&& new_store.wf()
    &&& old_store.concrete(a as int) == old_store.concrete(b as int) ==> new_store@ == old_store@
    &&& old_store.concrete(a as int) != old_store.concrete(b as int) && old_store.concrete_view(a as int)->Type_confidence.level() > old_store.concrete_view(b as int)->Type_confidence.level() ==> new_store@ == old_store@.update(b as int, NodeView::Redirect { target: a })
    &&& old_store.concrete(a as int) != old_store.concrete(b as int) && !(old_store.concrete_view(a as int)->Type_confidence.level() > old_store.concrete_view( b as int, )->Type_confidence.level()) ==> new_store@ == old_store@.update( a as int, NodeView::Redirect { target: b }, )
    &&& new_store.concrete(a as int) == new_store.concrete(b as int)
    &&& forall|z: int| 0 <= z < old_store@.len() ==> #[trigger] new_store.concrete(z) == old_store.concrete(z) || new_store.concrete(z) == new_store.concrete(a as int)
}

/// What `LinkedValueType::confidence` does to the store.
pub open spec fn confidence_post(old_store: TypeStore, new_store: TypeStore, ty: usize, confidence: Confidence) -> bool {
    &&& new_store.wf()
    &&& new_store.keeps_concretes(&old_store)
    &&& new_store@ == old_store@.update( old_store.concrete(ty as int), NodeView::Type { ty: old_store.concrete_view(ty as int)->Type_ty, confidence }, )
}

/// What `LinkedValueType::ref_type` does to the store and what it returns.
pub open spec fn ref_type_post(old_store: TypeStore, new_store: TypeStore, ty: usize, r: usize) -> bool {
    &&& new_store.wf()
    &&& new_store.keeps_concretes(&old_store)
    &&& r < new_store@.len()
    &&& old_store.concrete_view(ty as int)->Type_ty is Ref ==> r == old_store.concrete_view( ty as int, )->Type_ty->Ref_target && new_store@ == old_store@.update( old_store.concrete(ty as int), NodeView::Type { ty: TypeView::Ref { target: r }, confidence: Confidence::High }, )
    &&& !(old_store.concrete_view(ty as int)->Type_ty is Ref) ==> r == old_store@.len() && new_store@ == grown_with( old_store@, 1, old_store.concrete(ty as int), NodeView::Type { ty: TypeView::Ref { target: r }, confidence: Confidence::High }, )
}

/// What `LinkedValueType::array_item_type` does to the store and what it returns.
pub open spec fn array_item_type_post(old_store: TypeStore, new_store: TypeStore, ty: usize, r: usize) -> bool {
    &&& new_store.wf()
    &&& new_store.keeps_concretes(&old_store)
    &&& r < new_store@.len()
    &&& old_store.concrete_view(ty as int)->Type_ty is Array ==> r == old_store.concrete_view( ty as int, )->Type_ty->Array_item_type && new_store@ == old_store@
    &&& !(old_store.concrete_view(ty as int)->Type_ty is Array) ==> r == old_store@.len() && new_store@ == grown_with( old_store@, 1, old_store.concrete(ty as int), NodeView::Type { ty: TypeView::Array { item_type: r }, confidence: Confidence::High }, )
}

/// What `LinkedValueType::struct_field` does to the store and what it returns.
pub open spec fn struct_field_post(old_store: TypeStore, new_store: TypeStore, ty: usize, field: usize, r: usize) -> bool {
    &&& new_store.wf()
    &&& new_store.keeps_concretes(&old_store)
    &&& r < new_store@.len()
    &&& ({ let cv = old_store.concrete_view(ty as int); let c = old_store.concrete(ty as int); let n = old_store@.len(); let fields = cv->Type_ty->Struct_fields; &&& (cv->Type_ty is Struct && field < fields.len()) ==> (r == fields[field as int] && new_store@ == old_store@) &&& (cv->Type_ty is Struct && field >= fields.len()) ==> (r == n + field - fields.len() && new_store@ == grown_with( old_store@, (field + 1 - fields.len()) as nat, c, NodeView::Type { ty: TypeView::Struct { fields: fields + fresh_handles(n, (field + 1 - fields.len()) as nat), }, confidence: cv->Type_confidence, }, )) &&& !(cv->Type_ty is Struct) ==> (r == n + field && new_store@ == grown_with( old_store@, (field + 1) as nat, c, NodeView::Type { ty: TypeView::Struct { fields: fresh_handles(n, (field + 1) as nat) }, confidence: Confidence::Medium, }, )) })
}

/// What `LinkedValueType::struct_size` does to the store.
pub open spec fn struct_size_post(old_store: TypeStore, new_store: TypeStore, ty: usize, size: usize) -> bool {
    &&& new_store.wf()
    &&& new_store.keeps_concretes(&old_store)
    &&& ({ let cv = old_store.concrete_view(ty as int); let c = old_store.concrete(ty as int); let n = old_store@.len(); let fields = cv->Type_ty->Struct_fields; &&& size <= 1 ==> new_store@ == old_store@ &&& size > 1 && cv->Type_ty is Struct && fields.len() > size ==> new_store@ == old_store@ &&& size > 1 && cv->Type_ty is Struct && fields.len() <= size ==> new_store@ == grown_with( old_store@, (size - fields.len()) as nat, c, NodeView::Type { ty: TypeView::Struct { fields: fields + fresh_handles(n, (size - fields.len()) as nat), }, confidence: cv->Type_confidence, }, ) &&& size > 1 && !(cv->Type_ty is Struct) ==> new_store@ == grown_with( old_store@, size as nat, c, NodeView::Type { ty: TypeView::Struct { fields: fresh_handles(n, size as nat) }, confidence: Confidence::Medium, }, ) })
}

/// What `LinkedValueType::hint` does to the store.
pub open spec fn hint_post(old_store: TypeStore, new_store: TypeStore, ty: usize, ty_info: ValueTypeInfo) -> bool {
    &&& new_store.wf()
    &&& new_store.keeps_concretes(&old_store)
    &&& ty_info.confidence.level() > old_store.concrete_view(ty as int)->Type_confidence.level() ==> new_store@ == old_store@.update(old_store.concrete(ty as int), ty_info@)
    &&& !(ty_info.confidence.level() > old_store.concrete_view( ty as int, )->Type_confidence.level()) ==> new_store@ == old_store@
}

/// Linking two types makes both lead to one concrete slot, and linking
/// them again changes nothing.
pub proof fn lemma_link_shares(st0: TypeStore, st1: TypeStore, st2: TypeStore, a: usize, b: usize)
    requires
        link_post(st0, st1, a, b),
        link_post(st1, st2, a, b),
    ensures
        st1.concrete(a as int) == st1.concrete(b as int),
        st2@ == st1@,
{
}

/// The reference type `ref_type` gives is the slot the reference holds:
/// asked again, it gives the same slot and leaves the store as it was.
pub proof fn lemma_ref_type_stable(st0: TypeStore, st1: TypeStore, st2: TypeStore, ty: usize, r1: usize, r2: usize)
    requires
        st0.wf(),
        ty < st0@.len(),
        ref_type_post(st0, st1, ty, r1),
        ref_type_post(st1, st2, ty, r2),
    ensures
        r2 == r1,
        st2@ == st1@,
{
    st0.lemma_concrete(ty as int);
    let c = st0.concrete(ty as int);
    assert(st1.concrete(ty as int) == c);
    assert(st1@[c] == NodeView::Type { ty: TypeView::Ref { target: r1 }, confidence: Confidence::High });
    assert(st2@ =~= st1@);
}

/// The field `struct_field` gives is the struct's own slot for it: asked
/// again, it gives the same slot and leaves the store as it was.
pub proof fn lemma_struct_field_stable(
    st0: TypeStore,
    st1: TypeStore,
    st2: TypeStore,
    ty: usize,
    field: usize,
    r1: usize,
    r2: usize,
)
    requires
        st0.wf(),
        ty < st0@.len(),
        struct_field_post(st0, st1, ty, field, r1),
        struct_field_post(st1, st2, ty, field, r2),
    ensures
        r2 == r1,
        st2@ == st1@,
{
    st0.lemma_concrete(ty as int);
    let c = st0.concrete(ty as int);
    assert(st1.concrete(ty as int) == c);
    let cv = st0.concrete_view(ty as int);
    let n = st0@.len();
    if cv->Type_ty is Struct {
        let fields = cv->Type_ty->Struct_fields;
        if field >= fields.len() {
            let grown = fields + fresh_handles(n, (field + 1 - fields.len()) as nat);
            assert(st1@[c] == NodeView::Type { ty: TypeView::Struct { fields: grown }, confidence: cv->Type_confidence });
            assert(grown[field as int] == r1);
        }
    } else {
        let grown = fresh_handles(n, (field + 1) as nat);
        assert(st1@[c] == NodeView::Type { ty: TypeView::Struct { fields: grown }, confidence: Confidence::Medium });
        assert(grown[field as int] == r1);
    }
}

/// How much `struct_field` can grow the store.
pub proof fn lemma_struct_field_growth(
    old_store: TypeStore,
    new_store: TypeStore,
    ty: usize,
    field: usize,
    r: usize,
)
    requires
        old_store.wf(),
        ty < old_store@.len(),
        struct_field_post(old_store, new_store, ty, field, r),
    ensures
        old_store@.len() <= new_store@.len() <= old_store@.len() + field + 1,
{
    old_store.lemma_concrete(ty as int);
}

/// How much `struct_size` can grow the store.
pub proof fn lemma_struct_size_growth(old_store: TypeStore, new_store: TypeStore, ty: usize, size: usize)
    requires
        old_store.wf(),
        ty < old_store@.len(),
        struct_size_post(old_store, new_store, ty, size),
    ensures
        old_store@.len() <= new_store@.len() <= old_store@.len() + size,
{
    old_store.lemma_concrete(ty as int);
}

/// `ref_type` and `array_item_type` grow the store by at most one slot.
pub proof fn lemma_item_type_growth(old_store: TypeStore, new_store: TypeStore, ty: usize, r: usize)
    requires
        old_store.wf(),
        ty < old_store@.len(),
        ref_type_post(old_store, new_store, ty, r) || array_item_type_post(
            old_store,
            new_store,
            ty,
            r,
        ),
    ensures
        old_store@.len() <= new_store@.len() <= old_store@.len() + 1,
{
    old_store.lemma_concrete(ty as int);
}

/// `hint` keeps the number of slots.
pub proof fn lemma_hint_growth(old_store: TypeStore, new_store: TypeStore, ty: usize, ty_info: ValueTypeInfo)
    requires
        old_store.wf(),
        ty < old_store@.len(),
        hint_post(old_store, new_store, ty, ty_info),
    ensures
        new_store@.len() == old_store@.len(),
{
    old_store.lemma_concrete(ty as int);
}

impl LinkedValueType {
    /// A slot of the given primitive type, held with no confidence.
    pub fn new_primitive(primitive: Primitives) -> (r: Self)
        ensures
            r@ == (NodeView::Type {
                ty: TypeView::Primitive { primitive },
                confidence: Confidence::Absent,
            }),
    {
        LinkedValueType::Type(
            ValueTypeInfo { ty: ValueType::Primitive(primitive), confidence: Confidence::Absent },
        )
    }

    /// A slot holding a reference to the type of `ref_type`, held with no
    /// confidence.
    pub fn new_ref(ref_type: usize) -> (r: Self)
        ensures
            r@ == (NodeView::Type { ty: TypeView::Ref { target: ref_type }, confidence: Confidence::Absent }),
    {
        LinkedValueType::Type(ValueTypeInfo { ty: ValueType::Ref(ref_type), confidence: Confidence::Absent })
    }

    /// Puts the slot into `store`, where it can be shared, and gives its
    /// handle.
    pub fn make_shared(self, store: &mut TypeStore) -> (h: usize)
        requires
            old(store).wf(),
            self@.handles_below(old(store)@.len()),
        ensures
            final(store).wf(),
            final(store)@ == old(store)@.push(self@),
            h == old(store)@.len(),
            final(store).keeps_concretes(old(store)),
    {
        store.push_node(self)
    }

    /// A copy of the type `ty` leads to.
    pub fn get_concrete(store: &TypeStore, ty: usize) -> (r: ValueTypeInfo)
        requires
            store.wf(),
            ty < store@.len(),
        ensures
            r@ == store.concrete_view(ty as int),
    {
        let c = store.concrete_slot(ty);
        match &store.nodes[c] {
            LinkedValueType::Type(info) => info.copy(),
            LinkedValueType::Redirect(_) => {
                proof {
                    assert(false);
                }
                ValueTypeInfo { ty: ValueType::Primitive(Primitives::Unknown), confidence: Confidence::Absent }
            },
        }
    }

    /// The slot `ty` leads to.
    pub fn get_concrete_ptr(store: &TypeStore, ty: usize) -> (r: usize)
        requires
            store.wf(),
            ty < store@.len(),
        ensures
            r == store.concrete(ty as int),
    {
        store.concrete_slot(ty)
    }

    /// Unifies the types of `a` and `b`. Unless they lead to the same slot
    /// already, the one whose type is held with more confidence wins: the
    /// other slot (`b` when `a` is held with strictly more confidence, `a`
    /// otherwise) is redirected to the winner.
    pub fn link(store: &mut TypeStore, a: usize, b: usize)
        requires
            old(store).wf(),
            a < old(store)@.len(),
            b < old(store)@.len(),
        ensures
            link_post(*old(store), *final(store), a, b),
    {
        let pa = store.concrete_slot(a);
        let pb = store.concrete_slot(b);
        if pa == pb {
            return ;
        }
        let ca = match &store.nodes[pa] {
            LinkedValueType::Type(info) => info.confidence,
            LinkedValueType::Redirect(_) => Confidence::Absent,
        };
        let cb = match &store.nodes[pb] {
            LinkedValueType::Type(info) => info.confidence,
            LinkedValueType::Redirect(_) => Confidence::Absent,
        };
        let ghost old_store = *store;
        if ca.exceeds(&cb) {
            store.redirect(b, a);
            proof {
                old_store.lemma_concrete(a as int);
                assert forall|z: int| 0 <= z < old_store@.len() implies #[trigger] store.concrete(z)
                    == old_store.concrete(z) || store.concrete(z) == store.concrete(a as int) by {
                    if reaches(old_store@, old_store.rank@, a as int, b as int) {
                        lemma_reaches_concrete(old_store@, old_store.rank@, a as int, b as int);
                    }
                }
            }
        } else {
            store.redirect(a, b);
            proof {
                old_store.lemma_concrete(b as int);
                if reaches(old_store@, old_store.rank@, b as int, a as int) {
                    lemma_reaches_concrete(old_store@, old_store.rank@, b as int, a as int);
                }
            }
        }
    }

    /// Sets the confidence of the type `ty` leads to.
    pub fn confidence(store: &mut TypeStore, ty: usize, confidence: Confidence)
        requires
            old(store).wf(),
            ty < old(store)@.len(),
        ensures
            confidence_post(*old(store), *final(store), ty, confidence),
    {
        let c = store.concrete_slot(ty);
        proof {
            store.lemma_concrete(ty as int);
            store.lemma_concrete(c as int);
        }
        let ghost old_store = *store;
        let mut info = store.take_type(c);
        info.confidence = confidence;
        store.set_type(c, info);
        proof {
            assert(store@ =~= old_store@.update(
                c as int,
                NodeView::Type { ty: old_store.concrete_view(ty as int)->Type_ty, confidence },
            ));
        }
    }

    /// The type the reference `ty` leads to points at. A type that is not a
    /// reference yet becomes a reference to a fresh unknown slot. Either way
    /// the reference is then held with high confidence.
    pub fn ref_type(store: &mut TypeStore, ty: usize) -> (r: usize)
        requires
            old(store).wf(),
            ty < old(store)@.len(),
            old(store)@.len() < usize::MAX,
        ensures
            ref_type_post(*old(store), *final(store), ty, r),
    {
        let c = store.concrete_slot(ty);
        proof {
            store.lemma_concrete(ty as int);
            store.lemma_concrete(c as int);
        }
        let ghost old_store = *store;
        let info = store.take_type(c);
        let ghost mid = *store;
        match info.ty {
            ValueType::Ref(r) => {
                store.set_type(c, ValueTypeInfo { ty: ValueType::Ref(r), confidence: Confidence::High });
                proof {
                    assert(store@ =~= old_store@.update(
                        c as int,
                        NodeView::Type { ty: TypeView::Ref { target: r }, confidence: Confidence::High },
                    ));
                    assert forall|x: int| 0 <= x < old_store@.len() implies #[trigger] store.concrete(x)
                        == old_store.concrete(x) by {
                        assert(store.concrete(x) == mid.concrete(x));
                    }
                }
                r
            },
            _ => {
                let inner = store.push_node(LinkedValueType::new_primitive(Primitives::Unknown));
                let ghost mid2 = *store;
                store.set_type(c, ValueTypeInfo { ty: ValueType::Ref(inner), confidence: Confidence::High });
                proof {
                    assert(store@ =~= grown_with(
                        old_store@,
                        1,
                        c as int,
                        NodeView::Type { ty: TypeView::Ref { target: inner }, confidence: Confidence::High },
                    ));
                    assert forall|x: int| 0 <= x < old_store@.len() implies #[trigger] store.concrete(x)
                        == old_store.concrete(x) by {
                        assert(store.concrete(x) == mid2.concrete(x));
                        assert(mid2.concrete(x) == mid.concrete(x));
                    }
                }
                inner
            },
        }
    }

    /// The type of the array items of `ty`. A type that is not an array yet
    /// becomes an array of a fresh unknown slot, held with high confidence.
    pub fn array_item_type(store: &mut TypeStore, ty: usize) -> (r: usize)
        requires
            old(store).wf(),
            ty < old(store)@.len(),
            old(store)@.len() < usize::MAX,
        ensures
            array_item_type_post(*old(store), *final(store), ty, r),
    {
        let c = store.concrete_slot(ty);
        proof {
            store.lemma_concrete(ty as int);
            store.lemma_concrete(c as int);
        }
        let ghost old_store = *store;
        let info = store.take_type(c);
        let ghost mid = *store;
        match info.ty {
            ValueType::Array { item_type } => {
                store.set_type(c, ValueTypeInfo { ty: ValueType::Array { item_type }, confidence: info.confidence });
                proof {
                    assert(store@ =~= old_store@);
                    assert forall|x: int| 0 <= x < old_store@.len() implies #[trigger] store.concrete(x)
                        == old_store.concrete(x) by {
                        assert(store.concrete(x) == mid.concrete(x));
                    }
                }
                item_type
            },
            _ => {
                let inner = store.push_node(LinkedValueType::new_primitive(Primitives::Unknown));
                let ghost mid2 = *store;
                store.set_type(
                    c,
                    ValueTypeInfo { ty: ValueType::Array { item_type: inner }, confidence: Confidence::High },
                );
                proof {
                    assert(store@ =~= grown_with(
                        old_store@,
                        1,
                        c as int,
                        NodeView::Type { ty: TypeView::Array { item_type: inner }, confidence: Confidence::High },
                    ));
                    assert forall|x: int| 0 <= x < old_store@.len() implies #[trigger] store.concrete(x)
                        == old_store.concrete(x) by {
                        assert(store.concrete(x) == mid2.concrete(x));
                        assert(mid2.concrete(x) == mid.concrete(x));
                    }
                }
                inner
            },
        }
    }


    /// The slot for field `field` of the struct type `ty` leads to. A struct
    /// with too few fields grows fresh unknown fields up to `field`; a type
    /// that is not a struct yet becomes a struct of `field + 1` fresh unknown
    /// fields, held with medium confidence.
    pub fn struct_field(store: &mut TypeStore, ty: usize, field: usize) -> (r: usize)
        requires
            old(store).wf(),
            ty < old(store)@.len(),
            old(store)@.len() + field + 1 <= usize::MAX,
        ensures
            struct_field_post(*old(store), *final(store), ty, field, r),
    {
        let c = store.concrete_slot(ty);
        proof {
            store.lemma_concrete(ty as int);
            store.lemma_concrete(c as int);
        }
        let ghost old_store = *store;
        let info = store.take_type(c);
        let ghost mid = *store;
        let confidence = info.confidence;
        match info.ty {
            ValueType::Struct { mut fields } => {
                let ghost old_fields = fields@;
                if fields.len() <= field {
                    let k = field + 1 - fields.len();
                    store.push_unknowns(k, &mut fields);
                }
                let ghost mid2 = *store;
                let f = fields[field];
                proof {
                    assert(old_store@[c as int].handles_below(old_store@.len()));
                    assert(old_store@[c as int] == (NodeView::Type {
                        ty: TypeView::Struct { fields: old_fields },
                        confidence,
                    }));
                    assert((TypeView::Struct { fields: old_fields }).handles_below(old_store@.len()));
                    assert(store@.len() >= old_store@.len());
                    assert forall|i: int| 0 <= i < fields@.len() implies fields@[i] < store@.len() by {
                        if i < old_fields.len() {
                            assert(fields@[i] == old_fields[i]);
                            lemma_field_handle(old_fields, old_store@.len(), i);
                        }
                    }
                }
                store.set_type(c, ValueTypeInfo { ty: ValueType::Struct { fields }, confidence });
                proof {
                    if old_fields.len() <= field {
                        assert(store@ =~= grown_with(
                            old_store@,
                            (field + 1 - old_fields.len()) as nat,
                            c as int,
                            NodeView::Type {
                                ty: TypeView::Struct {
                                    fields: old_fields + fresh_handles(
                                        old_store@.len(),
                                        (field + 1 - old_fields.len()) as nat,
                                    ),
                                },
                                confidence,
                            },
                        ));
                    } else {
                        assert(store@ =~= old_store@);
                    }
                    assert forall|x: int| 0 <= x < old_store@.len() implies #[trigger] store.concrete(x)
                        == old_store.concrete(x) by {
                        assert(store.concrete(x) == mid2.concrete(x));
                        assert(mid2.concrete(x) == mid.concrete(x));
                    }
                }
                f
            },
            _ => {
                let mut fields: Vec<usize> = Vec::new();
                store.push_unknowns(field + 1, &mut fields);
                let ghost mid2 = *store;
                let f = fields[field];
                store.set_type(
                    c,
                    ValueTypeInfo { ty: ValueType::Struct { fields }, confidence: Confidence::Medium },
                );
                proof {
                    assert(fields@ =~= fresh_handles(old_store@.len(), (field + 1) as nat));
                    assert(store@ =~= grown_with(
                        old_store@,
                        (field + 1) as nat,
                        c as int,
                        NodeView::Type {
                            ty: TypeView::Struct { fields: fresh_handles(old_store@.len(), (field + 1) as nat) },
                            confidence: Confidence::Medium,
                        },
                    ));
                    assert forall|x: int| 0 <= x < old_store@.len() implies #[trigger] store.concrete(x)
                        == old_store.concrete(x) by {
                        assert(store.concrete(x) == mid2.concrete(x));
                        assert(mid2.concrete(x) == mid.concrete(x));
                    }
                }
                f
            },
        }
    }

    /// Makes the type `ty` leads to a struct of at least `size` fields,
    /// when `size` is more than one: a struct with fewer fields grows fresh
    /// unknown fields up to `size` fields, one with more keeps them, and a
    /// type that is not a struct yet becomes a struct of `size` fresh unknown
    /// fields, held with medium confidence.
    pub fn struct_size(store: &mut TypeStore, ty: usize, size: usize)
        requires
            old(store).wf(),
            ty < old(store)@.len(),
            old(store)@.len() + size <= usize::MAX,
        ensures
            struct_size_post(*old(store), *final(store), ty, size),
    {
        if size <= 1 {
            return ;
        }
        let c = store.concrete_slot(ty);
        proof {
            store.lemma_concrete(ty as int);
            store.lemma_concrete(c as int);
        }
        let ghost old_store = *store;
        let info = store.take_type(c);
        let ghost mid = *store;
        let confidence = info.confidence;
        match info.ty {
            ValueType::Struct { mut fields } => {
                let ghost old_fields = fields@;
                if fields.len() <= size {
                    let k = size - fields.len();
                    store.push_unknowns(k, &mut fields);
                }
                let ghost mid2 = *store;
                proof {
                    assert(old_store@[c as int].handles_below(old_store@.len()));
                    assert(old_store@[c as int] == (NodeView::Type {
                        ty: TypeView::Struct { fields: old_fields },
                        confidence,
                    }));
                    assert((TypeView::Struct { fields: old_fields }).handles_below(old_store@.len()));
                    assert(store@.len() >= old_store@.len());
                    assert forall|i: int| 0 <= i < fields@.len() implies fields@[i] < store@.len() by {
                        if i < old_fields.len() {
                            assert(fields@[i] == old_fields[i]);
                            lemma_field_handle(old_fields, old_store@.len(), i);
                        }
                    }
                }
                store.set_type(c, ValueTypeInfo { ty: ValueType::Struct { fields }, confidence });
                proof {
                    if old_fields.len() <= size {
                        assert(store@ =~= grown_with(
                            old_store@,
                            (size - old_fields.len()) as nat,
                            c as int,
                            NodeView::Type {
                                ty: TypeView::Struct {
                                    fields: old_fields + fresh_handles(
                                        old_store@.len(),
                                        (size - old_fields.len()) as nat,
                                    ),
                                },
                                confidence,
                            },
                        ));
                    } else {
                        assert(store@ =~= old_store@);
                    }
                    assert forall|x: int| 0 <= x < old_store@.len() implies #[trigger] store.concrete(x)
                        == old_store.concrete(x) by {
                        assert(store.concrete(x) == mid2.concrete(x));
                        assert(mid2.concrete(x) == mid.concrete(x));
                    }
                }
            },
            _ => {
                let mut fields: Vec<usize> = Vec::new();
                store.push_unknowns(size, &mut fields);
                let ghost mid2 = *store;
                store.set_type(
                    c,
                    ValueTypeInfo { ty: ValueType::Struct { fields }, confidence: Confidence::Medium },
                );
                proof {
                    assert(fields@ =~= fresh_handles(old_store@.len(), size as nat));
                    assert(store@ =~= grown_with(
                        old_store@,
                        size as nat,
                        c as int,
                        NodeView::Type {
                            ty: TypeView::Struct { fields: fresh_handles(old_store@.len(), size as nat) },
                            confidence: Confidence::Medium,
                        },
                    ));
                    assert forall|x: int| 0 <= x < old_store@.len() implies #[trigger] store.concrete(x)
                        == old_store.concrete(x) by {
                        assert(store.concrete(x) == mid2.concrete(x));
                        assert(mid2.concrete(x) == mid.concrete(x));
                    }
                }
            },
        }
    }


    /// The number of value slots the type `ty` leads to takes up: a struct
    /// takes up the slots of all its fields, any other type one slot.
    pub fn size(store: &TypeStore, ty: usize) -> (r: usize)
        requires
            store.wf(),
            ty < store@.len(),
            store.has_size(ty as int),
        ensures
            r == store.size_of(ty as int),
    {
        let ghost fuel = choose|fuel: nat|
            #[trigger] size_within(store@, store.rank@, ty as int, fuel) matches Some(v) && v
                <= usize::MAX;
        store.size_rec(ty, Ghost(fuel))
    }

    /// Raises the type `ty` leads to with `ty_info` when `ty_info` is held
    /// with strictly more confidence; otherwise nothing changes.
    pub fn hint(store: &mut TypeStore, ty: usize, ty_info: ValueTypeInfo)
        requires
            old(store).wf(),
            ty < old(store)@.len(),
            ty_info.ty@.handles_below(old(store)@.len()),
        ensures
            hint_post(*old(store), *final(store), ty, ty_info),
    {
        let c = store.concrete_slot(ty);
        proof {
            store.lemma_concrete(ty as int);
        }
        let current = match &store.nodes[c] {
            LinkedValueType::Type(info) => info.confidence,
            LinkedValueType::Redirect(_) => Confidence::Absent,
        };
        if ty_info.confidence.exceeds(&current) {
            store.set_type(c, ty_info);
        }
    }
}

/// Copies a list of handles.
fn copy_handles(v: &Vec<usize>) -> (r: Vec<usize>)
    ensures
        r@ == v@,
{
    let mut r: Vec<usize> = Vec::new();
    let mut i: usize = 0;
    while i < v.len()
        invariant
            0 <= i <= v.len(),
            r@ == v@.subrange(0, i as int),
        decreases v.len() - i,
    {
        r.push(v[i]);
        i = i + 1;
        assert(r@ =~= v@.subrange(0, i as int));
    }
    assert(v@.subrange(0, v.len() as int) =~= v@);
    r
}

impl ValueType {
    /// A copy of the type.
    pub fn copy(&self) -> (r: ValueType)
        ensures
            r@ == self@,
    {
        match self {
            ValueType::Struct { fields } => ValueType::Struct { fields: copy_handles(fields) },
            ValueType::Array { item_type } => ValueType::Array { item_type: *item_type },
            ValueType::Function { params, return_type } => ValueType::Function {
                params: copy_handles(params),
                return_type: *return_type,
            },
            ValueType::Primitive(p) => ValueType::Primitive(*p),
            ValueType::Ref(r) => ValueType::Ref(*r),
        }
    }
}

impl ValueTypeInfo {
    /// A copy of the type and its confidence.
    pub fn copy(&self) -> (r: ValueTypeInfo)
        ensures
            r@ == self@,
    {
        ValueTypeInfo { ty: self.ty.copy(), confidence: self.confidence }
    }
}

} // verus!
