use crate::decompiler::stack_entry::{
    BinaryOperator, UnaryOperator,
    entry_view, info_view, infos_view, lemma_infos_view_len, opt_view, split_field_index, split_off_rel,
    split_rest, EntryView,
    InfoView, StackEntry, StackEntryInfo,
};
use crate::decompiler::value_type::{
    array_item_type_post, hint_post, link_post, unknown_view, lemma_hint_growth, lemma_item_type_growth,
    lemma_struct_field_growth, lemma_struct_size_growth, ref_type_post, struct_field_post,
    struct_size_post, Confidence, LinkedValueType, NodeView, Primitives, TypeStore, TypeView, ValueType,
    ValueTypeInfo,
};
use crate::decompiler::script_globals::ScriptGlobals;
use crate::decompiler::script_statics::ScriptStatics;
use crate::script::{c_string_bytes, nul_position, Script};
use vstd::prelude::*;

verus! {

broadcast use vstd::std_specs::vec::group_vec_axioms;

/// The stack the decompiler keeps while it walks a function's code: one
/// entry per value, the newest last.
#[derive(Debug)]
pub struct Stack<'i> {
    stack: Vec<StackEntryInfo<'i>>,
}

/// The stack is not in a state the instruction expects: it holds too few
/// values, a value of the wrong kind, or the type store could not grow.
#[derive(Debug, Clone, Copy, PartialEq, Eq, Structural)]
pub struct InvalidStackError;

impl<'i> View for Stack<'i> {
    type V = Seq<InfoView>;

    closed spec fn view(&self) -> Seq<InfoView> {
        infos_view(self.stack@)
    }
}

/// The entry as a list of zero or one entries.
pub open spec fn opt_seq(o: Option<InfoView>) -> Seq<InfoView> {
    match o {
        Some(v) => seq![v],
        None => Seq::empty(),
    }
}

/// Every entry's type handle names a slot of a store of `n` slots.
pub open spec fn tys_below(s: Seq<InfoView>, n: nat) -> bool {
    forall|i: int| 0 <= i < s.len() ==> #[trigger] s[i].ty < n
}

/// The store can grow by the slots that splitting `e` may add.
pub open spec fn has_room(st: TypeStore, e: InfoView) -> bool {
    st@.len() + e.size() + 1 <= usize::MAX
}

/// A slot of primitive type `p` held with `confidence`.
pub open spec fn primitive_view(p: Primitives, confidence: Confidence) -> NodeView {
    NodeView::Type { ty: TypeView::Primitive { primitive: p }, confidence }
}

/// `st1` is `st0` with one slot added.
pub open spec fn pushed_slot(st0: TypeStore, st1: TypeStore, node: NodeView) -> bool {
    &&& st1.wf()
    &&& st1@ == st0@.push(node)
    &&& st1.keeps_concretes(&st0)
}

/// The entry `entry` with the type handle `ty`.
pub open spec fn entry_with(entry: EntryView, ty: usize) -> InfoView {
    InfoView { entry: Box::new(entry), ty }
}

/// The store has room for what the stack operations may add: splits of any
/// entry and a few fresh slots.
pub open spec fn room(s: Seq<InfoView>, n: nat) -> bool {
    &&& n + 16 <= usize::MAX
    &&& forall|i: int| 0 <= i < s.len() ==> n + 4 * (#[trigger] s[i]).size() + 16 <= usize::MAX
}

/// What is left of a value after a split takes up no more slots than the
/// value did.
pub proof fn lemma_rest_size(e: InfoView)
    requires
        e.size() > 1,
    ensures
        split_rest(e) matches Some(r) ==> r.size() <= e.size() && r.ty == e.ty,
{
}

/// Popping the stack `s0`, with the store `st0`, leaves `s1` and `st1` and
/// gives `r`: nothing when the stack is empty (or the store has no room to
/// split the top), the top when it takes up at most one slot, and otherwise
/// its last slot, the rest of it staying on the stack.
pub open spec fn pop_rel(
    s0: Seq<InfoView>,
    st0: TypeStore,
    s1: Seq<InfoView>,
    st1: TypeStore,
    r: Option<InfoView>,
) -> bool {
    if s0.len() == 0 || (s0.last().size() > 1 && !has_room(st0, s0.last())) {
        &&& r is None
        &&& s1 == s0
        &&& st1 == st0
    } else if s0.last().size() > 1 {
        &&& r is Some
        &&& split_off_rel(s0.last(), st0, st1, r->0, split_rest(s0.last()))
        &&& s1 == s0.drop_last() + opt_seq(split_rest(s0.last()))
    } else {
        &&& r == Some(s0.last())
        &&& s1 == s0.drop_last()
        &&& st1 == st0
    }
}

/// Every pop that succeeds on a top value of at least one slot gives a
/// value of one slot and lowers the stack's count of slots by exactly one.
pub proof fn lemma_pop_lowers_slot_count<'i>(
    before: Seq<InfoView>,
    store_before: TypeStore,
    after: Seq<InfoView>,
    store_after: TypeStore,
    r: Result<StackEntryInfo<'i>, InvalidStackError>,
)
    requires
        pop_post(before, store_before, after, store_after, r),
        r is Ok,
        before.len() > 0 ==> before.last().size() >= 1,
    ensures
        info_view(r->Ok_0).size() == 1,
        slot_total(after) + 1 == slot_total(before),
{
    lemma_pop_takes_one_slot(before, store_before, after, store_after, info_view(r->Ok_0));
}

/// Popping right after a value of at most one slot was pushed gives that
/// value back and leaves the stack and the type store as they were before
/// the push.
pub proof fn lemma_pop_after_push(
    s: Seq<InfoView>,
    st: TypeStore,
    e: InfoView,
    s1: Seq<InfoView>,
    st1: TypeStore,
    r: Option<InfoView>,
)
    requires
        e.size() <= 1,
        pop_rel(s.push(e), st, s1, st1, r),
    ensures
        r == Some(e),
        s1 == s,
        st1 == st,
{
    assert(s.push(e).drop_last() =~= s);
}

/// The number of stack slots the values of a stack take up.
pub open spec fn slot_total(s: Seq<InfoView>) -> nat
    decreases s.len(),
{
    if s.len() == 0 {
        0
    } else {
        slot_total(s.drop_last()) + s.last().size()
    }
}

/// A pop that gives a value off a top of at least one slot gives a value of
/// one slot and leaves one slot fewer on the stack.
pub proof fn lemma_pop_takes_one_slot(
    s0: Seq<InfoView>,
    st0: TypeStore,
    s1: Seq<InfoView>,
    st1: TypeStore,
    a: InfoView,
)
    requires
        pop_rel(s0, st0, s1, st1, Some(a)),
        s0.last().size() >= 1,
    ensures
        a.size() == 1,
        slot_total(s1) + 1 == slot_total(s0),
{
    if s0.last().size() > 1 {
        let rest = split_rest(s0.last());
        assert(rest is Some && rest->0.size() + 1 == s0.last().size());
        assert(s1.drop_last() =~= s0.drop_last());
        assert(s1.last() == rest->0);
    }
}

/// Popping values that take up `n` slots from `s0`, with the store `st0`,
/// leaves `s1` and `st1` and gives `res`, the first popped first; `ok` says
/// whether all `n` slots came off. A value that takes up more slots than
/// are still wanted is split and only its last slot comes off.
pub open spec fn pop_n_rel(
    s0: Seq<InfoView>,
    st0: TypeStore,
    n: nat,
    s1: Seq<InfoView>,
    st1: TypeStore,
    res: Seq<InfoView>,
    ok: bool,
) -> bool
    decreases n, s0.len(),
{
    if n == 0 {
        &&& ok
        &&& s1 == s0
        &&& st1 == st0
        &&& res.len() == 0
    } else if s0.len() == 0 {
        &&& !ok
        &&& s1 == s0
        &&& st1 == st0
        &&& res.len() == 0
    } else if s0.last().size() > n {
        exists|sm: Seq<InfoView>, stm: TypeStore, first: Option<InfoView>|
            #[trigger] pop_rel(s0, st0, sm, stm, first) && match first {
                None => !ok && s1 == sm && st1 == stm && res.len() == 0,
                Some(f) => res.len() > 0 && res[0] == f && pop_n_rel(
                    sm,
                    stm,
                    (n - 1) as nat,
                    s1,
                    st1,
                    res.drop_first(),
                    ok,
                ),
            }
    } else {
        &&& res.len() > 0
        &&& res[0] == s0.last()
        &&& pop_n_rel(
            s0.drop_last(),
            st0,
            (n - s0.last().size()) as nat,
            s1,
            st1,
            res.drop_first(),
            ok,
        )
    }
}

/// The parameter that argument `k` of a call is linked with: each argument
/// takes the next parameter and then skips as many as it takes up slots.
pub open spec fn param_index(args: Seq<InfoView>, params_len: nat, k: nat) -> nat
    decreases k,
{
    if k == 0 {
        0
    } else {
        let p = param_index(args, params_len, (k - 1) as nat);
        if p < params_len {
            let q = p + 1 + args[k - 1].size();
            if q < params_len {
                q
            } else {
                params_len
            }
        } else {
            p
        }
    }
}

/// Linking argument `k` with its parameter, if it has one, takes the store
/// from `before` to `after`.
pub open spec fn link_step(
    before: TypeStore,
    after: TypeStore,
    args: Seq<InfoView>,
    params: Seq<usize>,
    k: nat,
) -> bool {
    let p = param_index(args, params.len(), k);
    &&& p < params.len() ==> link_post(before, after, args[k as int].ty, params[p as int])
    &&& p >= params.len() ==> after == before
}

/// `stores` are the states of the store as the arguments are linked one
/// after the other.
pub open spec fn links_chain(stores: Seq<TypeStore>, args: Seq<InfoView>, params: Seq<usize>) -> bool {
    &&& stores.len() == args.len() + 1
    &&& forall|i: int|
        0 <= i < args.len() ==> #[trigger] link_step(stores[i], stores[i + 1], args, params, i as nat)
}

/// The value in `e` with logical in place of bitwise `and` and `or`.
pub open spec fn logical_of(e: InfoView) -> InfoView {
    match *e.entry {
        EntryView::BinaryOperator { lhs, rhs, op } => if op == BinaryOperator::BitwiseAnd {
            entry_with(EntryView::BinaryOperator { lhs, rhs, op: BinaryOperator::LogicalAnd }, e.ty)
        } else if op == BinaryOperator::BitwiseOr {
            entry_with(EntryView::BinaryOperator { lhs, rhs, op: BinaryOperator::LogicalOr }, e.ty)
        } else {
            e
        },
        _ => e,
    }
}

/// The string at `index` of the script's string table, or `<UNKNOWN>`.
pub open spec fn string_or_unknown(strings: Seq<u8>, index: int) -> Seq<char> {
    if nul_position(strings, index) >= 0 && vstd::utf8::valid_utf8(c_string_bytes(strings, index)) {
        vstd::utf8::decode_utf8(c_string_bytes(strings, index))
    } else {
        "<UNKNOWN>"@
    }
}

/// The address a load reads from: what a reference refers to, or the value
/// itself.
pub open spec fn load_target(a: InfoView) -> InfoView {
    match *a.entry {
        EntryView::Ref(rf) => rf,
        _ => a,
    }
}

/// The primitive slot a native call result starts from: unknown, held with
/// medium confidence when the call returns several values.
pub open spec fn native_result_view(return_count: usize) -> NodeView {
    primitive_view(
        Primitives::Unknown,
        if return_count > 1 {
            Confidence::Medium
        } else {
            Confidence::Absent
        },
    )
}

/// What `Stack::push_int` does: its effect on the stack and the store, and
/// what it returns.
pub open spec fn push_int_post(
    val: i64,
    before: Seq<InfoView>,
    store_before: TypeStore,
    after: Seq<InfoView>,
    store_after: TypeStore,
) -> bool {
    &&& pushed_slot(store_before, store_after, primitive_view(Primitives::Int, Confidence::Low))
    &&& after == before.push(
                    entry_with(EntryView::Int(val), store_before@.len() as usize),
                )
}

/// What `Stack::push_float` does: its effect on the stack and the store, and
/// what it returns.
pub open spec fn push_float_post(
    val: u32,
    before: Seq<InfoView>,
    store_before: TypeStore,
    after: Seq<InfoView>,
    store_after: TypeStore,
) -> bool {
    &&& pushed_slot(
                    store_before,
                    store_after,
                    primitive_view(Primitives::Int, Confidence::High),
                )
    &&& after == before.push(
                    entry_with(EntryView::Float(val), store_before@.len() as usize),
                )
}

/// What `Stack::push_catch` does: its effect on the stack and the store, and
/// what it returns.
pub open spec fn push_catch_post(
    before: Seq<InfoView>,
    store_before: TypeStore,
    after: Seq<InfoView>,
    store_after: TypeStore,
) -> bool {
    &&& pushed_slot(
                    store_before,
                    store_after,
                    primitive_view(Primitives::Int, Confidence::Medium),
                )
    &&& after == before.push(
                    entry_with(EntryView::CatchValue, store_before@.len() as usize),
                )
}

/// What `Stack::push_local` does: its effect on the stack and the store, and
/// what it returns.
pub open spec fn push_local_post(
    local_index: usize,
    local_type: Option<usize>,
    before: Seq<InfoView>,
    store_before: TypeStore,
    after: Seq<InfoView>,
    store_after: TypeStore,
) -> bool {
    &&& local_type matches Some(h) ==> store_after == store_before && after == before.push(entry_with(EntryView::Local(local_index), h))
    &&& local_type is None ==> pushed_slot(
                    store_before,
                    store_after,
                    primitive_view(Primitives::Unknown, Confidence::Absent),
                ) && after == before.push(
                    entry_with(EntryView::Local(local_index), store_before@.len() as usize),
                )
}

/// What `Stack::push_static` does: its effect on the stack and the store, and
/// what it returns.
pub open spec fn push_static_post(
    static_index: usize,
    statics: Seq<usize>,
    before: Seq<InfoView>,
    store_before: TypeStore,
    after: Seq<InfoView>,
    store_after: TypeStore,
) -> bool {
    &&& static_index < statics.len() ==> store_after == store_before && after == before.push(entry_with(EntryView::Static(static_index), statics[static_index as int]))
    &&& static_index >= statics.len() ==> pushed_slot(
                    store_before,
                    store_after,
                    primitive_view(Primitives::Unknown, Confidence::Absent),
                ) && after == before.push(
                    entry_with(EntryView::Static(static_index), store_before@.len() as usize),
                )
}

/// What `Stack::push_global` does: its effect on the stack and the store, and
/// what it returns.
pub open spec fn push_global_post(
    global_index: usize,
    g0: Map<usize, usize>,
    g1: Map<usize, usize>,
    before: Seq<InfoView>,
    store_before: TypeStore,
    after: Seq<InfoView>,
    store_after: TypeStore,
) -> bool {
    &&& store_after.wf()
    &&& store_after.keeps_concretes(&store_before)
    &&& g0.contains_key(global_index) ==> store_after@ == store_before@ && g1
                    == g0 && after == before.push(
                    entry_with(EntryView::Global(global_index), g0[global_index]),
                )
    &&& !g0.contains_key(global_index) ==> store_after@ == store_before@.push(
                    unknown_view(),
                ) && g1 == g0.insert(global_index, store_before@.len() as usize)
                    && after == before.push(
                    entry_with(EntryView::Global(global_index), store_before@.len() as usize),
                )
}

/// What `Stack::pop` does: its effect on the stack and the store, and
/// what it returns.
pub open spec fn pop_post<'i>(
    before: Seq<InfoView>,
    store_before: TypeStore,
    after: Seq<InfoView>,
    store_after: TypeStore,
    r: Result<StackEntryInfo<'i>, InvalidStackError>,
) -> bool {
    &&& store_after.wf()
    &&& store_after.keeps_concretes(&store_before)
    &&& tys_below(after, store_after@.len())
    &&& pop_rel(
                    before,
                    store_before,
                    after,
                    store_after,
                    match r {
                        Ok(v) => Some(info_view(v)),
                        Err(_) => None,
                    },
                )
    &&& r matches Ok(v) ==> v.ty < store_after@.len()
    &&& before.len() > 0 ==> store_after@.len() <= store_before@.len() + before.last().size()
                    + 1
    &&& before.len() == 0 ==> store_after@.len() == store_before@.len()
    &&& forall|i: int|
                    0 <= i < after.len() ==> (i < before.len() - 1 && #[trigger] after[i]
                        == before[i]) || (i == before.len() - 1 && after[i].size()
                        <= before.last().size())
}

/// What `Stack::pop_n` does: its effect on the stack and the store, and
/// what it returns.
pub open spec fn pop_n_post<'i>(
    n: usize,
    before: Seq<InfoView>,
    store_before: TypeStore,
    after: Seq<InfoView>,
    store_after: TypeStore,
    r: Result<Vec<StackEntryInfo<'i>>, InvalidStackError>,
) -> bool {
    &&& store_after.wf()
    &&& store_after.keeps_concretes(&store_before)
    &&& tys_below(after, store_after@.len())
    &&& r matches Ok(v) ==> tys_below(infos_view(v@), store_after@.len())
    &&& r matches Ok(v) ==> pop_n_rel(
                    before,
                    store_before,
                    n as nat,
                    after,
                    store_after,
                    infos_view(v@),
                    true,
                )
    &&& r is Err ==> exists|res: Seq<InfoView>|
                    pop_n_rel(before, store_before, n as nat, after, store_after, res, false)
}

/// What `Stack::nth_back` does: its effect on the stack and the store, and
/// what it returns.
pub open spec fn nth_back_post<'i>(
    n: usize,
    before: Seq<InfoView>,
    store_before: TypeStore,
    after: Seq<InfoView>,
    store_after: TypeStore,
    r: Result<StackEntryInfo<'i>, InvalidStackError>,
) -> bool {
    &&& store_after.wf()
    &&& store_after.keeps_concretes(&store_before)
    &&& tys_below(after, store_after@.len())
    &&& n >= before.len() ==> r is Err && after == before && store_after == store_before
    &&& n < before.len() ==> {
                    let e = before[before.len() - 1 - n];
                    &&& r is Ok
                    &&& e.size() > 1 ==> split_off_rel(
                        e,
                        store_before,
                        store_after,
                        info_view(r->Ok_0),
                        split_rest(e),
                    ) && after == before + opt_seq(split_rest(e))
                    &&& e.size() <= 1 ==> info_view(r->Ok_0) == e && store_after == store_before
                        && after == before
                }
}

/// What `Stack::push_binary_operator` does: its effect on the stack and the store, and
/// what it returns.
pub open spec fn push_binary_operator_post(
    ty: Primitives,
    lhs_ty: ValueTypeInfo,
    rhs_ty: ValueTypeInfo,
    op: BinaryOperator,
    before: Seq<InfoView>,
    store_before: TypeStore,
    after: Seq<InfoView>,
    store_after: TypeStore,
    r: Result<(), InvalidStackError>,
) -> bool {
    &&& store_after.wf()
    &&& store_after.keeps_concretes(&store_before)
    &&& tys_below(after, store_after@.len())
    &&& r is Err ==> pop_rel(before, store_before, after, store_after, None) || exists|
                    s1: Seq<InfoView>,
                    st1: TypeStore,
                    a: InfoView,
                |
                    #![auto]
                    pop_rel(before, store_before, s1, st1, Some(a)) && pop_rel(
                        s1,
                        st1,
                        after,
                        store_after,
                        None,
                    )
    &&& r is Ok ==> exists|
                    s1: Seq<InfoView>,
                    st1: TypeStore,
                    a: InfoView,
                    s2: Seq<InfoView>,
                    st2: TypeStore,
                    b: InfoView,
                    st3: TypeStore,
                    st4: TypeStore
                |
                    #![trigger pop_rel(before, store_before, s1, st1, Some(a)), pop_rel(s1, st1, s2, st2, Some(b)), hint_post(st2, st3, b.ty, lhs_ty), hint_post(st3, st4, a.ty, rhs_ty)]
                    {
                        &&& pop_rel(before, store_before, s1, st1, Some(a))
                        &&& pop_rel(s1, st1, s2, st2, Some(b))
                        &&& hint_post(st2, st3, b.ty, lhs_ty)
                        &&& hint_post(st3, st4, a.ty, rhs_ty)
                        &&& pushed_slot(st4, store_after, primitive_view(ty, Confidence::High))
                        &&& after == s2.push(
                            entry_with(
                                EntryView::BinaryOperator { lhs: b, rhs: a, op },
                                st4@.len() as usize,
                            ),
                        )
                    }
}

/// What `Stack::push_unary_operator` does: its effect on the stack and the store, and
/// what it returns.
pub open spec fn push_unary_operator_post(
    ty: Primitives,
    operand_type: ValueTypeInfo,
    op: UnaryOperator,
    before: Seq<InfoView>,
    store_before: TypeStore,
    after: Seq<InfoView>,
    store_after: TypeStore,
    r: Result<(), InvalidStackError>,
) -> bool {
    &&& store_after.wf()
    &&& store_after.keeps_concretes(&store_before)
    &&& tys_below(after, store_after@.len())
    &&& r is Err ==> pop_rel(before, store_before, after, store_after, None)
    &&& r is Ok ==> exists|s1: Seq<InfoView>, st1: TypeStore, src: InfoView, st2: TypeStore|
                    #![auto]
                    {
                        &&& pop_rel(before, store_before, s1, st1, Some(src))
                        &&& hint_post(st1, st2, src.ty, operand_type)
                        &&& pushed_slot(st2, store_after, primitive_view(ty, Confidence::Absent))
                        &&& after == s1.push(
                            entry_with(EntryView::UnaryOperator { lhs: src, op }, st2@.len() as usize),
                        )
                    }
}

/// What `Stack::push_cast` does: its effect on the stack and the store, and
/// what it returns.
pub open spec fn push_cast_post(
    ty: Primitives,
    from_type: ValueTypeInfo,
    before: Seq<InfoView>,
    store_before: TypeStore,
    after: Seq<InfoView>,
    store_after: TypeStore,
    r: Result<(), InvalidStackError>,
) -> bool {
    &&& store_after.wf()
    &&& store_after.keeps_concretes(&store_before)
    &&& tys_below(after, store_after@.len())
    &&& r is Err ==> pop_rel(before, store_before, after, store_after, None)
    &&& r is Ok ==> exists|s1: Seq<InfoView>, st1: TypeStore, src: InfoView, st2: TypeStore|
                    #![auto]
                    {
                        &&& pop_rel(before, store_before, s1, st1, Some(src))
                        &&& hint_post(st1, st2, src.ty, from_type)
                        &&& pushed_slot(st2, store_after, primitive_view(ty, Confidence::Medium))
                        &&& after == s1.push(
                            entry_with(EntryView::Cast { source: src }, st2@.len() as usize),
                        )
                    }
}

/// What `Stack::push_reference` does: its effect on the stack and the store, and
/// what it returns.
pub open spec fn push_reference_post(
    before: Seq<InfoView>,
    store_before: TypeStore,
    after: Seq<InfoView>,
    store_after: TypeStore,
    r: Result<(), InvalidStackError>,
) -> bool {
    &&& store_after.wf()
    &&& store_after.keeps_concretes(&store_before)
    &&& tys_below(after, store_after@.len())
    &&& r is Err ==> pop_rel(before, store_before, after, store_after, None)
    &&& r is Ok ==> exists|s1: Seq<InfoView>, st1: TypeStore, src: InfoView|
                    #![auto]
                    {
                        &&& pop_rel(before, store_before, s1, st1, Some(src))
                        &&& pushed_slot(
                            st1,
                            store_after,
                            NodeView::Type { ty: TypeView::Ref { target: src.ty }, confidence: Confidence::High },
                        )
                        &&& after == s1.push(entry_with(EntryView::Ref(src), st1@.len() as usize))
                    }
}

/// What `Stack::set_last_as_field` does: its effect on the stack and the store, and
/// what it returns.
pub open spec fn set_last_as_field_post(
    before: Seq<InfoView>,
    store_before: TypeStore,
    after: Seq<InfoView>,
    store_after: TypeStore,
    r: Result<(), InvalidStackError>,
) -> bool {
    &&& store_after.wf()
    &&& store_after.keeps_concretes(&store_before)
    &&& tys_below(after, store_after@.len())
    &&& r is Err ==> pop_rel(before, store_before, after, store_after, None)
    &&& r is Ok ==> exists|s1: Seq<InfoView>, st1: TypeStore, src: InfoView|
                    #![auto]
                    {
                        &&& pop_rel(before, store_before, s1, st1, Some(src))
                        &&& struct_field_post(st1, store_after, src.ty, 0, after.last().ty)
                        &&& after == s1.push(
                            entry_with(
                                EntryView::StructField { source: src, field: 0 },
                                after.last().ty,
                            ),
                        )
                    }
}

/// What `Stack::push_deref` does: its effect on the stack and the store, and
/// what it returns.
pub open spec fn push_deref_post(
    before: Seq<InfoView>,
    store_before: TypeStore,
    after: Seq<InfoView>,
    store_after: TypeStore,
    r: Result<(), InvalidStackError>,
) -> bool {
    &&& store_after.wf()
    &&& store_after.keeps_concretes(&store_before)
    &&& tys_below(after, store_after@.len())
    &&& r is Err ==> pop_rel(before, store_before, after, store_after, None)
    &&& r is Ok ==> exists|s1: Seq<InfoView>, st1: TypeStore, src: InfoView|
                    #![auto]
                    {
                        &&& pop_rel(before, store_before, s1, st1, Some(src))
                        &&& ref_type_post(st1, store_after, src.ty, after.last().ty)
                        &&& after == s1.push(
                            entry_with(EntryView::Deref(src), after.last().ty),
                        )
                    }
}

/// What `Stack::push_dup` does: its effect on the stack and the store, and
/// what it returns.
pub open spec fn push_dup_post(
    before: Seq<InfoView>,
    store_before: TypeStore,
    after: Seq<InfoView>,
    store_after: TypeStore,
    r: Result<(), InvalidStackError>,
) -> bool {
    &&& store_after.wf()
    &&& store_after.keeps_concretes(&store_before)
    &&& tys_below(after, store_after@.len())
    &&& before.len() == 0 ==> r is Err && after == before && store_after == store_before
    &&& before.len() > 0 && before.last().size() > 1 ==> r is Ok && split_off_rel(
                    before.last(),
                    store_before,
                    store_after,
                    after.last(),
                    split_rest(before.last()),
                ) && after == before.push(after.last())
    &&& before.len() > 0 && before.last().size() <= 1 ==> r is Ok && store_after == store_before && after == before.push(before.last())
}

/// What `Stack::push_offset` does: its effect on the stack and the store, and
/// what it returns.
pub open spec fn push_offset_post(
    before: Seq<InfoView>,
    store_before: TypeStore,
    after: Seq<InfoView>,
    store_after: TypeStore,
    r: Result<(), InvalidStackError>,
) -> bool {
    &&& store_after.wf()
    &&& store_after.keeps_concretes(&store_before)
    &&& tys_below(after, store_after@.len())
    &&& r is Err ==> pop_rel(before, store_before, after, store_after, None) || exists|
                    s1: Seq<InfoView>,
                    st1: TypeStore,
                    a: InfoView,
                |
                    #![auto]
                    pop_rel(before, store_before, s1, st1, Some(a)) && pop_rel(
                        s1,
                        st1,
                        after,
                        store_after,
                        None,
                    )
    &&& r is Ok ==> exists|
                    s1: Seq<InfoView>,
                    st1: TypeStore,
                    a: InfoView,
                    s2: Seq<InfoView>,
                    st2: TypeStore,
                    b: InfoView
                |
                    #![trigger pop_rel(before, store_before, s1, st1, Some(a)), pop_rel(s1, st1, s2, st2, Some(b))]
                    {
                        &&& pop_rel(before, store_before, s1, st1, Some(a))
                        &&& pop_rel(s1, st1, s2, st2, Some(b))
                        &&& pushed_slot(st2, store_after, primitive_view(Primitives::Unknown, Confidence::Absent))
                        &&& after == s2.push(
                            entry_with(EntryView::Offset { source: b, offset: a }, st2@.len() as usize),
                        )
                    }
}

/// What `Stack::push_string_hash` does: its effect on the stack and the store, and
/// what it returns.
pub open spec fn push_string_hash_post(
    before: Seq<InfoView>,
    store_before: TypeStore,
    after: Seq<InfoView>,
    store_after: TypeStore,
    r: Result<(), InvalidStackError>,
) -> bool {
    &&& store_after.wf()
    &&& store_after.keeps_concretes(&store_before)
    &&& tys_below(after, store_after@.len())
    &&& r is Err ==> pop_rel(before, store_before, after, store_after, None)
    &&& r is Ok ==> exists|s1: Seq<InfoView>, st1: TypeStore, src: InfoView, st2: TypeStore|
                    #![auto]
                    {
                        &&& pop_rel(before, store_before, s1, st1, Some(src))
                        &&& hint_post(
                            st1,
                            st2,
                            src.ty,
                            ValueTypeInfo { ty: ValueType::Primitive(Primitives::String), confidence: Confidence::High },
                        )
                        &&& pushed_slot(st2, store_after, primitive_view(Primitives::Int, Confidence::Medium))
                        &&& after == s1.push(entry_with(EntryView::StringHash(src), st2@.len() as usize))
                    }
}

/// What `Stack::push_load_n` does: its effect on the stack and the store, and
/// what it returns.
pub open spec fn push_load_n_post(
    before: Seq<InfoView>,
    store_before: TypeStore,
    after: Seq<InfoView>,
    store_after: TypeStore,
    r: Result<(), InvalidStackError>,
) -> bool {
    &&& store_after.wf()
    &&& store_after.keeps_concretes(&store_before)
    &&& tys_below(after, store_after@.len())
    &&& r is Err ==> pop_rel(before, store_before, after, store_after, None) || (exists|
                    s1: Seq<InfoView>,
                    st1: TypeStore,
                    a: InfoView,
                |
                    #![auto]
                    pop_rel(before, store_before, s1, st1, Some(a)) && pop_rel(
                        s1,
                        st1,
                        after,
                        store_after,
                        None,
                    )) || (exists|s1: Seq<InfoView>, st1: TypeStore, a: InfoView, b: InfoView|
                    #![trigger pop_rel(before, store_before, s1, st1, Some(a)), pop_rel(s1, st1, after, store_after, Some(b))]
                    pop_rel(before, store_before, s1, st1, Some(a)) && pop_rel(
                        s1,
                        st1,
                        after,
                        store_after,
                        Some(b),
                    ) && match *b.entry {
                        EntryView::Int(count) => store_after@.len() + (count as usize) > usize::MAX,
                        _ => true,
                    })
    &&& r is Ok ==> exists|
                    s1: Seq<InfoView>,
                    st1: TypeStore,
                    a: InfoView,
                    s2: Seq<InfoView>,
                    st2: TypeStore,
                    count: i64,
                |
                    #![trigger pop_rel(before, store_before, s1, st1, Some(a)), pop_rel(s1, st1, s2, st2, Some(entry_with(EntryView::Int(count), s1.last().ty)))]
                    {
                        &&& pop_rel(before, store_before, s1, st1, Some(a))
                        &&& pop_rel(s1, st1, s2, st2, Some(entry_with(EntryView::Int(count), s1.last().ty)))
                        &&& struct_size_post(st2, store_after, load_target(a).ty, count as usize)
                        &&& after == s2.push(
                            entry_with(
                                EntryView::Struct { origin: load_target(a), size: count as usize },
                                load_target(a).ty,
                            ),
                        )
                    }
}

/// What `Stack::push_const_int_binary_operator` does: its effect on the stack and the store, and
/// what it returns.
pub open spec fn push_const_int_binary_operator_post(
    op: BinaryOperator,
    value: i64,
    before: Seq<InfoView>,
    store_before: TypeStore,
    after: Seq<InfoView>,
    store_after: TypeStore,
    r: Result<(), InvalidStackError>,
) -> bool {
    &&& store_after.wf()
    &&& store_after.keeps_concretes(&store_before)
    &&& tys_below(after, store_after@.len())
    &&& r is Err ==> pop_rel(before, store_before, after, store_after, None)
    &&& r is Ok ==> exists|s1: Seq<InfoView>, st1: TypeStore, src: InfoView, st2: TypeStore, st3: TypeStore|
                    #![auto]
                    {
                        &&& pop_rel(before, store_before, s1, st1, Some(src))
                        &&& pushed_slot(st1, st2, primitive_view(Primitives::Int, Confidence::Medium))
                        &&& hint_post(
                            st2,
                            st3,
                            src.ty,
                            ValueTypeInfo { ty: ValueType::Primitive(Primitives::Int), confidence: Confidence::Medium },
                        )
                        &&& pushed_slot(st3, store_after, primitive_view(Primitives::Int, Confidence::Medium))
                        &&& after == s1.push(
                            entry_with(
                                EntryView::BinaryOperator {
                                    lhs: src,
                                    rhs: entry_with(EntryView::Int(value), st1@.len() as usize),
                                    op,
                                },
                                st3@.len() as usize,
                            ),
                        )
                    }
}

/// What `Stack::push_array_item` does: its effect on the stack and the store, and
/// what it returns.
pub open spec fn push_array_item_post(
    item_size: usize,
    before: Seq<InfoView>,
    store_before: TypeStore,
    after: Seq<InfoView>,
    store_after: TypeStore,
    r: Result<(), InvalidStackError>,
) -> bool {
    &&& store_after.wf()
    &&& store_after.keeps_concretes(&store_before)
    &&& tys_below(after, store_after@.len())
    &&& r is Err ==> pop_rel(before, store_before, after, store_after, None) || exists|
                    s1: Seq<InfoView>,
                    st1: TypeStore,
                    a: InfoView,
                |
                    #![auto]
                    pop_rel(before, store_before, s1, st1, Some(a)) && pop_rel(
                        s1,
                        st1,
                        after,
                        store_after,
                        None,
                    )
    &&& r is Ok ==> exists|
                    s1: Seq<InfoView>,
                    st1: TypeStore,
                    a: InfoView,
                    s2: Seq<InfoView>,
                    st2: TypeStore,
                    b: InfoView
                |
                    #![trigger pop_rel(before, store_before, s1, st1, Some(a)), pop_rel(s1, st1, s2, st2, Some(b))]
                    {
                        &&& pop_rel(before, store_before, s1, st1, Some(a))
                        &&& pop_rel(s1, st1, s2, st2, Some(b))
                        &&& array_item_type_post(st2, store_after, a.ty, after.last().ty)
                        &&& after == s2.push(
                            entry_with(
                                EntryView::ArrayItem { source: a, index: b, item_size },
                                after.last().ty,
                            ),
                        )
                    }
}

/// What `Stack::push_const_offset` does: its effect on the stack and the store, and
/// what it returns.
pub open spec fn push_const_offset_post(
    offset: i64,
    before: Seq<InfoView>,
    store_before: TypeStore,
    after: Seq<InfoView>,
    store_after: TypeStore,
    r: Result<(), InvalidStackError>,
) -> bool {
    &&& store_after.wf()
    &&& store_after.keeps_concretes(&store_before)
    &&& tys_below(after, store_after@.len())
    &&& r is Err ==> pop_rel(before, store_before, after, store_after, None)
    &&& r is Ok ==> exists|s1: Seq<InfoView>, st1: TypeStore, src: InfoView, st2: TypeStore, st3: TypeStore, target: usize|
                    #![auto]
                    {
                        &&& pop_rel(before, store_before, s1, st1, Some(src))
                        &&& ref_type_post(st1, st2, src.ty, target)
                        &&& struct_field_post(st2, st3, target, offset as usize, after.last().ty)
                        &&& pushed_slot(st3, store_after, primitive_view(Primitives::Int, Confidence::High))
                        &&& after == s1.push(
                            entry_with(
                                EntryView::Offset {
                                    source: src,
                                    offset: entry_with(EntryView::Int(offset), st3@.len() as usize),
                                },
                                after.last().ty,
                            ),
                        )
                    }
}

/// What `Stack::push_native_call` does: its effect on the stack and the store, and
/// what it returns.
pub open spec fn push_native_call_post(
    arg_count: usize,
    return_count: usize,
    native_hash: u64,
    before: Seq<InfoView>,
    store_before: TypeStore,
    after: Seq<InfoView>,
    store_after: TypeStore,
    r: Result<(), InvalidStackError>,
) -> bool {
    &&& store_after.wf()
    &&& store_after.keeps_concretes(&store_before)
    &&& tys_below(after, store_after@.len())
    &&& r is Err ==> exists|res: Seq<InfoView>, ok: bool|
                    #![auto]
                    pop_n_rel(
                        before,
                        store_before,
                        arg_count as nat,
                        after,
                        store_after,
                        res,
                        ok,
                    ) && (ok ==> store_after@.len() + return_count + 1 > usize::MAX)
    &&& r is Ok ==> exists|s1: Seq<InfoView>, st1: TypeStore, args: Seq<InfoView>, st2: TypeStore|
                    #![trigger pop_n_rel(before, store_before, arg_count as nat, s1, st1, args, true), pushed_slot(st1, st2, native_result_view(return_count))]
                    {
                        &&& pop_n_rel(before, store_before, arg_count as nat, s1, st1, args, true)
                        &&& pushed_slot(st1, st2, native_result_view(return_count))
                        &&& struct_size_post(st2, store_after, st1@.len() as usize, return_count)
                        &&& after == s1.push(
                            entry_with(
                                EntryView::NativeCallResult {
                                    args: args.reverse(),
                                    return_values: return_count,
                                    native_hash,
                                },
                                st1@.len() as usize,
                            ),
                        )
                    }
}

/// What `Stack::push_function_call` does: its effect on the stack and the store, and
/// what it returns.
pub open spec fn push_function_call_post(
    parameter_count: usize,
    parameters: Seq<usize>,
    location: usize,
    return_count: usize,
    return_type: Option<usize>,
    before: Seq<InfoView>,
    store_before: TypeStore,
    after: Seq<InfoView>,
    store_after: TypeStore,
    r: Result<(), InvalidStackError>,
) -> bool {
    &&& store_after.wf()
    &&& store_before@.len() <= store_after@.len()
    &&& tys_below(after, store_after@.len())
    &&& r is Err ==> exists|res: Seq<InfoView>|
                    #![auto]
                    pop_n_rel(
                        before,
                        store_before,
                        parameter_count as nat,
                        after,
                        store_after,
                        res,
                        false,
                    )
    &&& r is Ok ==> exists|s1: Seq<InfoView>, st1: TypeStore, args: Seq<InfoView>|
                    #![trigger pop_n_rel(before, store_before, parameter_count as nat, s1, st1, args, true)]
                    {
                        &&& pop_n_rel(before, store_before, parameter_count as nat, s1, st1, args, true)
                        &&& exists|stores: Seq<TypeStore>|
                            #![auto]
                            links_chain(stores, args.reverse(), parameters) && stores[0] == st1
                                && stores.last() == store_after
                        &&& after == s1.push(
                            entry_with(
                                EntryView::FunctionCallResult {
                                    args: args.reverse(),
                                    function_address: location,
                                    return_values: return_count,
                                },
                                return_type->0,
                            ),
                        )
                    }
}

/// What `Stack::push_string` does: its effect on the stack and the store, and
/// what it returns.
pub open spec fn push_string_post(
    script: Script,
    before: Seq<InfoView>,
    store_before: TypeStore,
    after: Seq<InfoView>,
    store_after: TypeStore,
    r: Result<(), InvalidStackError>,
) -> bool {
    &&& store_after.wf()
    &&& store_after.keeps_concretes(&store_before)
    &&& tys_below(after, store_after@.len())
    &&& r is Err ==> pop_rel(before, store_before, after, store_after, None) || exists|
                    a: InfoView,
                |
                    #![auto]
                    pop_rel(before, store_before, after, store_after, Some(a)) && !(
                    *a.entry is Int)
    &&& r is Ok ==> exists|s1: Seq<InfoView>, st1: TypeStore, n: i64|
                    #![auto]
                    {
                        &&& pop_rel(
                            before,
                            store_before,
                            s1,
                            st1,
                            Some(
                                InfoView {
                                    entry: Box::new(EntryView::Int(n)),
                                    ty: before.last().ty,
                                },
                            ),
                        )
                        &&& pushed_slot(
                            st1,
                            store_after,
                            primitive_view(Primitives::String, Confidence::High),
                        )
                        &&& after == s1.push(
                            entry_with(
                                EntryView::String(string_or_unknown(script.strings@, (n as usize) as int)),
                                st1@.len() as usize,
                            ),
                        )
                    }
}

/// Whether a reference on top, taking up one slot, names a slot of a store
/// of `n` slots.
pub open spec fn top_ref_below(s: Seq<InfoView>, n: nat) -> bool {
    s.len() > 0 && s.last().size() <= 1 ==> match *s.last().entry {
        EntryView::Ref(rf) => rf.ty < n,
        _ => true,
    }
}

/// Whether an integer on top, taking up one slot, is an offset within
/// `strings`.
pub open spec fn top_offset_within(s: Seq<InfoView>, strings: Seq<u8>) -> bool {
    s.len() > 0 && s.last().size() <= 1 ==> match *s.last().entry {
        EntryView::Int(n) => (n as usize) <= strings.len(),
        _ => true,
    }
}

impl<'i> Stack<'i> {
    /// An empty stack.
    pub fn new() -> (r: Self)
        ensures
            r@ == Seq::<InfoView>::empty(),
    {
        Stack { stack: Vec::new() }
    }

    /// Adds `entry` on top.
    fn push_back(&mut self, entry: StackEntryInfo<'i>)
        ensures
            final(self)@ == old(self)@.push(info_view(entry)),
    {
        let ghost before = self.stack@;
        self.stack.push(entry);
        proof {
            assert(self.stack@.drop_last() =~= before);
        }
    }

    /// Whether the store has the room the stack operations ask for.
    pub fn has_room(&self, store: &TypeStore) -> (r: bool)
        ensures
            r == room(self@, store@.len() as nat),
    {
        self.has_room_with(store, 0)
    }

    /// Whether a store `extra` slots longer than `store` would have the room
    /// the stack operations ask for.
    pub fn has_room_with(&self, store: &TypeStore, extra: usize) -> (r: bool)
        ensures
            r == room(self@, (store@.len() + extra) as nat),
    {
        proof {
            lemma_infos_view_len(self.stack@);
        }
        let len = store.len();
        if len > usize::MAX - extra {
            return false;
        }
        let n = len + extra;
        if n > usize::MAX - 16 {
            return false;
        }
        let spare = (usize::MAX - 16 - n) / 4;
        let mut i: usize = 0;
        while i < self.stack.len()
            invariant
                n == store@.len() + extra,
                n + 16 <= usize::MAX,
                spare == (usize::MAX - 16 - n) / 4,
                i <= self.stack@.len(),
                self@.len() == self.stack@.len(),
                forall|j: int| 0 <= j < self.stack@.len() ==> #[trigger] self@[j] == info_view(self.stack@[j]),
                forall|j: int| 0 <= j < i ==> n + 4 * (#[trigger] self@[j]).size() + 16 <= usize::MAX,
            decreases self.stack@.len() - i,
        {
            let size = self.stack[i].entry.size();
            assert(self@[i as int].size() == size);
            if size > spare {
                assert(n + 4 * size + 16 > usize::MAX) by (nonlinear_arith)
                    requires
                        size > spare,
                        spare == (usize::MAX - 16 - n) / 4,
                        n + 16 <= usize::MAX,
                ;
                return false;
            }
            assert(n + 4 * size + 16 <= usize::MAX) by (nonlinear_arith)
                requires
                    size <= spare,
                    spare == (usize::MAX - 16 - n) / 4,
                    n + 16 <= usize::MAX,
            ;
            i = i + 1;
        }
        true
    }

    /// Whether a reference on top, taking up one slot, names a slot of the
    /// store, as `push_load_n` asks.
    pub fn load_n_ready(&self, store: &TypeStore) -> (r: bool)
        ensures
            r == top_ref_below(self@, store@.len()),
    {
        proof {
            lemma_infos_view_len(self.stack@);
        }
        let len = self.stack.len();
        if len == 0 {
            return true;
        }
        let top = &self.stack[len - 1];
        assert(self@.last() == info_view(self.stack@[len - 1]));
        if top.entry.size() > 1 {
            return true;
        }
        match &top.entry {
            StackEntry::Ref(rf) => rf.ty < store.len(),
            _ => true,
        }
    }

    /// Whether an integer on top, taking up one slot, is an offset within the
    /// script's strings, as `push_string` asks.
    pub fn string_ready(&self, script: &Script) -> (r: bool)
        ensures
            r == top_offset_within(self@, script.strings@),
    {
        proof {
            lemma_infos_view_len(self.stack@);
        }
        let len = self.stack.len();
        if len == 0 {
            return true;
        }
        let top = &self.stack[len - 1];
        assert(self@.last() == info_view(self.stack@[len - 1]));
        if top.entry.size() > 1 {
            return true;
        }
        match &top.entry {
            StackEntry::Int(n) => (*n as usize) <= script.strings.len(),
            _ => true,
        }
    }

    /// Removes the top entry, whole.
    fn pop_back(&mut self) -> (r: Option<StackEntryInfo<'i>>)
        ensures
            old(self)@.len() == 0 ==> r is None && final(self)@ == old(self)@,
            old(self)@.len() > 0 ==> opt_view(r) == Some(old(self)@.last()) && final(self)@ == old(
                self,
            )@.drop_last(),
    {
        proof {
            lemma_infos_view_len(self.stack@);
        }
        let ghost before = self.stack@;
        let r = self.stack.pop();
        proof {
            if before.len() > 0 {
                assert(self.stack@ =~= before.drop_last());
            }
        }
        r
    }

    /// A fresh slot of primitive type `p` held with `confidence`.
    fn new_slot(store: &mut TypeStore, p: Primitives, confidence: Confidence) -> (h: usize)
        requires
            old(store).wf(),
            old(store)@.len() < usize::MAX,
        ensures
            pushed_slot(*old(store), *final(store), primitive_view(p, confidence)),
            h == old(store)@.len(),
    {
        LinkedValueType::Type(ValueTypeInfo { ty: ValueType::Primitive(p), confidence }).make_shared(
            store,
        )
    }

    /// Pushes an integer constant, typed as an integer with low confidence.
    pub fn push_int(&mut self, val: i64, store: &mut TypeStore)
        requires
            old(store).wf(),
            old(store)@.len() < usize::MAX,
        ensures
            push_int_post(
                val,
                old(self)@,
                *old(store),
                final(self)@,
                *final(store),
            ),
    {
        let ty = Self::new_slot(store, Primitives::Int, Confidence::Low);
        self.push_back(StackEntryInfo { entry: StackEntry::Int(val), ty });
    }

    /// Pushes a float constant, given by its bits; it is typed as an integer
    /// with high confidence.
    pub fn push_float(&mut self, val: u32, store: &mut TypeStore)
        requires
            old(store).wf(),
            old(store)@.len() < usize::MAX,
        ensures
            push_float_post(
                val,
                old(self)@,
                *old(store),
                final(self)@,
                *final(store),
            ),
    {
        let ty = Self::new_slot(store, Primitives::Int, Confidence::High);
        self.push_back(StackEntryInfo { entry: StackEntry::Float(val), ty });
    }

    /// Pushes the value a `catch` leaves, typed as an integer with medium
    /// confidence.
    pub fn push_catch(&mut self, store: &mut TypeStore)
        requires
            old(store).wf(),
            old(store)@.len() < usize::MAX,
        ensures
            push_catch_post(
                old(self)@,
                *old(store),
                final(self)@,
                *final(store),
            ),
    {
        let ty = Self::new_slot(store, Primitives::Int, Confidence::Medium);
        self.push_back(StackEntryInfo { entry: StackEntry::CatchValue, ty });
    }

    /// Pops a value and pushes `f(value)` typed `ty`: the shape that most
    /// operations share.
    fn push_popped(&mut self, entry: StackEntry<'i>, ty: usize)
        ensures
            final(self)@ == old(self)@.push(entry_with(entry_view(entry), ty)),
    {
        self.push_back(StackEntryInfo { entry, ty });
    }

    /// Replaces the top value by a field of it: field 0 of its struct type.
    pub fn set_last_as_field(&mut self, store: &mut TypeStore) -> (r: Result<(), InvalidStackError>)
        requires
            old(store).wf(),
            tys_below(old(self)@, old(store)@.len()),
            room(old(self)@, old(store)@.len() as nat),
        ensures
            set_last_as_field_post(
                old(self)@,
                *old(store),
                final(self)@,
                *final(store),
                r,
            ),
    {
        let ghost s0 = self@;
        let popped = match self.pop(store) {
            Ok(p) => p,
            Err(e) => return Err(e),
        };
        let ghost s1 = self@;
        let ghost st1 = *store;
        let ghost src = info_view(popped);
        let ty = LinkedValueType::struct_field(store, popped.ty, 0);
        proof {
            lemma_struct_field_growth(st1, *store, src.ty, 0, ty);
        }
        self.push_popped(StackEntry::StructField { source: Box::new(popped), field: 0 }, ty);
        proof {
            assert(pop_rel(s0, *old(store), s1, st1, Some(src)));
        }
        Ok(())
    }

    /// Replaces the top value by a dereference of it, typed as what its
    /// reference type points at.
    pub fn push_deref(&mut self, store: &mut TypeStore) -> (r: Result<(), InvalidStackError>)
        requires
            old(store).wf(),
            tys_below(old(self)@, old(store)@.len()),
            room(old(self)@, old(store)@.len() as nat),
        ensures
            push_deref_post(
                old(self)@,
                *old(store),
                final(self)@,
                *final(store),
                r,
            ),
    {
        let ghost s0 = self@;
        let source = match self.pop(store) {
            Ok(p) => p,
            Err(e) => return Err(e),
        };
        let ghost s1 = self@;
        let ghost st1 = *store;
        let ghost src = info_view(source);
        let ty = LinkedValueType::ref_type(store, source.ty);
        proof {
            lemma_item_type_growth(st1, *store, src.ty, ty);
        }
        self.push_popped(StackEntry::Deref(Box::new(source)), ty);
        proof {
            assert(pop_rel(s0, *old(store), s1, st1, Some(src)));
        }
        Ok(())
    }

    /// Replaces the top value by a reference to it, typed as a reference to
    /// its type with high confidence.
    pub fn push_reference(&mut self, store: &mut TypeStore) -> (r: Result<(), InvalidStackError>)
        requires
            old(store).wf(),
            tys_below(old(self)@, old(store)@.len()),
            room(old(self)@, old(store)@.len() as nat),
        ensures
            push_reference_post(
                old(self)@,
                *old(store),
                final(self)@,
                *final(store),
                r,
            ),
    {
        let ghost s0 = self@;
        let source = match self.pop(store) {
            Ok(p) => p,
            Err(e) => return Err(e),
        };
        let ghost s1 = self@;
        let ghost st1 = *store;
        let ghost src = info_view(source);
        let ty = LinkedValueType::Type(
            ValueTypeInfo { ty: ValueType::Ref(source.ty), confidence: Confidence::High },
        ).make_shared(store);
        self.push_popped(StackEntry::Ref(Box::new(source)), ty);
        proof {
            assert(pop_rel(s0, *old(store), s1, st1, Some(src)));

        }
        Ok(())
    }

    /// Replaces the top value by a cast of it to `ty`: the value is hinted to
    /// have `from_type`, and the cast is typed `ty` with medium confidence.
    pub fn push_cast(&mut self, ty: Primitives, from_type: ValueTypeInfo, store: &mut TypeStore) -> (r: Result<(), InvalidStackError>)
        requires
            old(store).wf(),
            tys_below(old(self)@, old(store)@.len()),
            room(old(self)@, old(store)@.len() as nat),
            from_type.ty@.handles_below(old(store)@.len()),
        ensures
            push_cast_post(
                ty,
                from_type,
                old(self)@,
                *old(store),
                final(self)@,
                *final(store),
                r,
            ),
    {
        let ghost s0 = self@;
        let source = match self.pop(store) {
            Ok(p) => p,
            Err(e) => return Err(e),
        };
        let ghost s1 = self@;
        let ghost st1 = *store;
        let ghost src = info_view(source);
        let ghost from = from_type;
        LinkedValueType::hint(store, source.ty, from_type);
        let ghost st2 = *store;
        proof {
            lemma_hint_growth(st1, st2, src.ty, from);
        }
        let result_ty = Self::new_slot(store, ty, Confidence::Medium);
        self.push_popped(StackEntry::Cast { source: Box::new(source) }, result_ty);
        proof {
            assert(pop_rel(s0, *old(store), s1, st1, Some(src)));
            assert(hint_post(st1, st2, src.ty, from));
        }
        Ok(())
    }

    /// Replaces the top value, hinted to be a string with high confidence, by
    /// its hash, typed as an integer with medium confidence.
    pub fn push_string_hash(&mut self, store: &mut TypeStore) -> (r: Result<(), InvalidStackError>)
        requires
            old(store).wf(),
            tys_below(old(self)@, old(store)@.len()),
            room(old(self)@, old(store)@.len() as nat),
        ensures
            push_string_hash_post(
                old(self)@,
                *old(store),
                final(self)@,
                *final(store),
                r,
            ),
    {
        let ghost s0 = self@;
        let source = match self.pop(store) {
            Ok(p) => p,
            Err(e) => return Err(e),
        };
        let ghost s1 = self@;
        let ghost st1 = *store;
        let ghost src = info_view(source);
        let string_type = ValueTypeInfo {
            ty: ValueType::Primitive(Primitives::String),
            confidence: Confidence::High,
        };
        let ghost hinted = string_type;
        LinkedValueType::hint(store, source.ty, string_type);
        let ghost st2 = *store;
        proof {
            lemma_hint_growth(st1, st2, src.ty, hinted);
        }
        let result_ty = Self::new_slot(store, Primitives::Int, Confidence::Medium);
        self.push_popped(StackEntry::StringHash(Box::new(source)), result_ty);
        proof {
            assert(pop_rel(s0, *old(store), s1, st1, Some(src)));
            assert(hint_post(st1, st2, src.ty, hinted));
        }
        Ok(())
    }

    /// Replaces the top value, hinted to have `operand_type`, by the unary
    /// operation `op` on it, typed `ty`.
    pub fn push_unary_operator(&mut self, ty: Primitives, operand_type: ValueTypeInfo, op: UnaryOperator, store: &mut TypeStore) -> (r: Result<(), InvalidStackError>)
        requires
            old(store).wf(),
            tys_below(old(self)@, old(store)@.len()),
            room(old(self)@, old(store)@.len() as nat),
            operand_type.ty@.handles_below(old(store)@.len()),
        ensures
            push_unary_operator_post(
                ty,
                operand_type,
                op,
                old(self)@,
                *old(store),
                final(self)@,
                *final(store),
                r,
            ),
    {
        let ghost s0 = self@;
        let source = match self.pop(store) {
            Ok(p) => p,
            Err(e) => return Err(e),
        };
        let ghost s1 = self@;
        let ghost st1 = *store;
        let ghost src = info_view(source);
        let ghost operand = operand_type;
        LinkedValueType::hint(store, source.ty, operand_type);
        let ghost st2 = *store;
        proof {
            lemma_hint_growth(st1, st2, src.ty, operand);
        }
        let result_ty = Self::new_slot(store, ty, Confidence::Absent);
        self.push_popped(StackEntry::UnaryOperator { lhs: Box::new(source), op }, result_ty);
        proof {
            assert(pop_rel(s0, *old(store), s1, st1, Some(src)));
            assert(hint_post(st1, st2, src.ty, operand));
        }
        Ok(())
    }

    /// Replaces the top value, a reference to a struct, by the field at the
    /// constant `offset`: the field of the struct type its reference type
    /// points at.
    pub fn push_const_offset(&mut self, offset: i64, store: &mut TypeStore) -> (r: Result<(), InvalidStackError>)
        requires
            old(store).wf(),
            tys_below(old(self)@, old(store)@.len()),
            room(old(self)@, old(store)@.len() as nat),
            0 <= offset,
            room(old(self)@, (old(store)@.len() + offset) as nat),
        ensures
            push_const_offset_post(
                offset,
                old(self)@,
                *old(store),
                final(self)@,
                *final(store),
                r,
            ),
    {
        let ghost s0 = self@;
        let source = match self.pop(store) {
            Ok(p) => p,
            Err(e) => return Err(e),
        };
        let ghost s1 = self@;
        let ghost st1 = *store;
        let ghost src = info_view(source);
        let target = LinkedValueType::ref_type(store, source.ty);
        let ghost st2 = *store;
        proof {
            lemma_item_type_growth(st1, st2, src.ty, target);
        }
        let field = LinkedValueType::struct_field(store, target, offset as usize);
        let ghost st3 = *store;
        proof {
            lemma_struct_field_growth(st2, st3, target, offset as usize, field);
        }
        let offset_ty = Self::new_slot(store, Primitives::Int, Confidence::High);
        let offset_info = StackEntryInfo { entry: StackEntry::Int(offset), ty: offset_ty };
        assert(info_view(offset_info) == entry_with(EntryView::Int(offset), offset_ty));
        self.push_popped(
            StackEntry::Offset { source: Box::new(source), offset: Box::new(offset_info) },
            field,
        );
        proof {
            assert(pop_rel(s0, *old(store), s1, st1, Some(src)));
            assert(ref_type_post(st1, st2, src.ty, target));
            assert(struct_field_post(st2, st3, target, offset as usize, field));
            assert(self@.last().ty == field);
            assert(pushed_slot(st3, *store, primitive_view(Primitives::Int, Confidence::High)));
            assert(self@ == s1.push(
                entry_with(
                    EntryView::Offset {
                        source: src,
                        offset: entry_with(EntryView::Int(offset), st3@.len() as usize),
                    },
                    self@.last().ty,
                ),
            ));

        }
        Ok(())
    }

    /// Replaces the top value, hinted to be an integer with medium confidence,
    /// by the binary operation `op` of it and the constant `value`, typed as
    /// an integer with medium confidence.
    pub fn push_const_int_binary_operator(&mut self, op: BinaryOperator, value: i64, store: &mut TypeStore) -> (r: Result<(), InvalidStackError>)
        requires
            old(store).wf(),
            tys_below(old(self)@, old(store)@.len()),
            room(old(self)@, old(store)@.len() as nat),
        ensures
            push_const_int_binary_operator_post(
                op,
                value,
                old(self)@,
                *old(store),
                final(self)@,
                *final(store),
                r,
            ),
    {
        let ghost s0 = self@;
        let source = match self.pop(store) {
            Ok(p) => p,
            Err(e) => return Err(e),
        };
        let ghost s1 = self@;
        let ghost st1 = *store;
        let ghost src = info_view(source);
        let rhs_ty = Self::new_slot(store, Primitives::Int, Confidence::Medium);
        let ghost st2 = *store;
        let int_type = ValueTypeInfo {
            ty: ValueType::Primitive(Primitives::Int),
            confidence: Confidence::Medium,
        };
        let ghost hinted = int_type;
        LinkedValueType::hint(store, source.ty, int_type);
        let ghost st3 = *store;
        proof {
            lemma_hint_growth(st2, st3, src.ty, hinted);
        }
        let result_ty = Self::new_slot(store, Primitives::Int, Confidence::Medium);
        let rhs = StackEntryInfo { entry: StackEntry::Int(value), ty: rhs_ty };
        assert(info_view(rhs) == entry_with(EntryView::Int(value), rhs_ty));
        self.push_popped(
            StackEntry::BinaryOperator { lhs: Box::new(source), rhs: Box::new(rhs), op },
            result_ty,
        );
        proof {
            assert(pop_rel(s0, *old(store), s1, st1, Some(src)));
            assert(pushed_slot(st1, st2, primitive_view(Primitives::Int, Confidence::Medium)));
            assert(hint_post(st2, st3, src.ty, hinted));
        }
        Ok(())
    }

    /// Pops an offset and then a base and pushes the base moved by the offset,
    /// typed as an unknown.
    pub fn push_offset(&mut self, store: &mut TypeStore) -> (r: Result<(), InvalidStackError>)
        requires
            old(store).wf(),
            tys_below(old(self)@, old(store)@.len()),
            room(old(self)@, old(store)@.len() as nat),
        ensures
            push_offset_post(
                old(self)@,
                *old(store),
                final(self)@,
                *final(store),
                r,
            ),
    {
        let ghost s0 = self@;
        let offset = match self.pop(store) {
            Ok(p) => p,
            Err(e) => return Err(e),
        };
        let ghost s1 = self@;
        let ghost st1 = *store;
        let ghost a = info_view(offset);
        let source = match self.pop(store) {
            Ok(p) => p,
            Err(e) => {
                assert(pop_rel(s0, *old(store), s1, st1, Some(a)));
                return Err(e);
            },
        };
        let ghost s2 = self@;
        let ghost st2 = *store;
        let ghost b = info_view(source);
        let ty = Self::new_slot(store, Primitives::Unknown, Confidence::Absent);
        self.push_popped(StackEntry::Offset { source: Box::new(source), offset: Box::new(offset) }, ty);
        proof {
            assert(pop_rel(s0, *old(store), s1, st1, Some(a)));
            assert(pop_rel(s1, st1, s2, st2, Some(b)));

        }
        Ok(())
    }

    /// Pops an array and then an index and pushes the array item, typed as
    /// the item type of the array's type.
    pub fn push_array_item(&mut self, item_size: usize, store: &mut TypeStore) -> (r: Result<(), InvalidStackError>)
        requires
            old(store).wf(),
            tys_below(old(self)@, old(store)@.len()),
            room(old(self)@, old(store)@.len() as nat),
        ensures
            push_array_item_post(
                item_size,
                old(self)@,
                *old(store),
                final(self)@,
                *final(store),
                r,
            ),
    {
        let ghost s0 = self@;
        let source = match self.pop(store) {
            Ok(p) => p,
            Err(e) => return Err(e),
        };
        let ghost s1 = self@;
        let ghost st1 = *store;
        let ghost a = info_view(source);
        let index = match self.pop(store) {
            Ok(p) => p,
            Err(e) => {
                assert(pop_rel(s0, *old(store), s1, st1, Some(a)));
                return Err(e);
            },
        };
        let ghost s2 = self@;
        let ghost st2 = *store;
        let ghost b = info_view(index);
        let item = LinkedValueType::array_item_type(store, source.ty);
        proof {
            lemma_item_type_growth(st2, *store, a.ty, item);
        }
        self.push_popped(
            StackEntry::ArrayItem { source: Box::new(source), index: Box::new(index), item_size },
            item,
        );
        proof {
            assert(pop_rel(s0, *old(store), s1, st1, Some(a)));
            assert(pop_rel(s1, st1, s2, st2, Some(b)));
            assert(array_item_type_post(st2, *store, a.ty, item));
        }
        Ok(())
    }

    /// Pops the right and then the left operand, hints them to have `lhs_ty`
    /// and `rhs_ty`, and pushes the binary operation `op` on them, typed `ty`
    /// with high confidence.
    pub fn push_binary_operator(&mut self, ty: Primitives, lhs_ty: ValueTypeInfo, rhs_ty: ValueTypeInfo, op: BinaryOperator, store: &mut TypeStore) -> (r: Result<(), InvalidStackError>)
        requires
            old(store).wf(),
            tys_below(old(self)@, old(store)@.len()),
            room(old(self)@, old(store)@.len() as nat),
            lhs_ty.ty@.handles_below(old(store)@.len()),
            rhs_ty.ty@.handles_below(old(store)@.len()),
        ensures
            push_binary_operator_post(
                ty,
                lhs_ty,
                rhs_ty,
                op,
                old(self)@,
                *old(store),
                final(self)@,
                *final(store),
                r,
            ),
    {
        let ghost s0 = self@;
        let rhs = match self.pop(store) {
            Ok(p) => p,
            Err(e) => return Err(e),
        };
        let ghost s1 = self@;
        let ghost st1 = *store;
        let ghost a = info_view(rhs);
        let lhs = match self.pop(store) {
            Ok(p) => p,
            Err(e) => {
                assert(pop_rel(s0, *old(store), s1, st1, Some(a)));
                return Err(e);
            },
        };
        let ghost s2 = self@;
        let ghost st2 = *store;
        let ghost b = info_view(lhs);
        let ghost lt = lhs_ty;
        let ghost rt = rhs_ty;
        LinkedValueType::hint(store, lhs.ty, lhs_ty);
        let ghost st3 = *store;
        proof {
            lemma_hint_growth(st2, st3, b.ty, lt);
        }
        LinkedValueType::hint(store, rhs.ty, rhs_ty);
        let ghost st4 = *store;
        proof {
            lemma_hint_growth(st3, st4, a.ty, rt);
        }
        let result_ty = Self::new_slot(store, ty, Confidence::High);
        self.push_popped(
            StackEntry::BinaryOperator { lhs: Box::new(lhs), rhs: Box::new(rhs), op },
            result_ty,
        );
        proof {
            assert(pop_rel(s0, *old(store), s1, st1, Some(a)));
            assert(pop_rel(s1, st1, s2, st2, Some(b)));
            assert(hint_post(st2, st3, b.ty, lt));
            assert(hint_post(st3, st4, a.ty, rt));
        }
        Ok(())
    }

    /// Pops values that take up `n` slots, the top one first. A value that
    /// takes up more slots than are still wanted is split, and only its last
    /// slot comes off.
    #[verifier::rlimit(40)]
    pub fn pop_n(&mut self, n: usize, store: &mut TypeStore) -> (r: Result<
        Vec<StackEntryInfo<'i>>,
        InvalidStackError,
    >)
        requires
            old(store).wf(),
            tys_below(old(self)@, old(store)@.len()),
        ensures
            pop_n_post(
                n,
                old(self)@,
                *old(store),
                final(self)@,
                *final(store),
                r,
            ),
    {
        let mut result: Vec<StackEntryInfo<'i>> = Vec::new();
        let mut left = n;
        loop
            invariant
                store.wf(),
                store.keeps_concretes(old(store)),
                tys_below(self@, store@.len()),
                forall|i: int| 0 <= i < result@.len() ==> (#[trigger] result@[i]).ty < store@.len(),
                forall|s1: Seq<InfoView>, st1: TypeStore, res: Seq<InfoView>, ok: bool|
                    #[trigger] pop_n_rel(self@, *store, left as nat, s1, st1, res, ok) ==> pop_n_rel(
                        old(self)@,
                        *old(store),
                        n as nat,
                        s1,
                        st1,
                        infos_view(result@) + res,
                        ok,
                    ),
            decreases left, self@.len(),
        {
            let ghost cur = self@;
            let ghost st_cur = *store;
            let ghost done = infos_view(result@);
            if left == 0 {
                proof {
                    assert(pop_n_rel(cur, st_cur, 0, cur, st_cur, Seq::empty(), true));
                    assert(done + Seq::<InfoView>::empty() =~= done);
                    lemma_infos_view_len(result@);
                }
                return Ok(result);
            }
            proof {
                lemma_infos_view_len(self.stack@);
            }
            if self.stack.len() == 0 {
                proof {
                    assert(pop_n_rel(cur, st_cur, left as nat, cur, st_cur, Seq::empty(), false));
                    assert(done + Seq::<InfoView>::empty() =~= done);
                }
                return Err(InvalidStackError);
            }
            let back_size = self.stack[self.stack.len() - 1].entry.size();
            let ghost old_left = left;
            if back_size > left {
                match self.pop(store) {
                    Ok(last) => {
                        let ghost f = info_view(last);
                        let ghost next = self@;
                        let ghost st_next = *store;
                        proof {
                            assert(pop_rel(cur, st_cur, next, st_next, Some(f)));
                        }
                        let ghost before = result@;
                        result.push(last);
                        left = left - 1;
                        proof {
                            assert(result@.drop_last() =~= before);
                            assert(infos_view(result@) == done.push(f));
                            assert forall|s1: Seq<InfoView>, st1: TypeStore, res: Seq<InfoView>, ok: bool|
                                #[trigger] pop_n_rel(self@, *store, left as nat, s1, st1, res, ok)
                                implies pop_n_rel(
                                old(self)@,
                                *old(store),
                                n as nat,
                                s1,
                                st1,
                                infos_view(result@) + res,
                                ok,
                            ) by {
                                let longer = seq![f] + res;
                                assert(longer.drop_first() =~= res);
                                assert(pop_n_rel(cur, st_cur, old_left as nat, s1, st1, longer, ok));
                                assert(infos_view(result@) + res =~= done + longer);
                            }
                        }
                    },
                    Err(e) => {
                        proof {
                            assert(pop_n_rel(cur, st_cur, left as nat, self@, *store, Seq::empty(), false));
                            assert(done + Seq::<InfoView>::empty() =~= done);
                        }
                        return Err(e);
                    },
                }
            } else {
                let popped = self.pop_back().unwrap();
                let ghost f = info_view(popped);
                let ghost next = self@;
                let ghost before = result@;
                result.push(popped);
                left = left - back_size;
                proof {
                    assert(result@.drop_last() =~= before);
                    assert(infos_view(result@) == done.push(f));
                    assert forall|s1: Seq<InfoView>, st1: TypeStore, res: Seq<InfoView>, ok: bool|
                        #[trigger] pop_n_rel(self@, *store, left as nat, s1, st1, res, ok)
                        implies pop_n_rel(
                        old(self)@,
                        *old(store),
                        n as nat,
                        s1,
                        st1,
                        infos_view(result@) + res,
                        ok,
                    ) by {
                        let longer = seq![f] + res;
                        assert(longer.drop_first() =~= res);
                        assert(pop_n_rel(cur, st_cur, old_left as nat, s1, st1, longer, ok));
                        assert(infos_view(result@) + res =~= done + longer);
                    }
                }
            }
        }
    }

    /// Pushes local `local_index`, typed as `local_type`, the type the
    /// function gives the local, or else as an unknown.
    pub fn push_local(&mut self, local_index: usize, local_type: Option<usize>, store: &mut TypeStore)
        requires
            old(store).wf(),
            old(store)@.len() < usize::MAX,
            local_type matches Some(h) ==> h < old(store)@.len(),
        ensures
            push_local_post(
                local_index,
                local_type,
                old(self)@,
                *old(store),
                final(self)@,
                *final(store),
            ),
    {
        let ty = match local_type {
            Some(h) => h,
            None => Self::new_slot(store, Primitives::Unknown, Confidence::Absent),
        };
        self.push_back(StackEntryInfo { entry: StackEntry::Local(local_index), ty });
    }

    /// Pushes static `static_index`, typed as the script gives the static,
    /// or as an unknown if the script has no such static.
    pub fn push_static(&mut self, static_index: usize, statics: &ScriptStatics, store: &mut TypeStore)
        requires
            old(store).wf(),
            old(store)@.len() < usize::MAX,
        ensures
            push_static_post(
                static_index,
                statics@,
                old(self)@,
                *old(store),
                final(self)@,
                *final(store),
            ),
    {
        let ty = match statics.get_static(static_index) {
            Some(h) => h,
            None => Self::new_slot(store, Primitives::Unknown, Confidence::Absent),
        };
        self.push_back(StackEntryInfo { entry: StackEntry::Static(static_index), ty });
    }

    /// Pushes global `global_index`, typed as the globals give it; a global
    /// seen for the first time gets a fresh unknown type.
    pub fn push_global(&mut self, global_index: usize, globals: &mut ScriptGlobals, store: &mut TypeStore)
        requires
            old(store).wf(),
            old(store)@.len() < usize::MAX,
        ensures
            push_global_post(
                global_index,
                old(globals)@,
                final(globals)@,
                old(self)@,
                *old(store),
                final(self)@,
                *final(store),
            ),
    {
        let ty = globals.get_global(global_index, store);
        self.push_back(StackEntryInfo { entry: StackEntry::Global(global_index), ty });
    }

    /// Pushes a copy of the top value, or of its last slot if it takes up
    /// more than one.
    pub fn push_dup(&mut self, store: &mut TypeStore) -> (r: Result<(), InvalidStackError>)
        requires
            old(store).wf(),
            tys_below(old(self)@, old(store)@.len()),
            room(old(self)@, old(store)@.len() as nat),
        ensures
            push_dup_post(
                old(self)@,
                *old(store),
                final(self)@,
                *final(store),
                r,
            ),
    {
        proof {
            lemma_infos_view_len(self.stack@);
        }
        if self.stack.len() == 0 {
            return Err(InvalidStackError);
        }
        let back = self.stack[self.stack.len() - 1].copy();
        proof {
            assert(self@[self@.len() - 1].ty < store@.len());
        }
        if back.entry.size() > 1 {
            let ghost st0 = *store;
            let (last, _) = back.split_off(store);
            proof {
                lemma_struct_field_growth(
                    st0,
                    *store,
                    old(self)@.last().ty,
                    split_field_index(old(self)@.last()) as usize,
                    info_view(last).ty,
                );
            }
            self.push_back(last);
        } else {
            self.push_back(back);
        }
        Ok(())
    }

    /// The value `n` entries below the top, copied; a value of several slots
    /// gives its last slot, and the rest of it is pushed on top.
    pub fn nth_back(&mut self, n: usize, store: &mut TypeStore) -> (r: Result<StackEntryInfo<'i>, InvalidStackError>)
        requires
            old(store).wf(),
            tys_below(old(self)@, old(store)@.len()),
            room(old(self)@, old(store)@.len() as nat),
        ensures
            nth_back_post(
                n,
                old(self)@,
                *old(store),
                final(self)@,
                *final(store),
                r,
            ),
    {
        proof {
            lemma_infos_view_len(self.stack@);
        }
        if n >= self.stack.len() {
            return Err(InvalidStackError);
        }
        let index = self.stack.len() - 1 - n;
        let back = self.stack[index].copy();
        if back.entry.size() > 1 {
            let ghost st0 = *store;
            let ghost e = old(self)@[index as int];
            let (last, rest) = back.split_off(store);
            proof {
                lemma_struct_field_growth(
                    st0,
                    *store,
                    e.ty,
                    split_field_index(e) as usize,
                    info_view(last).ty,
                );
                lemma_rest_size(e);
            }
            match rest {
                Some(rest) => {
                    self.push_back(rest);
                },
                None => {},
            }
            proof {
                assert(self@ =~= old(self)@ + opt_seq(split_rest(e)));
            }
            Ok(last)
        } else {
            Ok(back)
        }
    }

    /// Turns a bitwise `and` or `or` on top into its logical counterpart.
    pub fn try_make_bitwise_logical(&mut self, store: &mut TypeStore) -> (r: Result<(), InvalidStackError>)
        requires
            old(store).wf(),
            tys_below(old(self)@, old(store)@.len()),
        ensures
            final(store).wf(),
            final(store).keeps_concretes(old(store)),
            tys_below(final(self)@, final(store)@.len()),
            r is Err ==> pop_rel(old(self)@, *old(store), final(self)@, *final(store), None),
            r is Ok ==> exists|s1: Seq<InfoView>, a: InfoView|
                #![auto]
                {
                    &&& pop_rel(old(self)@, *old(store), s1, *final(store), Some(a))
                    &&& final(self)@ == s1.push(logical_of(a))
                },
    {
        let ghost s0 = self@;
        let last = match self.pop(store) {
            Ok(p) => p,
            Err(e) => return Err(e),
        };
        let ghost s1 = self@;
        let ghost a = info_view(last);
        let StackEntryInfo { entry, ty } = last;
        match entry {
            StackEntry::BinaryOperator { lhs, rhs, op } => {
                let new_op = match op {
                    BinaryOperator::BitwiseAnd => BinaryOperator::LogicalAnd,
                    BinaryOperator::BitwiseOr => BinaryOperator::LogicalOr,
                    other => other,
                };
                let ghost lv = info_view(*lhs);
                let ghost rv = info_view(*rhs);
                assert(*a.entry == EntryView::BinaryOperator { lhs: lv, rhs: rv, op });
                self.push_popped(StackEntry::BinaryOperator { lhs, rhs, op: new_op }, ty);
                assert(self@ == s1.push(logical_of(a)));
            },
            other => {
                self.push_popped(other, ty);
                assert(self@ == s1.push(logical_of(a)));
            },
        }
        proof {
            assert(pop_rel(s0, *old(store), s1, *store, Some(a)));
        }
        Ok(())
    }

    /// Replaces the index on top by the string at that index of the script's
    /// string table (or `<UNKNOWN>`), typed as a string with high confidence.
    pub fn push_string(&mut self, script: &'i Script, store: &mut TypeStore) -> (r: Result<(), InvalidStackError>)
        requires
            old(store).wf(),
            tys_below(old(self)@, old(store)@.len()),
            room(old(self)@, old(store)@.len() as nat),
            old(self)@.len() > 0 && old(self)@.last().size() <= 1 ==> match *old(self)@.last().entry {
                EntryView::Int(n) => (n as usize) <= script.strings@.len(),
                _ => true,
            },
        ensures
            push_string_post(
                *script,
                old(self)@,
                *old(store),
                final(self)@,
                *final(store),
                r,
            ),
    {
        let ghost s0 = self@;
        let index = match self.pop(store) {
            Ok(p) => p,
            Err(e) => return Err(e),
        };
        let ghost s1 = self@;
        let ghost st1 = *store;
        let ghost a = info_view(index);
        let n = match index.entry {
            StackEntry::Int(n) => n,
            _ => {
                assert(pop_rel(s0, *old(store), self@, *store, Some(a)));
                return Err(InvalidStackError);
            },
        };
        let text: &'i str = match script.get_string(n as usize) {
            Some(t) => t,
            None => "<UNKNOWN>",
        };
        let ty = Self::new_slot(store, Primitives::String, Confidence::High);
        self.push_popped(StackEntry::String(text), ty);
        proof {
            assert(pop_rel(s0, *old(store), s1, st1, Some(a)));
        }
        Ok(())
    }

    /// Pops an address and then a count `n` and pushes the `n` slots at the
    /// address as one struct value; the address (or what it refers to) is
    /// made a struct of at least `n` fields.
    pub fn push_load_n(&mut self, store: &mut TypeStore) -> (r: Result<(), InvalidStackError>)
        requires
            old(store).wf(),
            tys_below(old(self)@, old(store)@.len()),
            room(old(self)@, old(store)@.len() as nat),
            old(self)@.len() > 0 && old(self)@.last().size() <= 1 ==> match *old(self)@.last().entry {
                EntryView::Ref(rf) => rf.ty < old(store)@.len(),
                _ => true,
            },
        ensures
            push_load_n_post(
                old(self)@,
                *old(store),
                final(self)@,
                *final(store),
                r,
            ),
    {
        let ghost s0 = self@;
        let addr = match self.pop(store) {
            Ok(p) => p,
            Err(e) => return Err(e),
        };
        let ghost s1 = self@;
        let ghost st1 = *store;
        let ghost a = info_view(addr);
        let count = match self.pop(store) {
            Ok(p) => p,
            Err(e) => {
                assert(pop_rel(s0, *old(store), s1, st1, Some(a)));
                return Err(e);
            },
        };
        let ghost s2 = self@;
        let ghost st2 = *store;
        let ghost b = info_view(count);
        proof {
            assert(pop_rel(s0, *old(store), s1, st1, Some(a)));
            assert(pop_rel(s1, st1, s2, st2, Some(b)));
        }
        let n = match count.entry {
            StackEntry::Int(n) => n,
            _ => return Err(InvalidStackError),
        };
        let size = n as usize;
        if store.len() > usize::MAX - size {
            return Err(InvalidStackError);
        }
        let StackEntryInfo { entry, ty } = addr;
        let target = match entry {
            StackEntry::Ref(rf) => *rf,
            other => StackEntryInfo { entry: other, ty },
        };
        assert(info_view(target) == load_target(a));
        LinkedValueType::struct_size(store, target.ty, size);
        proof {
            lemma_struct_size_growth(st2, *store, target.ty, size);
        }
        let target_ty = target.ty;
        self.push_popped(StackEntry::Struct { origin: Box::new(target), size }, target_ty);
        proof {
            assert(b == entry_with(EntryView::Int(n), s1.last().ty));
        }
        Ok(())
    }

    /// Pops the arguments of a native call, `arg_count` slots, and pushes
    /// its `return_count` results as one value, typed as a struct of that
    /// many fields.
    pub fn push_native_call(
        &mut self,
        arg_count: usize,
        return_count: usize,
        native_hash: u64,
        store: &mut TypeStore,
    ) -> (r: Result<(), InvalidStackError>)
        requires
            old(store).wf(),
            tys_below(old(self)@, old(store)@.len()),
        ensures
            push_native_call_post(
                arg_count,
                return_count,
                native_hash,
                old(self)@,
                *old(store),
                final(self)@,
                *final(store),
                r,
            ),
    {
        let args = match self.pop_n(arg_count, store) {
            Ok(a) => a,
            Err(e) => return Err(e),
        };
        let ghost s1 = self@;
        let ghost st1 = *store;
        let ghost args_v = infos_view(args@);
        if return_count == usize::MAX || store.len() > usize::MAX - return_count - 1 {
            return Err(InvalidStackError);
        }
        let args = reverse_entries(args);
        let confidence = if return_count > 1 {
            Confidence::Medium
        } else {
            Confidence::Absent
        };
        let ty = Self::new_slot(store, Primitives::Unknown, confidence);
        let ghost st2 = *store;
        LinkedValueType::struct_size(store, ty, return_count);
        proof {
            lemma_struct_size_growth(st2, *store, ty, return_count);
        }
        self.push_popped(
            StackEntry::NativeCallResult { args, return_values: return_count, native_hash },
            ty,
        );
        proof {
            assert(pushed_slot(st1, st2, native_result_view(return_count)));
        }
        Ok(())
    }

    /// Pops the arguments of a call, `parameter_count` slots, links each
    /// argument's type with the type of its parameter, and pushes the call's
    /// result, typed as the function's return type.
    pub fn push_function_call(
        &mut self,
        parameter_count: usize,
        parameters: &Vec<usize>,
        location: usize,
        return_count: usize,
        return_type: Option<usize>,
        store: &mut TypeStore,
    ) -> (r: Result<(), InvalidStackError>)
        requires
            old(store).wf(),
            tys_below(old(self)@, old(store)@.len()),
            return_type matches Some(h) && h < old(store)@.len(),
            forall|i: int| 0 <= i < parameters@.len() ==> #[trigger] parameters@[i] < old(store)@.len(),
        ensures
            push_function_call_post(
                parameter_count,
                parameters@,
                location,
                return_count,
                return_type,
                old(self)@,
                *old(store),
                final(self)@,
                *final(store),
                r,
            ),
    {
        let args = match self.pop_n(parameter_count, store) {
            Ok(a) => a,
            Err(e) => return Err(e),
        };
        let ghost s1 = self@;
        let ghost st1 = *store;
        let ghost args_v = infos_view(args@);
        let args = reverse_entries(args);
        let ghost rev = infos_view(args@);
        proof {
            lemma_infos_view_len(args@);
            assert forall|i: int| 0 <= i < rev.len() implies #[trigger] rev[i].ty < st1@.len() by {
                assert(rev[i] == args_v[args_v.len() - 1 - i]);
            }
        }
        let mut p: usize = 0;
        let mut k: usize = 0;
        let ghost mut chain: Seq<TypeStore> = seq![*store];
        while k < args.len()
            invariant
                k <= args@.len(),
                rev == infos_view(args@),
                rev.len() == args@.len(),
                tys_below(rev, st1@.len()),
                store.wf(),
                store@.len() == st1@.len(),
                p == param_index(rev, parameters@.len(), k as nat),
                p <= parameters@.len(),
                forall|i: int| 0 <= i < parameters@.len() ==> #[trigger] parameters@[i] < st1@.len(),
                chain.len() == k + 1,
                chain[0] == st1,
                chain.last() == *store,
                forall|i: int|
                    0 <= i < k ==> #[trigger] link_step(chain[i], chain[i + 1], rev, parameters@, i as nat),
            decreases args@.len() - k,
        {
            let ghost before = *store;
            proof {
                lemma_infos_view_len(args@);
            }
            let arg_ty = args[k].ty;
            let arg_size = args[k].entry.size();
            let ghost p0 = p;
            proof {
                assert(rev[k as int] == info_view(args@[k as int]));
                assert(rev[k as int].ty == arg_ty);
            }
            if p < parameters.len() {
                LinkedValueType::link(store, arg_ty, parameters[p]);
                p = p + 1;
                if parameters.len() - p > arg_size {
                    p = p + arg_size;
                } else {
                    p = parameters.len();
                }
            }
            proof {
                let old_chain = chain;
                chain = chain.push(*store);
                assert(link_step(chain[k as int], chain[k + 1], rev, parameters@, k as nat));
                assert forall|i: int| 0 <= i < k + 1 implies #[trigger] link_step(
                    chain[i],
                    chain[i + 1],
                    rev,
                    parameters@,
                    i as nat,
                ) by {
                    if i < k {
                        assert(chain[i] == old_chain[i]);
                        assert(chain[i + 1] == old_chain[i + 1]);
                    }
                }
            }
            k = k + 1;
        }
        proof {
            assert(links_chain(chain, rev, parameters@));
        }
        let ty = return_type.unwrap();
        self.push_popped(
            StackEntry::FunctionCallResult { args, function_address: location, return_values: return_count },
            ty,
        );
        Ok(())
    }

    /// Pops the top value: the whole entry if it takes up at most one slot,
    /// otherwise its last slot, the rest staying on the stack.
    pub fn pop(&mut self, store: &mut TypeStore) -> (r: Result<StackEntryInfo<'i>, InvalidStackError>)
        requires
            old(store).wf(),
            tys_below(old(self)@, old(store)@.len()),
        ensures
            pop_post(
                old(self)@,
                *old(store),
                final(self)@,
                *final(store),
                r,
            ),
    {
        proof {
            lemma_infos_view_len(self.stack@);
        }
        if self.stack.len() == 0 {
            return Err(InvalidStackError);
        }
        let top_size = self.stack[self.stack.len() - 1].entry.size();
        if top_size > 1 && (top_size == usize::MAX || store.len() > usize::MAX - top_size - 1) {
            return Err(InvalidStackError);
        }
        let back = self.pop_back().unwrap();
        if top_size > 1 {
            let ghost mid = self@;
            let ghost st0 = *store;
            let (last, rest) = back.split_off(store);
            proof {
                lemma_struct_field_growth(
                    st0,
                    *store,
                    old(self)@.last().ty,
                    split_field_index(old(self)@.last()) as usize,
                    info_view(last).ty,
                );
            }
            match rest {
                Some(rest) => {
                    self.push_back(rest);
                },
                None => {},
            }
            proof {
                assert(self@ =~= mid + opt_seq(split_rest(old(self)@.last())));
                lemma_rest_size(old(self)@.last());
            }
            Ok(last)
        } else {
            Ok(back)
        }
    }
}

/// The entries in reverse order.
fn reverse_entries<'i>(v: Vec<StackEntryInfo<'i>>) -> (r: Vec<StackEntryInfo<'i>>)
    ensures
        r@ == v@.reverse(),
        infos_view(r@) == infos_view(v@).reverse(),
{
    let ghost orig = v@;
    let mut v = v;
    let mut r: Vec<StackEntryInfo<'i>> = Vec::new();
    while v.len() > 0
        invariant
            v@ == orig.take(v@.len() as int),
            r@ == orig.reverse().take(r@.len() as int),
            v@.len() + r@.len() == orig.len(),
        decreases v@.len(),
    {
        let ghost vb = v@;
        let ghost rb = r@;
        let e = v.pop().unwrap();
        r.push(e);
        proof {
            assert(v@ =~= orig.take(v@.len() as int));
            assert(r@ =~= orig.reverse().take(r@.len() as int));
        }
    }
    proof {
        assert(r@ =~= orig.reverse());
        lemma_infos_view_len(r@);
        lemma_infos_view_len(orig);
        assert(infos_view(r@) =~= infos_view(orig).reverse());
    }
    r
}

} // verus!
