use crate::decompiler::control_flow::{CaseValue, ControlFlow};
use crate::decompiler::decompiled::statement::{Statement, StatementInfo};
use crate::decompiler::stack_entry::StackEntryInfo;
use crate::decompiler::value_type::{
    fresh_handles, hint_post, lemma_hint_growth, link_post, unknown_view, unknown_views, Confidence, LinkedValueType,
    NodeView, Primitives, TypeStore, TypeView,
    ValueType, ValueTypeInfo,
};
use crate::decompiler::function_graph::{dot_text, graph_exists, graphable, FunctionGraph};
use crate::disassembler::instruction::{Instruction, InstructionInfo};
use crate::formatters::assembly_formatter::{listable, AssemblyFormatter};
use crate::formatters::instruction_text::renders_floats;
use crate::formatters::text::{decimal, push_decimal};
use std::collections::HashMap;
use vstd::prelude::*;

verus! {

broadcast use {vstd::std_specs::hash::group_hash_axioms, vstd::std_specs::vec::group_vec_axioms};

/// What decompiling a node of a function's graph leaves: its statements,
/// the condition its last branch tests (if it ends in one), and the
/// instructions that the condition came from.
pub type NodeStatements<'i> = (Vec<StatementInfo<'i>>, Option<StackEntryInfo<'i>>, &'i [InstructionInfo<'i>]);

/// One change to the type store made while typing statements.
pub enum TypingStep {
    /// The two slots are unified.
    Link(usize, usize),
    /// The type the slot leads to is raised to `node`, if `node` is held
    /// with more confidence.
    Hint(usize, NodeView),
    /// A new slot holding a string is made, and the slot is hinted to be a
    /// reference to it.
    StringRef(usize),
}

/// A string held with high confidence.
pub open spec fn string_node() -> NodeView {
    NodeView::Type { ty: TypeView::Primitive { primitive: Primitives::String }, confidence: Confidence::High }
}

/// A primitive held with the given confidence.
pub open spec fn primitive_node(primitive: Primitives, confidence: Confidence) -> NodeView {
    NodeView::Type { ty: TypeView::Primitive { primitive }, confidence }
}

/// What hinting `ty` with `node` does to the store.
pub open spec fn hint_rel(st0: TypeStore, st1: TypeStore, ty: usize, node: NodeView) -> bool {
    &&& st1.wf()
    &&& st1.keeps_concretes(&st0)
    &&& node->Type_confidence.level() > st0.concrete_view(ty as int)->Type_confidence.level()
        ==> st1@ == st0@.update(st0.concrete(ty as int), node)
    &&& !(node->Type_confidence.level() > st0.concrete_view(ty as int)->Type_confidence.level())
        ==> st1@ == st0@
}

/// What one typing step does to the store.
pub open spec fn step_rel(st0: TypeStore, st1: TypeStore, step: TypingStep) -> bool {
    match step {
        TypingStep::Link(a, b) => link_post(st0, st1, a, b),
        TypingStep::Hint(ty, node) => hint_rel(st0, st1, ty, node),
        TypingStep::StringRef(ty) => exists|mid: TypeStore|
            {
                &&& #[trigger] mid.wf()
                &&& mid@ == st0@.push(string_node())
                &&& mid.keeps_concretes(&st0)
                &&& hint_rel(
                    mid,
                    st1,
                    ty,
                    NodeView::Type {
                        ty: TypeView::Ref { target: st0@.len() as usize },
                        confidence: Confidence::High,
                    },
                )
            },
    }
}

/// `stores` are the stores before and after each of the steps in order.
pub open spec fn chain_rel(stores: Seq<TypeStore>, steps: Seq<TypingStep>) -> bool {
    &&& stores.len() == steps.len() + 1
    &&& forall|i: int| 0 <= i < steps.len() ==> step_rel(stores[i], stores[i + 1], #[trigger] steps[i])
}

/// The store went from `st0` to `st1` by the steps in order.
pub open spec fn steps_rel(st0: TypeStore, st1: TypeStore, steps: Seq<TypingStep>) -> bool {
    exists|stores: Seq<TypeStore>|
        #[trigger] chain_rel(stores, steps) && stores[0] == st0 && stores.last() == st1
}

/// The handles of the types of values.
pub open spec fn value_types(values: Seq<StackEntryInfo>) -> Seq<usize> {
    values.map_values(|v: StackEntryInfo| v.ty)
}

/// The steps that typing one statement takes: an assignment unifies its
/// sides; a single returned value is unified with the result type, several
/// make it a struct of their types; a condition is hinted to be a bool,
/// a switch's value an int; string statements make their destination a
/// reference to a string and hint their source; a memory copy hints its
/// size to be an int.
pub open spec fn statement_steps(st: Statement, result_type: Option<usize>) -> Seq<TypingStep> {
    match st {
        Statement::Assign { destination, source } => seq![TypingStep::Link(destination.ty, source.ty)],
        Statement::Return { values } => if values@.len() == 1 {
            seq![TypingStep::Link(result_type->0, values@[0].ty)]
        } else if values@.len() == 0 {
            seq![]
        } else {
            seq![
                TypingStep::Hint(
                    result_type->0,
                    NodeView::Type {
                        ty: TypeView::Struct { fields: value_types(values@) },
                        confidence: Confidence::High,
                    },
                ),
            ]
        },
        Statement::If { condition, .. } => seq![
            TypingStep::Hint(condition.ty, primitive_node(Primitives::Bool, Confidence::Medium)),
        ],
        Statement::IfElse { condition, .. } => seq![
            TypingStep::Hint(condition.ty, primitive_node(Primitives::Bool, Confidence::Medium)),
        ],
        Statement::WhileLoop { condition, .. } => seq![
            TypingStep::Hint(condition.ty, primitive_node(Primitives::Bool, Confidence::Medium)),
        ],
        Statement::Switch { condition, .. } => seq![
            TypingStep::Hint(condition.ty, primitive_node(Primitives::Int, Confidence::Medium)),
        ],
        Statement::StringCopy { destination, string, .. } => seq![
            TypingStep::StringRef(destination.ty),
            TypingStep::Hint(string.ty, string_node()),
        ],
        Statement::IntToString { destination, int: number, .. } => seq![
            TypingStep::StringRef(destination.ty),
            TypingStep::Hint(number.ty, primitive_node(Primitives::Int, Confidence::High)),
        ],
        Statement::StringConcat { destination, string, .. } => seq![
            TypingStep::StringRef(destination.ty),
            TypingStep::Hint(string.ty, string_node()),
        ],
        Statement::StringIntConcat { destination, int: number, .. } => seq![
            TypingStep::StringRef(destination.ty),
            TypingStep::Hint(number.ty, primitive_node(Primitives::Int, Confidence::High)),
        ],
        Statement::MemCopy { buffer_size, .. } => seq![
            TypingStep::Hint(buffer_size.ty, primitive_node(Primitives::Int, Confidence::High)),
        ],
        _ => seq![],
    }
}

/// The statement lists nested in a statement, in the order they are set
/// aside for later.
pub open spec fn statement_children<'i>(st: Statement<'i>) -> Seq<Seq<StatementInfo<'i>>> {
    match st {
        Statement::If { then, .. } => seq![then@],
        Statement::IfElse { then, els, .. } => seq![then@, els@],
        Statement::WhileLoop { body, .. } => seq![body@],
        Statement::Switch { cases, .. } => cases@.map_values(
            |c: (Vec<StatementInfo<'i>>, Vec<CaseValue>)| c.0@,
        ),
        _ => seq![],
    }
}

/// The steps of a list of statements, one statement after another.
pub open spec fn list_steps(l: Seq<StatementInfo>, result_type: Option<usize>) -> Seq<TypingStep>
    decreases l.len(),
{
    if l.len() == 0 {
        seq![]
    } else {
        list_steps(l.drop_last(), result_type) + statement_steps(l.last().statement, result_type)
    }
}

/// The lists nested in a list of statements, in the order they are set
/// aside.
pub open spec fn list_children<'i>(l: Seq<StatementInfo<'i>>) -> Seq<Seq<StatementInfo<'i>>>
    decreases l.len(),
{
    if l.len() == 0 {
        seq![]
    } else {
        list_children(l.drop_last()) + statement_children(l.last().statement)
    }
}

/// A measure of the work typing a list of statements takes.
pub open spec fn list_work(l: Seq<StatementInfo>) -> nat
    decreases l, 1nat,
{
    if l.len() == 0 {
        1
    } else {
        list_work(l.drop_last()) + statement_work(l.last().statement)
    }
}

/// A measure of the work typing a statement and its nested lists takes.
pub open spec fn statement_work(st: Statement) -> nat
    decreases st, 0nat,
{
    match st {
        Statement::If { then, .. } => 1 + list_work(then@),
        Statement::IfElse { then, els, .. } => 1 + list_work(then@) + list_work(els@),
        Statement::WhileLoop { body, .. } => 1 + list_work(body@),
        Statement::Switch { cases, .. } => 1 + cases_work(cases@),
        _ => 1,
    }
}

/// The work of the bodies of switch cases added up.
pub open spec fn cases_work(cases: Seq<(Vec<StatementInfo>, Vec<CaseValue>)>) -> nat
    decreases cases, 1nat,
{
    if cases.len() == 0 {
        0
    } else {
        cases_work(cases.drop_last()) + list_work(cases.last().0@)
    }
}

/// The work of a sequence of lists added up.
pub open spec fn children_work(lists: Seq<Seq<StatementInfo>>) -> nat
    decreases lists.len(),
{
    if lists.len() == 0 {
        0
    } else {
        children_work(lists.drop_last()) + list_work(lists.last())
    }
}

/// The work of lists put side by side adds up.
proof fn lemma_children_work_concat(a: Seq<Seq<StatementInfo>>, b: Seq<Seq<StatementInfo>>)
    ensures
        children_work(a + b) == children_work(a) + children_work(b),
    decreases b.len(),
{
    if b.len() == 0 {
        assert(a + b =~= a);
    } else {
        lemma_children_work_concat(a, b.drop_last());
        assert((a + b).drop_last() =~= a + b.drop_last());
    }
}

/// The work of the bodies of switch cases is that of the lists they hold.
proof fn lemma_cases_work(cases: Seq<(Vec<StatementInfo>, Vec<CaseValue>)>)
    ensures
        cases_work(cases) == children_work(
            cases.map_values(|c: (Vec<StatementInfo>, Vec<CaseValue>)| c.0@),
        ),
    decreases cases.len(),
{
    if cases.len() > 0 {
        lemma_cases_work(cases.drop_last());
        assert(cases.map_values(|c: (Vec<StatementInfo>, Vec<CaseValue>)| c.0@).drop_last()
            =~= cases.drop_last().map_values(|c: (Vec<StatementInfo>, Vec<CaseValue>)| c.0@));
    }
}

/// The work of a list: one for the list, one for each statement, and that
/// of every list nested in it.
proof fn lemma_list_work(l: Seq<StatementInfo>)
    ensures
        list_work(l) == 1 + l.len() + children_work(list_children(l)),
    decreases l.len(),
{
    if l.len() > 0 {
        lemma_list_work(l.drop_last());
        let st = l.last().statement;
        lemma_children_work_concat(list_children(l.drop_last()), statement_children(st));
        assert(list_children(l) == list_children(l.drop_last()) + statement_children(st));
        assert(list_work(l) == list_work(l.drop_last()) + statement_work(st));
        match st {
            Statement::If { then, .. } => {
                lemma_single_work(then@);
            },
            Statement::IfElse { then, els, .. } => {
                let two = seq![then@, els@];
                lemma_single_work(then@);
                assert(two.drop_last() =~= seq![then@]);
                assert(two.last() == els@);
            },
            Statement::WhileLoop { body, .. } => {
                lemma_single_work(body@);
            },
            Statement::Switch { cases, .. } => {
                lemma_cases_work(cases@);
                assert(statement_work(st) == 1 + children_work(statement_children(st)));
            },
            _ => {
                assert(statement_children(st) =~= Seq::<Seq<StatementInfo>>::empty());
            },
        }
    }
}

/// The work of one list alone is its own.
proof fn lemma_single_work(l: Seq<StatementInfo>)
    ensures
        children_work(seq![l]) == list_work(l),
{
    let one = seq![l];
    assert(one.drop_last() =~= Seq::<Seq<StatementInfo>>::empty());
    assert(one.last() == l);
    assert(children_work(one.drop_last()) == 0);
}

/// Setting a list aside for its nested lists leaves less work.
pub proof fn lemma_pop_work(stack: Seq<Seq<StatementInfo>>)
    requires
        stack.len() > 0,
    ensures
        children_work(stack.drop_last() + list_children(stack.last())) < children_work(stack),
{
    lemma_children_work_concat(stack.drop_last(), list_children(stack.last()));
    lemma_list_work(stack.last());
}

/// The steps of typing the lists of `stack`: the last list is typed
/// statement by statement, the lists nested in it are set aside on the
/// stack as they come, and then the stack is typed in turn.
pub open spec fn walk_steps(stack: Seq<Seq<StatementInfo>>, result_type: Option<usize>) -> Seq<
    TypingStep,
>
    decreases children_work(stack),
{
    if stack.len() == 0 {
        seq![]
    } else {
        proof {
            lemma_pop_work(stack);
        }
        list_steps(stack.last(), result_type) + walk_steps(
            stack.drop_last() + list_children(stack.last()),
            result_type,
        )
    }
}

/// Whether every type handle that typing a statement uses is below `n`,
/// and the result type is there where a return needs it.
pub open spec fn statement_typable(n: nat, result_type: Option<usize>, st: Statement) -> bool
    decreases st, 0nat,
{
    match st {
        Statement::Assign { destination, source } => destination.ty < n && source.ty < n,
        Statement::Return { values } => values@.len() >= 1 ==> {
            &&& result_type matches Some(t) && t < n
            &&& forall|i: int| 0 <= i < values@.len() ==> #[trigger] values@[i].ty < n
        },
        Statement::If { condition, then } => condition.ty < n && list_typable(n, result_type, then@),
        Statement::IfElse { condition, then, els } => condition.ty < n && list_typable(
            n,
            result_type,
            then@,
        ) && list_typable(n, result_type, els@),
        Statement::WhileLoop { condition, body } => condition.ty < n && list_typable(
            n,
            result_type,
            body@,
        ),
        Statement::Switch { condition, cases } => condition.ty < n && cases_typable(
            n,
            result_type,
            cases@,
        ),
        Statement::StringCopy { destination, string, .. } => destination.ty < n && string.ty < n,
        Statement::IntToString { destination, int: number, .. } => destination.ty < n && number.ty < n,
        Statement::StringConcat { destination, string, .. } => destination.ty < n && string.ty < n,
        Statement::StringIntConcat { destination, int: number, .. } => destination.ty < n
            && number.ty < n,
        Statement::MemCopy { buffer_size, .. } => buffer_size.ty < n,
        _ => true,
    }
}

/// Whether every statement of a list is typable.
pub open spec fn list_typable(n: nat, result_type: Option<usize>, l: Seq<StatementInfo>) -> bool
    decreases l, 1nat,
{
    if l.len() == 0 {
        true
    } else {
        list_typable(n, result_type, l.drop_last()) && statement_typable(
            n,
            result_type,
            l.last().statement,
        )
    }
}

/// Whether every statement of the cases of a switch is typable.
pub open spec fn cases_typable(
    n: nat,
    result_type: Option<usize>,
    cases: Seq<(Vec<StatementInfo>, Vec<CaseValue>)>,
) -> bool
    decreases cases, 1nat,
{
    if cases.len() == 0 {
        true
    } else {
        cases_typable(n, result_type, cases.drop_last()) && list_typable(
            n,
            result_type,
            cases.last().0@,
        )
    }
}

/// Each statement of a typable list is typable, each prefix's steps and
/// nested lists grow one statement at a time.
proof fn lemma_list_at(n: nat, result_type: Option<usize>, l: Seq<StatementInfo>, j: int)
    requires
        0 <= j < l.len(),
    ensures
        list_typable(n, result_type, l) ==> statement_typable(n, result_type, l[j].statement),
        l.take(j + 1).drop_last() == l.take(j),
        l.take(j + 1).last() == l[j],
    decreases l.len(),
{
    assert(l.take(j + 1).drop_last() =~= l.take(j));
    if j < l.len() - 1 {
        lemma_list_at(n, result_type, l.drop_last(), j);
    }
}

/// Each case body of a typable switch is typable.
proof fn lemma_cases_at(
    n: nat,
    result_type: Option<usize>,
    cases: Seq<(Vec<StatementInfo>, Vec<CaseValue>)>,
    j: int,
)
    requires
        0 <= j < cases.len(),
        cases_typable(n, result_type, cases),
    ensures
        list_typable(n, result_type, cases[j].0@),
    decreases cases.len(),
{
    if j < cases.len() - 1 {
        lemma_cases_at(n, result_type, cases.drop_last(), j);
    }
}

/// A step more makes the chain one longer.
proof fn lemma_steps_push(
    st0: TypeStore,
    mid: TypeStore,
    st1: TypeStore,
    steps: Seq<TypingStep>,
    step: TypingStep,
)
    requires
        steps_rel(st0, mid, steps),
        step_rel(mid, st1, step),
    ensures
        steps_rel(st0, st1, steps.push(step)),
{
    let stores = choose|stores: Seq<TypeStore>|
        #[trigger] chain_rel(stores, steps) && stores[0] == st0 && stores.last() == mid;
    let longer = stores.push(st1);
    let more = steps.push(step);
    assert forall|i: int| 0 <= i < more.len() implies step_rel(longer[i], longer[i + 1], #[trigger] more[i]) by {
        if i < steps.len() {
            assert(more[i] == steps[i]);
            assert(step_rel(stores[i], stores[i + 1], steps[i]));
        }
    }
    assert(chain_rel(longer, more));
}

/// No steps leave the store as it is.
proof fn lemma_steps_none(st: TypeStore)
    ensures
        steps_rel(st, st, seq![]),
{
    let stores = seq![st];
    assert(chain_rel(stores, seq![]));
}

/// The lists of a stack of statement slices.
pub open spec fn stack_lists<'a, 'i>(stack: Seq<&'a [StatementInfo<'i>]>) -> Seq<Seq<StatementInfo<'i>>> {
    stack.map_values(|l: &'a [StatementInfo<'i>]| l@)
}

/// `m1` is `m0` with the entries of `removed` gone and the entry of `node`
/// holding `stmts` and `conditional` (its instructions kept); every other
/// entry is as it was.
pub open spec fn replaced<'i>(
    m0: Map<usize, NodeStatements<'i>>,
    m1: Map<usize, NodeStatements<'i>>,
    node: usize,
    removed: Set<usize>,
    stmts: Seq<StatementInfo<'i>>,
    conditional: Option<StackEntryInfo<'i>>,
) -> bool {
    &&& m1.dom() == m0.dom().difference(removed)
    &&& forall|k: usize| #[trigger] m1.contains_key(k) && k != node ==> m1[k] == m0[k]
    &&& m1[node].0@ == stmts
    &&& m1[node].1 == conditional
    &&& m1[node].2 == m0[node].2
}

/// `m0`'s entry of `node` with `st` appended as a statement built from its
/// condition and instructions, its condition used up.
pub open spec fn closed_with<'i>(
    m0: Map<usize, NodeStatements<'i>>,
    m1: Map<usize, NodeStatements<'i>>,
    node: usize,
    removed: Set<usize>,
    st: Statement<'i>,
) -> bool {
    replaced(
        m0,
        m1,
        node,
        removed,
        m0[node].0@.push(StatementInfo { instructions: m0[node].2, statement: st }),
        None,
    )
}

/// The case nodes of a switch.
pub open spec fn case_nodes(cases: Seq<(usize, Vec<CaseValue>)>) -> Set<usize> {
    Set::new(|k: usize| exists|i: int| 0 <= i < cases.len() && (#[trigger] cases[i]).0 == k)
}

/// What combining a construct does to the statements of its own node,
/// before what follows it is appended: a conditional or loop takes the
/// statements of its branches or body and the node's condition into one
/// statement; a switch takes those of its cases, each with its values; an
/// and/or takes over the statements and condition of the node it combines
/// with; other constructs change nothing.
pub open spec fn combined_inner<'i>(
    flow: ControlFlow,
    m0: Map<usize, NodeStatements<'i>>,
    m1: Map<usize, NodeStatements<'i>>,
) -> bool {
    match flow {
        ControlFlow::If { node, then, .. } => closed_with(
            m0,
            m1,
            node,
            set![then],
            Statement::If { condition: m0[node].1->0, then: m0[then].0 },
        ),
        ControlFlow::IfElse { node, then, els, .. } => closed_with(
            m0,
            m1,
            node,
            set![then, els],
            Statement::IfElse { condition: m0[node].1->0, then: m0[then].0, els: m0[els].0 },
        ),
        ControlFlow::WhileLoop { node, body, .. } => closed_with(
            m0,
            m1,
            node,
            set![body],
            Statement::WhileLoop { condition: m0[node].1->0, body: m0[body].0 },
        ),
        ControlFlow::Switch { node, cases, .. } => {
            &&& replaced(
                m0,
                m1,
                node,
                case_nodes(cases@),
                m0[node].0@.push(m1[node].0@.last()),
                None,
            )
            &&& m1[node].0@.last().instructions == m0[node].2
            &&& m1[node].0@.last().statement matches Statement::Switch { condition, cases: built }
                && condition == m0[node].1->0 && built@.len() == cases@.len() && forall|i: int|
                0 <= i < cases@.len() ==> (#[trigger] built@[i]).0 == m0[cases@[i].0].0
                && built@[i].1@ == cases@[i].1@
        },
        ControlFlow::AndOr { node, with, .. } => replaced(
            m0,
            m1,
            node,
            set![with],
            m0[node].0@ + m0[with].0@,
            m0[with].1,
        ),
        _ => m1 == m0,
    }
}

/// Combining an if, an if/else or a while loop appends to the statements
/// of the construct's node one statement with the node's condition, whose
/// then-branch holds the statements of the construct's `then` node, whose
/// else-branch holds those of its `els` node, and whose body holds those of
/// its `body` node.
pub proof fn lemma_combined_branches<'i>(
    flow: ControlFlow,
    m0: Map<usize, NodeStatements<'i>>,
    m1: Map<usize, NodeStatements<'i>>,
)
    requires
        combined_inner(flow, m0, m1),
    ensures
        flow matches ControlFlow::If { node, then, .. } ==> {
            &&& m1[node].0@.drop_last() == m0[node].0@
            &&& m1[node].0@.len() == m0[node].0@.len() + 1
            &&& m1[node].0@.last().statement == Statement::If { condition: m0[node].1->0, then: m0[then].0 }
        },
        flow matches ControlFlow::IfElse { node, then, els, .. } ==> {
            &&& m1[node].0@.drop_last() == m0[node].0@
            &&& m1[node].0@.len() == m0[node].0@.len() + 1
            &&& m1[node].0@.last().statement matches Statement::IfElse { condition, then: t, els: e }
            &&& m1[node].0@.last().statement->IfElse_condition == m0[node].1->0
            &&& m1[node].0@.last().statement->IfElse_then == m0[then].0
            &&& m1[node].0@.last().statement->IfElse_els == m0[els].0
        },
        flow matches ControlFlow::WhileLoop { node, body, .. } ==> {
            &&& m1[node].0@.drop_last() == m0[node].0@
            &&& m1[node].0@.len() == m0[node].0@.len() + 1
            &&& m1[node].0@.last().statement == Statement::WhileLoop { condition: m0[node].1->0, body: m0[body].0 }
        },
{
    match flow {
        ControlFlow::If { node, .. } => {
            assert(m1[node].0@.drop_last() =~= m0[node].0@);
        },
        ControlFlow::IfElse { node, .. } => {
            assert(m1[node].0@.drop_last() =~= m0[node].0@);
        },
        ControlFlow::WhileLoop { node, .. } => {
            assert(m1[node].0@.drop_last() =~= m0[node].0@);
        },
        _ => {},
    }
}

/// What appending the node after a construct does: the node's statements
/// and condition follow the construct's own, and its entry is gone.
pub open spec fn combined_after<'i>(
    flow: ControlFlow,
    m1: Map<usize, NodeStatements<'i>>,
    m2: Map<usize, NodeStatements<'i>>,
) -> bool {
    match flow.after_spec() {
        Some(after) => replaced(
            m1,
            m2,
            flow.node_spec(),
            set![after],
            m1[flow.node_spec()].0@ + m1[after].0@,
            m1[after].1,
        ),
        None => m2 == m1,
    }
}

/// The nodes whose statements a construct takes into its own node.
pub open spec fn taken_nodes(flow: ControlFlow) -> Set<usize> {
    match flow {
        ControlFlow::If { then, .. } => set![then],
        ControlFlow::IfElse { then, els, .. } => set![then, els],
        ControlFlow::WhileLoop { body, .. } => set![body],
        ControlFlow::Switch { cases, .. } => case_nodes(cases@),
        ControlFlow::AndOr { with, .. } => set![with],
        _ => Set::empty(),
    }
}

/// Whether a construct can be combined: its own node and the nodes it
/// takes are distinct and still have entries, the node's condition is
/// there where a conditional, loop or switch needs it, and the node after
/// it still has an entry once the construct has been combined.
pub open spec fn combinable<'i>(flow: ControlFlow, m0: Map<usize, NodeStatements<'i>>) -> bool {
    let node = flow.node_spec();
    let taken = taken_nodes(flow);
    &&& forall|k: usize| #[trigger] taken_nodes(flow).contains(k) ==> m0.contains_key(k) && k != node
    &&& (flow is If || flow is IfElse || flow is WhileLoop || flow is Switch || flow is AndOr
        || flow.after_spec() is Some) ==> m0.contains_key(node)
    &&& (flow is If || flow is IfElse || flow is WhileLoop || flow is Switch) ==> m0[node].1 is Some
    &&& flow matches ControlFlow::IfElse { then, els, .. } ==> then != els
    &&& flow matches ControlFlow::Switch { cases, .. } ==> forall|i: int, j: int|
        0 <= i < j < cases@.len() ==> cases@[i].0 != cases@[j].0
    &&& flow.after_spec() matches Some(after) ==> m0.contains_key(after) && after != node
        && !taken.contains(after)
}

/// Folds the statements of the nodes a construct spans into the entry of
/// its own node: the statements of its branches, body or cases become one
/// statement with the node's condition, and the statements of the node
/// after it follow.
pub fn combine_control_flow<'i>(flow: &ControlFlow, statements: &mut HashMap<usize, NodeStatements<'i>>)
    requires
        combinable(*flow, old(statements)@),
    ensures
        exists|m1: Map<usize, NodeStatements<'i>>|
            #[trigger] combined_inner(*flow, old(statements)@, m1) && combined_after(
                *flow,
                m1,
                final(statements)@,
            ),
{
    let node = flow.node();
    let ghost m0 = statements@;
    match flow {
        ControlFlow::If { then, .. } => {
            assert(taken_nodes(*flow).contains(*then));
            let (then_stmts, _, _) = statements.remove(then).unwrap();
            let (mut stmts, condition, instructions) = statements.remove(&node).unwrap();
            stmts.push(StatementInfo {
                instructions,
                statement: Statement::If { condition: condition.unwrap(), then: then_stmts },
            });
            statements.insert(node, (stmts, None, instructions));
            assert(statements@.dom() =~= m0.dom().difference(set![*then]));
        },
        ControlFlow::IfElse { then, els, .. } => {
            assert(taken_nodes(*flow).contains(*then));
            assert(taken_nodes(*flow).contains(*els));
            let (then_stmts, _, _) = statements.remove(then).unwrap();
            let (els_stmts, _, _) = statements.remove(els).unwrap();
            let (mut stmts, condition, instructions) = statements.remove(&node).unwrap();
            stmts.push(StatementInfo {
                instructions,
                statement: Statement::IfElse {
                    condition: condition.unwrap(),
                    then: then_stmts,
                    els: els_stmts,
                },
            });
            statements.insert(node, (stmts, None, instructions));
            assert(statements@.dom() =~= m0.dom().difference(set![*then, *els]));
        },
        ControlFlow::WhileLoop { body, .. } => {
            assert(taken_nodes(*flow).contains(*body));
            let (body_stmts, _, _) = statements.remove(body).unwrap();
            let (mut stmts, condition, instructions) = statements.remove(&node).unwrap();
            stmts.push(StatementInfo {
                instructions,
                statement: Statement::WhileLoop { condition: condition.unwrap(), body: body_stmts },
            });
            statements.insert(node, (stmts, None, instructions));
            assert(statements@.dom() =~= m0.dom().difference(set![*body]));
        },
        ControlFlow::Switch { cases, .. } => {
            let mut built: Vec<(Vec<StatementInfo<'i>>, Vec<CaseValue>)> = Vec::new();
            let mut i: usize = 0;
            while i < cases.len()
                invariant
                    i <= cases@.len(),
                    combinable(*flow, m0),
                    *flow == (ControlFlow::Switch { node, cases: *cases, after: flow.after_spec() }),
                    m0.contains_key(node),
                    statements@.dom() == m0.dom().difference(case_nodes(cases@.take(i as int))),
                    forall|k: usize| #[trigger] statements@.contains_key(k) ==> statements@[k] == m0[k],
                    built@.len() == i,
                    forall|j: int|
                        0 <= j < i ==> (#[trigger] built@[j]).0 == m0[cases@[j].0].0 && built@[j].1@
                            == cases@[j].1@,
                decreases cases@.len() - i,
            {
                let ghost before = statements@;
                assert(case_nodes(cases@).contains(cases@[i as int].0));
                assert(taken_nodes(*flow).contains(cases@[i as int].0));
                proof {
                    let cur = cases@.take(i as int);
                    if case_nodes(cur).contains(cases@[i as int].0) {
                        let j = choose|j: int| 0 <= j < cur.len() && (#[trigger] cur[j]).0 == cases@[i as int].0;
                        assert(cur[j] == cases@[j]);
                    }
                }
                let (body, _, _) = statements.remove(&cases[i].0).unwrap();
                let values = cases[i].1.clone();
                assert(values@ =~= cases@[i as int].1@);
                built.push((body, values));
                i = i + 1;
                proof {
                    let cur = cases@.take(i as int);
                    let prev = cases@.take(i - 1);
                    assert forall|k: usize| case_nodes(cur).contains(k) <==> (case_nodes(prev).contains(k)
                        || k == cases@[i - 1].0) by {
                        if case_nodes(cur).contains(k) {
                            let j = choose|j: int| 0 <= j < cur.len() && (#[trigger] cur[j]).0 == k;
                            if j < i - 1 {
                                assert(prev[j] == cur[j]);
                            }
                        }
                        if case_nodes(prev).contains(k) {
                            let j = choose|j: int| 0 <= j < prev.len() && (#[trigger] prev[j]).0 == k;
                            assert(cur[j] == prev[j]);
                        }
                        if k == cases@[i - 1].0 {
                            assert(cur[i - 1] == cases@[i - 1]);
                        }
                    }
                    assert(statements@.dom() =~= m0.dom().difference(case_nodes(cur)));
                }
            }
            assert(cases@.take(i as int) =~= cases@);
            assert(!case_nodes(cases@).contains(node)) by {
                if case_nodes(cases@).contains(node) {
                    assert(taken_nodes(*flow).contains(node));
                }
            }
            let (mut stmts, condition, instructions) = statements.remove(&node).unwrap();
            stmts.push(StatementInfo {
                instructions,
                statement: Statement::Switch { condition: condition.unwrap(), cases: built },
            });
            statements.insert(node, (stmts, None, instructions));
            assert(statements@.dom() =~= m0.dom().difference(case_nodes(cases@)));
        },
        ControlFlow::AndOr { with, .. } => {
            assert(taken_nodes(*flow).contains(*with));
            let (mut with_stmts, with_condition, _) = statements.remove(with).unwrap();
            let (mut stmts, _, instructions) = statements.remove(&node).unwrap();
            stmts.append(&mut with_stmts);
            statements.insert(node, (stmts, with_condition, instructions));
            assert(statements@.dom() =~= m0.dom().difference(set![*with]));
        },
        _ => {},
    }
    let ghost m1 = statements@;
    assert(combined_inner(*flow, m0, m1));
    match flow.after() {
        Some(after) => {
            let (mut after_stmts, after_condition, _) = statements.remove(&after).unwrap();
            let (mut stmts, _, instructions) = statements.remove(&node).unwrap();
            stmts.append(&mut after_stmts);
            statements.insert(node, (stmts, after_condition, instructions));
            assert(statements@.dom() =~= m1.dom().difference(set![after]));
        },
        None => {},
    }
    assert(combined_after(*flow, m1, statements@));
}

/// Hints `ty` with `info`.
fn hint_slot(store: &mut TypeStore, ty: usize, info: ValueTypeInfo)
    requires
        old(store).wf(),
        ty < old(store)@.len(),
        info.ty@.handles_below(old(store)@.len()),
    ensures
        hint_rel(*old(store), *final(store), ty, info@),
        final(store)@.len() == old(store)@.len(),
{
    let ghost before = *store;
    let ghost node = info@;
    LinkedValueType::hint(store, ty, info);
    proof {
        lemma_hint_growth(before, *store, ty, info);
    }
}

/// Makes a new string slot and hints `ty` to be a reference to it.
fn hint_string_ref(store: &mut TypeStore, ty: usize)
    requires
        old(store).wf(),
        ty < old(store)@.len(),
    ensures
        step_rel(*old(store), *final(store), TypingStep::StringRef(ty)),
        final(store)@.len() == old(store)@.len() + 1,
{
    let target = LinkedValueType::Type(
        ValueTypeInfo { ty: ValueType::Primitive(Primitives::String), confidence: Confidence::High },
    ).make_shared(store);
    let ghost mid = *store;
    hint_slot(store, ty, ValueTypeInfo { ty: ValueType::Ref(target), confidence: Confidence::High });
    assert(mid.wf() && mid@ == old(store)@.push(string_node()) && mid.keeps_concretes(old(store)));
}

/// Types the statements of a function, from the evidence they hold:
/// assignments unify their sides, returns unify with or shape the result
/// type `result_type`, conditions are hinted to be bools and switch values
/// ints, and string and memory statements hint their operands. Lists of
/// statements nested in a statement are set aside on a stack and typed
/// after the list that holds them, the last set aside first.
pub fn add_statement_types(
    result_type: Option<usize>,
    statements: &[StatementInfo],
    store: &mut TypeStore,
)
    requires
        old(store).wf(),
        list_typable(old(store)@.len(), result_type, statements@),
    ensures
        final(store).wf(),
        steps_rel(*old(store), *final(store), walk_steps(seq![statements@], result_type)),
{
    let ghost n = store@.len();
    let ghost total = walk_steps(seq![statements@], result_type);
    let mut stack: Vec<&[StatementInfo]> = Vec::new();
    stack.push(statements);
    let ghost mut done: Seq<TypingStep> = seq![];
    proof {
        lemma_steps_none(*store);
        assert(stack_lists(stack@) =~= seq![statements@]);
        assert(done + walk_steps(stack_lists(stack@), result_type) =~= total);
    }
    while stack.len() > 0
        invariant
            store.wf(),
            n <= store@.len(),
            steps_rel(*old(store), *store, done),
            done + walk_steps(stack_lists(stack@), result_type) == total,
            forall|i: int|
                0 <= i < stack@.len() ==> list_typable(n, result_type, #[trigger] stack_lists(stack@)[i]),
        decreases children_work(stack_lists(stack@)),
    {
        let ghost before = stack_lists(stack@);
        let list = stack.pop().unwrap();
        let ghost base = stack_lists(stack@);
        proof {
            assert(base =~= before.drop_last());
            assert(list@ == before.last());
            assert(list_typable(n, result_type, before[before.len() - 1]));
            lemma_pop_work(before);
        }
        let ghost done_before = done;
        let mut j: usize = 0;
        proof {
            assert(list@.take(0) =~= Seq::<StatementInfo>::empty());
            assert(stack_lists(stack@) =~= base + list_children(list@.take(0)));
            assert(done =~= done_before + list_steps(list@.take(0), result_type));
        }
        while j < list.len()
            invariant
                store.wf(),
                n <= store@.len(),
                j <= list@.len(),
                list_typable(n, result_type, list@),
                steps_rel(*old(store), *store, done),
                done == done_before + list_steps(list@.take(j as int), result_type),
                stack_lists(stack@) == base + list_children(list@.take(j as int)),
                forall|i: int|
                    0 <= i < stack@.len() ==> list_typable(n, result_type, #[trigger] stack_lists(stack@)[i]),
            decreases list@.len() - j,
        {
            proof {
                lemma_list_at(n, result_type, list@, j as int);
            }
            let info = &list[j];
            let ghost st = info.statement;
            let ghost stack_before = stack_lists(stack@);
            let ghost start = *store;
            let ghost done_start = done;
            match &info.statement {
                Statement::Assign { destination, source } => {
                    LinkedValueType::link(store, destination.ty, source.ty);
                    proof {
                        lemma_steps_push(*old(store), start, *store, done, TypingStep::Link(destination.ty, source.ty));
                        done = done.push(TypingStep::Link(destination.ty, source.ty));
                    }
                },
                Statement::Return { values } => {
                    if values.len() == 1 {
                        let t = result_type.unwrap();
                        LinkedValueType::link(store, t, values[0].ty);
                        proof {
                            lemma_steps_push(*old(store), start, *store, done, TypingStep::Link(t, values@[0].ty));
                            done = done.push(TypingStep::Link(t, values@[0].ty));
                        }
                    } else if values.len() > 1 {
                        let t = result_type.unwrap();
                        let mut fields: Vec<usize> = Vec::new();
                        let mut k: usize = 0;
                        while k < values.len()
                            invariant
                                k <= values@.len(),
                                fields@ == value_types(values@.take(k as int)),
                            decreases values@.len() - k,
                        {
                            fields.push(values[k].ty);
                            k = k + 1;
                            assert(fields@ =~= value_types(values@.take(k as int)));
                        }
                        assert(values@.take(k as int) =~= values@);
                        let ghost node = NodeView::Type {
                            ty: TypeView::Struct { fields: value_types(values@) },
                            confidence: Confidence::High,
                        };
                        assert forall|i: int| 0 <= i < fields@.len() implies #[trigger] fields@[i] < store@.len() by {
                            assert(fields@[i] == values@[i].ty);
                        }
                        hint_slot(store, t, ValueTypeInfo { ty: ValueType::Struct { fields }, confidence: Confidence::High });
                        proof {
                            lemma_steps_push(*old(store), start, *store, done, TypingStep::Hint(t, node));
                            done = done.push(TypingStep::Hint(t, node));
                        }
                    }
                },
                Statement::If { condition, then } => {
                    hint_slot(store, condition.ty, ValueTypeInfo { ty: ValueType::Primitive(Primitives::Bool), confidence: Confidence::Medium });
                    proof {
                        let step = TypingStep::Hint(condition.ty, primitive_node(Primitives::Bool, Confidence::Medium));
                        lemma_steps_push(*old(store), start, *store, done, step);
                        done = done.push(step);
                    }
                    stack.push(then.as_slice());
                },
                Statement::IfElse { condition, then, els } => {
                    hint_slot(store, condition.ty, ValueTypeInfo { ty: ValueType::Primitive(Primitives::Bool), confidence: Confidence::Medium });
                    proof {
                        let step = TypingStep::Hint(condition.ty, primitive_node(Primitives::Bool, Confidence::Medium));
                        lemma_steps_push(*old(store), start, *store, done, step);
                        done = done.push(step);
                    }
                    stack.push(then.as_slice());
                    stack.push(els.as_slice());
                },
                Statement::WhileLoop { condition, body } => {
                    hint_slot(store, condition.ty, ValueTypeInfo { ty: ValueType::Primitive(Primitives::Bool), confidence: Confidence::Medium });
                    proof {
                        let step = TypingStep::Hint(condition.ty, primitive_node(Primitives::Bool, Confidence::Medium));
                        lemma_steps_push(*old(store), start, *store, done, step);
                        done = done.push(step);
                    }
                    stack.push(body.as_slice());
                },
                Statement::Switch { condition, cases } => {
                    hint_slot(store, condition.ty, ValueTypeInfo { ty: ValueType::Primitive(Primitives::Int), confidence: Confidence::Medium });
                    proof {
                        let step = TypingStep::Hint(condition.ty, primitive_node(Primitives::Int, Confidence::Medium));
                        lemma_steps_push(*old(store), start, *store, done, step);
                        done = done.push(step);
                    }
                    let mut k: usize = 0;
                    assert(cases@.take(0).map_values(|c: (Vec<StatementInfo>, Vec<CaseValue>)| c.0@) =~= Seq::<Seq<StatementInfo>>::empty());
                    while k < cases.len()
                        invariant
                            k <= cases@.len(),
                            cases_typable(n, result_type, cases@),
                            stack_lists(stack@) == stack_before + cases@.take(k as int).map_values(
                                |c: (Vec<StatementInfo>, Vec<CaseValue>)| c.0@,
                            ),
                            forall|i: int|
                                0 <= i < stack@.len() ==> list_typable(n, result_type, #[trigger] stack_lists(stack@)[i]),
                        decreases cases@.len() - k,
                    {
                        proof {
                            lemma_cases_at(n, result_type, cases@, k as int);
                        }
                        let ghost lists_before = stack_lists(stack@);
                        let body = cases[k].0.as_slice();
                        assert(body@ == cases@[k as int].0@);
                        stack.push(body);
                        proof {
                            assert(stack_lists(stack@) =~= lists_before.push(cases@[k as int].0@));
                            assert(cases@.take(k + 1).map_values(
                                |c: (Vec<StatementInfo>, Vec<CaseValue>)| c.0@,
                            ) =~= cases@.take(k as int).map_values(
                                |c: (Vec<StatementInfo>, Vec<CaseValue>)| c.0@,
                            ).push(cases@[k as int].0@));
                            assert forall|i: int| 0 <= i < stack@.len() implies list_typable(
                                n,
                                result_type,
                                #[trigger] stack_lists(stack@)[i],
                            ) by {
                                if i < stack@.len() - 1 {
                                    assert(stack_lists(stack@)[i] == lists_before[i]);
                                }
                            }
                        }
                        k = k + 1;
                        assert(stack_lists(stack@) =~= stack_before + cases@.take(k as int).map_values(
                            |c: (Vec<StatementInfo>, Vec<CaseValue>)| c.0@,
                        ));
                    }
                    assert(cases@.take(k as int) =~= cases@);
                },
                Statement::StringCopy { destination, string, .. }
                | Statement::StringConcat { destination, string, .. } => {
                    hint_string_ref(store, destination.ty);
                    let ghost mid = *store;
                    proof {
                        lemma_steps_push(*old(store), start, *store, done, TypingStep::StringRef(destination.ty));
                        done = done.push(TypingStep::StringRef(destination.ty));
                    }
                    hint_slot(store, string.ty, ValueTypeInfo { ty: ValueType::Primitive(Primitives::String), confidence: Confidence::High });
                    proof {
                        lemma_steps_push(*old(store), mid, *store, done, TypingStep::Hint(string.ty, string_node()));
                        done = done.push(TypingStep::Hint(string.ty, string_node()));
                    }
                },
                Statement::IntToString { destination, int: number, .. }
                | Statement::StringIntConcat { destination, int: number, .. } => {
                    hint_string_ref(store, destination.ty);
                    let ghost mid = *store;
                    proof {
                        lemma_steps_push(*old(store), start, *store, done, TypingStep::StringRef(destination.ty));
                        done = done.push(TypingStep::StringRef(destination.ty));
                    }
                    hint_slot(store, number.ty, ValueTypeInfo { ty: ValueType::Primitive(Primitives::Int), confidence: Confidence::High });
                    proof {
                        let step = TypingStep::Hint(number.ty, primitive_node(Primitives::Int, Confidence::High));
                        lemma_steps_push(*old(store), mid, *store, done, step);
                        done = done.push(step);
                    }
                },
                Statement::MemCopy { buffer_size, .. } => {
                    hint_slot(store, buffer_size.ty, ValueTypeInfo { ty: ValueType::Primitive(Primitives::Int), confidence: Confidence::High });
                    proof {
                        let step = TypingStep::Hint(buffer_size.ty, primitive_node(Primitives::Int, Confidence::High));
                        lemma_steps_push(*old(store), start, *store, done, step);
                        done = done.push(step);
                    }
                },
                _ => {},
            }
            proof {
                assert(done =~= done_start + statement_steps(st, result_type));
                assert(stack_lists(stack@) =~= stack_before + statement_children(st));
            }
            j = j + 1;
            proof {
                assert(done =~= done_before + list_steps(list@.take(j as int), result_type));
                assert(stack_lists(stack@) =~= base + list_children(list@.take(j as int)));
            }
        }
        proof {
            assert(list@.take(j as int) =~= list@);
            assert(done + walk_steps(stack_lists(stack@), result_type) =~= total);
        }
    }
}

/// A function found in a disassembly: its name, where it starts, how many
/// parameters, results and locals it has, and its instructions.
pub struct FunctionInfo<'i> {
    pub name: String,
    pub location: usize,
    pub parameters: u32,
    pub returns: u32,
    pub locals: u32,
    pub instructions: &'i [InstructionInfo<'i>],
}

/// The index of the first `ENTER` at or after `i`, or the length where
/// none follows.
pub open spec fn next_enter(instrs: Seq<InstructionInfo>, i: int) -> int
    decreases instrs.len() - i,
{
    if i >= instrs.len() {
        instrs.len() as int
    } else if instrs[i].instruction is Enter {
        i
    } else {
        next_enter(instrs, i + 1)
    }
}

/// The index of the last `LEAVE` in `[from, to)`, if any.
pub open spec fn last_leave(instrs: Seq<InstructionInfo>, from: int, to: int) -> Option<int>
    decreases to - from,
{
    if to <= from {
        None
    } else if instrs[to - 1].instruction is Leave {
        Some(to - 1)
    } else {
        last_leave(instrs, from, to - 1)
    }
}

/// What the function that starts at the `ENTER` at `start` and ends at the
/// `LEAVE` at `end` is: the `count`-th function found, named after its
/// number.
pub open spec fn found_function(
    instrs: Seq<InstructionInfo>,
    start: int,
    end: int,
    count: nat,
    info: FunctionInfo,
) -> bool {
    &&& instrs[start].instruction matches Instruction::Enter { arg_count, frame_size, .. }
        && info.parameters == arg_count as u32 && info.locals == frame_size - arg_count - 2
    &&& instrs[end].instruction matches Instruction::Leave { return_count, .. } && info.returns
        == return_count as u32
    &&& info.name@ == "func_"@ + decimal(count)
    &&& info.location == instrs[start].pos
    &&& info.instructions@ == instrs.subrange(start, end + 1)
}

/// The functions found from instruction `i` on, `count` having been found
/// before: each `ENTER` starts a function that runs up to the last `LEAVE`
/// before the next `ENTER`; an `ENTER` with no `LEAVE` before the next
/// starts none; instructions before the first `ENTER` belong to none.
pub open spec fn functions_found(
    instrs: Seq<InstructionInfo>,
    i: int,
    count: nat,
    found: Seq<FunctionInfo>,
) -> bool
    decreases instrs.len() - i,
{
    if i < 0 || i >= instrs.len() {
        found.len() == 0
    } else if !(instrs[i].instruction is Enter) {
        functions_found(instrs, i + 1, count, found)
    } else {
        proof {
            lemma_next_enter(instrs, i + 1);
        }
        let e = next_enter(instrs, i + 1);
        match last_leave(instrs, i + 1, e) {
            Some(end) => found.len() > 0 && found_function(instrs, i, end, count, found[0])
                && functions_found(instrs, e, count + 1, found.drop_first()),
            None => functions_found(instrs, e, count, found),
        }
    }
}

/// Whether every `ENTER` that starts a function has a frame of at least
/// its parameters and two slots.
pub open spec fn frames_fit(instrs: Seq<InstructionInfo>) -> bool {
    forall|i: int|
        0 <= i < instrs.len() && (#[trigger] instrs[i]).instruction is Enter && last_leave(
            instrs,
            i + 1,
            next_enter(instrs, i + 1),
        ) is Some ==> instrs[i].instruction->Enter_frame_size >= instrs[i].instruction->Enter_arg_count
            + 2
}

/// The next `ENTER` from `i` on lies at or after `i`, and nothing between
/// is an `ENTER`.
pub proof fn lemma_next_enter(instrs: Seq<InstructionInfo>, i: int)
    requires
        0 <= i <= instrs.len(),
    ensures
        i <= next_enter(instrs, i) <= instrs.len(),
        next_enter(instrs, i) < instrs.len() ==> instrs[next_enter(instrs, i)].instruction is Enter,
        forall|k: int| i <= k < next_enter(instrs, i) ==> !(#[trigger] instrs[k].instruction is Enter),
    decreases instrs.len() - i,
{
    if i < instrs.len() && !(instrs[i].instruction is Enter) {
        lemma_next_enter(instrs, i + 1);
    }
}

proof fn lemma_last_leave(instrs: Seq<InstructionInfo>, from: int, to: int)
    requires
        0 <= from <= to <= instrs.len(),
    ensures
        last_leave(instrs, from, to) matches Some(e) ==> from <= e < to && instrs[e].instruction is Leave,
    decreases to - from,
{
    if to > from && !(instrs[to - 1].instruction is Leave) {
        lemma_last_leave(instrs, from, to - 1);
    }
}

/// Scans from the `ENTER` at `i` to the next `ENTER`: where it stops, and
/// the last `LEAVE` on the way with its result count.
fn scan_function(instructions: &[InstructionInfo], i: usize) -> (r: (usize, Option<(usize, u8)>))
    requires
        i < instructions@.len(),
    ensures
        r.0 == next_enter(instructions@, i + 1),
        match r.1 {
            Some((e, rc)) => last_leave(instructions@, i + 1, r.0 as int) == Some(e as int)
                && instructions@[e as int].instruction->Leave_return_count == rc,
            None => last_leave(instructions@, i + 1, r.0 as int) is None,
        },
{
    let ghost instrs = instructions@;
    let n = instructions.len();
    let mut j = i + 1;
    let mut last: Option<(usize, u8)> = None;
    proof {
        lemma_next_enter(instrs, i + 1);
    }
    loop
        invariant
            i < j <= next_enter(instrs, i + 1),
            next_enter(instrs, i + 1) <= instrs.len(),
            instrs == instructions@,
            forall|k: int|
                i + 1 <= k < next_enter(instrs, i + 1) ==> !(#[trigger] instrs[k].instruction is Enter),
            next_enter(instrs, i + 1) < instrs.len() ==> instrs[next_enter(
                instrs,
                i + 1,
            )].instruction is Enter,
            match last {
                Some((e, rc)) => last_leave(instrs, i + 1, j as int) == Some(e as int)
                    && instrs[e as int].instruction->Leave_return_count == rc,
                None => last_leave(instrs, i + 1, j as int) is None,
            },
        ensures
            j == next_enter(instrs, i + 1),
            match last {
                Some((e, rc)) => last_leave(instrs, i + 1, j as int) == Some(e as int)
                    && instrs[e as int].instruction->Leave_return_count == rc,
                None => last_leave(instrs, i + 1, j as int) is None,
            },
        decreases instrs.len() - j,
    {
        if j >= instructions.len() {
            break ;
        }
        match &instructions[j].instruction {
            Instruction::Enter { .. } => {
                break ;
            },
            Instruction::Leave { return_count, .. } => {
                last = Some((j, *return_count));
            },
            _ => {},
        }
        j = j + 1;
    }
    (j, last)
}

/// The functions of a disassembly: each `ENTER` starts one that runs up to
/// the last `LEAVE` before the next `ENTER`, and takes its parameter count
/// and frame size from the `ENTER` and its result count from the `LEAVE`.
pub fn find_functions<'i>(instructions: &'i [InstructionInfo<'i>]) -> (r: Vec<FunctionInfo<'i>>)
    requires
        frames_fit(instructions@),
    ensures
        functions_found(instructions@, 0, 0, r@),
{
    let mut result: Vec<FunctionInfo<'i>> = Vec::new();
    let ghost instrs = instructions@;
    let mut i: usize = 0;
    while i < instructions.len()
        invariant
            i <= instrs.len(),
            instrs == instructions@,
            frames_fit(instrs),
            forall|r2: Seq<FunctionInfo<'i>>|
                functions_found(instrs, i as int, result@.len(), r2) ==> #[trigger] functions_found(
                    instrs,
                    0,
                    0,
                    result@ + r2,
                ),
        decreases instrs.len() - i,
    {
        let ghost result_before = result@;
        let ghost i_before = i as int;
        match &instructions[i].instruction {
            Instruction::Enter { arg_count, frame_size, .. } => {
                let (j, last) = scan_function(instructions, i);
                proof {
                    lemma_next_enter(instrs, i + 1);
                }
                match last {
                    Some((end, return_count)) => {
                        proof {
                            lemma_last_leave(instrs, i + 1, j as int);
                            assert(frames_fit(instrs) && instrs[i as int].instruction is Enter);
                        }
                        let mut name = String::from_str("func_");
                        push_decimal(&mut name, result.len() as u64);
                        let info = FunctionInfo {
                            name,
                            location: instructions[i].pos,
                            parameters: *arg_count as u32,
                            returns: return_count as u32,
                            locals: *frame_size as u32 - *arg_count as u32 - 2,
                            instructions: slice_range(instructions, i, end + 1),
                        };
                        proof {
                            assert(found_function(instrs, i as int, end as int, result_before.len(), info));
                            lemma_found_some(instrs, i as int, j as int, end as int, result_before, info);
                        }
                        result.push(info);
                    },
                    None => {
                        proof {
                            lemma_found_none(instrs, i as int, j as int, result@);
                        }
                    },
                }
                i = j;
            },
            _ => {
                proof {
                    lemma_found_skip(instrs, i as int, result@);
                }
                i = i + 1;
            },
        }
    }
    proof {
        assert(functions_found(instrs, i as int, result@.len(), seq![]));
        assert(result@ + seq![] =~= result@);
    }
    result
}

/// Found from the start: what is found from an `ENTER` that starts a
/// function is that function, then what is found from the next `ENTER`.
proof fn lemma_found_some<'i>(
    instrs: Seq<InstructionInfo<'i>>,
    i: int,
    j: int,
    end: int,
    before: Seq<FunctionInfo<'i>>,
    info: FunctionInfo<'i>,
)
    requires
        0 <= i < instrs.len(),
        instrs[i].instruction is Enter,
        j == next_enter(instrs, i + 1),
        last_leave(instrs, i + 1, j) == Some(end),
        found_function(instrs, i, end, before.len(), info),
        forall|r2: Seq<FunctionInfo<'i>>|
            functions_found(instrs, i, before.len(), r2) ==> #[trigger] functions_found(
                instrs,
                0,
                0,
                before + r2,
            ),
    ensures
        forall|r2: Seq<FunctionInfo<'i>>|
            functions_found(instrs, j, before.push(info).len(), r2) ==> #[trigger] functions_found(
                instrs,
                0,
                0,
                before.push(info) + r2,
            ),
{
    assert forall|r2: Seq<FunctionInfo<'i>>|
        functions_found(instrs, j, before.push(info).len(), r2) implies #[trigger] functions_found(
            instrs,
            0,
            0,
            before.push(info) + r2,
        ) by {
        let whole = seq![info] + r2;
        assert(whole.drop_first() =~= r2);
        assert(whole[0] == info);
        assert(functions_found(instrs, i, before.len(), whole));
        assert(before + whole =~= before.push(info) + r2);
    }
}

/// Found from the start: an `ENTER` without a `LEAVE` before the next
/// `ENTER` starts no function.
proof fn lemma_found_none<'i>(instrs: Seq<InstructionInfo<'i>>, i: int, j: int, before: Seq<FunctionInfo<'i>>)
    requires
        0 <= i < instrs.len(),
        instrs[i].instruction is Enter,
        j == next_enter(instrs, i + 1),
        last_leave(instrs, i + 1, j) is None,
        forall|r2: Seq<FunctionInfo<'i>>|
            functions_found(instrs, i, before.len(), r2) ==> #[trigger] functions_found(
                instrs,
                0,
                0,
                before + r2,
            ),
    ensures
        forall|r2: Seq<FunctionInfo<'i>>|
            functions_found(instrs, j, before.len(), r2) ==> #[trigger] functions_found(
                instrs,
                0,
                0,
                before + r2,
            ),
{
    assert forall|r2: Seq<FunctionInfo<'i>>|
        functions_found(instrs, j, before.len(), r2) implies #[trigger] functions_found(
            instrs,
            0,
            0,
            before + r2,
        ) by {
        assert(functions_found(instrs, i, before.len(), r2));
    }
}

/// Found from the start: an instruction that is not an `ENTER` starts no
/// function.
proof fn lemma_found_skip<'i>(instrs: Seq<InstructionInfo<'i>>, i: int, before: Seq<FunctionInfo<'i>>)
    requires
        0 <= i < instrs.len(),
        !(instrs[i].instruction is Enter),
        forall|r2: Seq<FunctionInfo<'i>>|
            functions_found(instrs, i, before.len(), r2) ==> #[trigger] functions_found(
                instrs,
                0,
                0,
                before + r2,
            ),
    ensures
        forall|r2: Seq<FunctionInfo<'i>>|
            functions_found(instrs, i + 1, before.len(), r2) ==> #[trigger] functions_found(
                instrs,
                0,
                0,
                before + r2,
            ),
{
    assert forall|r2: Seq<FunctionInfo<'i>>|
        functions_found(instrs, i + 1, before.len(), r2) implies #[trigger] functions_found(
            instrs,
            0,
            0,
            before + r2,
        ) by {
        assert(functions_found(instrs, i, before.len(), r2));
    }
}

/// The instructions in `[from, to)`.
pub(crate) fn slice_range<'i>(instructions: &'i [InstructionInfo<'i>], from: usize, to: usize) -> (r: &'i [InstructionInfo<'i>])
    requires
        from <= to <= instructions@.len(),
    ensures
        r@ == instructions@.subrange(from as int, to as int),
{
    vstd::slice::slice_subrange(instructions, from, to)
}

/// The slots a function's results are given: none for no result, one of
/// unknown type for one, and for more one of unknown type each followed by
/// a structure of them.
pub open spec fn return_views(count: u32, start: nat) -> Seq<NodeView> {
    if count == 0 {
        seq![]
    } else if count == 1 {
        seq![unknown_view()]
    } else {
        unknown_views(count as nat).push(
            NodeView::Type {
                ty: TypeView::Struct { fields: fresh_handles(start, count as nat) },
                confidence: Confidence::Absent,
            },
        )
    }
}

/// The handle of a function's result type, given where its slots start.
pub open spec fn return_handle(count: u32, start: nat) -> Option<usize> {
    if count == 0 {
        None
    } else if count == 1 {
        Some(start as usize)
    } else {
        Some((start + count) as usize)
    }
}

/// The type slot of local variable `index`: a parameter's, none for the two
/// frame slots after the parameters, then a local's, and none past them.
pub open spec fn local_slot(parameters: Seq<usize>, locals: Seq<usize>, index: int) -> Option<usize> {
    if index < parameters.len() {
        Some(parameters[index])
    } else if index < parameters.len() + 2 {
        None
    } else if index < parameters.len() + 2 + locals.len() {
        Some(locals[index - parameters.len() - 2])
    } else {
        None
    }
}

/// A function ready to be decompiled: its parameters, locals and result
/// each given a type slot of unknown type, and its graph.
pub struct Function<'i> {
    pub name: String,
    pub location: usize,
    pub parameters: Vec<usize>,
    pub parameter_count: usize,
    pub locals: Vec<usize>,
    pub returns: Option<usize>,
    pub return_count: usize,
    pub instructions: &'i [InstructionInfo<'i>],
    pub graph: FunctionGraph<'i>,
}

impl<'i> Function<'i> {
    /// The type slot of local variable `index` as the code numbers them: the
    /// parameters first, then two slots the call frame keeps for itself,
    /// which have none, then the locals; none past the locals.
    pub fn local_index_type(&self, index: usize) -> (r: Option<usize>)
        ensures
            r == local_slot(self.parameters@, self.locals@, index as int),
    {
        let p = self.parameters.len();
        if index < p {
            Some(self.parameters[index])
        } else if index - p < 2 {
            None
        } else if index - p - 2 < self.locals.len() {
            Some(self.locals[index - p - 2])
        } else {
            None
        }
    }

    /// Makes a function from what was found of it: a slot of unknown type
    /// for each parameter, then for each local, then for the result (a
    /// structure of unknown fields where there are several), and its graph;
    /// `None`, with the store untouched, where the graph cannot be made.
    pub fn new(info: FunctionInfo<'i>, store: &mut TypeStore) -> (r: Option<Self>)
        requires
            old(store).wf(),
            graphable(info.instructions@),
            old(store)@.len() + info.parameters + info.locals + info.returns + 1 <= usize::MAX,
        ensures
            r is Some <==> graph_exists(info.instructions@),
            r is None ==> *final(store) == *old(store),
            r matches Some(f) ==> ({
                let start = old(store)@.len();
                let p = info.parameters as nat;
                let l = info.locals as nat;
                &&& f.name@ == info.name@
                &&& f.location == info.location
                &&& f.parameter_count == info.parameters
                &&& f.return_count == info.returns
                &&& f.parameters@ == fresh_handles(start, p)
                &&& f.locals@ == fresh_handles(start + p, l)
                &&& f.returns == return_handle(info.returns, start + p + l)
                &&& f.instructions@ == info.instructions@
                &&& f.graph.built_from(info.instructions@)
                &&& final(store).wf()
                &&& final(store).keeps_concretes(old(store))
                &&& final(store)@ == old(store)@ + unknown_views(p) + unknown_views(l) + return_views(
                    info.returns,
                    start + p + l,
                )
            }),
    {
        let graph = match FunctionGraph::generate(&info) {
            Some(graph) => graph,
            None => {
                return None;
            },
        };
        let ghost start_store = *store;
        let mut parameters: Vec<usize> = Vec::new();
        store.push_unknown_slots(info.parameters as usize, &mut parameters);
        let ghost after_parameters = *store;
        let mut locals: Vec<usize> = Vec::new();
        store.push_unknown_slots(info.locals as usize, &mut locals);
        let ghost after_locals = *store;
        assert(parameters@ =~= fresh_handles(start_store@.len(), info.parameters as nat));
        assert(locals@ =~= fresh_handles(start_store@.len() + info.parameters as nat, info.locals as nat));
        let result = if info.returns == 0 {
            assert(store@ =~= after_locals@ + return_views(info.returns, after_locals@.len()));
            None
        } else if info.returns == 1 {
            let h = store.push_unknown_slot();
            assert(store@ =~= after_locals@ + return_views(info.returns, after_locals@.len()));
            Some(h)
        } else {
            let mut fields: Vec<usize> = Vec::new();
            store.push_unknown_slots(info.returns as usize, &mut fields);
            let ghost with_fields = *store;
            assert(fields@ =~= fresh_handles(after_locals@.len(), info.returns as nat));
            let ty = LinkedValueType::Type(
                ValueTypeInfo { ty: ValueType::Struct { fields }, confidence: Confidence::Absent },
            );
            assert(ty@.handles_below(store@.len()));
            let h = ty.make_shared(store);
            assert(store@ =~= after_locals@ + return_views(info.returns, after_locals@.len()));
            Some(h)
        };
        assert(store@ =~= start_store@ + unknown_views(info.parameters as nat) + unknown_views(info.locals as nat)
            + return_views(info.returns, start_store@.len() + info.parameters as nat + info.locals as nat));
        Some(Function {
            name: info.name,
            location: info.location,
            parameters,
            parameter_count: info.parameters as usize,
            locals,
            returns: result,
            return_count: info.returns as usize,
            instructions: info.instructions,
            graph,
        })
    }

    /// A diagram of the function's graph in the dot language.
    pub fn dot_string<F: Fn(u32) -> String + Copy>(&self, formatter: &AssemblyFormatter, float_text: F) -> (r: String)
        requires
            listable(formatter.labels(), self.graph.code()),
            3 * formatter.max_bytes() + 2 <= usize::MAX,
            renders_floats(float_text),
        ensures
            r@ == dot_text(
                Seq::new(self.graph.nodes().len(), |k: int| self.graph.node_listing(formatter, float_text, k)),
                Seq::new(
                    self.graph.nodes().len(),
                    |k: int| crate::decompiler::graph::outgoing_edges(self.graph.edges(), k as usize).len() > 0,
                ),
                self.graph.edges(),
            ),
    {
        self.graph.to_dot_string(formatter, float_text)
    }
}

} // verus!
