use crate::decompiler::value_type::{struct_field_post, LinkedValueType, TypeStore};
use vstd::prelude::*;

verus! {

broadcast use vstd::std_specs::vec::group_vec_axioms;

/// A binary operation of the script language.
#[derive(Debug, Clone, Copy, PartialEq, Eq, Structural)]
pub enum BinaryOperator {
    Add,
    Subtract,
    Multiply,
    Divide,
    BitwiseAnd,
    BitwiseOr,
    BitwiseXor,
    Modulo,
    Equal,
    NotEqual,
    GreaterThan,
    GreaterOrEqual,
    LowerThan,
    LowerOrEqual,
    BitTest,
    LogicalAnd,
    LogicalOr,
}

/// A unary operation of the script language.
#[derive(Debug, Clone, Copy, PartialEq, Eq, Structural)]
pub enum UnaryOperator {
    Not,
    Negate,
}

/// A value on the decompiler's stack: the expression that computes it.
/// A value may take up several slots of the script's stack (a struct, the
/// results of a call); its parts are split off one slot at a time.
#[derive(Debug)]
pub enum StackEntry<'i> {
    Int(i64),
    /// A float constant, by the bits of its IEEE 754 encoding.
    Float(u32),
    String(&'i str),
    Struct { origin: Box<StackEntryInfo<'i>>, size: usize },
    ResultStruct { values: Vec<StackEntryInfo<'i>> },
    StructField { source: Box<StackEntryInfo<'i>>, field: usize },
    Offset { source: Box<StackEntryInfo<'i>>, offset: Box<StackEntryInfo<'i>> },
    ArrayItem {
        source: Box<StackEntryInfo<'i>>,
        index: Box<StackEntryInfo<'i>>,
        item_size: usize,
    },
    Local(usize),
    Static(usize),
    Global(usize),
    Deref(Box<StackEntryInfo<'i>>),
    Ref(Box<StackEntryInfo<'i>>),
    FloatToVector(Box<StackEntryInfo<'i>>),
    CatchValue,
    BinaryOperator {
        lhs: Box<StackEntryInfo<'i>>,
        rhs: Box<StackEntryInfo<'i>>,
        op: BinaryOperator,
    },
    UnaryOperator { lhs: Box<StackEntryInfo<'i>>, op: UnaryOperator },
    Cast { source: Box<StackEntryInfo<'i>> },
    StringHash(Box<StackEntryInfo<'i>>),
    FunctionCallResult {
        args: Vec<StackEntryInfo<'i>>,
        function_address: usize,
        return_values: usize,
    },
    NativeCallResult { args: Vec<StackEntryInfo<'i>>, return_values: usize, native_hash: u64 },
}

/// A stack value together with the handle of its type in the type store.
#[derive(Debug)]
pub struct StackEntryInfo<'i> {
    pub entry: StackEntry<'i>,
    pub ty: usize,
}

/// A value cannot be split into parts.
#[derive(Debug, Clone, Copy, PartialEq, Eq, Structural)]
pub struct SplitOffError;

/// The mathematical value of a [`StackEntry`].
pub enum EntryView {
    Int(i64),
    Float(u32),
    String(Seq<char>),
    Struct { origin: InfoView, size: usize },
    ResultStruct { values: Seq<InfoView> },
    StructField { source: InfoView, field: usize },
    Offset { source: InfoView, offset: InfoView },
    ArrayItem { source: InfoView, index: InfoView, item_size: usize },
    Local(usize),
    Static(usize),
    Global(usize),
    Deref(InfoView),
    Ref(InfoView),
    FloatToVector(InfoView),
    CatchValue,
    BinaryOperator { lhs: InfoView, rhs: InfoView, op: BinaryOperator },
    UnaryOperator { lhs: InfoView, op: UnaryOperator },
    Cast { source: InfoView },
    StringHash(InfoView),
    FunctionCallResult { args: Seq<InfoView>, function_address: usize, return_values: usize },
    NativeCallResult { args: Seq<InfoView>, return_values: usize, native_hash: u64 },
}

/// The mathematical value of a [`StackEntryInfo`].
pub struct InfoView {
    pub entry: Box<EntryView>,
    pub ty: usize,
}

/// The value of an entry with its type handle.
pub open spec fn info_view(e: StackEntryInfo) -> InfoView
    decreases e, 1nat,
{
    InfoView { entry: Box::new(entry_view(e.entry)), ty: e.ty }
}

/// The value of a list of entries.
pub open spec fn infos_view(s: Seq<StackEntryInfo>) -> Seq<InfoView>
    decreases s, 2nat,
{
    if s.len() == 0 {
        Seq::empty()
    } else {
        infos_view(s.drop_last()).push(info_view(s.last()))
    }
}

/// The value of an entry.
pub open spec fn entry_view(e: StackEntry) -> EntryView
    decreases e, 0nat,
{
    match e {
        StackEntry::Int(v) => EntryView::Int(v),
        StackEntry::Float(v) => EntryView::Float(v),
        StackEntry::String(s) => EntryView::String(s@),
        StackEntry::Struct { origin, size } => EntryView::Struct { origin: info_view(*origin), size },
        StackEntry::ResultStruct { values } => EntryView::ResultStruct { values: infos_view(values@) },
        StackEntry::StructField { source, field } => EntryView::StructField {
            source: info_view(*source),
            field,
        },
        StackEntry::Offset { source, offset } => EntryView::Offset {
            source: info_view(*source),
            offset: info_view(*offset),
        },
        StackEntry::ArrayItem { source, index, item_size } => EntryView::ArrayItem {
            source: info_view(*source),
            index: info_view(*index),
            item_size,
        },
        StackEntry::Local(i) => EntryView::Local(i),
        StackEntry::Static(i) => EntryView::Static(i),
        StackEntry::Global(i) => EntryView::Global(i),
        StackEntry::Deref(s) => EntryView::Deref(info_view(*s)),
        StackEntry::Ref(s) => EntryView::Ref(info_view(*s)),
        StackEntry::FloatToVector(s) => EntryView::FloatToVector(info_view(*s)),
        StackEntry::CatchValue => EntryView::CatchValue,
        StackEntry::BinaryOperator { lhs, rhs, op } => EntryView::BinaryOperator {
            lhs: info_view(*lhs),
            rhs: info_view(*rhs),
            op,
        },
        StackEntry::UnaryOperator { lhs, op } => EntryView::UnaryOperator { lhs: info_view(*lhs), op },
        StackEntry::Cast { source } => EntryView::Cast { source: info_view(*source) },
        StackEntry::StringHash(s) => EntryView::StringHash(info_view(*s)),
        StackEntry::FunctionCallResult { args, function_address, return_values } =>
            EntryView::FunctionCallResult { args: infos_view(args@), function_address, return_values },
        StackEntry::NativeCallResult { args, return_values, native_hash } =>
            EntryView::NativeCallResult { args: infos_view(args@), return_values, native_hash },
    }
}

/// The list of entries has as many values as entries.
pub proof fn lemma_infos_view_len(s: Seq<StackEntryInfo>)
    ensures
        infos_view(s).len() == s.len(),
        forall|i: int| 0 <= i < s.len() ==> #[trigger] infos_view(s)[i] == info_view(s[i]),
    decreases s.len(),
{
    if s.len() > 0 {
        lemma_infos_view_len(s.drop_last());
    }
}

impl EntryView {
    /// The number of stack slots the value takes up.
    pub open spec fn size(self) -> nat {
        match self {
            EntryView::Struct { size, .. } => size as nat,
            EntryView::ResultStruct { values } => values.len(),
            EntryView::FunctionCallResult { return_values, .. } => return_values as nat,
            EntryView::NativeCallResult { return_values, .. } => return_values as nat,
            _ => 1,
        }
    }
}

impl InfoView {
    /// The number of stack slots the value takes up.
    pub open spec fn size(self) -> nat {
        self.entry.size()
    }
}

/// Which field the last slot of a value of several slots is.
pub open spec fn split_field_index(e: InfoView) -> int {
    match *e.entry {
        EntryView::Struct { size, .. } => size - 1,
        EntryView::ResultStruct { values } => values.len() - 1,
        EntryView::FunctionCallResult { return_values, .. } => return_values - 1,
        EntryView::NativeCallResult { return_values, .. } => return_values - 1,
        _ => 0,
    }
}

/// The expression for the last slot of a value of several slots. A struct
/// names it from the struct's origin; a list of results or the result of a
/// call names it from the whole value.
pub open spec fn split_first_entry(e: InfoView) -> EntryView {
    match *e.entry {
        EntryView::Struct { origin, size } => EntryView::StructField { source: origin, field: (size - 1) as usize },
        _ => EntryView::StructField { source: e, field: split_field_index(e) as usize },
    }
}

/// What is left of a value of several slots once its last slot is split
/// off. A struct loses its last slot; a list of results loses its last result;
/// the result of a call loses one return value, and nothing is left once
/// none remains.
pub open spec fn split_rest(e: InfoView) -> Option<InfoView> {
    match *e.entry {
        EntryView::Struct { origin, size } => Some(
            InfoView { entry: Box::new(EntryView::Struct { origin, size: (size - 1) as usize }), ty: e.ty },
        ),
        EntryView::ResultStruct { values } => Some(
            InfoView {
                entry: Box::new(EntryView::ResultStruct { values: values.drop_last() }),
                ty: e.ty,
            },
        ),
        EntryView::FunctionCallResult { args, function_address, return_values } => if return_values
            > 1 {
            Some(
                InfoView {
                    entry: Box::new(
                        EntryView::FunctionCallResult {
                            args,
                            function_address,
                            return_values: (return_values - 1) as usize,
                        },
                    ),
                    ty: e.ty,
                },
            )
        } else {
            None
        },
        EntryView::NativeCallResult { args, return_values, native_hash } => if return_values
            > 1 {
            Some(
                InfoView {
                    entry: Box::new(
                        EntryView::NativeCallResult {
                            args,
                            return_values: (return_values - 1) as usize,
                            native_hash,
                        },
                    ),
                    ty: e.ty,
                },
            )
        } else {
            None
        },
        _ => Some(e),
    }
}

/// Splitting `e` gives `first` and `rest`, the store going from `s0` to
/// `s1`: a value of one slot comes back whole with nothing left and the
/// store unchanged; otherwise the last slot comes back with the type of the
/// matching field of the value's struct type.
pub open spec fn split_off_rel(
    e: InfoView,
    s0: TypeStore,
    s1: TypeStore,
    first: InfoView,
    rest: Option<InfoView>,
) -> bool {
    if e.size() == 1 {
        &&& first == e
        &&& rest is None
        &&& s1 == s0
    } else {
        &&& *first.entry == split_first_entry(e)
        &&& struct_field_post(s0, s1, e.ty, split_field_index(e) as usize, first.ty)
        &&& rest == split_rest(e)
    }
}

/// The value of an optional entry.
pub open spec fn opt_view(e: Option<StackEntryInfo>) -> Option<InfoView> {
    match e {
        Some(v) => Some(info_view(v)),
        None => None,
    }
}

impl<'i> StackEntry<'i> {
    /// The number of stack slots the value takes up.
    pub fn size(&self) -> (r: usize)
        ensures
            r == entry_view(*self).size(),
    {
        match self {
            StackEntry::Struct { size, .. } => *size,
            StackEntry::ResultStruct { values } => {
                proof {
                    lemma_infos_view_len(values@);
                }
                values.len()
            },
            StackEntry::FunctionCallResult { return_values, .. } => *return_values,
            StackEntry::NativeCallResult { return_values, .. } => *return_values,
            _ => 1,
        }
    }
}

impl<'i> StackEntryInfo<'i> {
    /// A copy of the entry.
    pub fn copy(&self) -> (r: Self)
        ensures
            info_view(r) == info_view(*self),
        decreases self, 1nat,
    {
        StackEntryInfo { entry: self.entry.copy(), ty: self.ty }
    }

    /// Splits the last slot off a value: the last slot and, unless nothing
    /// is left of it, the rest of the value.
    pub fn split_off(self, store: &mut TypeStore) -> (r: (Self, Option<Self>))
        requires
            old(store).wf(),
            self.ty < old(store)@.len(),
            info_view(self).size() >= 1,
            old(store)@.len() + info_view(self).size() + 1 <= usize::MAX,
        ensures
            split_off_rel(info_view(self), *old(store), *final(store), info_view(r.0), opt_view(r.1)),
    {
        if self.entry.size() == 1 {
            return (self, None);
        }
        let cloned = self.copy();
        let StackEntryInfo { entry, ty } = self;
        match entry {
            StackEntry::Struct { origin, size } => {
                let last = size - 1;
                let field_ty = LinkedValueType::struct_field(store, ty, last);
                let source = Box::new((*origin).copy());
                let field = StackEntryInfo {
                    entry: StackEntry::StructField { source, field: last },
                    ty: field_ty,
                };
                (field, Some(StackEntryInfo { entry: StackEntry::Struct { origin, size: last }, ty }))
            },
            StackEntry::ResultStruct { mut values } => {
                proof {
                    lemma_infos_view_len(values@);
                }
                let ghost before = values@;
                values.pop();
                proof {
                    assert(values@ =~= before.drop_last());
                    assert(infos_view(values@) == infos_view(before).drop_last());
                }
                let field_index = values.len();
                let field_ty = LinkedValueType::struct_field(store, ty, field_index);
                let field = StackEntryInfo {
                    entry: StackEntry::StructField { source: Box::new(cloned), field: field_index },
                    ty: field_ty,
                };
                (field, Some(StackEntryInfo { entry: StackEntry::ResultStruct { values }, ty }))
            },
            StackEntry::FunctionCallResult { args, function_address, return_values } => {
                let field_index = return_values - 1;
                let field_ty = LinkedValueType::struct_field(store, ty, field_index);
                let field = StackEntryInfo {
                    entry: StackEntry::StructField { source: Box::new(cloned), field: field_index },
                    ty: field_ty,
                };
                let rest = if field_index > 0 {
                    Some(
                        StackEntryInfo {
                            entry: StackEntry::FunctionCallResult {
                                args,
                                function_address,
                                return_values: field_index,
                            },
                            ty,
                        },
                    )
                } else {
                    None
                };
                (field, rest)
            },
            StackEntry::NativeCallResult { args, return_values, native_hash } => {
                let field_index = return_values - 1;
                let field_ty = LinkedValueType::struct_field(store, ty, field_index);
                let field = StackEntryInfo {
                    entry: StackEntry::StructField { source: Box::new(cloned), field: field_index },
                    ty: field_ty,
                };
                let rest = if field_index > 0 {
                    Some(
                        StackEntryInfo {
                            entry: StackEntry::NativeCallResult {
                                args,
                                return_values: field_index,
                                native_hash,
                            },
                            ty,
                        },
                    )
                } else {
                    None
                };
                (field, rest)
            },
            _ => {
                proof {
                    assert(false);
                }
                (cloned, None)
            },
        }
    }
}

impl<'i> StackEntry<'i> {
    /// A copy of the entry.
    pub fn copy(&self) -> (r: Self)
        ensures
            entry_view(r) == entry_view(*self),
        decreases self, 0nat,
    {
        match self {
            StackEntry::Int(v) => StackEntry::Int(*v),
            StackEntry::Float(v) => StackEntry::Float(*v),
            StackEntry::String(s) => StackEntry::String(*s),
            StackEntry::Struct { origin, size } => StackEntry::Struct {
                origin: Box::new((**origin).copy()),
                size: *size,
            },
            StackEntry::ResultStruct { values } => StackEntry::ResultStruct {
                values: copy_entries(values),
            },
            StackEntry::StructField { source, field } => StackEntry::StructField {
                source: Box::new((**source).copy()),
                field: *field,
            },
            StackEntry::Offset { source, offset } => StackEntry::Offset {
                source: Box::new((**source).copy()),
                offset: Box::new((**offset).copy()),
            },
            StackEntry::ArrayItem { source, index, item_size } => StackEntry::ArrayItem {
                source: Box::new((**source).copy()),
                index: Box::new((**index).copy()),
                item_size: *item_size,
            },
            StackEntry::Local(i) => StackEntry::Local(*i),
            StackEntry::Static(i) => StackEntry::Static(*i),
            StackEntry::Global(i) => StackEntry::Global(*i),
            StackEntry::Deref(s) => StackEntry::Deref(Box::new((**s).copy())),
            StackEntry::Ref(s) => StackEntry::Ref(Box::new((**s).copy())),
            StackEntry::FloatToVector(s) => StackEntry::FloatToVector(Box::new((**s).copy())),
            StackEntry::CatchValue => StackEntry::CatchValue,
            StackEntry::BinaryOperator { lhs, rhs, op } => StackEntry::BinaryOperator {
                lhs: Box::new((**lhs).copy()),
                rhs: Box::new((**rhs).copy()),
                op: *op,
            },
            StackEntry::UnaryOperator { lhs, op } => StackEntry::UnaryOperator {
                lhs: Box::new((**lhs).copy()),
                op: *op,
            },
            StackEntry::Cast { source } => StackEntry::Cast { source: Box::new((**source).copy()) },
            StackEntry::StringHash(s) => StackEntry::StringHash(Box::new((**s).copy())),
            StackEntry::FunctionCallResult { args, function_address, return_values } =>
                StackEntry::FunctionCallResult {
                args: copy_entries(args),
                function_address: *function_address,
                return_values: *return_values,
            },
            StackEntry::NativeCallResult { args, return_values, native_hash } =>
                StackEntry::NativeCallResult {
                args: copy_entries(args),
                return_values: *return_values,
                native_hash: *native_hash,
            },
        }
    }
}

/// Copies a list of entries.
fn copy_entries<'i>(values: &Vec<StackEntryInfo<'i>>) -> (r: Vec<StackEntryInfo<'i>>)
    ensures
        infos_view(r@) == infos_view(values@),
    decreases values, 2nat,
{
    let mut r: Vec<StackEntryInfo<'i>> = Vec::new();
    let mut i: usize = 0;
    while i < values.len()
        invariant
            i <= values@.len(),
            infos_view(r@) == infos_view(values@.take(i as int)),
        decreases values@.len() - i,
    {
        proof {
            assert(decreases_to!(values => values@[i as int]));
        }
        let c = values[i].copy();
        let ghost before = r@;
        r.push(c);
        proof {
            assert(r@.drop_last() =~= before);
            assert(values@.take(i + 1).drop_last() =~= values@.take(i as int));
        }
        i = i + 1;
    }
    assert(values@.take(values@.len() as int) =~= values@);
    r
}

} // verus!
