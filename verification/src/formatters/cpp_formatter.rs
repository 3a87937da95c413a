use crate::common::utf8::string_push;
use crate::decompiler::control_flow::CaseValue;
use crate::decompiler::decompiled::decompiled_function::DecompiledFunction;
use crate::decompiler::decompiled::statement::{Statement, StatementInfo};
use crate::decompiler::stack_entry::{
    entry_view, info_view, infos_view, lemma_infos_view_len, BinaryOperator, EntryView, InfoView,
    StackEntry, StackEntryInfo, UnaryOperator,
};
use crate::decompiler::value_type::{
    LinkedValueType, NodeView, Primitives, TypeStore, TypeView, ValueType,
};
use crate::formatters::assembly_formatter::label_view;
use crate::formatters::code_builder::{tabs, CodeBuilder};
use crate::formatters::instruction_text::{rendered, renders_floats};
use crate::formatters::text::{
    decimal, hex_padded, push_decimal, push_hex_padded, push_signed_decimal, signed_decimal,
};
use std::collections::HashMap;
use vstd::prelude::*;

verus! {

broadcast use {vstd::string::group_string_axioms, vstd::std_specs::hash::group_hash_axioms};

/// The C++ name of a primitive type.
pub open spec fn primitive_name(primitive: Primitives) -> Seq<char> {
    match primitive {
        Primitives::Float => "float"@,
        Primitives::Int => "int"@,
        Primitives::String => "const char*"@,
        Primitives::Bool => "bool"@,
        Primitives::Unknown => "any"@,
    }
}

/// The C++ text of the type `h` leads to, looking at most `fuel` levels
/// deep: `struct<...>` with the fields' types, `T[]` for an array, `T*` for a
/// reference, or the primitive's name. `None` when `fuel` does not reach the
/// bottom, or where a function type is reached, which has no text.
pub open spec fn type_text(store: TypeStore, h: int, fuel: nat) -> Option<Seq<char>>
    decreases fuel, 0nat,
{
    match store.concrete_view(h) {
        NodeView::Type { ty, .. } => match ty {
            TypeView::Struct { fields } => if fuel == 0 {
                None
            } else {
                match fields_text(store, fields, (fuel - 1) as nat) {
                    Some(t) => Some("struct<"@ + t + seq!['>']),
                    None => None,
                }
            },
            TypeView::Array { item_type } => if fuel == 0 {
                None
            } else {
                match type_text(store, item_type as int, (fuel - 1) as nat) {
                    Some(t) => Some(t + seq!['[', ']']),
                    None => None,
                }
            },
            TypeView::Ref { target } => if fuel == 0 {
                None
            } else {
                match type_text(store, target as int, (fuel - 1) as nat) {
                    Some(t) => Some(t + seq!['*']),
                    None => None,
                }
            },
            TypeView::Primitive { primitive } => Some(primitive_name(primitive)),
            TypeView::Function { .. } => None,
        },
        NodeView::Redirect { .. } => None,
    }
}

/// The texts of the types of `fields`, separated by `, `.
pub open spec fn fields_text(store: TypeStore, fields: Seq<usize>, fuel: nat) -> Option<Seq<char>>
    decreases fuel, fields.len() + 1,
{
    if fields.len() == 0 {
        Some(seq![])
    } else {
        match (
            fields_text(store, fields.drop_last(), fuel),
            type_text(store, fields.last() as int, fuel),
        ) {
            (Some(a), Some(b)) => Some(
                if fields.len() == 1 {
                    b
                } else {
                    a + seq![',', ' '] + b
                },
            ),
            _ => None,
        }
    }
}

/// Whether the type `h` leads to has a C++ text: it is finite and reaches
/// no function type.
pub open spec fn has_type_text(store: TypeStore, h: int) -> bool {
    exists|fuel: nat| #[trigger] type_text(store, h, fuel) is Some
}

/// The C++ text of the type `h` leads to.
pub open spec fn type_text_of(store: TypeStore, h: int) -> Seq<char> {
    type_text(store, h, choose|fuel: nat| #[trigger] type_text(store, h, fuel) is Some).unwrap()
}

/// A list of field types that has a text has one for each prefix and each
/// field.
proof fn lemma_fields_text_prefix(store: TypeStore, fields: Seq<usize>, fuel: nat, i: int)
    requires
        fields_text(store, fields, fuel) is Some,
        0 <= i < fields.len(),
    ensures
        fields_text(store, fields.take(i), fuel) is Some,
        type_text(store, fields[i] as int, fuel) is Some,
        fields.take(i + 1).drop_last() == fields.take(i),
        fields.take(i + 1).last() == fields[i],
    decreases fields.len(),
{
    assert(fields.take(i + 1).drop_last() =~= fields.take(i));
    if i < fields.len() - 1 {
        lemma_fields_text_prefix(store, fields.drop_last(), fuel, i);
        assert(fields.drop_last().take(i) =~= fields.take(i));
    } else {
        assert(fields.drop_last() =~= fields.take(i));
    }
}

/// The C++ text of the type `ty` leads to.
pub fn format_type(store: &TypeStore, ty: usize) -> (r: String)
    requires
        store.wf(),
        ty < store@.len(),
        has_type_text(*store, ty as int),
    ensures
        r@ == type_text_of(*store, ty as int),
{
    let ghost fuel = choose|fuel: nat| #[trigger] type_text(*store, ty as int, fuel) is Some;
    format_type_within(store, ty, Ghost(fuel))
}

/// The C++ text of the type `ty` leads to, found within `fuel` levels.
fn format_type_within(store: &TypeStore, ty: usize, Ghost(fuel): Ghost<nat>) -> (r: String)
    requires
        store.wf(),
        ty < store@.len(),
        type_text(*store, ty as int, fuel) is Some,
    ensures
        r@ == type_text(*store, ty as int, fuel).unwrap(),
    decreases fuel,
{
    proof {
        store.lemma_concrete(ty as int);
        store.lemma_concrete(store.concrete(ty as int));
    }
    let info = LinkedValueType::get_concrete(store, ty);
    match &info.ty {
        ValueType::Struct { fields } => {
            let ghost f = (fuel - 1) as nat;
            let mut text = String::new();
            let mut i: usize = 0;
            assert(fields@.take(0) =~= Seq::<usize>::empty());
            while i < fields.len()
                invariant
                    store.wf(),
                    i <= fields@.len(),
                    fields_text(*store, fields@, f) is Some,
                    forall|k: int| 0 <= k < fields@.len() ==> fields@[k] < store@.len(),
                    f < fuel,
                    text@ == fields_text(*store, fields@.take(i as int), f).unwrap(),
                decreases fields@.len() - i,
            {
                proof {
                    lemma_fields_text_prefix(*store, fields@, f, i as int);
                }
                if i > 0 {
                    string_push(&mut text, ',');
                    string_push(&mut text, ' ');
                }
                let field = format_type_within(store, fields[i], Ghost(f));
                text.append(field.as_str());
                proof {
                    if i == 0 {
                        assert(fields@.take(1).len() == 1);
                        assert(fields_text(*store, fields@.take(0), f) == Some(Seq::<char>::empty()));
                    }
                }
                i = i + 1;
                assert(text@ =~= fields_text(*store, fields@.take(i as int), f).unwrap());
            }
            assert(fields@.take(i as int) =~= fields@);
            let mut r = String::from_str("struct<");
            r.append(text.as_str());
            string_push(&mut r, '>');
            r
        },
        ValueType::Array { item_type } => {
            let mut r = format_type_within(store, *item_type, Ghost((fuel - 1) as nat));
            string_push(&mut r, '[');
            string_push(&mut r, ']');
            assert(r@ =~= type_text(*store, ty as int, fuel).unwrap());
            r
        },
        ValueType::Ref(target) => {
            let mut r = format_type_within(store, *target, Ghost((fuel - 1) as nat));
            string_push(&mut r, '*');
            r
        },
        ValueType::Primitive(primitive) => String::from_str(
            match primitive {
                Primitives::Float => "float",
                Primitives::Int => "int",
                Primitives::String => "const char*",
                Primitives::Bool => "bool",
                Primitives::Unknown => "any",
            },
        ),
        ValueType::Function { .. } => {
            assert(false);
            String::new()
        },
    }
}

/// What the C++ text of a value depends on besides the value: the type
/// store, the names of the functions by address, the number of parameters
/// of the function the value belongs to, and how floats are written.
pub struct TextContext {
    pub store: TypeStore,
    pub names: Map<usize, Seq<char>>,
    pub param_count: nat,
    pub float_text: spec_fn(u32) -> Seq<char>,
}

/// The name of slot `local` of a function's frame: the parameters come
/// first, then two slots (the return address and the frame), then the
/// locals.
pub open spec fn local_name(local: nat, param_count: nat) -> Seq<char> {
    if local < param_count {
        "parameter_"@ + decimal(local)
    } else {
        "local_"@ + decimal((local - param_count - 2) as nat)
    }
}

/// Whether a value is written as part of a larger one, where a local of
/// several slots stands for itself rather than for its first field.
pub open spec fn is_aggregate(parent: Option<EntryView>) -> bool {
    match parent {
        Some(EntryView::Ref(..)) => true,
        Some(EntryView::Struct { .. }) => true,
        Some(EntryView::ResultStruct { .. }) => true,
        Some(EntryView::Offset { .. }) => true,
        _ => false,
    }
}

/// Whether `info` is a binary operation with the operator `op`.
pub open spec fn has_operator(info: InfoView, op: BinaryOperator) -> bool {
    *info.entry matches EntryView::BinaryOperator { op: o, .. } && o == op
}

/// The C++ symbol of a binary operator written between its operands.
pub open spec fn operator_symbol(op: BinaryOperator) -> Seq<char> {
    match op {
        BinaryOperator::Add => "+"@,
        BinaryOperator::Subtract => "-"@,
        BinaryOperator::Multiply => "*"@,
        BinaryOperator::Divide => "/"@,
        BinaryOperator::BitwiseAnd => "&"@,
        BinaryOperator::BitwiseOr => "|"@,
        BinaryOperator::BitwiseXor => "^"@,
        BinaryOperator::Modulo => "%"@,
        BinaryOperator::Equal => "=="@,
        BinaryOperator::NotEqual => "!="@,
        BinaryOperator::GreaterThan => ">"@,
        BinaryOperator::GreaterOrEqual => ">="@,
        BinaryOperator::LowerThan => "<"@,
        BinaryOperator::LowerOrEqual => "<="@,
        BinaryOperator::LogicalAnd => "&&"@,
        BinaryOperator::LogicalOr => "||"@,
        BinaryOperator::BitTest => "BitTest"@,
    }
}

/// The C++ operator written `symbol`, if any: the C++ token of each
/// operation.
pub open spec fn operator_of_symbol(symbol: Seq<char>) -> Option<BinaryOperator> {
    if symbol.len() == 1 && symbol[0] == '+' {
        Some(BinaryOperator::Add)
    } else if symbol.len() == 1 && symbol[0] == '-' {
        Some(BinaryOperator::Subtract)
    } else if symbol.len() == 1 && symbol[0] == '*' {
        Some(BinaryOperator::Multiply)
    } else if symbol.len() == 1 && symbol[0] == '/' {
        Some(BinaryOperator::Divide)
    } else if symbol.len() == 1 && symbol[0] == '&' {
        Some(BinaryOperator::BitwiseAnd)
    } else if symbol.len() == 1 && symbol[0] == '|' {
        Some(BinaryOperator::BitwiseOr)
    } else if symbol.len() == 1 && symbol[0] == '^' {
        Some(BinaryOperator::BitwiseXor)
    } else if symbol.len() == 1 && symbol[0] == '%' {
        Some(BinaryOperator::Modulo)
    } else if symbol.len() == 2 && symbol[0] == '=' && symbol[1] == '=' {
        Some(BinaryOperator::Equal)
    } else if symbol.len() == 2 && symbol[0] == '!' && symbol[1] == '=' {
        Some(BinaryOperator::NotEqual)
    } else if symbol.len() == 1 && symbol[0] == '>' {
        Some(BinaryOperator::GreaterThan)
    } else if symbol.len() == 2 && symbol[0] == '>' && symbol[1] == '=' {
        Some(BinaryOperator::GreaterOrEqual)
    } else if symbol.len() == 1 && symbol[0] == '<' {
        Some(BinaryOperator::LowerThan)
    } else if symbol.len() == 2 && symbol[0] == '<' && symbol[1] == '=' {
        Some(BinaryOperator::LowerOrEqual)
    } else if symbol.len() == 2 && symbol[0] == '&' && symbol[1] == '&' {
        Some(BinaryOperator::LogicalAnd)
    } else if symbol.len() == 2 && symbol[0] == '|' && symbol[1] == '|' {
        Some(BinaryOperator::LogicalOr)
    } else if symbol.len() == 7 && symbol[0] == 'B' && symbol[1] == 'i' && symbol[2] == 't' && symbol[3] == 'T' && symbol[4] == 'e' && symbol[5] == 's' && symbol[6] == 't' {
        Some(BinaryOperator::BitTest)
    } else {
        None
    }
}

/// Each operator is written with the C++ token of its operation, so
/// distinct operators are written with distinct symbols.
pub proof fn lemma_operator_symbols_distinct(a: BinaryOperator, b: BinaryOperator)
    ensures
        operator_of_symbol(operator_symbol(a)) == Some(a),
        operator_symbol(a) == operator_symbol(b) ==> a == b,
{
    lemma_operator_symbol_token(a);
    lemma_operator_symbol_token(b);
}

/// The symbol of an operator is the C++ token of its operation.
pub proof fn lemma_operator_symbol_token(op: BinaryOperator)
    ensures
        operator_of_symbol(operator_symbol(op)) == Some(op),
{
    match op {
        BinaryOperator::Add => {
            reveal_strlit("+");
        },
        BinaryOperator::Subtract => {
            reveal_strlit("-");
        },
        BinaryOperator::Multiply => {
            reveal_strlit("*");
        },
        BinaryOperator::Divide => {
            reveal_strlit("/");
        },
        BinaryOperator::BitwiseAnd => {
            reveal_strlit("&");
        },
        BinaryOperator::BitwiseOr => {
            reveal_strlit("|");
        },
        BinaryOperator::BitwiseXor => {
            reveal_strlit("^");
        },
        BinaryOperator::Modulo => {
            reveal_strlit("%");
        },
        BinaryOperator::Equal => {
            reveal_strlit("==");
        },
        BinaryOperator::NotEqual => {
            reveal_strlit("!=");
        },
        BinaryOperator::GreaterThan => {
            reveal_strlit(">");
        },
        BinaryOperator::GreaterOrEqual => {
            reveal_strlit(">=");
        },
        BinaryOperator::LowerThan => {
            reveal_strlit("<");
        },
        BinaryOperator::LowerOrEqual => {
            reveal_strlit("<=");
        },
        BinaryOperator::LogicalAnd => {
            reveal_strlit("&&");
        },
        BinaryOperator::LogicalOr => {
            reveal_strlit("||");
        },
        BinaryOperator::BitTest => {
            reveal_strlit("BitTest");
        },
    }
}

/// A logical operation: an operand that is the other logical operation is
/// put in parentheses.
pub open spec fn logical_text(
    l: Seq<char>,
    r: Seq<char>,
    wrap_l: bool,
    wrap_r: bool,
    symbol: Seq<char>,
) -> Seq<char> {
    (if wrap_l {
        seq!['('] + l + seq![')']
    } else {
        l
    }) + seq![' '] + symbol + seq![' '] + (if wrap_r {
        seq!['('] + r + seq![')']
    } else {
        r
    })
}

/// The name a call gives its function: its name where it is known,
/// otherwise `unk_fn` and its address in eight hexadecimal digits.
pub open spec fn function_name(names: Map<usize, Seq<char>>, address: usize) -> Seq<char> {
    if names.contains_key(address) {
        names[address]
    } else {
        "unk_fn"@ + hex_padded(address as nat, 8)
    }
}

/// The C++ text of a value whose parent value is `parent`.
pub open spec fn entry_text(ctx: TextContext, info: InfoView, parent: Option<EntryView>) -> Seq<
    char,
>
    decreases info, 0nat,
{
    let me = Some(*info.entry);
    match *info.entry {
        EntryView::Int(v) => signed_decimal(v as int),
        EntryView::Float(bits) => (ctx.float_text)(bits),
        EntryView::String(s) => "STRING("@ + s + seq![')'],
        EntryView::Struct { origin, .. } => entry_text(ctx, origin, me),
        EntryView::ResultStruct { values } => seq!['('] + list_text(ctx, values, me) + seq![')'],
        EntryView::StructField { source, field } => match *source.entry {
            EntryView::Deref(d) => match *d.entry {
                EntryView::Ref(rf) => entry_text(ctx, rf, me) + "->f_"@ + decimal(field as nat),
                _ => entry_text(ctx, source, me) + ".f_"@ + decimal(field as nat),
            },
            _ => entry_text(ctx, source, me) + ".f_"@ + decimal(field as nat),
        },
        EntryView::Offset { source, offset } => match *source.entry {
            EntryView::Ref(rf) => entry_text(ctx, rf, me) + ".f_"@ + entry_text(ctx, offset, me),
            _ => entry_text(ctx, source, me) + "->f_"@ + entry_text(ctx, offset, me),
        },
        EntryView::ArrayItem { source, index, item_size } => (match *source.entry {
            EntryView::Ref(st) => entry_text(ctx, st, me),
            _ => entry_text(ctx, source, me),
        }) + seq!['['] + entry_text(ctx, index, me) + " /* "@ + decimal(item_size as nat)
            + " */]"@,
        EntryView::Local(local) => if ctx.store.size_of(info.ty as int) == 1 || is_aggregate(
            parent,
        ) {
            local_name(local as nat, ctx.param_count)
        } else {
            local_name(local as nat, ctx.param_count) + ".f_0"@
        },
        EntryView::Static(i) => "static_"@ + decimal(i as nat),
        EntryView::Global(i) => "global_"@ + decimal(i as nat),
        EntryView::Deref(d) => match *d.entry {
            EntryView::Ref(rf) => entry_text(ctx, rf, me),
            _ => "*("@ + entry_text(ctx, d, me) + seq![')'],
        },
        EntryView::Ref(rf) => seq!['&'] + entry_text(ctx, rf, me),
        EntryView::BinaryOperator { lhs, rhs, op } => {
            let l = entry_text(ctx, lhs, me);
            let r = entry_text(ctx, rhs, me);
            match op {
                BinaryOperator::LogicalAnd => logical_text(
                    l,
                    r,
                    has_operator(lhs, BinaryOperator::LogicalOr),
                    has_operator(rhs, BinaryOperator::LogicalOr),
                    operator_symbol(op),
                ),
                BinaryOperator::LogicalOr => logical_text(
                    l,
                    r,
                    has_operator(lhs, BinaryOperator::LogicalAnd),
                    has_operator(rhs, BinaryOperator::LogicalAnd),
                    operator_symbol(op),
                ),
                BinaryOperator::BitTest => "BitTest("@ + l + seq![',', ' '] + r + seq![')'],
                _ => l + seq![' '] + operator_symbol(op) + seq![' '] + r,
            }
        },
        EntryView::UnaryOperator { lhs, op } => (match op {
            UnaryOperator::Not => seq!['!'],
            UnaryOperator::Negate => seq!['-'],
        }) + seq!['('] + entry_text(ctx, lhs, me) + seq![')'],
        EntryView::Cast { source } => seq!['('] + type_text_of(ctx.store, info.ty as int)
            + seq![')'] + entry_text(ctx, source, me),
        EntryView::StringHash(s) => "HASH("@ + entry_text(ctx, s, me) + seq![')'],
        EntryView::FunctionCallResult { args, function_address, .. } => function_name(
            ctx.names,
            function_address,
        ) + seq!['('] + list_text(ctx, args, None) + seq![')'],
        EntryView::NativeCallResult { args, native_hash, .. } => "unk_0x"@ + hex_padded(
            native_hash as nat,
            16,
        ) + seq!['('] + list_text(ctx, args, None) + seq![')'],
        EntryView::FloatToVector(..) => seq![],
        EntryView::CatchValue => seq![],
    }
}

/// The texts of `items`, separated by `, `.
pub open spec fn list_text(ctx: TextContext, items: Seq<InfoView>, parent: Option<EntryView>) -> Seq<
    char,
>
    decreases items, 1nat,
{
    if items.len() == 0 {
        seq![]
    } else if items.len() == 1 {
        entry_text(ctx, items[0], parent)
    } else {
        list_text(ctx, items.drop_last(), parent) + seq![',', ' '] + entry_text(
            ctx,
            items.last(),
            parent,
        )
    }
}

/// Whether a value has a C++ text: it holds no caught value and no float
/// converted to a vector, which have none; the types of its locals have a
/// size and those of its casts a text; and every local is a parameter or
/// comes after the two slots that follow the parameters.
pub open spec fn entry_ok(store: TypeStore, param_count: nat, info: InfoView) -> bool
    decreases info, 0nat,
{
    match *info.entry {
        EntryView::Int(..) | EntryView::Float(..) | EntryView::String(..) => true,
        EntryView::Static(..) | EntryView::Global(..) => true,
        EntryView::Struct { origin, .. } => entry_ok(store, param_count, origin),
        EntryView::ResultStruct { values } => list_ok(store, param_count, values),
        EntryView::StructField { source, .. } => entry_ok(store, param_count, source),
        EntryView::Offset { source, offset } => entry_ok(store, param_count, source) && entry_ok(
            store,
            param_count,
            offset,
        ),
        EntryView::ArrayItem { source, index, .. } => entry_ok(store, param_count, source)
            && entry_ok(store, param_count, index),
        EntryView::Local(local) => {
            &&& info.ty < store@.len()
            &&& store.has_size(info.ty as int)
            &&& (local < param_count || local >= param_count + 2)
        },
        EntryView::Deref(d) => entry_ok(store, param_count, d),
        EntryView::Ref(rf) => entry_ok(store, param_count, rf),
        EntryView::BinaryOperator { lhs, rhs, .. } => entry_ok(store, param_count, lhs) && entry_ok(
            store,
            param_count,
            rhs,
        ),
        EntryView::UnaryOperator { lhs, .. } => entry_ok(store, param_count, lhs),
        EntryView::Cast { source } => {
            &&& info.ty < store@.len()
            &&& has_type_text(store, info.ty as int)
            &&& entry_ok(store, param_count, source)
        },
        EntryView::StringHash(s) => entry_ok(store, param_count, s),
        EntryView::FunctionCallResult { args, .. } => list_ok(store, param_count, args),
        EntryView::NativeCallResult { args, .. } => list_ok(store, param_count, args),
        EntryView::FloatToVector(..) => false,
        EntryView::CatchValue => false,
    }
}

/// Whether every value of `items` has a C++ text.
pub open spec fn list_ok(store: TypeStore, param_count: nat, items: Seq<InfoView>) -> bool
    decreases items, 1nat,
{
    if items.len() == 0 {
        true
    } else {
        list_ok(store, param_count, items.drop_last()) && entry_ok(
            store,
            param_count,
            items.last(),
        )
    }
}

/// Where `s` is a list whose values all have a text, so does each value
/// and each prefix.
proof fn lemma_list_ok(store: TypeStore, param_count: nat, s: Seq<InfoView>)
    requires
        list_ok(store, param_count, s),
    ensures
        forall|i: int| 0 <= i < s.len() ==> entry_ok(store, param_count, #[trigger] s[i]),
        forall|i: int| 0 <= i <= s.len() ==> list_ok(store, param_count, #[trigger] s.take(i)),
    decreases s.len(),
{
    if s.len() > 0 {
        lemma_list_ok(store, param_count, s.drop_last());
        assert forall|i: int| 0 <= i < s.len() implies entry_ok(store, param_count, #[trigger] s[i]) by {
            if i < s.len() - 1 {
                assert(s.drop_last()[i] == s[i]);
            }
        }
        assert forall|i: int| 0 <= i <= s.len() implies list_ok(store, param_count, #[trigger] s.take(i)) by {
            if i < s.len() {
                assert(s.drop_last().take(i) =~= s.take(i));
            } else {
                assert(s.take(i) =~= s);
            }
        }
    }
}

/// The value of an optional parent entry.
pub open spec fn parent_view(parent: Option<&StackEntry>) -> Option<EntryView> {
    match parent {
        Some(e) => Some(entry_view(*e)),
        None => None,
    }
}

/// A line at depth `depth`: the indentation, `text` and a newline.
pub open spec fn line_at(depth: nat, text: Seq<char>) -> Seq<char> {
    tabs(depth) + text + seq!['\n']
}

/// The text of a value where no value contains it.
pub open spec fn value_text(ctx: TextContext, value: StackEntryInfo) -> Seq<char> {
    entry_text(ctx, info_view(value), None)
}

/// The text of a call of the function at `address`.
pub open spec fn call_text(ctx: TextContext, address: usize, args: Seq<StackEntryInfo>) -> Seq<char> {
    function_name(ctx.names, address) + seq!['('] + list_text(ctx, infos_view(args), None) + seq![')']
}

/// The text of a call of the native with the hash `hash`.
pub open spec fn native_call_text(ctx: TextContext, hash: u64, args: Seq<StackEntryInfo>) -> Seq<char> {
    "unk_0x"@ + hex_padded(hash as nat, 16) + seq!['('] + list_text(ctx, infos_view(args), None)
        + seq![')']
}

/// The label of a switch case.
pub open spec fn case_label(value: CaseValue) -> Seq<char> {
    match value {
        CaseValue::Value(v) => "case "@ + signed_decimal(v as int) + seq![':'],
        CaseValue::Default => "default:"@,
    }
}

/// The lines of the labels of a switch case.
pub open spec fn case_labels_text(values: Seq<CaseValue>, depth: nat) -> Seq<char>
    decreases values.len(),
{
    if values.len() == 0 {
        seq![]
    } else {
        case_labels_text(values.drop_last(), depth) + line_at(depth, case_label(values.last()))
    }
}

/// The lines of a statement written at `depth`; `else_if` when it follows
/// an `else`. A conditional is its header, then its body in braces one
/// level deeper; an `else` branch that holds a single conditional
/// continues the chain as `else if`.
pub open spec fn statement_text(ctx: TextContext, st: Statement, depth: nat, else_if: bool) -> Seq<
    char,
>
    decreases st, 0nat,
{
    let prefix = if else_if {
        "else "@
    } else {
        seq![]
    };
    match st {
        Statement::Nop => seq![],
        Statement::Assign { destination, source } => line_at(
            depth,
            value_text(ctx, destination) + " = "@ + value_text(ctx, source) + seq![';'],
        ),
        Statement::Return { values } => if values@.len() == 1 {
            line_at(depth, "return "@ + value_text(ctx, values@[0]) + seq![';'])
        } else if values@.len() == 0 {
            line_at(depth, "return;"@)
        } else {
            line_at(depth, "return { "@ + list_text(ctx, infos_view(values@), None) + " }"@)
        },
        Statement::Throw { value } => line_at(depth, "throw "@ + value_text(ctx, value) + seq![';']),
        Statement::FunctionCall { args, function_address } => line_at(
            depth,
            call_text(ctx, function_address, args@) + seq![';'],
        ),
        Statement::NativeCall { args, native_hash } => line_at(
            depth,
            native_call_text(ctx, native_hash, args@) + seq![';'],
        ),
        Statement::If { condition, then } => line_at(
            depth,
            prefix + "if ("@ + value_text(ctx, condition) + seq![')'],
        ) + line_at(depth, seq!['{']) + block_text(ctx, then@, depth + 1) + line_at(depth, seq!['}']),
        Statement::IfElse { condition, then, els } => line_at(
            depth,
            prefix + "if ("@ + value_text(ctx, condition) + seq![')'],
        ) + line_at(depth, seq!['{']) + block_text(ctx, then@, depth + 1) + line_at(depth, seq!['}'])
            + if els@.len() == 1 && (els@[0].statement is If || els@[0].statement is IfElse) {
            statement_text(ctx, els@[0].statement, depth, true)
        } else {
            line_at(depth, "else"@) + line_at(depth, seq!['{']) + block_text(ctx, els@, depth + 1)
                + line_at(depth, seq!['}'])
        },
        Statement::WhileLoop { condition, body } => line_at(
            depth,
            "while ("@ + value_text(ctx, condition) + seq![')'],
        ) + line_at(depth, seq!['{']) + block_text(ctx, body@, depth + 1) + line_at(depth, seq!['}']),
        Statement::Switch { condition, cases } => line_at(
            depth,
            "switch ("@ + value_text(ctx, condition) + seq![')'],
        ) + line_at(depth, seq!['{']) + cases_text(ctx, cases@, depth + 1) + line_at(depth, seq!['}']),
        Statement::Break => line_at(depth, "break;"@),
        Statement::Continue => line_at(depth, "continue;"@),
        _ => seq![],
    }
}

/// The lines of a list of statements written at `depth`.
pub open spec fn block_text(ctx: TextContext, stmts: Seq<StatementInfo>, depth: nat) -> Seq<char>
    decreases stmts, 1nat,
{
    if stmts.len() == 0 {
        seq![]
    } else {
        block_text(ctx, stmts.drop_last(), depth) + statement_text(
            ctx,
            stmts.last().statement,
            depth,
            false,
        )
    }
}

/// The lines of the cases of a switch: each case's labels at `depth`, then
/// its statements one level deeper.
pub open spec fn cases_text(
    ctx: TextContext,
    cases: Seq<(Vec<StatementInfo>, Vec<CaseValue>)>,
    depth: nat,
) -> Seq<char>
    decreases cases, 1nat,
{
    if cases.len() == 0 {
        seq![]
    } else {
        cases_text(ctx, cases.drop_last(), depth) + case_labels_text(cases.last().1@, depth)
            + block_text(ctx, cases.last().0@, depth + 1)
    }
}

/// A bound on how many levels deeper than itself a statement writes.
pub open spec fn statement_weight(st: Statement) -> nat
    decreases st, 0nat,
{
    match st {
        Statement::If { then, .. } => 1 + block_weight(then@),
        Statement::IfElse { then, els, .. } => 1 + block_weight(then@) + block_weight(els@),
        Statement::WhileLoop { body, .. } => 1 + block_weight(body@),
        Statement::Switch { cases, .. } => 1 + cases_weight(cases@),
        _ => 1,
    }
}

/// The weights of a list of statements added up.
pub open spec fn block_weight(stmts: Seq<StatementInfo>) -> nat
    decreases stmts, 1nat,
{
    if stmts.len() == 0 {
        0
    } else {
        block_weight(stmts.drop_last()) + statement_weight(stmts.last().statement)
    }
}

/// The weights of the bodies of switch cases added up.
pub open spec fn cases_weight(cases: Seq<(Vec<StatementInfo>, Vec<CaseValue>)>) -> nat
    decreases cases, 1nat,
{
    if cases.len() == 0 {
        0
    } else {
        cases_weight(cases.drop_last()) + block_weight(cases.last().0@)
    }
}

/// Whether a statement has a C++ text: it is not one of the string or
/// memory statements, which have none, and its values have texts.
pub open spec fn statement_ok(store: TypeStore, param_count: nat, st: Statement) -> bool
    decreases st, 0nat,
{
    let ok = |v: StackEntryInfo| entry_ok(store, param_count, info_view(v));
    match st {
        Statement::Nop | Statement::Break | Statement::Continue => true,
        Statement::Assign { destination, source } => ok(destination) && ok(source),
        Statement::Return { values } => list_ok(store, param_count, infos_view(values@)),
        Statement::Throw { value } => ok(value),
        Statement::FunctionCall { args, .. } => list_ok(store, param_count, infos_view(args@)),
        Statement::NativeCall { args, .. } => list_ok(store, param_count, infos_view(args@)),
        Statement::If { condition, then } => ok(condition) && block_ok(store, param_count, then@),
        Statement::IfElse { condition, then, els } => ok(condition) && block_ok(
            store,
            param_count,
            then@,
        ) && block_ok(store, param_count, els@),
        Statement::WhileLoop { condition, body } => ok(condition) && block_ok(
            store,
            param_count,
            body@,
        ),
        Statement::Switch { condition, cases } => ok(condition) && cases_ok(
            store,
            param_count,
            cases@,
        ),
        _ => false,
    }
}

/// Whether every statement of a list has a C++ text.
pub open spec fn block_ok(store: TypeStore, param_count: nat, stmts: Seq<StatementInfo>) -> bool
    decreases stmts, 1nat,
{
    if stmts.len() == 0 {
        true
    } else {
        block_ok(store, param_count, stmts.drop_last()) && statement_ok(
            store,
            param_count,
            stmts.last().statement,
        )
    }
}

/// Whether every statement of the cases of a switch has a C++ text.
pub open spec fn cases_ok(
    store: TypeStore,
    param_count: nat,
    cases: Seq<(Vec<StatementInfo>, Vec<CaseValue>)>,
) -> bool
    decreases cases, 1nat,
{
    if cases.len() == 0 {
        true
    } else {
        cases_ok(store, param_count, cases.drop_last()) && block_ok(
            store,
            param_count,
            cases.last().0@,
        )
    }
}

/// A list of statements whose statements have texts: so does each prefix
/// and each statement, and each weighs at most the whole.
proof fn lemma_block(store: TypeStore, param_count: nat, s: Seq<StatementInfo>, i: int)
    requires
        0 <= i < s.len(),
    ensures
        block_ok(store, param_count, s) ==> block_ok(store, param_count, s.take(i)),
        block_ok(store, param_count, s) ==> statement_ok(store, param_count, s[i].statement),
        block_weight(s.take(i)) + statement_weight(s[i].statement) <= block_weight(s),
        s.take(i + 1).drop_last() == s.take(i),
        s.take(i + 1).last() == s[i],
    decreases s.len(),
{
    assert(s.take(i + 1).drop_last() =~= s.take(i));
    if i < s.len() - 1 {
        lemma_block(store, param_count, s.drop_last(), i);
        assert(s.drop_last().take(i) =~= s.take(i));
    } else {
        assert(s.drop_last() =~= s.take(i));
    }
}

/// The cases of a switch whose statements have texts: so does each prefix
/// and each body, and each weighs at most the whole.
proof fn lemma_cases(
    store: TypeStore,
    param_count: nat,
    s: Seq<(Vec<StatementInfo>, Vec<CaseValue>)>,
    i: int,
)
    requires
        0 <= i < s.len(),
    ensures
        cases_ok(store, param_count, s) ==> cases_ok(store, param_count, s.take(i)),
        cases_ok(store, param_count, s) ==> block_ok(store, param_count, s[i].0@),
        cases_weight(s.take(i)) + block_weight(s[i].0@) <= cases_weight(s),
        s.take(i + 1).drop_last() == s.take(i),
        s.take(i + 1).last() == s[i],
    decreases s.len(),
{
    assert(s.take(i + 1).drop_last() =~= s.take(i));
    if i < s.len() - 1 {
        lemma_cases(store, param_count, s.drop_last(), i);
        assert(s.drop_last().take(i) =~= s.take(i));
    } else {
        assert(s.drop_last() =~= s.take(i));
    }
}

/// The parameter declarations of a signature from parameter `i` on, each
/// after `, ` but the first: the type, the name and, in a comment, the
/// index. A parameter whose type takes up several slots covers the
/// parameters after it.
pub open spec fn params_text(store: TypeStore, params: Seq<usize>, i: nat, first: bool) -> Seq<char>
    decreases params.len() - i,
{
    if i >= params.len() {
        seq![]
    } else {
        let size = store.size_of(params[i as int] as int);
        (if first {
            seq![]
        } else {
            seq![',', ' ']
        }) + type_text_of(store, params[i as int] as int) + seq![' '] + local_name(i, params.len())
            + " /* "@ + decimal(i) + " */"@ + if size == 0 || i + size >= params.len() {
            seq![]
        } else {
            params_text(store, params, i + size, false)
        }
    }
}

/// Whether the parameters declared from `i` on have texts and sizes of at
/// least one slot.
pub open spec fn params_ok(store: TypeStore, params: Seq<usize>, i: nat) -> bool
    decreases params.len() - i,
{
    if i >= params.len() {
        true
    } else {
        let size = store.size_of(params[i as int] as int);
        &&& params[i as int] < store@.len()
        &&& has_type_text(store, params[i as int] as int)
        &&& store.has_size(params[i as int] as int)
        &&& size >= 1
        &&& (i + size < params.len() ==> params_ok(store, params, i + size))
    }
}

/// The declaration lines of the locals from local `i` on, at `depth`: the
/// type, the name and, in a comment, the frame slot. A local whose type
/// takes up several slots covers the locals after it.
pub open spec fn locals_text(
    store: TypeStore,
    locals: Seq<usize>,
    param_count: nat,
    i: nat,
    depth: nat,
) -> Seq<char>
    decreases locals.len() - i,
{
    if i >= locals.len() {
        seq![]
    } else {
        let size = store.size_of(locals[i as int] as int);
        let slot = param_count + 2 + i;
        line_at(
            depth,
            type_text_of(store, locals[i as int] as int) + seq![' '] + local_name(slot, param_count)
                + " /* "@ + decimal(slot) + " */;"@,
        ) + if size == 0 || i + size >= locals.len() {
            seq![]
        } else {
            locals_text(store, locals, param_count, i + size, depth)
        }
    }
}

/// Whether the locals declared from `i` on have texts and sizes of at
/// least one slot.
pub open spec fn locals_ok(store: TypeStore, locals: Seq<usize>, i: nat) -> bool
    decreases locals.len() - i,
{
    if i >= locals.len() {
        true
    } else {
        let size = store.size_of(locals[i as int] as int);
        &&& locals[i as int] < store@.len()
        &&& has_type_text(store, locals[i as int] as int)
        &&& store.has_size(locals[i as int] as int)
        &&& size >= 1
        &&& (i + size < locals.len() ==> locals_ok(store, locals, i + size))
    }
}

/// The signature of a function: its result type (`void` without one), its
/// name and its parameters in parentheses.
pub open spec fn signature_text(store: TypeStore, function: DecompiledFunction) -> Seq<char> {
    (match function.returns {
        Some(t) => type_text_of(store, t as int),
        None => "void"@,
    }) + seq![' '] + function.name@ + seq!['('] + params_text(store, function.params@, 0, true)
        + seq![')']
}

/// The text of a function: its signature, then in braces its locals'
/// declarations (and an empty line after them, if there are any) and its
/// statements, one level deep.
pub open spec fn function_text(ctx: TextContext, function: DecompiledFunction) -> Seq<char> {
    line_at(0, signature_text(ctx.store, function)) + line_at(0, seq!['{']) + locals_text(
        ctx.store,
        function.locals@,
        function.params@.len(),
        0,
        1,
    ) + (if function.locals@.len() > 0 {
        line_at(1, seq![])
    } else {
        seq![]
    }) + block_text(ctx, function.statements@, 1) + line_at(0, seq!['}'])
}

/// Whether a function has a C++ text: its result, parameter and local
/// types have texts, its statements too, and its frame's slots can be
/// counted.
pub open spec fn function_ok(store: TypeStore, function: DecompiledFunction) -> bool {
    &&& function.returns matches Some(t) ==> t < store@.len() && has_type_text(store, t as int)
    &&& params_ok(store, function.params@, 0)
    &&& locals_ok(store, function.locals@, 0)
    &&& block_ok(store, function.params@.len(), function.statements@)
    &&& 1 + 2 * block_weight(function.statements@) <= u32::MAX
    &&& function.params@.len() + 2 + function.locals@.len() <= usize::MAX
}

/// Formats decompiled functions as C++ source.
pub struct CppFormatter<'f> {
    functions: &'f HashMap<usize, String>,
}

impl<'f> CppFormatter<'f> {
    /// The names of the known functions by address.
    pub closed spec fn names(&self) -> Map<usize, Seq<char>> {
        label_view(self.functions@)
    }

    /// What texts depend on when written for a function with `param_count`
    /// parameters, with types from `store` and floats written by
    /// `float_text`.
    pub open spec fn context<F: Fn(u32) -> String>(
        &self,
        store: TypeStore,
        param_count: nat,
        float_text: F,
    ) -> TextContext {
        TextContext { store, names: self.names(), param_count, float_text: rendered(float_text) }
    }

    /// A formatter that calls functions by the names in `functions`.
    pub fn new(functions: &'f HashMap<usize, String>) -> (r: Self)
        ensures
            r.names() == label_view(functions@),
    {
        CppFormatter { functions }
    }

    /// The C++ text of a value of `function`, written inside `parent`.
    pub fn format_stack_entry<F: Fn(u32) -> String>(
        &self,
        value: &StackEntryInfo,
        parent: Option<&StackEntryInfo>,
        function: &DecompiledFunction,
        store: &TypeStore,
        float_text: &F,
    ) -> (r: String)
        requires
            store.wf(),
            entry_ok(*store, function.params@.len(), info_view(*value)),
            renders_floats(*float_text),
        ensures
            r@ == entry_text(
                self.context(*store, function.params@.len(), *float_text),
                info_view(*value),
                match parent {
                    Some(p) => Some(entry_view(p.entry)),
                    None => None,
                },
            ),
    {
        let mut r = String::new();
        let parent_entry = match parent {
            Some(p) => Some(&p.entry),
            None => None,
        };
        self.write_entry(&mut r, value, parent_entry, function.params.len(), store, float_text);
        r
    }

    /// Appends the C++ text of a value written inside `parent`.
    #[verifier::rlimit(60)]
    fn write_entry<F: Fn(u32) -> String>(
        &self,
        out: &mut String,
        value: &StackEntryInfo,
        parent: Option<&StackEntry>,
        param_count: usize,
        store: &TypeStore,
        float_text: &F,
    )
        requires
            store.wf(),
            entry_ok(*store, param_count as nat, info_view(*value)),
            renders_floats(*float_text),
        ensures
            final(out)@ == old(out)@ + entry_text(
                self.context(*store, param_count as nat, *float_text),
                info_view(*value),
                parent_view(parent),
            ),
        decreases value, 0nat,
    {
        let ghost ctx = self.context(*store, param_count as nat, *float_text);
        let me = Some(&value.entry);
        match &value.entry {
            StackEntry::Int(v) => {
                push_signed_decimal(out, *v);
            },
            StackEntry::Float(bits) => {
                let text = float_text(*bits);
                proof {
                    let chosen = choose|t: String| call_ensures(*float_text, (*bits,), t);
                    assert(call_ensures(*float_text, (*bits,), chosen));
                }
                out.append(text.as_str());
            },
            StackEntry::String(s) => {
                out.append("STRING(");
                out.append(*s);
                string_push(out, ')');
            },
            StackEntry::Struct { origin, .. } => {
                self.write_entry(out, origin, me, param_count, store, float_text);
            },
            StackEntry::ResultStruct { values } => {
                string_push(out, '(');
                self.write_list(out, values, me, param_count, store, float_text);
                string_push(out, ')');
            },
            StackEntry::StructField { source, field } => {
                let mut done = false;
                match &source.entry {
                    StackEntry::Deref(d) => match &d.entry {
                        StackEntry::Ref(rf) => {
                            assert(entry_ok(*store, param_count as nat, info_view(**source)));
                            assert(entry_ok(*store, param_count as nat, info_view(**d)));
                            self.write_entry(out, rf, me, param_count, store, float_text);
                            out.append("->f_");
                            push_decimal(out, *field as u64);
                            done = true;
                        },
                        _ => {},
                    },
                    _ => {},
                }
                if !done {
                    self.write_entry(out, source, me, param_count, store, float_text);
                    out.append(".f_");
                    push_decimal(out, *field as u64);
                }
            },
            StackEntry::Offset { source, offset } => {
                match &source.entry {
                    StackEntry::Ref(rf) => {
                        assert(entry_ok(*store, param_count as nat, info_view(**source)));
                        self.write_entry(out, rf, me, param_count, store, float_text);
                        out.append(".f_");
                    },
                    _ => {
                        self.write_entry(out, source, me, param_count, store, float_text);
                        out.append("->f_");
                    },
                }
                self.write_entry(out, offset, me, param_count, store, float_text);
            },
            StackEntry::ArrayItem { source, index, item_size } => {
                match &source.entry {
                    StackEntry::Ref(st) => {
                        assert(entry_ok(*store, param_count as nat, info_view(**source)));
                        self.write_entry(out, st, me, param_count, store, float_text);
                    },
                    _ => {
                        self.write_entry(out, source, me, param_count, store, float_text);
                    },
                }
                string_push(out, '[');
                self.write_entry(out, index, me, param_count, store, float_text);
                out.append(" /* ");
                push_decimal(out, *item_size as u64);
                out.append(" */]");
            },
            StackEntry::Local(local) => {
                let whole = LinkedValueType::size(store, value.ty) == 1 || aggregate(parent);
                write_local_name(out, *local, param_count);
                if !whole {
                    out.append(".f_0");
                }
            },
            StackEntry::Static(i) => {
                out.append("static_");
                push_decimal(out, *i as u64);
            },
            StackEntry::Global(i) => {
                out.append("global_");
                push_decimal(out, *i as u64);
            },
            StackEntry::Deref(d) => {
                match &d.entry {
                    StackEntry::Ref(rf) => {
                        assert(entry_ok(*store, param_count as nat, info_view(**d)));
                        self.write_entry(out, rf, me, param_count, store, float_text);
                    },
                    _ => {
                        out.append("*(");
                        self.write_entry(out, d, me, param_count, store, float_text);
                        string_push(out, ')');
                    },
                }
            },
            StackEntry::Ref(rf) => {
                string_push(out, '&');
                self.write_entry(out, rf, me, param_count, store, float_text);
            },
            StackEntry::BinaryOperator { lhs, rhs, op } => {
                match op {
                    BinaryOperator::BitTest => {
                        out.append("BitTest(");
                        self.write_entry(out, lhs, me, param_count, store, float_text);
                        string_push(out, ',');
                        string_push(out, ' ');
                        self.write_entry(out, rhs, me, param_count, store, float_text);
                        string_push(out, ')');
                    },
                    BinaryOperator::LogicalAnd | BinaryOperator::LogicalOr => {
                        let other = match op {
                            BinaryOperator::LogicalAnd => BinaryOperator::LogicalOr,
                            _ => BinaryOperator::LogicalAnd,
                        };
                        let wrap_l = operator_is(lhs, other);
                        let wrap_r = operator_is(rhs, other);
                        if wrap_l {
                            string_push(out, '(');
                        }
                        self.write_entry(out, lhs, me, param_count, store, float_text);
                        if wrap_l {
                            string_push(out, ')');
                        }
                        string_push(out, ' ');
                        out.append(symbol_of(*op));
                        string_push(out, ' ');
                        if wrap_r {
                            string_push(out, '(');
                        }
                        self.write_entry(out, rhs, me, param_count, store, float_text);
                        if wrap_r {
                            string_push(out, ')');
                        }
                    },
                    _ => {
                        self.write_entry(out, lhs, me, param_count, store, float_text);
                        string_push(out, ' ');
                        out.append(symbol_of(*op));
                        string_push(out, ' ');
                        self.write_entry(out, rhs, me, param_count, store, float_text);
                    },
                }
            },
            StackEntry::UnaryOperator { lhs, op } => {
                match op {
                    UnaryOperator::Not => string_push(out, '!'),
                    UnaryOperator::Negate => string_push(out, '-'),
                }
                string_push(out, '(');
                self.write_entry(out, lhs, me, param_count, store, float_text);
                string_push(out, ')');
            },
            StackEntry::Cast { source } => {
                string_push(out, '(');
                let ty = format_type(store, value.ty);
                out.append(ty.as_str());
                string_push(out, ')');
                self.write_entry(out, source, me, param_count, store, float_text);
            },
            StackEntry::StringHash(s) => {
                out.append("HASH(");
                self.write_entry(out, s, me, param_count, store, float_text);
                string_push(out, ')');
            },
            StackEntry::FunctionCallResult { args, function_address, .. } => {
                self.write_function_name(out, *function_address);
                string_push(out, '(');
                self.write_list(out, args, None, param_count, store, float_text);
                string_push(out, ')');
            },
            StackEntry::NativeCallResult { args, native_hash, .. } => {
                out.append("unk_0x");
                push_hex_padded(out, *native_hash, 16);
                string_push(out, '(');
                self.write_list(out, args, None, param_count, store, float_text);
                string_push(out, ')');
            },
            StackEntry::FloatToVector(..) | StackEntry::CatchValue => {
                assert(false);
            },
        }
        assert(out@ =~= old(out)@ + entry_text(ctx, info_view(*value), parent_view(parent)));
    }

    /// Appends the C++ texts of `items`, separated by `, `.
    fn write_list<F: Fn(u32) -> String>(
        &self,
        out: &mut String,
        items: &Vec<StackEntryInfo>,
        parent: Option<&StackEntry>,
        param_count: usize,
        store: &TypeStore,
        float_text: &F,
    )
        requires
            store.wf(),
            list_ok(*store, param_count as nat, infos_view(items@)),
            renders_floats(*float_text),
        ensures
            final(out)@ == old(out)@ + list_text(
                self.context(*store, param_count as nat, *float_text),
                infos_view(items@),
                parent_view(parent),
            ),
        decreases items, 1nat,
    {
        let ghost ctx = self.context(*store, param_count as nat, *float_text);
        proof {
            lemma_infos_view_len(items@);
            lemma_list_ok(*store, param_count as nat, infos_view(items@));
        }
        let mut i: usize = 0;
        assert(infos_view(items@.take(0)) =~= Seq::<InfoView>::empty()) by {
            assert(items@.take(0) =~= Seq::<StackEntryInfo>::empty());
        }
        while i < items.len()
            invariant
                store.wf(),
                i <= items@.len(),
                renders_floats(*float_text),
                ctx == self.context(*store, param_count as nat, *float_text),
                infos_view(items@).len() == items@.len(),
                forall|k: int|
                    0 <= k < items@.len() ==> entry_ok(
                        *store,
                        param_count as nat,
                        #[trigger] infos_view(items@)[k],
                    ),
                forall|k: int| 0 <= k < items@.len() ==> #[trigger] infos_view(items@)[k] == info_view(items@[k]),
                out@ == old(out)@ + list_text(ctx, infos_view(items@.take(i as int)), parent_view(parent)),
            decreases items@.len() - i,
        {
            proof {
                assert(decreases_to!(items => items@[i as int]));
                assert(entry_ok(*store, param_count as nat, infos_view(items@)[i as int]));
            }
            let ghost before = out@;
            if i > 0 {
                string_push(out, ',');
                string_push(out, ' ');
            }
            self.write_entry(out, &items[i], parent, param_count, store, float_text);
            proof {
                let t = items@.take(i as int + 1);
                assert(t.drop_last() =~= items@.take(i as int));
                assert(infos_view(t) == infos_view(items@.take(i as int)).push(info_view(items@[i as int])));
                let v = infos_view(t);
                assert(v.drop_last() =~= infos_view(items@.take(i as int)));
                if i == 0 {
                    assert(infos_view(items@.take(0)).len() == 0);
                }
            }
            i = i + 1;
            assert(out@ =~= old(out)@ + list_text(ctx, infos_view(items@.take(i as int)), parent_view(parent)));
        }
        assert(items@.take(i as int) =~= items@);
    }

    /// The C++ source of a decompiled function.
    pub fn format_function<F: Fn(u32) -> String>(
        &self,
        function: &DecompiledFunction,
        store: &TypeStore,
        float_text: F,
    ) -> (r: String)
        requires
            store.wf(),
            function_ok(*store, *function),
            renders_floats(float_text),
        ensures
            r@ == function_text(self.context(*store, function.params@.len(), float_text), *function),
    {
        let mut builder = CodeBuilder::default();
        let signature = self.create_signature(function, store);
        emit(&mut builder, &signature);
        emit(&mut builder, &String::from_str("{"));
        builder.indent_in();
        self.declare_locals(function, &mut builder, store);
        self.write_block(&function.statements, function, &mut builder, store, &float_text);
        builder.indent_out();
        emit(&mut builder, &String::from_str("}"));
        proof {
            reveal_strlit("{");
            reveal_strlit("}");
        }
        let r = builder.collect();
        assert(r@ =~= function_text(self.context(*store, function.params@.len(), float_text), *function));
        r
    }

    /// The signature of a function.
    fn create_signature(&self, function: &DecompiledFunction, store: &TypeStore) -> (r: String)
        requires
            store.wf(),
            function_ok(*store, *function),
        ensures
            r@ == signature_text(*store, *function),
    {
        let mut r = match function.returns {
            Some(t) => format_type(store, t),
            None => String::from_str("void"),
        };
        string_push(&mut r, ' ');
        r.append(function.name.as_str());
        string_push(&mut r, '(');
        write_params(&mut r, store, &function.params, 0, true);
        string_push(&mut r, ')');
        r
    }

    /// Writes the declarations of the locals of a function, and an empty
    /// line after them if there are any.
    fn declare_locals(&self, function: &DecompiledFunction, builder: &mut CodeBuilder, store: &TypeStore)
        requires
            store.wf(),
            old(builder).wf(),
            function_ok(*store, *function),
        ensures
            final(builder).wf(),
            final(builder).depth() == old(builder).depth(),
            final(builder).text() == old(builder).text() + locals_text(
                *store,
                function.locals@,
                function.params@.len(),
                0,
                old(builder).depth(),
            ) + if function.locals@.len() > 0 {
                line_at(old(builder).depth(), seq![])
            } else {
                seq![]
            },
    {
        write_locals(builder, store, &function.locals, function.params.len(), 0);
        if function.locals.len() > 0 {
            emit(builder, &String::new());
        }
    }

    /// Writes a statement of `function` into `builder` at its depth;
    /// `else_if` when it follows an `else`.
    #[verifier::rlimit(60)]
    pub fn write_statement<F: Fn(u32) -> String>(
        &self,
        statement: &StatementInfo,
        function: &DecompiledFunction,
        builder: &mut CodeBuilder,
        else_if: bool,
        store: &TypeStore,
        float_text: &F,
    )
        requires
            store.wf(),
            old(builder).wf(),
            statement_ok(*store, function.params@.len(), statement.statement),
            old(builder).depth() + 2 * statement_weight(statement.statement) <= u32::MAX,
            renders_floats(*float_text),
        ensures
            final(builder).wf(),
            final(builder).depth() == old(builder).depth(),
            final(builder).text() == old(builder).text() + statement_text(
                self.context(*store, function.params@.len(), *float_text),
                statement.statement,
                old(builder).depth(),
                else_if,
            ),
        decreases statement, 0nat,
    {
        let ghost ctx = self.context(*store, function.params@.len(), *float_text);
        let ghost depth = builder.depth();
        let ghost start = builder.text();
        let pc = function.params.len();
        match &statement.statement {
            Statement::Nop => {},
            Statement::Assign { destination, source } => {
                let mut text = String::new();
                self.write_entry(&mut text, destination, None, pc, store, float_text);
                text.append(" = ");
                self.write_entry(&mut text, source, None, pc, store, float_text);
                string_push(&mut text, ';');
                emit(builder, &text);
            },
            Statement::Return { values } => {
                proof {
                    lemma_infos_view_len(values@);
                    lemma_list_ok(*store, pc as nat, infos_view(values@));
                }
                let mut text = String::new();
                if values.len() == 1 {
                    text.append("return ");
                    self.write_entry(&mut text, &values[0], None, pc, store, float_text);
                    string_push(&mut text, ';');
                } else if values.len() == 0 {
                    text.append("return;");
                } else {
                    text.append("return { ");
                    self.write_list(&mut text, values, None, pc, store, float_text);
                    text.append(" }");
                }
                emit(builder, &text);
            },
            Statement::Throw { value } => {
                let mut text = String::from_str("throw ");
                self.write_entry(&mut text, value, None, pc, store, float_text);
                string_push(&mut text, ';');
                emit(builder, &text);
            },
            Statement::FunctionCall { args, function_address } => {
                let mut text = String::new();
                self.write_function_name(&mut text, *function_address);
                string_push(&mut text, '(');
                self.write_list(&mut text, args, None, pc, store, float_text);
                string_push(&mut text, ')');
                string_push(&mut text, ';');
                emit(builder, &text);
            },
            Statement::NativeCall { args, native_hash } => {
                let mut text = String::from_str("unk_0x");
                push_hex_padded(&mut text, *native_hash, 16);
                string_push(&mut text, '(');
                self.write_list(&mut text, args, None, pc, store, float_text);
                string_push(&mut text, ')');
                string_push(&mut text, ';');
                emit(builder, &text);
            },
            Statement::If { condition, then } => {
                self.write_header(builder, if else_if { "else if (" } else { "if (" }, condition, pc, store, float_text);
                self.write_body(then, function, builder, store, float_text);
            },
            Statement::IfElse { condition, then, els } => {
                self.write_header(builder, if else_if { "else if (" } else { "if (" }, condition, pc, store, float_text);
                self.write_body(then, function, builder, store, float_text);
                let chained = els.len() == 1 && match &els[0].statement {
                    Statement::If { .. } | Statement::IfElse { .. } => true,
                    _ => false,
                };
                if chained {
                    proof {
                        lemma_block(*store, pc as nat, els@, 0);
                        assert(decreases_to!(statement => els@[0]));
                    }
                    self.write_statement(&els[0], function, builder, true, store, float_text);
                } else {
                    emit(builder, &String::from_str("else"));
                    self.write_body(els, function, builder, store, float_text);
                }
            },
            Statement::WhileLoop { condition, body } => {
                self.write_header(builder, "while (", condition, pc, store, float_text);
                self.write_body(body, function, builder, store, float_text);
            },
            Statement::Switch { condition, cases } => {
                self.write_header(builder, "switch (", condition, pc, store, float_text);
                emit(builder, &String::from_str("{"));
                builder.indent_in();
                self.write_cases(cases, function, builder, store, float_text);
                builder.indent_out();
                emit(builder, &String::from_str("}"));
            },
            Statement::Break => {
                emit(builder, &String::from_str("break;"));
            },
            Statement::Continue => {
                emit(builder, &String::from_str("continue;"));
            },
            _ => {
                assert(false);
            },
        }
        proof {
            reveal_strlit("else if (");
            reveal_strlit("if (");
            reveal_strlit("else ");
            reveal_strlit("{");
            reveal_strlit("}");
        }
        assert(builder.text() =~= start + statement_text(ctx, statement.statement, depth, else_if));
    }

    /// Writes the header line of a conditional or loop: `head`, the
    /// condition and a closing parenthesis.
    fn write_header<F: Fn(u32) -> String>(
        &self,
        builder: &mut CodeBuilder,
        head: &str,
        condition: &StackEntryInfo,
        param_count: usize,
        store: &TypeStore,
        float_text: &F,
    )
        requires
            store.wf(),
            old(builder).wf(),
            entry_ok(*store, param_count as nat, info_view(*condition)),
            renders_floats(*float_text),
        ensures
            final(builder).wf(),
            final(builder).depth() == old(builder).depth(),
            final(builder).text() == old(builder).text() + line_at(
                old(builder).depth(),
                head@ + value_text(self.context(*store, param_count as nat, *float_text), *condition)
                    + seq![')'],
            ),
    {
        let mut text = String::from_str(head);
        self.write_entry(&mut text, condition, None, param_count, store, float_text);
        string_push(&mut text, ')');
        emit(builder, &text);
    }

    /// Writes a body in braces, its statements one level deeper.
    fn write_body<F: Fn(u32) -> String>(
        &self,
        stmts: &Vec<StatementInfo>,
        function: &DecompiledFunction,
        builder: &mut CodeBuilder,
        store: &TypeStore,
        float_text: &F,
    )
        requires
            store.wf(),
            old(builder).wf(),
            block_ok(*store, function.params@.len(), stmts@),
            old(builder).depth() + 1 + 2 * block_weight(stmts@) <= u32::MAX,
            renders_floats(*float_text),
        ensures
            final(builder).wf(),
            final(builder).depth() == old(builder).depth(),
            final(builder).text() == old(builder).text() + line_at(old(builder).depth(), seq!['{'])
                + block_text(
                self.context(*store, function.params@.len(), *float_text),
                stmts@,
                old(builder).depth() + 1,
            ) + line_at(old(builder).depth(), seq!['}']),
        decreases stmts, 2nat,
    {
        proof {
            reveal_strlit("{");
            reveal_strlit("}");
        }
        emit(builder, &String::from_str("{"));
        builder.indent_in();
        self.write_block(stmts, function, builder, store, float_text);
        builder.indent_out();
        emit(builder, &String::from_str("}"));
    }

    /// Writes a list of statements at the builder's depth.
    fn write_block<F: Fn(u32) -> String>(
        &self,
        stmts: &Vec<StatementInfo>,
        function: &DecompiledFunction,
        builder: &mut CodeBuilder,
        store: &TypeStore,
        float_text: &F,
    )
        requires
            store.wf(),
            old(builder).wf(),
            block_ok(*store, function.params@.len(), stmts@),
            old(builder).depth() + 2 * block_weight(stmts@) <= u32::MAX,
            renders_floats(*float_text),
        ensures
            final(builder).wf(),
            final(builder).depth() == old(builder).depth(),
            final(builder).text() == old(builder).text() + block_text(
                self.context(*store, function.params@.len(), *float_text),
                stmts@,
                old(builder).depth(),
            ),
        decreases stmts, 1nat,
    {
        let ghost ctx = self.context(*store, function.params@.len(), *float_text);
        let mut i: usize = 0;
        assert(stmts@.take(0) =~= Seq::<StatementInfo>::empty());
        while i < stmts.len()
            invariant
                store.wf(),
                builder.wf(),
                i <= stmts@.len(),
                builder.depth() == old(builder).depth(),
                block_ok(*store, function.params@.len(), stmts@),
                old(builder).depth() + 2 * block_weight(stmts@) <= u32::MAX,
                renders_floats(*float_text),
                ctx == self.context(*store, function.params@.len(), *float_text),
                builder.text() == old(builder).text() + block_text(
                    ctx,
                    stmts@.take(i as int),
                    old(builder).depth(),
                ),
            decreases stmts@.len() - i,
        {
            proof {
                lemma_block(*store, function.params@.len(), stmts@, i as int);
                assert(decreases_to!(stmts => stmts@[i as int]));
            }
            self.write_statement(&stmts[i], function, builder, false, store, float_text);
            i = i + 1;
            assert(builder.text() =~= old(builder).text() + block_text(
                ctx,
                stmts@.take(i as int),
                old(builder).depth(),
            ));
        }
        assert(stmts@.take(i as int) =~= stmts@);
    }

    /// Writes the cases of a switch: each case's labels at the builder's
    /// depth, then its statements one level deeper.
    fn write_cases<F: Fn(u32) -> String>(
        &self,
        cases: &Vec<(Vec<StatementInfo>, Vec<CaseValue>)>,
        function: &DecompiledFunction,
        builder: &mut CodeBuilder,
        store: &TypeStore,
        float_text: &F,
    )
        requires
            store.wf(),
            old(builder).wf(),
            cases_ok(*store, function.params@.len(), cases@),
            old(builder).depth() + 1 + 2 * cases_weight(cases@) <= u32::MAX,
            renders_floats(*float_text),
        ensures
            final(builder).wf(),
            final(builder).depth() == old(builder).depth(),
            final(builder).text() == old(builder).text() + cases_text(
                self.context(*store, function.params@.len(), *float_text),
                cases@,
                old(builder).depth(),
            ),
        decreases cases, 1nat,
    {
        let ghost ctx = self.context(*store, function.params@.len(), *float_text);
        let mut i: usize = 0;
        assert(cases@.take(0) =~= Seq::<(Vec<StatementInfo>, Vec<CaseValue>)>::empty());
        while i < cases.len()
            invariant
                store.wf(),
                builder.wf(),
                i <= cases@.len(),
                builder.depth() == old(builder).depth(),
                cases_ok(*store, function.params@.len(), cases@),
                old(builder).depth() + 1 + 2 * cases_weight(cases@) <= u32::MAX,
                renders_floats(*float_text),
                ctx == self.context(*store, function.params@.len(), *float_text),
                builder.text() == old(builder).text() + cases_text(
                    ctx,
                    cases@.take(i as int),
                    old(builder).depth(),
                ),
            decreases cases@.len() - i,
        {
            proof {
                lemma_cases(*store, function.params@.len(), cases@, i as int);
                assert(decreases_to!(cases => cases@[i as int]));
            }
            let (body, values) = &cases[i];
            let ghost before = builder.text();
            write_case_labels(builder, values);
            builder.indent_in();
            self.write_block(body, function, builder, store, float_text);
            builder.indent_out();
            i = i + 1;
            assert(builder.text() =~= old(builder).text() + cases_text(
                ctx,
                cases@.take(i as int),
                old(builder).depth(),
            ));
        }
        assert(cases@.take(i as int) =~= cases@);
    }

    /// Appends the name that a call gives the function at `address`.
    fn write_function_name(&self, out: &mut String, address: usize)
        ensures
            final(out)@ == old(out)@ + function_name(self.names(), address),
    {
        match self.functions.get(&address) {
            Some(name) => {
                out.append(name.as_str());
            },
            None => {
                out.append("unk_fn");
                push_hex_padded(out, address as u64, 8);
                assert(out@ =~= old(out)@ + function_name(self.names(), address));
            },
        }
    }
}

/// Appends the parameter declarations from parameter `i` on.
fn write_params(r: &mut String, store: &TypeStore, params: &Vec<usize>, i: usize, first: bool)
    requires
        store.wf(),
        params_ok(*store, params@, i as nat),
    ensures
        final(r)@ == old(r)@ + params_text(*store, params@, i as nat, first),
    decreases params@.len() - i,
{
    if i >= params.len() {
        assert(r@ =~= old(r)@ + params_text(*store, params@, i as nat, first));
        return ;
    }
    if !first {
        string_push(r, ',');
        string_push(r, ' ');
    }
    let ty = format_type(store, params[i]);
    r.append(ty.as_str());
    string_push(r, ' ');
    write_local_name(r, i, params.len());
    r.append(" /* ");
    push_decimal(r, i as u64);
    r.append(" */");
    let size = LinkedValueType::size(store, params[i]);
    if size - 1 < params.len() - i - 1 {
        write_params(r, store, params, i + size, false);
    }
    assert(r@ =~= old(r)@ + params_text(*store, params@, i as nat, first));
}

/// Writes the declaration lines of the locals from local `i` on.
fn write_locals(
    builder: &mut CodeBuilder,
    store: &TypeStore,
    locals: &Vec<usize>,
    param_count: usize,
    i: usize,
)
    requires
        store.wf(),
        old(builder).wf(),
        locals_ok(*store, locals@, i as nat),
        param_count + 2 + locals@.len() <= usize::MAX,
    ensures
        final(builder).wf(),
        final(builder).depth() == old(builder).depth(),
        final(builder).text() == old(builder).text() + locals_text(
            *store,
            locals@,
            param_count as nat,
            i as nat,
            old(builder).depth(),
        ),
    decreases locals@.len() - i,
{
    if i >= locals.len() {
        assert(builder.text() =~= old(builder).text() + locals_text(
            *store,
            locals@,
            param_count as nat,
            i as nat,
            old(builder).depth(),
        ));
        return ;
    }
    let slot = param_count + 2 + i;
    let mut text = format_type(store, locals[i]);
    string_push(&mut text, ' ');
    write_local_name(&mut text, slot, param_count);
    text.append(" /* ");
    push_decimal(&mut text, slot as u64);
    text.append(" */;");
    emit(builder, &text);
    let size = LinkedValueType::size(store, locals[i]);
    if size - 1 < locals.len() - i - 1 {
        write_locals(builder, store, locals, param_count, i + size);
    }
    assert(builder.text() =~= old(builder).text() + locals_text(
        *store,
        locals@,
        param_count as nat,
        i as nat,
        old(builder).depth(),
    ));
}

/// Writes one line at the builder's depth.
fn emit(builder: &mut CodeBuilder, text: &String)
    requires
        old(builder).wf(),
    ensures
        final(builder).wf(),
        final(builder).depth() == old(builder).depth(),
        final(builder).text() == old(builder).text() + line_at(old(builder).depth(), text@),
{
    builder.line(text.as_str());
}

/// Writes the labels of a switch case, one per line.
fn write_case_labels(builder: &mut CodeBuilder, values: &Vec<CaseValue>)
    requires
        old(builder).wf(),
    ensures
        final(builder).wf(),
        final(builder).depth() == old(builder).depth(),
        final(builder).text() == old(builder).text() + case_labels_text(values@, old(builder).depth()),
{
    let mut i: usize = 0;
    assert(values@.take(0) =~= Seq::<CaseValue>::empty());
    while i < values.len()
        invariant
            builder.wf(),
            i <= values@.len(),
            builder.depth() == old(builder).depth(),
            builder.text() == old(builder).text() + case_labels_text(
                values@.take(i as int),
                old(builder).depth(),
            ),
        decreases values@.len() - i,
    {
        let text = match values[i] {
            CaseValue::Value(v) => {
                let mut t = String::from_str("case ");
                push_signed_decimal(&mut t, v);
                string_push(&mut t, ':');
                t
            },
            CaseValue::Default => String::from_str("default:"),
        };
        assert(text@ =~= case_label(values@[i as int]));
        emit(builder, &text);
        proof {
            assert(values@.take(i + 1).drop_last() =~= values@.take(i as int));
        }
        i = i + 1;
        assert(builder.text() =~= old(builder).text() + case_labels_text(
            values@.take(i as int),
            old(builder).depth(),
        ));
    }
    assert(values@.take(i as int) =~= values@);
}

/// Whether a value written inside `parent` is part of a larger one.
fn aggregate(parent: Option<&StackEntry>) -> (r: bool)
    ensures
        r == is_aggregate(parent_view(parent)),
{
    match parent {
        Some(StackEntry::Ref(..)) => true,
        Some(StackEntry::Struct { .. }) => true,
        Some(StackEntry::ResultStruct { .. }) => true,
        Some(StackEntry::Offset { .. }) => true,
        _ => false,
    }
}

/// Whether `info` is a binary operation with the operator `op`.
fn operator_is(info: &StackEntryInfo, op: BinaryOperator) -> (r: bool)
    ensures
        r == has_operator(info_view(*info), op),
{
    match &info.entry {
        StackEntry::BinaryOperator { op: o, .. } => *o == op,
        _ => false,
    }
}

/// The C++ symbol of a binary operator.
fn symbol_of(op: BinaryOperator) -> (r: &'static str)
    ensures
        r@ == operator_symbol(op),
{
    match op {
        BinaryOperator::Add => "+",
        BinaryOperator::Subtract => "-",
        BinaryOperator::Multiply => "*",
        BinaryOperator::Divide => "/",
        BinaryOperator::BitwiseAnd => "&",
        BinaryOperator::BitwiseOr => "|",
        BinaryOperator::BitwiseXor => "^",
        BinaryOperator::Modulo => "%",
        BinaryOperator::Equal => "==",
        BinaryOperator::NotEqual => "!=",
        BinaryOperator::GreaterThan => ">",
        BinaryOperator::GreaterOrEqual => ">=",
        BinaryOperator::LowerThan => "<",
        BinaryOperator::LowerOrEqual => "<=",
        BinaryOperator::LogicalAnd => "&&",
        BinaryOperator::LogicalOr => "||",
        BinaryOperator::BitTest => "BitTest",
    }
}

/// Appends the name of frame slot `local`.
fn write_local_name(out: &mut String, local: usize, param_count: usize)
    requires
        local < param_count || local >= param_count + 2,
    ensures
        final(out)@ == old(out)@ + local_name(local as nat, param_count as nat),
{
    if local < param_count {
        out.append("parameter_");
        push_decimal(out, local as u64);
    } else {
        out.append("local_");
        push_decimal(out, (local - param_count - 2) as u64);
    }
    assert(out@ =~= old(out)@ + local_name(local as nat, param_count as nat));
}

} // verus!
