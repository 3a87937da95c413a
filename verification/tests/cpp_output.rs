use gta5_script_decompiler::decompiler::control_flow::CaseValue;
use gta5_script_decompiler::decompiler::decompiled::decompiled_function::DecompiledFunction;
use gta5_script_decompiler::decompiler::decompiled::statement::{Statement, StatementInfo};
use gta5_script_decompiler::decompiler::stack_entry::{
    BinaryOperator, StackEntry, StackEntryInfo, UnaryOperator,
};
use gta5_script_decompiler::decompiler::value_type::{
    Confidence, LinkedValueType, Primitives, TypeStore, ValueType, ValueTypeInfo,
};
use gta5_script_decompiler::formatters::code_builder::CodeBuilder;
use gta5_script_decompiler::formatters::cpp_formatter::{format_type, CppFormatter};
use std::collections::HashMap;

struct Types {
    store: TypeStore,
    int: usize,
    float: usize,
    pair: usize,
    pairs: usize,
    pairs_ref: usize,
}

fn types() -> Types {
    let mut store = TypeStore::new();
    let int = LinkedValueType::new_primitive(Primitives::Int).make_shared(&mut store);
    let float = LinkedValueType::new_primitive(Primitives::Float).make_shared(&mut store);
    let pair = LinkedValueType::Type(ValueTypeInfo {
        ty: ValueType::Struct { fields: vec![int, float] },
        confidence: Confidence::Low,
    })
    .make_shared(&mut store);
    let pairs = LinkedValueType::Type(ValueTypeInfo {
        ty: ValueType::Array { item_type: pair },
        confidence: Confidence::Low,
    })
    .make_shared(&mut store);
    let pairs_ref = LinkedValueType::new_ref(pairs).make_shared(&mut store);
    Types { store, int, float, pair, pairs, pairs_ref }
}

fn float_literal(bits: u32) -> String {
    let f = f32::from_bits(bits);
    if f.trunc() == f {
        format!("{f}.f")
    } else {
        format!("{f}f")
    }
}

fn value(entry: StackEntry<'static>, ty: usize) -> StackEntryInfo<'static> {
    StackEntryInfo { entry, ty }
}

fn boxed(entry: StackEntry<'static>, ty: usize) -> Box<StackEntryInfo<'static>> {
    Box::new(value(entry, ty))
}

fn statement(statement: Statement<'static>) -> StatementInfo<'static> {
    StatementInfo { instructions: &[], statement }
}

fn function(t: &Types, statements: Vec<StatementInfo<'static>>) -> DecompiledFunction<'static> {
    DecompiledFunction {
        name: "f".to_string(),
        params: vec![t.int, t.int],
        locals: vec![t.int],
        returns: Some(t.int),
        statements,
    }
}

#[test]
fn types_are_written_as_cpp_types() {
    let t = types();
    assert_eq!(format_type(&t.store, t.int), "int");
    assert_eq!(format_type(&t.store, t.float), "float");
    assert_eq!(format_type(&t.store, t.pair), "struct<int, float>");
    assert_eq!(format_type(&t.store, t.pairs), "struct<int, float>[]");
    assert_eq!(format_type(&t.store, t.pairs_ref), "struct<int, float>[]*");
}

#[test]
fn values_are_written_as_expressions() {
    let t = types();
    let names: HashMap<usize, String> = [(0x10, "main".to_string())].into_iter().collect();
    let formatter = CppFormatter::new(&names);
    let f = function(&t, vec![]);
    let text = |v: &StackEntryInfo| formatter.format_stack_entry(v, None, &f, &t.store, &float_literal);

    assert_eq!(text(&value(StackEntry::Int(-3), t.int)), "-3");
    assert_eq!(text(&value(StackEntry::Float(0x3fc0_0000), t.float)), "1.5f");
    assert_eq!(text(&value(StackEntry::Float(0x4000_0000), t.float)), "2.f");
    assert_eq!(text(&value(StackEntry::Local(0), t.int)), "parameter_0");
    assert_eq!(text(&value(StackEntry::Local(4), t.int)), "local_0");
    assert_eq!(text(&value(StackEntry::Local(1), t.pair)), "parameter_1.f_0");
    assert_eq!(
        text(&value(StackEntry::Ref(boxed(StackEntry::Local(1), t.pair)), t.pairs_ref)),
        "&parameter_1"
    );
    let field = StackEntry::StructField {
        source: boxed(
            StackEntry::Deref(boxed(StackEntry::Ref(boxed(StackEntry::Static(3), t.int)), t.int)),
            t.int,
        ),
        field: 2,
    };
    assert_eq!(text(&value(field, t.int)), "static_3->f_2");
    let item = StackEntry::ArrayItem {
        source: boxed(StackEntry::Ref(boxed(StackEntry::Global(5), t.int)), t.int),
        index: boxed(StackEntry::Int(1), t.int),
        item_size: 3,
    };
    assert_eq!(text(&value(item, t.int)), "global_5[1 /* 3 */]");
    let call = StackEntry::FunctionCallResult {
        args: vec![value(StackEntry::Int(1), t.int), value(StackEntry::String("a"), t.int)],
        function_address: 0x10,
        return_values: 1,
    };
    assert_eq!(text(&value(call, t.int)), "main(1, STRING(a))");
    let unknown = StackEntry::FunctionCallResult {
        args: vec![],
        function_address: 0x20,
        return_values: 0,
    };
    assert_eq!(text(&value(unknown, t.int)), "unk_fn00000020()");
    let native = StackEntry::NativeCallResult { args: vec![], return_values: 0, native_hash: 0xabc };
    assert_eq!(text(&value(native, t.int)), "unk_0x0000000000000ABC()");
    let cast = StackEntry::Cast { source: boxed(StackEntry::Int(2), t.int) };
    assert_eq!(text(&value(cast, t.float)), "(float)2");
    let not = StackEntry::UnaryOperator {
        lhs: boxed(StackEntry::Local(0), t.int),
        op: UnaryOperator::Not,
    };
    assert_eq!(text(&value(not, t.int)), "!(parameter_0)");
    let hash = StackEntry::StringHash(boxed(StackEntry::String("x"), t.int));
    assert_eq!(text(&value(hash, t.int)), "HASH(STRING(x))");
}

#[test]
fn logical_operators_parenthesize_the_other_operator() {
    let t = types();
    let names: HashMap<usize, String> = HashMap::new();
    let formatter = CppFormatter::new(&names);
    let f = function(&t, vec![]);
    let or = |a: i64, b: i64| StackEntry::BinaryOperator {
        lhs: boxed(StackEntry::Int(a), t.int),
        rhs: boxed(StackEntry::Int(b), t.int),
        op: BinaryOperator::LogicalOr,
    };
    let and = StackEntry::BinaryOperator {
        lhs: boxed(or(1, 2), t.int),
        rhs: boxed(StackEntry::Int(3), t.int),
        op: BinaryOperator::LogicalAnd,
    };
    let text = formatter.format_stack_entry(&value(and, t.int), None, &f, &t.store, &float_literal);
    assert_eq!(text, "(1 || 2) && 3");
    let sum = StackEntry::BinaryOperator {
        lhs: boxed(StackEntry::Int(1), t.int),
        rhs: boxed(StackEntry::Local(4), t.int),
        op: BinaryOperator::Add,
    };
    let text = formatter.format_stack_entry(&value(sum, t.int), None, &f, &t.store, &float_literal);
    assert_eq!(text, "1 + local_0");
    let test = StackEntry::BinaryOperator {
        lhs: boxed(StackEntry::Int(1), t.int),
        rhs: boxed(StackEntry::Int(4), t.int),
        op: BinaryOperator::BitTest,
    };
    let text = formatter.format_stack_entry(&value(test, t.int), None, &f, &t.store, &float_literal);
    assert_eq!(text, "BitTest(1, 4)");
}

#[test]
fn statements_nest_in_braces() {
    let t = types();
    let names: HashMap<usize, String> = HashMap::new();
    let formatter = CppFormatter::new(&names);
    let f = function(&t, vec![]);
    let mut builder = CodeBuilder::default();
    let chain = statement(Statement::IfElse {
        condition: value(StackEntry::Local(0), t.int),
        then: vec![statement(Statement::Return { values: vec![] })],
        els: vec![statement(Statement::If {
            condition: value(StackEntry::Int(1), t.int),
            then: vec![statement(Statement::Break)],
        })],
    });
    formatter.write_statement(&chain, &f, &mut builder, false, &t.store, &float_literal);
    assert_eq!(
        builder.collect(),
        "if (parameter_0)\n{\n\treturn;\n}\nelse if (1)\n{\n\tbreak;\n}\n"
    );
}

#[test]
fn function_has_signature_locals_and_statements() {
    let t = types();
    let names: HashMap<usize, String> = HashMap::new();
    let formatter = CppFormatter::new(&names);
    let statements = vec![
        statement(Statement::Assign {
            destination: value(StackEntry::Local(4), t.int),
            source: value(StackEntry::Int(7), t.int),
        }),
        statement(Statement::Switch {
            condition: value(StackEntry::Local(0), t.int),
            cases: vec![(
                vec![statement(Statement::Continue)],
                vec![CaseValue::Value(1), CaseValue::Default],
            )],
        }),
        statement(Statement::WhileLoop {
            condition: value(StackEntry::Int(1), t.int),
            body: vec![statement(Statement::NativeCall { args: vec![], native_hash: 1 })],
        }),
        statement(Statement::IfElse {
            condition: value(StackEntry::Int(0), t.int),
            then: vec![],
            els: vec![statement(Statement::Nop), statement(Statement::Nop)],
        }),
        statement(Statement::Return {
            values: vec![value(StackEntry::Int(1), t.int), value(StackEntry::Int(2), t.int)],
        }),
    ];
    let f = function(&t, statements);
    let text = formatter.format_function(&f, &t.store, float_literal);
    let expected = [
        "int f(int parameter_0 /* 0 */, int parameter_1 /* 1 */)\n",
        "{\n",
        "\tint local_0 /* 4 */;\n",
        "\t\n",
        "\tlocal_0 = 7;\n",
        "\tswitch (parameter_0)\n",
        "\t{\n",
        "\t\tcase 1:\n",
        "\t\tdefault:\n",
        "\t\t\tcontinue;\n",
        "\t}\n",
        "\twhile (1)\n",
        "\t{\n",
        "\t\tunk_0x0000000000000001();\n",
        "\t}\n",
        "\tif (0)\n",
        "\t{\n",
        "\t}\n",
        "\telse\n",
        "\t{\n",
        "\t}\n",
        "\treturn { 1, 2 }\n",
        "}\n",
    ]
    .concat();
    assert_eq!(text, expected);
}

#[test]
fn a_struct_parameter_covers_the_slots_after_it() {
    let t = types();
    let names: HashMap<usize, String> = HashMap::new();
    let formatter = CppFormatter::new(&names);
    let f = DecompiledFunction {
        name: "g".to_string(),
        params: vec![t.pair, t.int, t.float],
        locals: vec![],
        returns: None,
        statements: vec![],
    };
    let text = formatter.format_function(&f, &t.store, float_literal);
    assert_eq!(
        text,
        "void g(struct<int, float> parameter_0 /* 0 */, float parameter_2 /* 2 */)\n{\n}\n"
    );
}
