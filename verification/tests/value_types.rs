use gta5_script_decompiler::decompiler::script_globals::ScriptGlobals;
use gta5_script_decompiler::decompiler::script_statics::ScriptStatics;
use gta5_script_decompiler::decompiler::value_type::{
    Confidence, LinkedValueType, Primitives, TypeStore, ValueType, ValueTypeInfo,
};

fn primitive(store: &mut TypeStore, p: Primitives) -> usize {
    LinkedValueType::new_primitive(p).make_shared(store)
}

#[test]
fn linking_makes_both_slots_share_a_type() {
    let mut store = TypeStore::new();
    let a = primitive(&mut store, Primitives::Int);
    let b = primitive(&mut store, Primitives::Unknown);
    LinkedValueType::confidence(&mut store, a, Confidence::High);
    LinkedValueType::link(&mut store, a, b);
    assert_eq!(
        LinkedValueType::get_concrete_ptr(&store, a),
        LinkedValueType::get_concrete_ptr(&store, b)
    );
    let info = LinkedValueType::get_concrete(&store, b);
    assert!(matches!(info.ty, ValueType::Primitive(Primitives::Int)));
    assert_eq!(info.confidence, Confidence::High);
}

#[test]
fn linking_lets_the_more_confident_type_win() {
    let mut store = TypeStore::new();
    let a = primitive(&mut store, Primitives::Int);
    let b = primitive(&mut store, Primitives::Float);
    LinkedValueType::confidence(&mut store, b, Confidence::Medium);
    LinkedValueType::link(&mut store, a, b);
    let info = LinkedValueType::get_concrete(&store, a);
    assert!(matches!(info.ty, ValueType::Primitive(Primitives::Float)));
}

#[test]
fn struct_field_grows_a_struct() {
    let mut store = TypeStore::new();
    let s = primitive(&mut store, Primitives::Unknown);
    let f2 = LinkedValueType::struct_field(&mut store, s, 2);
    assert_eq!(f2, 3);
    assert_eq!(store.len(), 4);
    let info = LinkedValueType::get_concrete(&store, s);
    assert!(matches!(&info.ty, ValueType::Struct { fields } if fields == &vec![1, 2, 3]));
    assert_eq!(info.confidence, Confidence::Medium);
    assert_eq!(LinkedValueType::struct_field(&mut store, s, 0), 1);
    assert_eq!(LinkedValueType::size(&store, s), 3);
}

#[test]
fn ref_type_turns_a_type_into_a_reference() {
    let mut store = TypeStore::new();
    let r = primitive(&mut store, Primitives::Unknown);
    let target = LinkedValueType::ref_type(&mut store, r);
    assert_eq!(target, 1);
    assert_eq!(LinkedValueType::ref_type(&mut store, r), 1);
    let info = LinkedValueType::get_concrete(&store, r);
    assert!(matches!(info.ty, ValueType::Ref(1)));
    assert_eq!(info.confidence, Confidence::High);
}

#[test]
fn hint_only_raises_confidence() {
    let mut store = TypeStore::new();
    let t = primitive(&mut store, Primitives::Int);
    LinkedValueType::confidence(&mut store, t, Confidence::Medium);
    LinkedValueType::hint(
        &mut store,
        t,
        ValueTypeInfo { ty: ValueType::Primitive(Primitives::Float), confidence: Confidence::Low },
    );
    assert!(matches!(LinkedValueType::get_concrete(&store, t).ty, ValueType::Primitive(Primitives::Int)));
    LinkedValueType::hint(
        &mut store,
        t,
        ValueTypeInfo { ty: ValueType::Primitive(Primitives::Float), confidence: Confidence::High },
    );
    assert!(matches!(LinkedValueType::get_concrete(&store, t).ty, ValueType::Primitive(Primitives::Float)));
}

#[test]
fn statics_get_fresh_slots() {
    let mut store = TypeStore::new();
    let statics = ScriptStatics::new(3, &mut store);
    assert_eq!(store.len(), 3);
    assert_eq!(statics.get_static(2), Some(2));
    assert_eq!(statics.get_static(3), None);
}

#[test]
fn globals_are_made_once() {
    let mut store = TypeStore::new();
    let mut globals = ScriptGlobals::default();
    let a = globals.get_global(7, &mut store);
    let b = globals.get_global(7, &mut store);
    assert_eq!(a, b);
    assert_eq!(store.len(), 1);
    let c = globals.get_global(8, &mut store);
    assert_eq!(c, 1);
}

#[test]
fn a_struct_takes_up_the_slots_of_its_fields() {
    let mut store = TypeStore::new();
    let t = primitive(&mut store, Primitives::Int);
    LinkedValueType::struct_field(&mut store, t, 2);
    let inner = LinkedValueType::struct_field(&mut store, t, 0);
    LinkedValueType::struct_size(&mut store, inner, 2);
    assert_eq!(LinkedValueType::size(&store, t), 4);
}

#[test]
fn a_global_looked_up_twice_keeps_its_slot() {
    let mut store = TypeStore::new();
    let mut globals = ScriptGlobals::default();
    let a = globals.get_global(7, &mut store);
    let b = globals.get_global(9, &mut store);
    assert_ne!(a, b);
    assert_eq!(globals.get_global(7, &mut store), a);
    assert_eq!(store.len(), 2);
}

#[test]
fn a_field_asked_for_twice_is_one_slot() {
    let mut store = TypeStore::new();
    let s = primitive(&mut store, Primitives::Unknown);
    let f = LinkedValueType::struct_field(&mut store, s, 1);
    let len = store.len();
    assert_eq!(LinkedValueType::struct_field(&mut store, s, 1), f);
    assert_eq!(store.len(), len);
}
