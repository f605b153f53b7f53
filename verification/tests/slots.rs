use taskorch::task::{Kind, ParamStore, SlotError, Task, TaskId, VType, Value};

#[test]
fn slot_set_reports_each_error() {
    let mut st = ParamStore::new(vec![VType::Int]);
    assert_eq!(st.set(1, Value::Int(0)), Err(SlotError::OutOfRange));
    assert_eq!(
        st.set(0, Value::Str("x".to_string())),
        Err(SlotError::TypeMismatch)
    );
    assert_eq!(st.set(0, Value::Int(5)), Ok(true));
    assert_eq!(st.set(0, Value::Int(6)), Err(SlotError::AlreadySet));
    // the refused deliveries left the stored value untouched
    assert_eq!(st.vals[0], Some(Value::Int(5)));
}

#[test]
fn store_is_full_only_when_every_slot_is_set() {
    let mut st = ParamStore::new(vec![VType::Int, VType::Str]);
    assert!(!st.is_full());
    assert_eq!(st.set(0, Value::Int(1)), Ok(false));
    assert!(!st.is_full());
    assert_eq!(st.set(1, Value::Str("two".to_string())), Ok(true));
    assert!(st.is_full());
}

#[test]
fn zero_arity_store_is_full() {
    let st = ParamStore::new(vec![]);
    assert_eq!(st.arity(), 0);
    assert!(st.is_full());
}

#[test]
fn type_names() {
    assert_eq!(VType::Unit.name(), "unit");
    assert_eq!(VType::Bool.name(), "bool");
    assert_eq!(VType::Int.name(), "int");
    assert_eq!(VType::Str.name(), "str");
}

#[test]
fn value_type_tags() {
    assert_eq!(Value::Unit.type_of(), VType::Unit);
    assert_eq!(Value::Bool(true).type_of(), VType::Bool);
    assert_eq!(Value::Int(-3).type_of(), VType::Int);
    assert_eq!(Value::Str(String::new()).type_of(), VType::Str);
}

#[test]
fn invoke_consumes_and_yields_the_output() {
    let t = Task::new(Kind::Normal, ParamStore::new(vec![]), Some(Value::Int(42)));
    assert_eq!(t.id(), TaskId(None));
    assert_eq!(t.kind(), Kind::Normal);
    assert_eq!(t.invoke(), Some(Value::Int(42)));
    let silent = Task::new(Kind::Exit, ParamStore::new(vec![]), None);
    assert_eq!(silent.kind(), Kind::Exit);
    assert_eq!(silent.invoke(), None);
}
