//! The Lua structured-return protocol and the simple convention.

use laputa::lua::{
    build_lua_response, lua_error_message, simple_response, LuaPair, LuaValue,
};

fn pair(k: LuaValue, v: LuaValue) -> LuaPair {
    LuaPair { key: k, value: v }
}

#[test]
fn lua_structured_return() {
    let values = vec![
        LuaValue::Int(201),
        LuaValue::Table(vec![pair(
            LuaValue::Str("X-A".to_string()),
            LuaValue::Str("1".to_string()),
        )]),
        LuaValue::Chunks(vec![b"chunk1".to_vec()]),
    ];
    let r = build_lua_response(values);
    assert_eq!(r.status, 201);
    assert_eq!(r.headers.len(), 1);
    assert_eq!(r.headers.get(&"X-A".to_string()), Some(&"1".to_string()));
    assert_eq!(r.body, b"chunk1".to_vec());
}

#[test]
fn lua_defaults_without_values() {
    let r = build_lua_response(Vec::new());
    assert_eq!(r.status, 200);
    assert_eq!(r.headers.len(), 0);
    assert_eq!(r.body, Vec::<u8>::new());
}

#[test]
fn lua_table_skips_non_string_pairs() {
    let values = vec![LuaValue::Table(vec![
        pair(LuaValue::Int(1), LuaValue::Str("x".to_string())),
        pair(LuaValue::Str("k".to_string()), LuaValue::Int(2)),
        pair(LuaValue::Str("a".to_string()), LuaValue::Str("b".to_string())),
    ])];
    let r = build_lua_response(values);
    assert_eq!(r.headers.len(), 1);
    assert_eq!(r.headers.get(&"a".to_string()), Some(&"b".to_string()));
}

#[test]
fn lua_generator_chunks_are_concatenated() {
    let values = vec![LuaValue::Chunks(vec![b"ab".to_vec(), b"cd".to_vec()])];
    let r = build_lua_response(values);
    assert_eq!(r.body, b"abcd".to_vec());
}

#[test]
fn lua_later_status_wins() {
    let values = vec![LuaValue::Int(500), LuaValue::Int(404)];
    let r = build_lua_response(values);
    assert_eq!(r.status, 404);
}

#[test]
fn lua_unsupported_values_are_ignored() {
    let values = vec![LuaValue::Other, LuaValue::Str("loose".to_string()), LuaValue::Int(418)];
    let r = build_lua_response(values);
    assert_eq!(r.status, 418);
    assert_eq!(r.headers.len(), 0);
    assert_eq!(r.body, Vec::<u8>::new());
}

#[test]
fn lua_simple_exports_string() {
    assert_eq!(simple_response(Some("hello".to_string())), "hello".to_string());
    assert_eq!(simple_response(None), String::new());
}

#[test]
fn lua_error_is_tagged() {
    assert_eq!(lua_error_message(&"boom".to_string()), "[LUA] boom".to_string());
}

#[test]
fn lua_worker_replies_once_per_event_in_order() {
    let runs = vec![
        Ok(vec![LuaValue::Int(201)]),
        Err("stack overflow".to_string()),
        Ok(Vec::new()),
    ];
    let replies = laputa::lua::lua_worker_batch(runs);
    assert_eq!(replies.len(), 3);
    assert_eq!(replies[0].result.as_ref().unwrap().status, 201);
    assert_eq!(replies[1].result.as_ref().err().unwrap(), "[LUA] stack overflow");
    assert_eq!(replies[2].result.as_ref().unwrap().status, 200);
}
