use xterm_bridge::bridge::{Implementation, IntoJsInterface};
use xterm_bridge::capability::Catalog;
use xterm_bridge::disposable::{DisposableWrapper, NoOpDispose};
use xterm_bridge::event::attach_event_listener;
use xterm_bridge::callback::Callback;
use xterm_bridge::runtime::{Runtime, Slot, Value};
use xterm_bridge::terminal::{BufferNamespace, Terminal, UnicodeHandling};

type Demo = Callback<fn(usize, String, Vec<Value>) -> Value>;

fn answer(_cap: usize, method: String, args: Vec<Value>) -> Value {
    match (method.as_str(), args.first()) {
        ("frob", Some(Value::Int(a))) => Value::Int(a * 2),
        ("yap", _) => Value::Text("hi".to_string()),
        ("shout", Some(Value::Text(s))) => Value::Text(s.to_uppercase()),
        ("version", _) => Value::Text("15".to_string()),
        (_, _) => Value::Unit,
    }
}

fn demo() -> Demo {
    Callback::new(answer as fn(usize, String, Vec<Value>) -> Value)
}

fn names(ns: &[&str]) -> Vec<String> {
    ns.iter().map(|s| s.to_string()).collect()
}

fn call(rt: &mut Runtime<Demo>, obj: usize, name: &str, arg: Value) -> Option<Value> {
    rt.call(obj, &name.to_string(), vec![arg])
}

fn hierarchy() -> (Catalog, usize, usize, usize) {
    let mut cat = Catalog::new();
    let p1 = cat.declare("P1".to_string(), names(&["frob"]), vec![]);
    let p2 = cat.declare("P2".to_string(), names(&["yap"]), vec![]);
    let d = cat.declare("D".to_string(), names(&["shout"]), vec![p1, p2]);
    (cat, p1, p2, d)
}

fn dispose_count(rt: &Runtime<Demo>, obj: usize) -> usize {
    rt.log.iter().filter(|c| c.object == obj && c.method == "dispose").count()
}

#[test]
fn hierarchy_merge_answers_every_method() {
    let (cat, _, _, d) = hierarchy();
    let mut rt: Runtime<Demo> = Runtime::new();
    let obj = Implementation::Local(demo()).to(&mut rt, &cat, d);
    assert_eq!(call(&mut rt, obj, "frob", Value::Int(3)), Some(Value::Int(6)));
    assert_eq!(call(&mut rt, obj, "yap", Value::Unit), Some(Value::Text("hi".to_string())));
    assert_eq!(
        call(&mut rt, obj, "shout", Value::Text("hi".to_string())),
        Some(Value::Text("HI".to_string()))
    );
    let last = rt.log.last().unwrap();
    assert_eq!(last.method, "shout");
    assert_eq!(last.args, vec![Value::Text("hi".to_string())]);
    assert_eq!(last.result, Value::Text("HI".to_string()));
    // one object for the child and one for each parent
    assert_eq!(rt.objects.len(), 3);
    assert_eq!(rt.pinned.len(), 1);
}

#[test]
fn bridge_answers_ancestors_transitively() {
    let mut cat = Catalog::new();
    let a = cat.declare("A".to_string(), names(&["frob"]), vec![]);
    let b = cat.declare("B".to_string(), names(&["yap"]), vec![a]);
    let c = cat.declare("C".to_string(), names(&["shout", "dispose"]), vec![b]);
    let mut rt: Runtime<Demo> = Runtime::new();
    let obj = Implementation::Local(demo()).to(&mut rt, &cat, c);
    assert_eq!(call(&mut rt, obj, "frob", Value::Int(-4)), Some(Value::Int(-8)));
    assert_eq!(call(&mut rt, obj, "yap", Value::Unit), Some(Value::Text("hi".to_string())));
    assert_eq!(
        call(&mut rt, obj, "shout", Value::Text("ab".to_string())),
        Some(Value::Text("AB".to_string()))
    );
    assert_eq!(call(&mut rt, obj, "dispose", Value::Unit), Some(Value::Unit));
    assert_eq!(call(&mut rt, obj, "missing", Value::Unit), None);
    assert_eq!(rt.log.len(), 4);
}

#[test]
fn bridge_of_parent_lacks_child_methods() {
    let (cat, p1, _, _) = hierarchy();
    let mut rt: Runtime<Demo> = Runtime::new();
    let obj = Implementation::Local(demo()).to(&mut rt, &cat, p1);
    assert_eq!(call(&mut rt, obj, "frob", Value::Int(5)), Some(Value::Int(10)));
    assert_eq!(call(&mut rt, obj, "shout", Value::Text("x".to_string())), None);
    assert_eq!(call(&mut rt, obj, "yap", Value::Unit), None);
    assert!(rt.log.len() == 1);
}

#[test]
fn relabel_returns_the_same_object() {
    let (cat, _, _, d) = hierarchy();
    let mut rt: Runtime<Demo> = Runtime::new();
    let existing = Implementation::Local(demo()).to(&mut rt, &cat, d);
    let before = rt.objects.len();
    let h = Implementation::<Demo>::ForeignBacked(existing).to(&mut rt, &cat, d);
    assert_eq!(h, existing);
    assert_eq!(rt.objects.len(), before);
    assert_eq!(rt.pinned.len(), 1);
}

#[test]
fn foreign_backed_never_rebridged() {
    let (cat, _, _, d) = hierarchy();
    let mut rt: Runtime<Demo> = Runtime::new();
    let existing = rt.new_object();
    rt.set_field(existing, "dispose".to_string(), Slot::Native);
    let v = Implementation::<Demo>::ForeignBacked(existing);
    let r1 = v.by_ref(&mut rt, &cat, d);
    let r2 = v.to(&mut rt, &cat, d);
    assert_eq!(r1, existing);
    assert_eq!(r2, existing);
    assert_eq!(rt.objects.len(), 1);
    assert_eq!(rt.pinned.len(), 0);
}

#[test]
fn local_by_ref_builds_a_fresh_bridge_each_time() {
    let (cat, _, _, d) = hierarchy();
    let mut rt: Runtime<Demo> = Runtime::new();
    let v = Implementation::Local(demo());
    let r1 = v.by_ref(&mut rt, &cat, d);
    let r2 = v.by_ref(&mut rt, &cat, d);
    assert_eq!(r1, 0);
    assert_eq!(r2, 3);
    assert_eq!(rt.pinned.len(), 2);
}

#[test]
fn dispose_runs_exactly_once() {
    let mut cat = Catalog::new();
    let disp = cat.declare("Disposable".to_string(), names(&["dispose"]), vec![]);
    let mut rt: Runtime<Demo> = Runtime::new();
    let w = DisposableWrapper::new(Implementation::Local(demo()), &mut rt, &cat, disp);
    let obj = w.get();
    assert_eq!(dispose_count(&rt, obj), 0);
    assert_eq!(w.dispose(&mut rt), Some(Value::Unit));
    assert_eq!(dispose_count(&rt, obj), 1);
    assert_eq!(rt.log.len(), 1);
}

#[test]
fn extracting_skips_dispose() {
    let mut cat = Catalog::new();
    let disp = cat.declare("Disposable".to_string(), names(&["dispose"]), vec![]);
    let mut rt: Runtime<Demo> = Runtime::new();
    let w = DisposableWrapper::new(Implementation::Local(demo()), &mut rt, &cat, disp);
    let obj = w.into_inner();
    assert_eq!(obj, 0);
    assert_eq!(dispose_count(&rt, obj), 0);
    assert!(rt.log.is_empty());
}

#[test]
fn dispose_without_method_reports_none() {
    let mut rt: Runtime<Demo> = Runtime::new();
    let obj = rt.new_object();
    let w = DisposableWrapper::from(obj);
    assert_eq!(w.dispose(&mut rt), None);
    assert!(rt.log.is_empty());
}

#[test]
fn thousand_listeners_each_reached_once() {
    let mut rt: Runtime<Demo> = Runtime::new();
    let source = rt.new_object();
    let kind = "key".to_string();
    let mut handles = Vec::new();
    for _ in 0..1000 {
        handles.push(attach_event_listener(&mut rt, source, kind.clone(), demo()));
    }
    let hit = rt.emit(source, &kind, Value::Int(1));
    assert_eq!(hit, (0..1000).collect::<Vec<usize>>());
    assert_eq!(rt.log.iter().filter(|c| c.method == "call").count(), 1000);
    assert!(rt.log.iter().all(|c| c.args == vec![Value::Int(1)] && c.result == Value::Unit));
    for round in 2..5 {
        let hit = rt.emit(source, &kind, Value::Int(round));
        assert_eq!(hit, (0..1000).collect::<Vec<usize>>());
    }
    assert_eq!(rt.log.iter().filter(|c| c.method == "call").count(), 4000);
    assert_eq!(rt.pinned.len(), 1000);
}

#[test]
fn disposed_listener_no_longer_reached() {
    let mut rt: Runtime<Demo> = Runtime::new();
    let source = rt.new_object();
    let kind = "key".to_string();
    let first = attach_event_listener(&mut rt, source, kind.clone(), demo());
    let second = attach_event_listener(&mut rt, source, kind.clone(), demo());
    assert_eq!(first.dispose(&mut rt), Some(Value::Unit));
    assert_eq!(rt.emit(source, &kind, Value::Unit), vec![1]);
    assert_eq!(rt.emit(source, &kind, Value::Unit), vec![1]);
    assert_eq!(second.dispose(&mut rt), Some(Value::Unit));
    assert!(rt.emit(source, &kind, Value::Unit).is_empty());
}

#[test]
fn events_only_reach_matching_listeners() {
    let mut rt: Runtime<Demo> = Runtime::new();
    let a = rt.new_object();
    let b = rt.new_object();
    let _k = attach_event_listener(&mut rt, a, "key".to_string(), demo());
    let _r = attach_event_listener(&mut rt, a, "resize".to_string(), demo());
    let _o = attach_event_listener(&mut rt, b, "key".to_string(), demo());
    assert_eq!(rt.emit(a, &"key".to_string(), Value::Unit), vec![0]);
    assert_eq!(rt.emit(b, &"key".to_string(), Value::Unit), vec![2]);
    assert!(rt.emit(b, &"render".to_string(), Value::Unit).is_empty());
}

#[test]
fn terminal_listener_helpers_use_event_names() {
    let mut rt: Runtime<Demo> = Runtime::new();
    let t = Terminal { object: rt.new_object() };
    let buffers = BufferNamespace { object: rt.new_object() };
    let _b = t.attach_binary_event_listener(&mut rt, demo());
    let _c = t.attach_cursor_move_event_listener(&mut rt, demo());
    let _k = t.attach_key_event_listener(&mut rt, demo());
    let _x = buffers.attach_buffer_change_event_listener(&mut rt, demo());
    assert_eq!(rt.emit(t.object, &"binary".to_string(), Value::Unit), vec![0]);
    assert_eq!(rt.emit(t.object, &"cursorMove".to_string(), Value::Unit), vec![1]);
    assert_eq!(rt.emit(t.object, &"key".to_string(), Value::Unit), vec![2]);
    assert_eq!(rt.emit(buffers.object, &"bufferChange".to_string(), Value::Unit), vec![3]);
}

#[test]
fn load_addon_bridges_local_and_passes_foreign() {
    let mut cat = Catalog::new();
    let disp = cat.declare("Disposable".to_string(), names(&["dispose"]), vec![]);
    let addon = cat.declare("TerminalAddon".to_string(), names(&["activate"]), vec![disp]);
    let mut rt: Runtime<Demo> = Runtime::new();
    let t = Terminal { object: rt.new_object() };
    let local = t.load_xterm_addon(&mut rt, &cat, addon, &Implementation::Local(demo()));
    assert_eq!(local, 1);
    assert_eq!(call(&mut rt, local, "activate", Value::Object(t.object)), Some(Value::Unit));
    assert_eq!(call(&mut rt, local, "dispose", Value::Unit), Some(Value::Unit));
    let passed = t.load_xterm_addon(&mut rt, &cat, addon, &Implementation::<Demo>::ForeignBacked(local));
    assert_eq!(passed, local);
    assert_eq!(rt.objects.len(), 3);
}

#[test]
fn register_version_provider_bridges_provider() {
    let mut cat = Catalog::new();
    let provider = cat.declare("UnicodeVersionProvider".to_string(), names(&["version", "wcwidth"]), vec![]);
    let mut rt: Runtime<Demo> = Runtime::new();
    let unicode = UnicodeHandling { object: rt.new_object() };
    let p = unicode.register_version_provider(&mut rt, &cat, provider, &Implementation::Local(demo()));
    assert_eq!(call(&mut rt, p, "version", Value::Unit), Some(Value::Text("15".to_string())));
    assert_eq!(call(&mut rt, p, "wcwidth", Value::Int(65)), Some(Value::Unit));
}

#[test]
fn assigning_an_object_to_itself_changes_nothing() {
    let mut rt: Runtime<Demo> = Runtime::new();
    let a = rt.new_object();
    rt.set_field(a, "x".to_string(), Slot::Native);
    rt.assign(a, a);
    assert_eq!(rt.objects[a].fields.len(), 1);
    assert_eq!(rt.find_slot(a, &"x".to_string()), Some(Slot::Native));
}

#[test]
fn later_field_writes_win_and_assign_merges() {
    let mut rt: Runtime<Demo> = Runtime::new();
    rt.pinned.pin(demo());
    let a = rt.new_object();
    let b = rt.new_object();
    rt.set_field(a, "x".to_string(), Slot::Native);
    rt.set_field(a, "x".to_string(), Slot::Thunk(0, 0));
    assert_eq!(rt.find_slot(a, &"x".to_string()), Some(Slot::Thunk(0, 0)));
    rt.set_field(b, "x".to_string(), Slot::Native);
    rt.set_field(b, "y".to_string(), Slot::Unregister(7));
    rt.assign(a, b);
    assert_eq!(rt.find_slot(a, &"x".to_string()), Some(Slot::Native));
    assert_eq!(rt.find_slot(a, &"y".to_string()), Some(Slot::Unregister(7)));
    assert_eq!(rt.find_slot(b, &"z".to_string()), None);
    assert_eq!(rt.relabel(b), b);
    // an unregister slot for a listener that does not exist still answers
    assert_eq!(call(&mut rt, a, "y", Value::Unit), Some(Value::Unit));
}

#[test]
fn no_op_dispose_answers_dispose_and_relabels() {
    let mut cat = Catalog::new();
    let disp = cat.declare("Disposable".to_string(), names(&["dispose"]), vec![]);
    let mut rt: Runtime<Demo> = Runtime::new();
    let noop = NoOpDispose::new(&mut rt);
    let w = DisposableWrapper::new(noop.to_implementation(), &mut rt, &cat, disp);
    assert_eq!(w.get(), 0);
    assert_eq!(rt.objects.len(), 1);
    assert_eq!(w.dispose(&mut rt), Some(Value::Unit));
    assert_eq!(dispose_count(&rt, 0), 1);
    assert_eq!(rt.pinned.len(), 0);
}

#[test]
fn terminal_with_wrapper_disposes_once() {
    let mut rt: Runtime<Demo> = Runtime::new();
    let w = Terminal::new_with_wrapper(&mut rt);
    let t = w.get();
    assert_eq!(w.dispose(&mut rt), Some(Value::Unit));
    assert_eq!(dispose_count(&rt, t), 1);
}

#[test]
fn listener_callback_receives_event_data() {
    let mut rt: Runtime<Demo> = Runtime::new();
    let t = Terminal { object: rt.new_object() };
    let _h = t.attach_binary_event_listener(&mut rt, demo());
    let data = Value::Text("\x1b[A".to_string());
    assert_eq!(rt.emit(t.object, &"binary".to_string(), data.clone()), vec![0]);
    let last = rt.log.last().unwrap();
    assert_eq!(last.object, 1);
    assert_eq!(last.method, "call");
    assert_eq!(last.args, vec![data]);
    assert_eq!(last.result, Value::Unit);
}
