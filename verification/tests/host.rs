use emscripten_helper::boundary::BoundaryCall;
use emscripten_helper::object::{Answer, JSObject};
use emscripten_helper::strings::{buffer_len, read_string, store_request, string_units, write_buffer};
use emscripten_helper::table::ObjectTable;
use emscripten_helper::{init, Bridge};
use std::cell::RefCell;
use std::collections::HashMap;
use std::rc::Rc;

/// A host value, as far as these tests need one.
#[derive(Clone, Debug, PartialEq)]
enum Value {
    Number(i64),
    Text(Vec<u16>),
    Array(Rc<RefCell<Vec<Value>>>),
}

/// A stand-in for the host: an object table, and memory that both sides reach.
struct Host {
    bridge: Bridge,
    table: ObjectTable<Value>,
    units: HashMap<i64, Vec<u16>>,
    buffers: HashMap<i64, Vec<u8>>,
    next_address: i64,
    stores: usize,
    loads: usize,
    releases: Vec<u32>,
}

impl Host {
    fn new() -> Host {
        let mut bridge = Bridge::new();
        let script = init(&mut bridge, b"// the table\nHELPERJS = {};").unwrap();
        assert_eq!(script, Some(b"  HELPERJS = {};\0".to_vec()));
        Host {
            bridge,
            table: ObjectTable::new(),
            units: HashMap::new(),
            buffers: HashMap::new(),
            next_address: 1024,
            stores: 0,
            loads: 0,
            releases: Vec::new(),
        }
    }

    fn wrap(&self, handle: i64) -> JSObject {
        JSObject::from_handle(&self.bridge, handle as u32).unwrap()
    }

    fn store(&mut self, value: Value) -> i64 {
        self.stores += 1;
        match self.table.store(value) {
            Ok(handle) => handle as i64,
            Err(_) => panic!("table full"),
        }
    }

    fn load(&mut self, handle: u32) -> Value {
        self.loads += 1;
        self.table.load(handle).expect("load of a free slot").clone()
    }

    /// Native code lays code units out in shared memory.
    fn place(&mut self, units: Vec<u16>) -> usize {
        let address = self.next_address;
        self.next_address += 2 * units.len() as i64 + 8;
        self.units.insert(address, units);
        address as usize
    }

    fn run(&mut self, call: BoundaryCall) -> Option<i64> {
        match call {
            BoundaryCall::Release { handle } => {
                assert!(self.table.holds(handle), "release of a free slot");
                self.table.release(handle);
                self.releases.push(handle);
                None
            }
            BoundaryCall::NewArray => {
                Some(self.store(Value::Array(Rc::new(RefCell::new(Vec::new())))))
            }
            BoundaryCall::PushValue { array, value } => {
                match self.load(array) {
                    Value::Array(items) => items.borrow_mut().push(Value::Number(value)),
                    other => panic!("push onto {:?}", other),
                }
                None
            }
            BoundaryCall::PushObject { array, element } => {
                let element = self.load(element);
                match self.load(array) {
                    Value::Array(items) => items.borrow_mut().push(element),
                    other => panic!("push onto {:?}", other),
                }
                None
            }
            BoundaryCall::LoadNumber { handle } | BoundaryCall::LoadBoolean { handle } => {
                match self.load(handle) {
                    Value::Number(n) => Some(n),
                    other => panic!("number of {:?}", other),
                }
            }
            BoundaryCall::StoreString { address, units } => {
                let text = self.units[&address][..units as usize].to_vec();
                Some(self.store(Value::Text(text)))
            }
            BoundaryCall::FetchString { handle } => match self.load(handle) {
                Value::Text(units) => {
                    let address = self.next_address;
                    let buffer = write_buffer(&units).unwrap();
                    self.next_address += buffer.len() as i64;
                    self.buffers.insert(address, buffer);
                    Some(address)
                }
                other => panic!("string of {:?}", other),
            },
        }
    }
}

/// Construct-from-string, as native code does it.
fn wrap_text(host: &mut Host, text: &str) -> JSObject {
    let units = string_units(text);
    let count = units.len();
    let address = host.place(units);
    let call = store_request(&host.bridge, address, count).unwrap();
    let handle = host.run(call).unwrap();
    host.units.remove(&(address as i64));
    host.wrap(handle)
}

/// Convert-to-string, as native code does it.
fn unwrap_text(host: &mut Host, wrapper: &JSObject) -> String {
    let address = host.run(wrapper.string_request().unwrap()).unwrap();
    let buffer = host.buffers.remove(&address).unwrap();
    let len = buffer_len(&buffer[..4]).unwrap();
    read_string(&buffer[..len]).unwrap()
}

fn drop_wrapper(host: &mut Host, wrapper: JSObject) {
    if let Some(call) = wrapper.destroy() {
        host.run(call);
    }
}

#[test]
fn primitives_never_reach_the_table() {
    let host = Host::new();
    let number = JSObject::from(42i32);
    let flag = JSObject::from(true);
    assert_eq!(number.to_i32(), Answer::Local(42));
    assert_eq!(flag.to_bool(), Answer::Local(true));
    assert_eq!(number.destroy(), None);
    assert_eq!(flag.destroy(), None);
    assert_eq!((host.stores, host.loads, host.releases.len()), (0, 0, 0));
}

#[test]
fn text_crosses_and_comes_back() {
    let mut host = Host::new();
    for text in ["", "plain", "naïve café", "日本語のテキスト", "😀🦀", "a\u{0}b"] {
        let wrapper = wrap_text(&mut host, text);
        assert!(wrapper.is_handle());
        assert_eq!(unwrap_text(&mut host, &wrapper), text);
        drop_wrapper(&mut host, wrapper);
    }
    assert!(host.buffers.is_empty());
    assert!(host.units.is_empty());
    assert_eq!(host.stores, host.releases.len());
}

#[test]
fn malformed_host_text_is_replaced() {
    let mut host = Host::new();
    let handle = host.store(Value::Text(vec![0x61, 0xDC00, 0x62, 0xD800]));
    let wrapper = host.wrap(handle);
    assert_eq!(unwrap_text(&mut host, &wrapper), "a\u{FFFD}b\u{FFFD}");
    assert!(host.buffers.is_empty());
    drop_wrapper(&mut host, wrapper);
}

#[test]
fn slot_is_released_with_the_last_copy() {
    let mut host = Host::new();
    let first = wrap_text(&mut host, "shared");
    let handle = match first.string_request() {
        Some(BoundaryCall::FetchString { handle }) => handle,
        other => panic!("{:?}", other),
    };
    let copies: Vec<JSObject> = (0..4).map(|_| first.duplicate()).collect();
    drop_wrapper(&mut host, first);
    for (k, copy) in copies.into_iter().enumerate() {
        assert!(host.releases.is_empty(), "released with copies left");
        assert!(host.table.holds(handle));
        if k == 0 {
            assert_eq!(unwrap_text(&mut host, &copy), "shared");
        }
        drop_wrapper(&mut host, copy);
    }
    assert_eq!(host.releases, vec![handle]);
    assert!(!host.table.holds(handle));
}

#[test]
fn released_handle_comes_back_for_the_next_value() {
    let mut host = Host::new();
    let first = wrap_text(&mut host, "one");
    let first_call = first.string_request();
    drop_wrapper(&mut host, first);
    let second = wrap_text(&mut host, "two");
    assert_eq!(second.string_request(), first_call);
    assert_eq!(unwrap_text(&mut host, &second), "two");
    drop_wrapper(&mut host, second);
}

#[test]
fn array_of_number_text_and_boolean() {
    let mut host = Host::new();
    let begin = JSObject::array_begin(&host.bridge).unwrap();
    let handle = host.run(begin).unwrap();
    let array = host.wrap(handle);
    let elements = vec![
        JSObject::from(1i32),
        wrap_text(&mut host, "a"),
        JSObject::from(true),
    ];
    for call in array.array_fill(&elements).unwrap() {
        assert_eq!(host.run(call), None);
    }
    for element in elements {
        drop_wrapper(&mut host, element);
    }
    match host.table.load(handle as u32) {
        Some(Value::Array(items)) => {
            assert_eq!(items.borrow().len(), 3);
            assert_eq!(
                *items.borrow(),
                vec![
                    Value::Number(1),
                    Value::Text(vec![0x61]),
                    Value::Number(1)
                ]
            );
        }
        other => panic!("{:?}", other),
    }
    drop_wrapper(&mut host, array);
    assert_eq!(host.releases.len(), 2);
    assert!(!host.table.holds(handle as u32));
}

#[test]
fn number_on_the_host_is_loaded() {
    let mut host = Host::new();
    let handle = host.store(Value::Number(77));
    let wrapper = host.wrap(handle);
    match wrapper.to_i32() {
        Answer::Remote(call) => assert_eq!(host.run(call), Some(77)),
        Answer::Local(v) => panic!("local {}", v),
    }
    assert_eq!(host.loads, 1);
    drop_wrapper(&mut host, wrapper);
    assert_eq!(host.releases, vec![handle as u32]);
}
