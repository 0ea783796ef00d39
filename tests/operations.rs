use std::cell::RefCell;
use std::rc::Rc;

use secret::attributes::{AttributeValue, Attributes};
use secret::bridge::Pending;
use secret::collection::Collection;
use secret::completion::{finish_clear, finish_flag, finish_list, finish_object, finish_text};
use secret::error::Error;
use secret::item::Item;
use secret::memory::MemoryStore;
use secret::password::Passwords;
use secret::request::Request;
use secret::schema::{Schema, SchemaAttributeType};
use secret::service::Service;

type Slot<T> = Rc<RefCell<Option<Result<T, Error>>>>;
type Continuation<T> = Box<dyn FnOnce(Result<T, Error>)>;

fn slot<T: 'static>() -> (Slot<T>, Continuation<T>) {
    let s: Slot<T> = Rc::new(RefCell::new(None));
    let t = s.clone();
    (s, Box::new(move |r| *t.borrow_mut() = Some(r)))
}

fn take<T>(s: &Slot<T>) -> Result<T, Error> {
    s.borrow_mut().take().expect("continuation was not invoked")
}

fn schema() -> Schema {
    Schema::new(
        "org.example.Password",
        vec![
            ("number".to_string(), SchemaAttributeType::Integer),
            ("even".to_string(), SchemaAttributeType::Boolean),
        ],
    )
    .unwrap()
}

fn attrs(number: Option<i64>, even: Option<bool>) -> Attributes {
    let mut a = Attributes::new();
    if let Some(n) = number {
        a.insert("number".to_string(), AttributeValue::Integer(n));
    }
    if let Some(e) = even {
        a.insert("even".to_string(), AttributeValue::Boolean(e));
    }
    a
}

fn pairs(v: &[(&str, &str)]) -> Vec<(String, String)> {
    v.iter().map(|(k, x)| (k.to_string(), x.to_string())).collect()
}

fn store(p: &Passwords, s: &mut MemoryStore, label: &str, password: &str, a: &Attributes) -> Result<bool, Error> {
    let mut pending: Pending<bool, Continuation<bool>> = Pending::new();
    let (out, k) = slot();
    let d = p.store(label, password, a, k, &mut pending)?;
    match d.request {
        Request::StorePassword { collection, attributes, label, password } => {
            let ok = s.store_password(collection, attributes, label, password);
            assert!(pending.complete(d.token, finish_flag(ok, None)));
        }
        other => panic!("unexpected request {:?}", other),
    }
    take(&out)
}

fn lookup(p: &Passwords, s: &MemoryStore, a: &Attributes) -> Result<String, Error> {
    let mut pending: Pending<String, Continuation<String>> = Pending::new();
    let (out, k) = slot();
    let d = p.lookup(a, k, &mut pending)?;
    match d.request {
        Request::LookupPassword { attributes } => {
            assert!(pending.complete(d.token, finish_text(s.lookup(&attributes), None)));
        }
        other => panic!("unexpected request {:?}", other),
    }
    take(&out)
}

fn search(p: &Passwords, s: &MemoryStore, a: &Attributes) -> Result<Vec<Item>, Error> {
    let mut pending: Pending<Vec<Item>, Continuation<Vec<Item>>> = Pending::new();
    let (out, k) = slot();
    let d = p.search_matching(a, k, &mut pending)?;
    match d.request {
        Request::SearchPasswords { attributes, flags } => {
            assert_eq!(flags.bits(), 14);
            let found = s.search(None, &attributes);
            let found = if found.is_empty() { None } else { Some(found) };
            assert!(pending.complete(d.token, finish_list(found, None)));
        }
        other => panic!("unexpected request {:?}", other),
    }
    take(&out)
}

fn clear(p: &Passwords, s: &mut MemoryStore, a: &Attributes) -> Result<bool, Error> {
    let mut pending: Pending<bool, Continuation<bool>> = Pending::new();
    let (out, k) = slot();
    let d = p.clear(a, k, &mut pending)?;
    match d.request {
        Request::ClearPasswords { attributes } => {
            let removed = s.clear(&attributes);
            assert!(pending.complete(d.token, finish_clear(removed, None)));
        }
        other => panic!("unexpected request {:?}", other),
    }
    take(&out)
}

#[test]
fn store_lookup_search_clear_scenario() {
    let p = Passwords::new(schema());
    let mut s = MemoryStore::new();
    let full = attrs(Some(8), Some(true));
    let eight = attrs(Some(8), None);

    assert_eq!(store(&p, &mut s, "L", "p", &full), Ok(true));
    assert_eq!(lookup(&p, &s, &full), Ok("p".to_string()));

    let items = search(&p, &s, &eight).unwrap();
    assert_eq!(items.len(), 1);
    assert_eq!(items[0].get_label(), "L");
    assert_eq!(items[0].get_attributes(), pairs(&[("number", "8"), ("even", "1")]));
    assert_eq!(items[0].get_secret(), Some(&"p".to_string()));
    let typed = items[0].typed_attributes(&p.schema).unwrap();
    assert_eq!(typed.get(&"number".to_string()), Some(&AttributeValue::Integer(8)));
    assert_eq!(typed.get(&"even".to_string()), Some(&AttributeValue::Boolean(true)));

    assert_eq!(clear(&p, &mut s, &eight), Ok(true));
    let gone = lookup(&p, &s, &full);
    assert!(matches!(gone, Err(Error::ServiceError { code: 3, .. })));
}

#[test]
fn search_and_clear_over_no_match() {
    let p = Passwords::new(schema());
    let mut s = MemoryStore::new();
    assert_eq!(search(&p, &s, &attrs(Some(1), None)).unwrap().len(), 0);
    assert_eq!(clear(&p, &mut s, &attrs(Some(1), None)), Ok(true));
    assert!(lookup(&p, &s, &attrs(Some(1), None)).is_err());
}

#[test]
fn undeclared_attribute_fails_before_dispatch() {
    let p = Passwords::new(schema());
    let mut pending: Pending<bool, Continuation<bool>> = Pending::new();
    let (out, k) = slot();
    let mut a = attrs(Some(8), None);
    a.insert("colour".to_string(), AttributeValue::String("red".to_string()));
    let r = p.store("L", "p", &a, k, &mut pending);
    assert_eq!(r.err().map(|e| e), Some(Error::SchemaMismatch));
    assert_eq!(pending.len(), 0);
    assert!(out.borrow().is_none());
}

#[test]
fn store_replaces_same_attributes() {
    let p = Passwords::new(schema());
    let mut s = MemoryStore::new();
    let full = attrs(Some(8), Some(true));
    assert_eq!(store(&p, &mut s, "L", "p", &full), Ok(true));
    assert_eq!(store(&p, &mut s, "L2", "q", &full), Ok(true));
    assert_eq!(store(&p, &mut s, "L3", "r", &attrs(Some(8), Some(false))), Ok(true));
    assert_eq!(s.len(), 2);
    assert_eq!(lookup(&p, &s, &full), Ok("q".to_string()));
    assert_eq!(search(&p, &s, &attrs(Some(8), None)).unwrap().len(), 2);
}

fn create(c: &Collection, sc: &Schema, s: &mut MemoryStore, label: &str, secret: &str, a: &Attributes) -> Result<Item, Error> {
    let mut pending: Pending<Item, Continuation<Item>> = Pending::new();
    let (out, k) = slot();
    let d = c.item_create(sc, label, secret, a, k, &mut pending)?;
    match d.request {
        Request::CreateItem { collection, attributes, label, secret, content_type, flags } => {
            assert_eq!(content_type, "text/plain");
            let item = s.create_item(collection, attributes, label, secret, flags.replace);
            assert!(pending.complete(d.token, finish_object(Some(item), None)));
        }
        other => panic!("unexpected request {:?}", other),
    }
    take(&out)
}

#[test]
fn item_create_with_replace_leaves_one_item() {
    let sc = schema();
    let c = Collection { path: "/org/freedesktop/secrets/collection/test".to_string(), label: "Test collection".to_string() };
    let mut s = MemoryStore::new();
    let a = attrs(Some(8), Some(true));
    let first = create(&c, &sc, &mut s, "Label 2", "Pass2", &a).unwrap();
    let second = create(&c, &sc, &mut s, "Label 3", "Pass3", &a).unwrap();
    assert_ne!(first.path, second.path);
    assert_eq!(second.path, "/org/freedesktop/secrets/collection/test/1");

    let mut pending: Pending<Vec<Item>, Continuation<Vec<Item>>> = Pending::new();
    let (out, k) = slot();
    let d = c.search(&sc, &a, k, &mut pending).unwrap();
    match d.request {
        Request::SearchCollection { collection, attributes, flags } => {
            assert!(flags.all && flags.unlock && flags.load_secrets);
            let found = s.search(Some(&collection), &attributes);
            assert!(pending.complete(d.token, finish_list(Some(found), None)));
        }
        other => panic!("unexpected request {:?}", other),
    }
    let items = take(&out).unwrap();
    assert_eq!(items.len(), 1);
    assert_eq!(items[0].get_label(), "Label 3");
    assert_eq!(items[0].get_secret(), Some(&"Pass3".to_string()));
}

#[test]
fn item_delete_removes_it_once() {
    let sc = schema();
    let c = Collection { path: "/c".to_string(), label: "C".to_string() };
    let mut s = MemoryStore::new();
    let item = create(&c, &sc, &mut s, "L", "p", &attrs(Some(1), None)).unwrap();

    let mut pending: Pending<bool, Continuation<bool>> = Pending::new();
    let (out, k) = slot();
    let d = item.delete(k, &mut pending);
    let path = match d.request {
        Request::DeleteItem { item } => item,
        other => panic!("unexpected request {:?}", other),
    };
    let r = s.delete_item(&path);
    assert!(pending.complete(d.token, finish_flag(r.is_ok(), r.err())));
    assert_eq!(take(&out), Ok(true));
    assert_eq!(s.len(), 0);

    let again = s.delete_item(&path);
    assert_eq!(again.as_ref().err().map(|e| e.code), Some(3));
    assert_eq!(finish_flag(again.is_ok(), again.err()).err().map(|e| e.is_not_found()), Some(true));
}

#[test]
fn entity_requests_carry_their_subject() {
    let mut pc: Pending<Collection, Continuation<Collection>> = Pending::new();
    let (_, k) = slot();
    let d = Collection::create("Test collection", k, &mut pc);
    assert!(matches!(d.request, Request::CreateCollection { ref label } if label == "Test collection"));

    let c = Collection { path: "/c/1".to_string(), label: "One".to_string() };
    assert_eq!(c.get_label(), "One");
    let mut pb: Pending<bool, Continuation<bool>> = Pending::new();
    let (_, k) = slot();
    let d = c.delete(k, &mut pb);
    assert!(matches!(d.request, Request::DeleteCollection { ref collection } if collection == "/c/1"));

    let mut ps: Pending<Service, Continuation<Service>> = Pending::new();
    let (_, k) = slot();
    let d = Service::get(k, &mut ps);
    assert!(matches!(d.request, Request::GetService { flags } if flags.bits() == 0));

    let mut service = Service::connected();
    assert!(!service.collections_loaded());
    let (_, k) = slot();
    let d = service.load_collections(k, &mut pb);
    assert!(matches!(d.request, Request::LoadCollections));
    assert_eq!(pb.len(), 2);
    service.set_collections(vec![c.clone()]);
    assert!(service.collections_loaded());
    assert_eq!(service.get_collections()[0].get_label(), "One");

    let p = Passwords::new(schema());
    let mut pv: Pending<Vec<Item>, Continuation<Vec<Item>>> = Pending::new();
    let (_, k) = slot();
    let d = p.search(k, &mut pv);
    assert!(matches!(d.request, Request::SearchPasswords { ref attributes, flags } if attributes.is_empty() && flags.bits() == 14));
}

#[test]
fn stored_password_goes_to_default_collection() {
    let p = Passwords::new(schema());
    let mut s = MemoryStore::new();
    assert_eq!(store(&p, &mut s, "L", "p", &attrs(Some(2), Some(true))), Ok(true));
    let default = secret::memory::default_collection();
    assert_eq!(default, "/org/freedesktop/secrets/aliases/default");
    let found = s.search(Some(&default), &vec![]);
    assert_eq!(found.len(), 1);
    assert_eq!(found[0].path, "/org/freedesktop/secrets/aliases/default/0");
    assert_eq!(s.search(Some(&"/elsewhere".to_string()), &vec![]).len(), 0);
}
