use std::cell::{Cell, RefCell};
use std::rc::Rc;

use secret::bridge::Pending;
use secret::completion::{finish_clear, finish_flag, finish_list, finish_object, finish_text, NativeError};
use secret::error::{Error, NO_SUCH_OBJECT};
use secret::flags::{ItemCreateFlags, SearchFlags, ServiceFlags};

type Continuation = Box<dyn FnOnce(Result<bool, Error>)>;

struct DropCounter(Rc<Cell<u32>>);

impl Drop for DropCounter {
    fn drop(&mut self) {
        self.0.set(self.0.get() + 1);
    }
}

fn counted(calls: &Rc<Cell<u32>>, drops: &Rc<Cell<u32>>, seen: &Rc<RefCell<Vec<Result<bool, Error>>>>) -> Continuation {
    let calls = calls.clone();
    let guard = DropCounter(drops.clone());
    let seen = seen.clone();
    Box::new(move |r| {
        let _g = &guard;
        calls.set(calls.get() + 1);
        seen.borrow_mut().push(r);
    })
}

fn native(code: i32, message: &str) -> NativeError {
    NativeError { code, message: message.to_string() }
}

#[test]
fn each_continuation_runs_once_and_is_released() {
    let calls = Rc::new(Cell::new(0));
    let drops = Rc::new(Cell::new(0));
    let seen = Rc::new(RefCell::new(vec![]));
    let mut pending: Pending<bool, Continuation> = Pending::new();
    let a = pending.register(counted(&calls, &drops, &seen));
    let b = pending.register(counted(&calls, &drops, &seen));
    let c = pending.register(counted(&calls, &drops, &seen));
    assert_ne!(a, b);
    assert_ne!(b, c);
    assert_eq!(pending.len(), 3);
    assert!(pending.is_pending(b));

    assert!(pending.complete(b, finish_flag(false, Some(native(2, "locked")))));
    assert!(pending.complete(a, finish_flag(true, None)));
    assert!(pending.complete(c, finish_clear(false, None)));
    assert_eq!(calls.get(), 3);
    assert_eq!(drops.get(), 3);
    assert_eq!(pending.len(), 0);
    assert_eq!(
        *seen.borrow(),
        vec![
            Err(Error::ServiceError { code: 2, message: "locked".to_string() }),
            Ok(true),
            Ok(true),
        ]
    );

    assert!(!pending.complete(a, Ok(true)));
    assert!(!pending.complete(b, Err(Error::DecodeError)));
    assert!(!pending.is_pending(a));
    assert_eq!(calls.get(), 3);
    assert_eq!(drops.get(), 3);
}

#[test]
fn unknown_token_changes_nothing() {
    let calls = Rc::new(Cell::new(0));
    let drops = Rc::new(Cell::new(0));
    let seen = Rc::new(RefCell::new(vec![]));
    let mut pending: Pending<bool, Continuation> = Pending::new();
    let t = pending.register(counted(&calls, &drops, &seen));
    assert!(!pending.complete(t + 1, Ok(true)));
    assert_eq!(pending.len(), 1);
    assert_eq!(calls.get(), 0);
    assert_eq!(drops.get(), 0);
    assert!(pending.has_capacity());
    assert!(pending.complete(t, Ok(false)));
    assert_eq!(*seen.borrow(), vec![Ok(false)]);
}

#[test]
fn search_over_nothing_is_empty_list() {
    let r: Result<Vec<u32>, Error> = finish_list(None, None);
    assert_eq!(r, Ok(vec![]));
    let r: Result<Vec<u32>, Error> = finish_list(Some(vec![]), None);
    assert_eq!(r, Ok(vec![]));
    let r: Result<Vec<u32>, Error> = finish_list(Some(vec![3, 1, 2]), None);
    assert_eq!(r, Ok(vec![3, 1, 2]));
    let r: Result<Vec<u32>, Error> = finish_list(Some(vec![1]), Some(native(1, "protocol")));
    assert_eq!(r, Err(Error::ServiceError { code: 1, message: "protocol".to_string() }));
}

#[test]
fn clear_over_nothing_is_true() {
    assert_eq!(finish_clear(false, None), Ok(true));
    assert_eq!(finish_clear(true, None), Ok(true));
    assert_eq!(
        finish_clear(false, Some(native(2, "locked"))),
        Err(Error::ServiceError { code: 2, message: "locked".to_string() })
    );
}

#[test]
fn lookup_of_nothing_is_an_error() {
    let r = finish_text(None, None);
    assert!(r.is_err());
    assert_ne!(r, Ok(String::new()));
    assert!(r.unwrap_err().is_not_found());
    assert_eq!(finish_text(Some("p".to_string()), None), Ok("p".to_string()));
    assert_eq!(
        finish_text(Some("p".to_string()), Some(native(7, "no attribute"))),
        Err(Error::ServiceError { code: 7, message: "no attribute".to_string() })
    );
}

#[test]
fn flag_and_object_completions() {
    assert_eq!(finish_flag(true, None), Ok(true));
    assert_eq!(finish_flag(false, None), Ok(false));
    assert_eq!(finish_object(Some(5u8), None), Ok(5));
    assert_eq!(finish_object::<u8>(None, None), Err(Error::DecodeError));
    assert_eq!(
        finish_object::<u8>(None, Some(native(NO_SUCH_OBJECT, "gone"))),
        Err(Error::ServiceError { code: NO_SUCH_OBJECT, message: "gone".to_string() })
    );
    assert!(Error::not_found().is_not_found());
    assert!(!Error::DecodeError.is_not_found());
}

#[test]
fn flag_sets_combine_and_map_to_bits() {
    let d = SearchFlags::default_search();
    assert_eq!(d.bits(), 2 | 4 | 8);
    assert_eq!(SearchFlags::none().bits(), 0);
    let only_all = SearchFlags { all: true, unlock: false, load_secrets: false };
    let only_unlock = SearchFlags { all: false, unlock: true, load_secrets: false };
    let u = only_all.union(only_unlock);
    assert_eq!(u.bits(), 6);
    assert!(u.contains(only_all));
    assert!(!only_all.contains(u));
    assert!(d.contains(u));
    assert_eq!(ItemCreateFlags::replace().bits(), 2);
    assert_eq!(ItemCreateFlags::none().bits(), 0);
    assert_eq!(ServiceFlags::none().bits(), 0);
    assert_eq!(ServiceFlags { open_session: true, load_collections: true }.bits(), 6);
}

#[test]
fn take_hands_out_a_continuation_once() {
    let calls = Rc::new(Cell::new(0));
    let drops = Rc::new(Cell::new(0));
    let seen = Rc::new(RefCell::new(vec![]));
    let mut pending: Pending<bool, Continuation> = Pending::new();
    let t = pending.register(counted(&calls, &drops, &seen));
    let k = pending.take(t).expect("registered continuation");
    assert_eq!(pending.len(), 0);
    assert!(pending.take(t).is_none());
    assert!(!pending.complete(t, Ok(true)));
    k(Err(Error::DecodeError));
    assert_eq!(calls.get(), 1);
    assert_eq!(drops.get(), 1);
    assert_eq!(*seen.borrow(), vec![Err(Error::DecodeError)]);
}
