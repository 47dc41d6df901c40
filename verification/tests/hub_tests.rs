use std::cell::RefCell;
use std::rc::Rc;

use event_core::host::Listener;
use event_core::hub::EventHub;

/// A test listener that records every invocation and can be told to raise.
#[derive(Clone)]
struct Rec {
    tag: &'static str,
    fail: bool,
    log: Rc<RefCell<Vec<String>>>,
}

impl Rec {
    fn new(tag: &'static str, fail: bool, log: &Rc<RefCell<Vec<String>>>) -> Rec {
        Rec { tag, fail, log: Rc::clone(log) }
    }
}

impl Listener<String, usize, String> for Rec {
    fn invoke(&self, args: &String) -> Result<usize, String> {
        self.log.borrow_mut().push(format!("{}({})", self.tag, args));
        if self.fail {
            Err(format!("raised by {}", self.tag))
        } else {
            Ok(self.tag.len())
        }
    }

    fn invoke_all(&self, event: &String, args: &String) -> Result<usize, String> {
        self.log.borrow_mut().push(format!("{}[{}]({})", self.tag, event, args));
        Ok(0)
    }
}

fn dispatch(hub: &EventHub<Rec>, name: &str, args: &str) -> Result<(), String> {
    hub.dispatch::<String, usize, String>(&name.to_string(), &args.to_string())
}

fn dispatch_with_results(
    hub: &EventHub<Rec>,
    name: &str,
    args: &str,
) -> (Vec<Option<usize>>, Vec<Option<String>>) {
    hub.dispatch_with_results::<String, usize, String>(&name.to_string(), &args.to_string())
}

#[test]
fn duplicate_registration_invokes_once() {
    let log = Rc::new(RefCell::new(Vec::new()));
    let mut hub: EventHub<Rec> = EventHub::new(false);
    hub.on(&"x".to_string(), 1, Rec::new("l", false, &log));
    hub.on(&"x".to_string(), 1, Rec::new("l-again", false, &log));
    assert!(dispatch(&hub, "x", "a").is_ok());
    assert_eq!(*log.borrow(), vec!["l(a)".to_string()]);
}

#[test]
fn most_recently_registered_runs_first() {
    let log = Rc::new(RefCell::new(Vec::new()));
    let mut hub: EventHub<Rec> = EventHub::new(false);
    hub.on(&"x".to_string(), 1, Rec::new("older", false, &log));
    hub.on(&"x".to_string(), 2, Rec::new("newer", false, &log));
    assert!(dispatch(&hub, "x", "a").is_ok());
    assert_eq!(*log.borrow(), vec!["newer(a)".to_string(), "older(a)".to_string()]);
}

#[test]
fn removed_listener_is_never_invoked() {
    let log = Rc::new(RefCell::new(Vec::new()));
    let mut hub: EventHub<Rec> = EventHub::new(false);
    hub.on(&"x".to_string(), 1, Rec::new("gone", false, &log));
    hub.on(&"x".to_string(), 2, Rec::new("kept", false, &log));
    hub.remove(&"x".to_string(), 1);
    assert!(dispatch(&hub, "x", "a").is_ok());
    assert_eq!(*log.borrow(), vec!["kept(a)".to_string()]);
}

#[test]
fn remove_is_a_noop_for_unknown_identity() {
    let log = Rc::new(RefCell::new(Vec::new()));
    let mut hub: EventHub<Rec> = EventHub::new(false);
    hub.on(&"x".to_string(), 1, Rec::new("kept", false, &log));
    hub.remove(&"x".to_string(), 9);
    hub.remove(&"y".to_string(), 1);
    assert!(hub.has_listeners(&"x".to_string()));
    assert!(dispatch(&hub, "x", "a").is_ok());
    assert_eq!(*log.borrow(), vec!["kept(a)".to_string()]);
}

#[test]
fn has_listeners_reflects_registrations() {
    let log = Rc::new(RefCell::new(Vec::new()));
    let mut hub: EventHub<Rec> = EventHub::new(false);
    assert!(!hub.has_listeners(&"x".to_string()));
    hub.on(&"x".to_string(), 1, Rec::new("l", false, &log));
    assert!(hub.has_listeners(&"x".to_string()));
    assert!(!hub.has_listeners(&"y".to_string()));
    hub.remove(&"x".to_string(), 1);
    assert!(!hub.has_listeners(&"x".to_string()));
}

#[test]
fn reset_clears_every_name() {
    let log = Rc::new(RefCell::new(Vec::new()));
    let mut hub: EventHub<Rec> = EventHub::new(false);
    hub.on(&"x".to_string(), 1, Rec::new("a", false, &log));
    hub.on(&"y".to_string(), 2, Rec::new("b", false, &log));
    hub.on_all(3, Rec::new("g", false, &log));
    hub.reset();
    assert!(!hub.has_listeners(&"x".to_string()));
    assert!(!hub.has_listeners(&"y".to_string()));
    assert!(dispatch(&hub, "x", "a").is_ok());
    assert!(log.borrow().is_empty());
}

#[test]
fn collecting_dispatch_aligns_results_with_listener_order() {
    let log = Rc::new(RefCell::new(Vec::new()));
    let mut hub: EventHub<Rec> = EventHub::new(false);
    // Registered oldest first, so invocation order is c, b-fails, a.
    hub.on(&"x".to_string(), 1, Rec::new("a", false, &log));
    hub.on(&"x".to_string(), 2, Rec::new("b", true, &log));
    hub.on(&"x".to_string(), 3, Rec::new("c", false, &log));
    hub.on_all(4, Rec::new("g", false, &log));
    let (results, errors) = dispatch_with_results(&hub, "x", "a");
    assert_eq!(results, vec![Some(1), None, Some(1)]);
    assert_eq!(errors, vec![None, Some("raised by b".to_string()), None]);
    // Global listener ran exactly once, with the event name and arguments.
    let log = log.borrow();
    assert_eq!(log.iter().filter(|e| e.starts_with("g")).count(), 1);
    assert_eq!(log.last().unwrap(), "g[x](a)");
}

#[test]
fn fire_and_forget_swallows_listener_errors() {
    let log = Rc::new(RefCell::new(Vec::new()));
    let mut hub: EventHub<Rec> = EventHub::new(false);
    hub.on(&"x".to_string(), 1, Rec::new("bad", true, &log));
    hub.on(&"x".to_string(), 2, Rec::new("good", false, &log));
    assert_eq!(dispatch(&hub, "x", "a"), Ok(()));
    assert_eq!(*log.borrow(), vec!["good(a)".to_string(), "bad(a)".to_string()]);
}

#[test]
fn raise_mode_stops_named_listeners_but_runs_global() {
    let log = Rc::new(RefCell::new(Vec::new()));
    let mut hub: EventHub<Rec> = EventHub::new(true);
    // Invocation order: ok-first, bad, skipped.
    hub.on(&"x".to_string(), 1, Rec::new("skipped", false, &log));
    hub.on(&"x".to_string(), 2, Rec::new("bad", true, &log));
    hub.on(&"x".to_string(), 3, Rec::new("ok-first", false, &log));
    hub.on_all(4, Rec::new("g", false, &log));
    let r = dispatch(&hub, "x", "a");
    assert_eq!(r, Err("raised by bad".to_string()));
    assert_eq!(
        *log.borrow(),
        vec!["ok-first(a)".to_string(), "bad(a)".to_string(), "g[x](a)".to_string()],
    );
}

#[test]
fn global_listeners_receive_every_event() {
    let log = Rc::new(RefCell::new(Vec::new()));
    let mut hub: EventHub<Rec> = EventHub::new(false);
    hub.on_all(1, Rec::new("g", false, &log));
    hub.on_all(1, Rec::new("g-again", false, &log));
    assert!(dispatch(&hub, "x", "a").is_ok());
    assert!(dispatch(&hub, "y", "b").is_ok());
    assert_eq!(*log.borrow(), vec!["g[x](a)".to_string(), "g[y](b)".to_string()]);
}

#[test]
fn snapshot_lets_a_binding_invoke_after_releasing() {
    let log = Rc::new(RefCell::new(Vec::new()));
    let mut hub: EventHub<Rec> = EventHub::new(false);
    hub.on(&"x".to_string(), 1, Rec::new("older", false, &log));
    hub.on(&"x".to_string(), 2, Rec::new("newer", false, &log));
    hub.on_all(3, Rec::new("g", false, &log));
    let named = hub.listeners_snapshot(&"x".to_string());
    let globals = hub.global_snapshot();
    assert_eq!(named.iter().map(|e| e.0).collect::<Vec<_>>(), vec![2, 1]);
    assert_eq!(globals.iter().map(|e| e.0).collect::<Vec<_>>(), vec![3]);
    // The snapshot stays invocable while the registry mutates underneath —
    // the reentrant-registration pattern a shared binding uses.
    hub.remove(&"x".to_string(), 2);
    for (_, l) in &named {
        let _ = l.invoke(&"a".to_string());
    }
    for (_, g) in &globals {
        let _ = g.invoke_all(&"x".to_string(), &"a".to_string());
    }
    assert_eq!(
        *log.borrow(),
        vec!["newer(a)".to_string(), "older(a)".to_string(), "g[x](a)".to_string()],
    );
    assert!(hub.listeners_snapshot(&"y".to_string()).is_empty());
}
