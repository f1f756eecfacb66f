use mail_thread::{Hold, Marker, MessageEntry, Thread, ThreadExt, ThreadOwner, ThreadRecord, ThreadRef};
use std::cell::Cell;
use std::rc::Rc;
use std::sync::atomic::{AtomicUsize, Ordering};
use std::sync::Arc;

/// An owner that counts how often it is destroyed.
struct Query {
    destroyed: Rc<Cell<u32>>,
}

impl ThreadOwner for Query {}

impl Drop for Query {
    fn drop(&mut self) {
        self.destroyed.set(self.destroyed.get() + 1);
    }
}

/// An owner that can be shared between holders.
struct Database {
    destroyed: Arc<AtomicUsize>,
}

impl ThreadOwner for Database {}

impl Drop for Database {
    fn drop(&mut self) {
        self.destroyed.fetch_add(1, Ordering::SeqCst);
    }
}

fn record() -> ThreadRecord {
    ThreadRecord {
        id: "0000000000000007".as_bytes().to_vec(),
        subject: "hello".as_bytes().to_vec(),
        authors: "Alice,Bob".as_bytes().to_vec(),
        total_messages: 2,
        total_files: 2,
        oldest_date: 100,
        newest_date: 200,
        messages: vec![
            MessageEntry { handle: 0x10, date: 100 },
            MessageEntry { handle: 0x20, date: 200 },
        ],
        toplevel: vec![MessageEntry { handle: 0x10, date: 100 }],
        tags: vec![b"inbox".to_vec()],
    }
}

#[test]
fn marker_names_how_it_holds() {
    let counter = Rc::new(Cell::new(0));
    let borrowed_from = Query { destroyed: counter.clone() };
    assert_eq!(Marker::borrowed(&borrowed_from).hold(), Hold::Borrowed);
    assert_eq!(Marker::owned(Query { destroyed: counter.clone() }).hold(), Hold::Exclusive);
    let shared = Arc::new(Database { destroyed: Arc::new(AtomicUsize::new(0)) });
    assert_eq!(Marker::shared(shared).hold(), Hold::Shared);
}

#[test]
fn thread_holds_its_owner_as_it_was_given() {
    let counter = Rc::new(Cell::new(0));
    let owner = Query { destroyed: counter.clone() };
    let borrowing = Thread::<Query>::from_ptr(0x100, record(), &owner);
    assert_eq!(borrowing.hold(), Hold::Borrowed);
    let owning = Thread::<Query>::from_ptr(0x200, record(), Query { destroyed: counter.clone() });
    assert_eq!(owning.hold(), Hold::Exclusive);
    let database = Arc::new(Database { destroyed: Arc::new(AtomicUsize::new(0)) });
    let sharing = Thread::<Database>::from_ptr(0x300, record(), database);
    assert_eq!(sharing.hold(), Hold::Shared);
}

#[test]
fn exclusive_owner_goes_once_with_the_thread() {
    let counter = Rc::new(Cell::new(0));
    let thread = Thread::<Query>::from_ptr(0x100, record(), Query { destroyed: counter.clone() });
    assert_eq!(counter.get(), 0);
    assert_eq!(thread.total_messages(), 2);
    assert_eq!(counter.get(), 0);
    drop(thread);
    assert_eq!(counter.get(), 1);
}

#[test]
fn exclusive_owner_goes_once_on_release() {
    let counter = Rc::new(Cell::new(0));
    let thread = Thread::<Query>::from_ptr(0x100, record(), Query { destroyed: counter.clone() });
    let (ptr, marker) = thread.release();
    assert_eq!(ptr, 0x100);
    assert_eq!(marker.hold(), Hold::Exclusive);
    assert_eq!(counter.get(), 0);
    drop(marker);
    assert_eq!(counter.get(), 1);
}

/// Stands for the native side: counts the calls that destroy an object.
struct Native {
    destroyed: Vec<usize>,
}

/// What owns a thread where the native calls are made: on its way out it
/// destroys the native object, then lets the owner go.
struct Guard<'n, 'o> {
    native: &'n std::cell::RefCell<Native>,
    thread: Option<Thread<'o, Query>>,
}

impl<'n, 'o> Drop for Guard<'n, 'o> {
    fn drop(&mut self) {
        if let Some(thread) = self.thread.take() {
            let (ptr, marker) = thread.release();
            self.native.borrow_mut().destroyed.push(ptr);
            drop(marker);
        }
    }
}

#[test]
fn native_object_is_destroyed_once_and_before_its_owner() {
    let native = std::cell::RefCell::new(Native { destroyed: Vec::new() });
    let counter = Rc::new(Cell::new(0));
    let thread = Thread::<Query>::from_ptr(0x4000, record(), Query { destroyed: counter.clone() });
    let guard = Guard { native: &native, thread: Some(thread) };
    assert_eq!(guard.thread.as_ref().unwrap().total_messages(), 2);
    assert!(native.borrow().destroyed.is_empty());
    drop(guard);
    assert_eq!(native.borrow().destroyed, vec![0x4000]);
    assert_eq!(counter.get(), 1);
}

#[test]
fn borrowed_owner_outlives_the_thread() {
    let counter = Rc::new(Cell::new(0));
    let owner = Query { destroyed: counter.clone() };
    let thread = Thread::<Query>::from_ptr(0x100, record(), &owner);
    drop(thread);
    assert_eq!(counter.get(), 0);
    drop(owner);
    assert_eq!(counter.get(), 1);
}

#[test]
fn shared_owner_goes_with_its_last_holder() {
    let destroyed = Arc::new(AtomicUsize::new(0));
    let database = Arc::new(Database { destroyed: destroyed.clone() });
    let first = Thread::<Database>::from_ptr(0x100, record(), database.clone());
    let second = Thread::<Database>::from_ptr(0x200, record(), database.clone());
    assert_eq!(Arc::strong_count(&database), 3);
    drop(database);
    assert_eq!(destroyed.load(Ordering::SeqCst), 0);
    drop(first);
    assert_eq!(destroyed.load(Ordering::SeqCst), 0);
    assert_eq!(second.id(), "0000000000000007");
    drop(second);
    assert_eq!(destroyed.load(Ordering::SeqCst), 1);
}

#[test]
fn list_from_owned_thread_keeps_thread_and_owner() {
    let counter = Rc::new(Cell::new(0));
    let thread = Thread::<Query>::from_ptr(0x100, record(), Query { destroyed: counter.clone() });
    let messages = <Thread<Query> as ThreadExt<Query>>::messages(thread);
    assert_eq!(messages.hold(), Hold::Exclusive);
    assert_eq!(counter.get(), 0);
    assert_eq!(messages.len(), 2);
    assert_eq!(messages.get(1), Some(MessageEntry { handle: 0x20, date: 200 }));
    drop(messages);
    assert_eq!(counter.get(), 1);
}

#[test]
fn list_from_shared_thread_is_one_more_holder() {
    let destroyed = Arc::new(AtomicUsize::new(0));
    let database = Database { destroyed: destroyed.clone() };
    let thread = Arc::new(Thread::<Database>::from_ptr(0x100, record(), database));
    let messages = <Thread<Database> as ThreadExt<Database>>::messages(thread.clone());
    assert_eq!(messages.hold(), Hold::Shared);
    assert_eq!(Arc::strong_count(&thread), 2);
    let tags = <Thread<Database> as ThreadExt<Database>>::tags(thread.clone());
    assert_eq!(tags.hold(), Hold::Shared);
    assert_eq!(Arc::strong_count(&thread), 3);
    let top = <Thread<Database> as ThreadExt<Database>>::toplevel_messages(thread.clone());
    assert_eq!(top.hold(), Hold::Shared);
    assert_eq!(Arc::strong_count(&thread), 4);
    drop(thread);
    assert_eq!(destroyed.load(Ordering::SeqCst), 0);
    assert_eq!(messages.len(), 2);
    drop(messages);
    drop(top);
    assert_eq!(destroyed.load(Ordering::SeqCst), 0);
    assert_eq!(tags.get(0), Some(String::from("inbox")));
    drop(tags);
    assert_eq!(destroyed.load(Ordering::SeqCst), 1);
}

#[test]
fn list_from_borrowed_thread_holds_nothing() {
    let counter = Rc::new(Cell::new(0));
    let owner = Query { destroyed: counter.clone() };
    let thread = Thread::<Query>::from_ptr(0x100, record(), &owner);
    let by_method = thread.messages();
    let by_trait = <Thread<Query> as ThreadExt<Query>>::messages(&thread);
    assert_eq!(by_method.hold(), Hold::Borrowed);
    assert_eq!(by_trait.hold(), Hold::Borrowed);
    assert_eq!(by_method.len(), by_trait.len());
    assert_eq!(by_method.get(0), by_trait.get(0));
    drop(by_method);
    drop(by_trait);
    assert_eq!(counter.get(), 0);
    assert_eq!(thread.release().0, 0x100);
}

#[test]
fn all_three_forms_give_the_same_lists() {
    let counter = Rc::new(Cell::new(0));
    let borrowed_owner = Query { destroyed: counter.clone() };
    let borrowed = Thread::<Query>::from_ptr(0x100, record(), &borrowed_owner);
    let owned = Thread::<Query>::from_ptr(0x100, record(), Query { destroyed: counter.clone() });
    let shared = Arc::new(Thread::<Query>::from_ptr(0x100, record(), Query { destroyed: counter.clone() }));
    let a = <Thread<Query> as ThreadExt<Query>>::toplevel_messages(&borrowed);
    let b = <Thread<Query> as ThreadExt<Query>>::toplevel_messages(owned);
    let c = <Thread<Query> as ThreadExt<Query>>::toplevel_messages(shared);
    assert_eq!((a.hold(), b.hold(), c.hold()), (Hold::Borrowed, Hold::Exclusive, Hold::Shared));
    assert_eq!((a.len(), b.len(), c.len()), (1, 1, 1));
    assert_eq!(a.get(0), Some(MessageEntry { handle: 0x10, date: 100 }));
    assert_eq!(a.get(0), b.get(0));
    assert_eq!(a.get(0), c.get(0));
}

#[test]
fn thread_reference_reads_the_thread_in_every_form() {
    let counter = Rc::new(Cell::new(0));
    let owner = Query { destroyed: counter.clone() };
    let thread = Thread::<Query>::from_ptr(0x100, record(), &owner);
    let by_borrow: ThreadRef<Query> = (&thread).into();
    assert_eq!(by_borrow.get().subject(), "hello");
    assert_eq!(by_borrow.phantom().hold(), Hold::Borrowed);
    let by_value: ThreadRef<Query> = Thread::<Query>::from_ptr(0x200, record(), &owner).into();
    assert_eq!(by_value.get().oldest_date(), 100);
    assert_eq!(by_value.phantom().hold(), Hold::Exclusive);
    let by_share: ThreadRef<Query> = Arc::new(Thread::<Query>::from_ptr(0x300, record(), &owner)).into();
    assert_eq!(by_share.get().newest_date(), 200);
    assert_eq!(by_share.phantom().hold(), Hold::Shared);
}
