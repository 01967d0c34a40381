use std::cell::{Cell, RefCell};
use std::rc::Rc;

use prjfs::conv::{WStr, WStrExt};
use prjfs::dirinfo::{BasicInfo, DirEntry};
use prjfs::filedata::{FileDataTransfer, TransferAction, TransferEvent, TransferPhase};
use prjfs::guid::Guid;
use prjfs::provider::{
    status_from_result, CallbackRequest, DirEntryBufferHandle, InstanceContext, Provider,
    ProviderError, ProviderT,
};
use prjfs::regfs::{RegFs, State};
use prjfs::status::{
    E_ACCESS_DENIED, E_FILE_NOT_FOUND, E_INVALIDARG, E_OUTOFMEMORY, GENERIC_FAILURE, S_OK,
};
use prjfs::sys;

fn text(w: &WStr) -> String {
    String::from_utf16(&w.as_slice()[..w.len()]).unwrap()
}

fn by_units(a: &WStr, b: &WStr) -> i32 {
    let x = &a.as_slice()[..a.len()];
    let y = &b.as_slice()[..b.len()];
    if x < y {
        -1
    } else if x == y {
        0
    } else {
        1
    }
}

fn id(n: u32) -> Guid {
    Guid { data1: n, data2: 0, data3: 0, data4: [0; 8] }
}

fn request(path: &str, flags: u32) -> CallbackRequest {
    CallbackRequest {
        file_path_name: path.to_wstr(),
        triggering_process_image_file_name: "explorer.exe".to_wstr(),
        flags,
    }
}

fn listing(names: &[&str]) -> Vec<DirEntry> {
    names
        .iter()
        .enumerate()
        .map(|(i, name)| DirEntry {
            filename: name.to_wstr(),
            is_directory: i % 2 == 0,
            size: i as i64,
        })
        .collect()
}

const BUFFER: DirEntryBufferHandle = DirEntryBufferHandle { handle: 0xB0 };

/// A host buffer with room for `room` entries.
struct Buffer {
    room: usize,
    taken: RefCell<Vec<String>>,
}

impl Buffer {
    fn new(room: usize) -> Buffer {
        Buffer { room, taken: RefCell::new(Vec::new()) }
    }

    fn append(&self, name: &WStr, _info: BasicInfo) -> i32 {
        if self.taken.borrow().len() < self.room {
            self.taken.borrow_mut().push(text(name));
            S_OK
        } else {
            0x8007_007Au32 as i32
        }
    }

    fn names(&self) -> Vec<String> {
        self.taken.borrow().clone()
    }
}

fn batch(state: &mut State, session: &Guid, restart: bool, names: &[&str], room: usize) -> (
    Result<usize, ProviderError>,
    Vec<String>,
) {
    let buffer = Buffer::new(room);
    let r = state.advance(
        session,
        restart,
        &"*".to_wstr(),
        BUFFER,
        &|_path: &WStr, _search: &WStr| listing(names),
        &by_units,
        &|_buffer: DirEntryBufferHandle, name: &WStr, info: BasicInfo| buffer.append(name, info),
    );
    (r, buffer.names())
}

#[test]
fn a_batch_for_an_unknown_session_is_invalid() {
    let mut state = State::new();
    let (r, taken) = batch(&mut state, &id(1), false, &["a"], 10);
    assert_eq!(r, Err(ProviderError::InvalidSession));
    assert!(taken.is_empty());
    assert!(!state.contains(&id(1)));
}

#[test]
fn a_batch_after_end_is_invalid() {
    let mut state = State::new();
    state.begin(&id(1), "dir".to_wstr());
    let (r, _) = batch(&mut state, &id(1), false, &["a", "b"], 1);
    assert_eq!(r, Ok(1));
    state.end(&id(1));
    let (r, taken) = batch(&mut state, &id(1), false, &["a", "b"], 10);
    assert_eq!(r, Err(ProviderError::InvalidSession));
    assert!(taken.is_empty());
    let (r, _) = batch(&mut state, &id(1), true, &["a", "b"], 10);
    assert_eq!(r, Err(ProviderError::InvalidSession));
}

#[test]
fn a_batch_after_end_stays_invalid_whatever_other_sessions_do() {
    let mut state = State::new();
    state.begin(&id(1), "one".to_wstr());
    state.begin(&id(2), "two".to_wstr());
    state.end(&id(1));
    state.begin(&id(3), "three".to_wstr());
    let (r, _) = batch(&mut state, &id(2), false, &["x"], 10);
    assert_eq!(r, Ok(1));
    state.end(&id(3));
    let (r, _) = batch(&mut state, &id(1), false, &["a"], 10);
    assert_eq!(r, Err(ProviderError::InvalidSession));
}

#[test]
fn ending_a_session_twice_is_no_error() {
    let mut state = State::new();
    state.begin(&id(1), "dir".to_wstr());
    state.end(&id(1));
    state.end(&id(1));
    state.end(&id(9));
    assert!(!state.contains(&id(1)));
}

#[test]
fn beginning_again_replaces_the_session() {
    let mut state = State::new();
    state.begin(&id(1), "old".to_wstr());
    let (r, _) = batch(&mut state, &id(1), false, &["a", "b"], 10);
    assert_eq!(r, Ok(2));
    state.begin(&id(1), "new".to_wstr());
    let session = state.get(&id(1)).unwrap();
    assert_eq!(text(session.path()), "new");
    assert_eq!(session.index(), 0);
    assert!(!session.filled());
}

#[test]
fn the_listing_is_sorted_and_handed_out_in_batches() {
    let mut state = State::new();
    state.begin(&id(1), "dir".to_wstr());
    let names = ["d", "b", "e", "a", "c"];
    let (r, taken) = batch(&mut state, &id(1), false, &names, 2);
    assert_eq!(r, Ok(2));
    assert_eq!(taken, vec!["a", "b"]);
    assert_eq!(state.get(&id(1)).unwrap().index(), 2);
    let (r, taken) = batch(&mut state, &id(1), false, &["ignored"], 2);
    assert_eq!(r, Ok(2));
    assert_eq!(taken, vec!["c", "d"]);
    let (r, taken) = batch(&mut state, &id(1), false, &["ignored"], 2);
    assert_eq!(r, Ok(1));
    assert_eq!(taken, vec!["e"]);
    let (r, taken) = batch(&mut state, &id(1), false, &["ignored"], 2);
    assert_eq!(r, Ok(0));
    assert!(taken.is_empty());
    assert_eq!(state.get(&id(1)).unwrap().index(), 5);
}

#[test]
fn the_backing_store_is_asked_once_per_session() {
    let mut state = State::new();
    state.begin(&id(1), "dir".to_wstr());
    let asked = Cell::new(0);
    for _ in 0..3 {
        let buffer = Buffer::new(1);
        let r = state.advance(
            &id(1),
            false,
            &"*".to_wstr(),
            BUFFER,
            &|_path: &WStr, _search: &WStr| {
                asked.set(asked.get() + 1);
                listing(&["a", "b", "c"])
            },
            &by_units,
            &|_buffer: DirEntryBufferHandle, name: &WStr, info: BasicInfo| {
                buffer.append(name, info)
            },
        );
        assert_eq!(r, Ok(1));
    }
    assert_eq!(asked.get(), 1);
}

#[test]
fn the_backing_store_is_asked_for_the_directory_of_the_session() {
    let mut state = State::new();
    state.begin(&id(1), "HKEY_USERS\\x".to_wstr());
    let asked = RefCell::new(Vec::new());
    let buffer = Buffer::new(10);
    let r = state.advance(
        &id(1),
        false,
        &"*.txt".to_wstr(),
        BUFFER,
        &|path: &WStr, search: &WStr| {
            asked.borrow_mut().push((text(path), text(search)));
            Vec::new()
        },
        &by_units,
        &|_buffer: DirEntryBufferHandle, name: &WStr, info: BasicInfo| buffer.append(name, info),
    );
    assert_eq!(r, Ok(0));
    assert_eq!(*asked.borrow(), vec![("HKEY_USERS\\x".to_string(), "*.txt".to_string())]);
}

#[test]
fn the_host_is_given_name_and_metadata_of_each_entry() {
    let mut state = State::new();
    state.begin(&id(1), "dir".to_wstr());
    let seen = RefCell::new(Vec::new());
    let r = state.advance(
        &id(1),
        false,
        &"".to_wstr(),
        DirEntryBufferHandle { handle: 77 },
        &|_path: &WStr, _search: &WStr| {
            vec![
                DirEntry { filename: "file".to_wstr(), is_directory: false, size: 42 },
                DirEntry { filename: "dir".to_wstr(), is_directory: true, size: 0 },
            ]
        },
        &by_units,
        &|buffer: DirEntryBufferHandle, name: &WStr, info: BasicInfo| {
            seen.borrow_mut().push((buffer.handle, text(name), info));
            S_OK
        },
    );
    assert_eq!(r, Ok(2));
    assert_eq!(
        *seen.borrow(),
        vec![
            (77, "dir".to_string(), BasicInfo { is_directory: true, file_size: 0 }),
            (77, "file".to_string(), BasicInfo { is_directory: false, file_size: 42 }),
        ]
    );
}

#[test]
fn an_entry_that_the_host_turns_down_is_offered_again() {
    let mut state = State::new();
    state.begin(&id(1), "dir".to_wstr());
    let (r, taken) = batch(&mut state, &id(1), false, &["a", "b"], 0);
    assert_eq!(r, Ok(0));
    assert!(taken.is_empty());
    assert_eq!(state.get(&id(1)).unwrap().index(), 0);
    let (r, taken) = batch(&mut state, &id(1), false, &["a", "b"], 5);
    assert_eq!(r, Ok(2));
    assert_eq!(taken, vec!["a", "b"]);
}

#[test]
fn two_enumerations_of_one_snapshot_give_the_same_order() {
    let names = ["zeta", "Alpha", "beta", "alpha", "Zeta", "gamma"];
    let mut state = State::new();
    state.begin(&id(1), "dir".to_wstr());
    state.begin(&id(2), "dir".to_wstr());
    let (_, first) = batch(&mut state, &id(1), false, &names, 100);
    let (_, second) = batch(&mut state, &id(2), false, &names, 100);
    assert_eq!(first, second);
    assert_eq!(first, vec!["Alpha", "Zeta", "alpha", "beta", "gamma", "zeta"]);
    let mut other = State::new();
    other.begin(&id(7), "dir".to_wstr());
    let (_, third) = batch(&mut other, &id(7), false, &names, 100);
    assert_eq!(first, third);
}

#[test]
fn a_restart_goes_back_to_the_first_entry() {
    let mut state = State::new();
    state.begin(&id(1), "dir".to_wstr());
    let (r, taken) = batch(&mut state, &id(1), false, &["c", "a", "b"], 2);
    assert_eq!(r, Ok(2));
    assert_eq!(taken, vec!["a", "b"]);
    let (r, taken) = batch(&mut state, &id(1), true, &["c", "a", "b"], 2);
    assert_eq!(r, Ok(2));
    assert_eq!(taken, vec!["a", "b"]);
    assert_eq!(state.get(&id(1)).unwrap().index(), 2);
}

#[test]
fn a_restart_brings_the_listing_in_again() {
    let mut state = State::new();
    state.begin(&id(1), "dir".to_wstr());
    let (_, taken) = batch(&mut state, &id(1), false, &["a", "b"], 10);
    assert_eq!(taken, vec!["a", "b"]);
    let (r, taken) = batch(&mut state, &id(1), true, &["y", "x", "w"], 10);
    assert_eq!(r, Ok(3));
    assert_eq!(taken, vec!["w", "x", "y"]);
    assert_eq!(state.get(&id(1)).unwrap().len(), 3);
}

#[test]
fn an_empty_directory_gives_an_empty_batch_and_no_error() {
    let mut state = State::new();
    state.begin(&id(1), "empty".to_wstr());
    let (r, taken) = batch(&mut state, &id(1), false, &[], 10);
    assert_eq!(r, Ok(0));
    assert!(taken.is_empty());
    let session = state.get(&id(1)).unwrap();
    assert!(session.filled());
    assert_eq!(session.len(), 0);
    assert_eq!(session.index(), 0);
    let (r, _) = batch(&mut state, &id(1), false, &[], 10);
    assert_eq!(r, Ok(0));
}

#[test]
fn sessions_do_not_touch_each_other() {
    let mut state = State::new();
    state.begin(&id(1), "one".to_wstr());
    state.begin(&id(2), "two".to_wstr());
    let (_, taken) = batch(&mut state, &id(1), false, &["a", "b", "c"], 1);
    assert_eq!(taken, vec!["a"]);
    let (_, taken) = batch(&mut state, &id(2), false, &["x", "y"], 1);
    assert_eq!(taken, vec!["x"]);
    let (_, taken) = batch(&mut state, &id(1), false, &[], 1);
    assert_eq!(taken, vec!["b"]);
    state.begin(&id(3), "three".to_wstr());
    let (_, taken) = batch(&mut state, &id(2), false, &[], 5);
    assert_eq!(taken, vec!["y"]);
    state.end(&id(2));
    let (_, taken) = batch(&mut state, &id(1), false, &[], 5);
    assert_eq!(taken, vec!["c"]);
    assert_eq!(state.get(&id(1)).unwrap().index(), 3);
    assert_eq!(text(state.get(&id(1)).unwrap().path()), "one");
    assert_eq!(state.get(&id(3)).unwrap().index(), 0);
    assert!(state.get(&id(2)).is_none());
}

#[test]
fn many_sessions_in_turn_each_see_only_their_own_calls() {
    let mut state = State::new();
    let count: u32 = 16;
    for n in 0..count {
        state.begin(&id(n), format!("dir{}", n).to_wstr());
    }
    for round in 0..4usize {
        for n in 0..count {
            let names: Vec<String> = (0..n % 5).map(|k| format!("{}-{}", n, k)).collect();
            let names: Vec<&str> = names.iter().map(|name| name.as_str()).collect();
            let (r, taken) = batch(&mut state, &id(n), false, &names, 1);
            let left = (n % 5) as usize;
            if round < left {
                assert_eq!(r, Ok(1));
                assert_eq!(taken, vec![format!("{}-{}", n, round)]);
            } else {
                assert_eq!(r, Ok(0));
            }
        }
    }
    for n in 0..count {
        let session = state.get(&id(n)).unwrap();
        assert_eq!(session.index(), std::cmp::min((n % 5) as usize, 4));
        assert_eq!(text(session.path()), format!("dir{}", n));
    }
}

#[test]
fn identifiers_that_differ_in_one_byte_are_different_sessions() {
    let mut state = State::new();
    let a = Guid { data1: 1, data2: 2, data3: 3, data4: [0, 0, 0, 0, 0, 0, 0, 1] };
    let b = Guid { data1: 1, data2: 2, data3: 3, data4: [0, 0, 0, 0, 0, 0, 0, 2] };
    state.begin(&a, "a".to_wstr());
    assert!(state.contains(&a));
    assert!(!state.contains(&b));
    state.end(&b);
    assert!(state.contains(&a));
}

/// What a handler is given in these tests: a backing store with one
/// directory, and a host whose buffers have room for some entries.
struct World {
    names: RefCell<Vec<&'static str>>,
    room: Cell<usize>,
    taken: RefCell<Vec<String>>,
    found: Cell<Option<BasicInfo>>,
    looked_up: RefCell<Vec<String>>,
    write_answer: Cell<i32>,
    written: RefCell<Vec<(usize, String, BasicInfo)>>,
}

impl World {
    fn new() -> Rc<World> {
        Rc::new(World {
            names: RefCell::new(Vec::new()),
            room: Cell::new(usize::MAX),
            taken: RefCell::new(Vec::new()),
            found: Cell::new(None),
            looked_up: RefCell::new(Vec::new()),
            write_answer: Cell::new(S_OK),
            written: RefCell::new(Vec::new()),
        })
    }

    /// Sets what the directory holds and how many entries the next buffer
    /// takes, and forgets what earlier buffers took.
    fn next_batch(&self, names: &[&'static str], room: usize) {
        *self.names.borrow_mut() = names.to_vec();
        self.room.set(room);
        self.taken.borrow_mut().clear();
    }

    fn taken(&self) -> Vec<String> {
        self.taken.borrow().clone()
    }
}

fn handler(
    readonly: bool,
    world: &Rc<World>,
) -> RegFs<
    impl Fn(&WStr, &WStr) -> Vec<DirEntry>,
    impl Fn(&WStr, &WStr) -> i32,
    impl Fn(DirEntryBufferHandle, &WStr, BasicInfo) -> i32,
    impl Fn(&WStr) -> Option<BasicInfo>,
    impl Fn(InstanceContext, &WStr, BasicInfo) -> i32,
> {
    let store = Rc::clone(world);
    let list = move |_path: &WStr, _search: &WStr| listing(&store.names.borrow());
    let host = Rc::clone(world);
    let append = move |_buffer: DirEntryBufferHandle, name: &WStr, _info: BasicInfo| {
        if host.taken.borrow().len() < host.room.get() {
            host.taken.borrow_mut().push(text(name));
            S_OK
        } else {
            0x8007_007Au32 as i32
        }
    };
    let store = Rc::clone(world);
    let lookup = move |path: &WStr| {
        store.looked_up.borrow_mut().push(text(path));
        store.found.get()
    };
    let host = Rc::clone(world);
    let write = move |context: InstanceContext, path: &WStr, info: BasicInfo| {
        host.written.borrow_mut().push((context.handle, text(path), info));
        host.write_answer.get()
    };
    RegFs::with_policy(readonly, list, by_units, append, lookup, write)
}

#[test]
fn the_handler_starts_read_only_without_handle_or_session() {
    let world = World::new();
    let fs = RegFs::new(
        |_path: &WStr, _search: &WStr| Vec::new(),
        by_units,
        |_buffer: DirEntryBufferHandle, _name: &WStr, _info: BasicInfo| S_OK,
        |_path: &WStr| None,
        |_context: InstanceContext, _path: &WStr, _info: BasicInfo| S_OK,
    );
    assert!(fs.readonly());
    assert_eq!(fs.context(), None);
    assert!(!fs.sessions().contains(&id(1)));
    assert!(!handler(false, &world).readonly());
    assert!(handler(true, &world).readonly());
}

#[test]
fn the_handler_keeps_the_handle_it_is_given() {
    let mut fs = handler(true, &World::new());
    fs.set_context(InstanceContext { handle: 0x1000 });
    assert_eq!(fs.context(), Some(InstanceContext { handle: 0x1000 }));
    assert!(fs.readonly());
}

#[test]
fn the_handler_opens_and_closes_sessions() {
    let mut fs = handler(true, &World::new());
    assert_eq!(fs.start_dir_enum(&request("HKEY_USERS", 0), &id(1)), Ok(S_OK));
    assert!(fs.sessions().contains(&id(1)));
    assert_eq!(text(fs.sessions().get(&id(1)).unwrap().path()), "HKEY_USERS");
    assert_eq!(fs.end_dir_enum(&request("HKEY_USERS", 0), &id(1)), Ok(S_OK));
    assert!(!fs.sessions().contains(&id(1)));
    assert_eq!(fs.end_dir_enum(&request("HKEY_USERS", 0), &id(1)), Ok(S_OK));
}

#[test]
fn the_handler_reports_an_unknown_session_as_invalid_argument() {
    let world = World::new();
    let mut fs = handler(true, &world);
    world.next_batch(&["a"], 10);
    let r = fs.get_dir_enum(&request("dir", 0), &id(1), &"*".to_wstr(), BUFFER);
    assert_eq!(r, Ok(E_INVALIDARG));
    assert!(world.taken().is_empty());
    fs.start_dir_enum(&request("dir", 0), &id(1)).unwrap();
    fs.end_dir_enum(&request("dir", 0), &id(1)).unwrap();
    let r = fs.get_dir_enum(&request("dir", 0), &id(1), &"*".to_wstr(), BUFFER);
    assert_eq!(r, Ok(E_INVALIDARG));
}

#[test]
fn the_handler_reports_success_for_full_partial_and_empty_batches() {
    let world = World::new();
    let mut fs = handler(true, &world);
    fs.start_dir_enum(&request("dir", 0), &id(1)).unwrap();
    world.next_batch(&["b", "a", "c"], 2);
    let r = fs.get_dir_enum(&request("dir", 0), &id(1), &"*".to_wstr(), BUFFER);
    assert_eq!(r, Ok(S_OK));
    assert_eq!(world.taken(), vec!["a", "b"]);
    world.next_batch(&[], 2);
    let r = fs.get_dir_enum(&request("dir", 0), &id(1), &"*".to_wstr(), BUFFER);
    assert_eq!(r, Ok(S_OK));
    assert_eq!(world.taken(), vec!["c"]);
    world.next_batch(&[], 2);
    let r = fs.get_dir_enum(&request("dir", 0), &id(1), &"*".to_wstr(), BUFFER);
    assert_eq!(r, Ok(S_OK));
    assert!(world.taken().is_empty());
}

#[test]
fn the_handler_restarts_when_the_request_says_so() {
    let world = World::new();
    let mut fs = handler(true, &world);
    fs.start_dir_enum(&request("dir", 0), &id(1)).unwrap();
    world.next_batch(&["b", "a"], 1);
    fs.get_dir_enum(&request("dir", 0), &id(1), &"*".to_wstr(), BUFFER).unwrap();
    assert_eq!(world.taken(), vec!["a"]);
    let flags = sys::PRJ_CB_DATA_FLAG_ENUM_RESTART_SCAN
        | sys::PRJ_CB_DATA_FLAG_ENUM_RETURN_SINGLE_ENTRY;
    world.next_batch(&["b", "a"], 1);
    fs.get_dir_enum(&request("dir", flags), &id(1), &"*".to_wstr(), BUFFER).unwrap();
    assert_eq!(world.taken(), vec!["a"]);
    world.next_batch(&[], 1);
    let flags = sys::PRJ_CB_DATA_FLAG_ENUM_RETURN_SINGLE_ENTRY;
    fs.get_dir_enum(&request("dir", flags), &id(1), &"*".to_wstr(), BUFFER).unwrap();
    assert_eq!(world.taken(), vec!["b"]);
    assert!(request("dir", 1).restart_scan());
    assert!(request("dir", 3).restart_scan());
    assert!(!request("dir", 2).restart_scan());
    assert!(!request("dir", 0).restart_scan());
}

#[test]
fn read_only_policy_turns_down_delete_and_rename() {
    let fs = handler(true, &World::new());
    let none = "".to_wstr();
    for path in ["", "a", "HKEY_USERS\\x\\y", "\\"] {
        let r = fs.notify(&request(path, 0), false, sys::PRJ_NOTIFICATION_PRE_DELETE, &none);
        assert_eq!(r, Ok(E_ACCESS_DENIED));
        let r = fs.notify(&request(path, 0), true, sys::PRJ_NOTIFICATION_PRE_RENAME, &"b".to_wstr());
        assert_eq!(r, Ok(E_ACCESS_DENIED));
    }
}

#[test]
fn without_read_only_policy_delete_and_rename_are_acknowledged() {
    let fs = handler(false, &World::new());
    let none = "".to_wstr();
    for path in ["", "a", "HKEY_USERS\\x\\y", "\\"] {
        let r = fs.notify(&request(path, 0), false, sys::PRJ_NOTIFICATION_PRE_DELETE, &none);
        assert_eq!(r, Ok(S_OK));
        let r = fs.notify(&request(path, 0), true, sys::PRJ_NOTIFICATION_PRE_RENAME, &"b".to_wstr());
        assert_eq!(r, Ok(S_OK));
    }
}

#[test]
fn every_other_notification_is_acknowledged_under_either_policy() {
    let codes = [
        sys::PRJ_NOTIFICATION_FILE_OPENED,
        sys::PRJ_NOTIFICATION_NEW_FILE_CREATED,
        sys::PRJ_NOTIFICATION_FILE_OVERWRITTEN,
        sys::PRJ_NOTIFICATION_PRE_SET_HARDLINK,
        sys::PRJ_NOTIFICATION_FILE_RENAMED,
        sys::PRJ_NOTIFICATION_HARDLINK_CREATED,
        sys::PRJ_NOTIFICATION_FILE_HANDLE_CLOSED_NO_MODIFICATION,
        sys::PRJ_NOTIFICATION_FILE_HANDLE_CLOSED_FILE_MODIFIED,
        sys::PRJ_NOTIFICATION_FILE_HANDLE_CLOSED_FILE_DELETED,
        sys::PRJ_NOTIFICATION_FILE_PRE_CONVERT_TO_FULL,
        0,
        1,
        0x30,
        0x2000,
        0xFFFF_FFFF,
    ];
    for readonly in [true, false] {
        let fs = handler(readonly, &World::new());
        for code in codes {
            let r = fs.notify(&request("a", 0), false, code, &"".to_wstr());
            assert_eq!(r, Ok(S_OK));
        }
    }
}

#[test]
fn name_queries_and_cancellations_are_acknowledged() {
    let world = World::new();
    let fs = handler(true, &world);
    assert_eq!(fs.query_file_name(&request("nothing\\here", 0)), Ok(S_OK));
    assert_eq!(fs.cancel_command(&request("a", 0)), Ok(()));
    assert!(world.looked_up.borrow().is_empty());
}

#[test]
fn a_placeholder_for_a_missing_path_is_not_found_and_not_written() {
    let world = World::new();
    let mut fs = handler(true, &world);
    fs.set_context(InstanceContext { handle: 7 });
    let r = fs.get_placeholder_info(&request("missing", 0));
    assert_eq!(r, Ok(E_FILE_NOT_FOUND));
    assert_eq!(*world.looked_up.borrow(), vec!["missing"]);
    assert!(world.written.borrow().is_empty());
}

#[test]
fn a_placeholder_is_written_with_what_the_backing_store_found() {
    let world = World::new();
    let mut fs = handler(true, &world);
    fs.set_context(InstanceContext { handle: 7 });
    world.found.set(Some(BasicInfo { is_directory: false, file_size: 99 }));
    let r = fs.get_placeholder_info(&request("HKEY_USERS\\value", 0));
    assert_eq!(r, Ok(S_OK));
    assert_eq!(*world.looked_up.borrow(), vec!["HKEY_USERS\\value"]);
    assert_eq!(
        *world.written.borrow(),
        vec![(
            7usize,
            "HKEY_USERS\\value".to_string(),
            BasicInfo { is_directory: false, file_size: 99 }
        )]
    );
}

#[test]
fn the_answer_of_the_host_to_a_placeholder_is_passed_on() {
    let world = World::new();
    let mut fs = handler(true, &world);
    fs.set_context(InstanceContext { handle: 7 });
    world.found.set(Some(BasicInfo { is_directory: true, file_size: 0 }));
    world.write_answer.set(E_OUTOFMEMORY);
    assert_eq!(fs.get_placeholder_info(&request("dir", 0)), Ok(E_OUTOFMEMORY));
}

#[test]
fn a_placeholder_before_the_handle_is_delivered_fails() {
    let world = World::new();
    let fs = handler(true, &world);
    world.found.set(Some(BasicInfo { is_directory: true, file_size: 0 }));
    assert_eq!(fs.get_placeholder_info(&request("dir", 0)), Err(ProviderError::Unhandled));
    assert!(world.written.borrow().is_empty());
}

/// A host and backing store that count what is asked of them.
struct Double {
    allocations: usize,
    releases: usize,
    reads: usize,
    writes: usize,
    can_allocate: bool,
    read: Result<(), ProviderError>,
    write: i32,
}

impl Double {
    fn new(can_allocate: bool, read: Result<(), ProviderError>, write: i32) -> Double {
        Double { allocations: 0, releases: 0, reads: 0, writes: 0, can_allocate, read, write }
    }

    fn serve(&mut self, start: (FileDataTransfer, TransferAction)) -> Result<i32, ProviderError> {
        let (mut transfer, mut action) = start;
        loop {
            let event = match action {
                TransferAction::Allocate { .. } => {
                    if self.can_allocate {
                        self.allocations += 1;
                    }
                    TransferEvent::Allocated(self.can_allocate)
                }
                TransferAction::Read { .. } => {
                    self.reads += 1;
                    TransferEvent::Read(self.read)
                }
                TransferAction::Write { .. } => {
                    self.writes += 1;
                    TransferEvent::Written(self.write)
                }
                TransferAction::Release => {
                    self.releases += 1;
                    TransferEvent::Released
                }
                TransferAction::Finish(outcome) => {
                    assert!(transfer.is_finished());
                    return outcome;
                }
            };
            assert!(transfer.expects(&event));
            action = transfer.step(event);
        }
    }
}

fn running_handler() -> impl ProviderT {
    let mut fs = handler(true, &World::new());
    fs.set_context(InstanceContext { handle: 1 });
    fs
}

#[test]
fn file_data_is_read_written_and_the_buffer_released() {
    let fs = running_handler();
    let mut double = Double::new(true, Ok(()), S_OK);
    let outcome = double.serve(fs.get_file_data(&request("file", 0), 512, 4096));
    assert_eq!(outcome, Ok(S_OK));
    assert_eq!((double.allocations, double.reads, double.writes, double.releases), (1, 1, 1, 1));
}

#[test]
fn file_data_actions_carry_offset_and_length() {
    let fs = running_handler();
    let (mut transfer, action) = fs.get_file_data(&request("file", 0), 512, 4096);
    assert_eq!(action, TransferAction::Allocate { length: 4096 });
    assert_eq!(transfer.phase, TransferPhase::Allocating);
    let action = transfer.step(TransferEvent::Allocated(true));
    assert_eq!(action, TransferAction::Read { offset: 512, length: 4096 });
    let action = transfer.step(TransferEvent::Read(Ok(())));
    assert_eq!(action, TransferAction::Write { offset: 512, length: 4096 });
    let action = transfer.step(TransferEvent::Written(S_OK));
    assert_eq!(action, TransferAction::Release);
    assert!(!transfer.is_finished());
    let action = transfer.step(TransferEvent::Released);
    assert_eq!(action, TransferAction::Finish(Ok(S_OK)));
    assert!(transfer.is_finished());
}

#[test]
fn without_a_buffer_the_request_is_answered_out_of_memory() {
    let fs = running_handler();
    let mut double = Double::new(false, Ok(()), S_OK);
    let outcome = double.serve(fs.get_file_data(&request("file", 0), 0, 16));
    assert_eq!(outcome, Ok(E_OUTOFMEMORY));
    assert_eq!((double.allocations, double.reads, double.writes, double.releases), (0, 0, 0, 0));
}

#[test]
fn the_buffer_is_released_when_the_backing_store_fails() {
    let fs = running_handler();
    for error in [ProviderError::Unhandled, ProviderError::NotFound] {
        let mut double = Double::new(true, Err(error), S_OK);
        let outcome = double.serve(fs.get_file_data(&request("file", 0), 0, 16));
        assert_eq!(outcome, Err(error));
        assert_eq!(double.allocations, 1);
        assert_eq!(double.releases, 1);
        assert_eq!(double.writes, 0);
    }
}

#[test]
fn the_buffer_is_released_when_the_host_refuses_the_data() {
    let fs = running_handler();
    let mut double = Double::new(true, Ok(()), E_INVALIDARG);
    let outcome = double.serve(fs.get_file_data(&request("file", 0), 0, 16));
    assert_eq!(outcome, Ok(E_INVALIDARG));
    assert_eq!((double.allocations, double.releases), (1, 1));
}

#[test]
fn file_data_before_the_handle_is_delivered_fails_without_a_buffer() {
    let fs = handler(true, &World::new());
    let mut double = Double::new(true, Ok(()), S_OK);
    let outcome = double.serve(fs.get_file_data(&request("file", 0), 0, 16));
    assert_eq!(outcome, Err(ProviderError::Unhandled));
    assert_eq!((double.allocations, double.releases), (0, 0));
}

#[test]
fn a_transfer_expects_only_what_can_come_of_its_last_action() {
    let (mut transfer, _) = FileDataTransfer::start(0, 1);
    assert!(transfer.expects(&TransferEvent::Allocated(true)));
    assert!(transfer.expects(&TransferEvent::Allocated(false)));
    assert!(!transfer.expects(&TransferEvent::Released));
    assert!(!transfer.expects(&TransferEvent::Written(S_OK)));
    transfer.step(TransferEvent::Allocated(true));
    assert!(transfer.expects(&TransferEvent::Read(Ok(()))));
    assert!(!transfer.expects(&TransferEvent::Allocated(true)));
    transfer.step(TransferEvent::Read(Err(ProviderError::Unhandled)));
    assert!(transfer.expects(&TransferEvent::Released));
    assert!(!transfer.expects(&TransferEvent::Written(S_OK)));
    transfer.step(TransferEvent::Released);
    assert!(!transfer.expects(&TransferEvent::Released));
    assert!(!transfer.expects(&TransferEvent::Allocated(true)));
}

/// A handler that fails every callback it can fail.
struct Broken {
    contexts: Vec<InstanceContext>,
    cancelled: Cell<usize>,
}

impl ProviderT for Broken {
    fn set_context(&mut self, context: InstanceContext) {
        self.contexts.push(context);
    }

    fn start_dir_enum(&mut self, _: &CallbackRequest, _: &Guid) -> Result<i32, ProviderError> {
        Err(ProviderError::Unhandled)
    }

    fn end_dir_enum(&mut self, _: &CallbackRequest, _: &Guid) -> Result<i32, ProviderError> {
        Err(ProviderError::InvalidSession)
    }

    fn get_dir_enum(
        &mut self,
        _: &CallbackRequest,
        _: &Guid,
        _: &WStr,
        _: DirEntryBufferHandle,
    ) -> Result<i32, ProviderError> {
        Err(ProviderError::NotFound)
    }

    fn get_placeholder_info(&self, _: &CallbackRequest) -> Result<i32, ProviderError> {
        Err(ProviderError::OutOfMemory)
    }

    fn get_file_data(
        &self,
        _: &CallbackRequest,
        offset: u64,
        length: u32,
    ) -> (FileDataTransfer, TransferAction) {
        FileDataTransfer::start(offset, length)
    }

    fn notify(&self, _: &CallbackRequest, _: bool, _: u32, _: &WStr) -> Result<i32, ProviderError> {
        Err(ProviderError::AccessDenied)
    }

    fn query_file_name(&self, _: &CallbackRequest) -> Result<i32, ProviderError> {
        Ok(E_FILE_NOT_FOUND)
    }

    fn cancel_command(&self, _: &CallbackRequest) -> Result<(), ProviderError> {
        self.cancelled.set(self.cancelled.get() + 1);
        Err(ProviderError::Unhandled)
    }
}

#[test]
fn the_provider_passes_on_the_statuses_of_its_handler() {
    let world = World::new();
    let mut provider = Provider::new(handler(true, &world));
    assert_eq!(provider.start_dir_enum(&request("dir", 0), &id(1)), S_OK);
    assert!(provider.inner().sessions().contains(&id(1)));
    world.next_batch(&["b", "a"], 1);
    let status = provider.get_dir_enum(&request("dir", 0), &id(1), &"*".to_wstr(), BUFFER);
    assert_eq!(status, S_OK);
    assert_eq!(world.taken(), vec!["a"]);
    assert_eq!(provider.end_dir_enum(&request("dir", 0), &id(1)), S_OK);
    let status = provider.get_dir_enum(&request("dir", 0), &id(1), &"*".to_wstr(), BUFFER);
    assert_eq!(status, E_INVALIDARG);
    let none = "".to_wstr();
    assert_eq!(
        provider.notify(&request("a", 0), false, sys::PRJ_NOTIFICATION_PRE_DELETE, &none),
        E_ACCESS_DENIED
    );
    assert_eq!(
        provider.notify(&request("a", 0), false, sys::PRJ_NOTIFICATION_FILE_OPENED, &none),
        S_OK
    );
    assert_eq!(provider.query_file_name(&request("a", 0)), S_OK);
    provider.cancel_command(&request("a", 0));
}

#[test]
fn the_provider_delivers_the_host_handle_to_its_handler() {
    let world = World::new();
    let mut provider = Provider::new(handler(true, &world));
    world.found.set(Some(BasicInfo { is_directory: true, file_size: 0 }));
    assert_eq!(provider.get_placeholder_info(&request("a", 0)), GENERIC_FAILURE);
    assert_eq!(provider.get_placeholder_info(&request("a", 0)), 0x8000_4005u32 as i32);
    provider.set_context(InstanceContext { handle: 5 });
    assert_eq!(provider.inner().context(), Some(InstanceContext { handle: 5 }));
    assert_eq!(provider.get_placeholder_info(&request("a", 0)), S_OK);
    world.found.set(None);
    assert_eq!(provider.get_placeholder_info(&request("a", 0)), E_FILE_NOT_FOUND);
    let (_, action) = provider.get_file_data(&request("a", 0), 8, 16);
    assert_eq!(action, TransferAction::Allocate { length: 16 });
}

#[test]
fn the_provider_collapses_every_error_of_its_handler() {
    let mut provider = Provider::new(Broken { contexts: Vec::new(), cancelled: Cell::new(0) });
    provider.set_context(InstanceContext { handle: 3 });
    assert_eq!(provider.inner().contexts, vec![InstanceContext { handle: 3 }]);
    assert_eq!(GENERIC_FAILURE, -2147467259);
    assert!(GENERIC_FAILURE < 0);
    assert_eq!(provider.start_dir_enum(&request("a", 0), &id(1)), GENERIC_FAILURE);
    assert_eq!(provider.end_dir_enum(&request("a", 0), &id(1)), GENERIC_FAILURE);
    let status = provider.get_dir_enum(&request("a", 0), &id(1), &"".to_wstr(), BUFFER);
    assert_eq!(status, GENERIC_FAILURE);
    assert_eq!(status, 0x8000_4005u32 as i32);
    assert_eq!(provider.get_placeholder_info(&request("a", 0)), GENERIC_FAILURE);
    assert_eq!(provider.notify(&request("a", 0), true, 0x10, &"".to_wstr()), GENERIC_FAILURE);
    assert_eq!(provider.query_file_name(&request("a", 0)), E_FILE_NOT_FOUND);
    provider.cancel_command(&request("a", 0));
    provider.cancel_command(&request("b", 0));
    assert_eq!(provider.inner().cancelled.get(), 2);
}

#[test]
fn a_failed_file_read_reaches_the_host_as_a_failure() {
    let fs = running_handler();
    let mut double = Double::new(true, Err(ProviderError::Unhandled), S_OK);
    let outcome = double.serve(fs.get_file_data(&request("file", 0), 0, 16));
    let status = status_from_result(outcome);
    assert_eq!(status, -2147467259);
    assert!(status < 0);
    let fs = handler(true, &World::new());
    let mut double = Double::new(true, Ok(()), S_OK);
    let outcome = double.serve(fs.get_file_data(&request("file", 0), 0, 16));
    assert!(status_from_result(outcome) < 0);
}
