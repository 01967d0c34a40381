//! The file system handler: enumeration sessions, placeholder metadata,
//! file data and the policy on notifications.

use vstd::prelude::*;
use std::collections::HashMap;
use crate::conv::WStr;
use crate::dirinfo::{
    by_name, entry_views, lemma_sorted_by_order, order_follows, sorted_by_order, BasicInfo,
    DirEntry, DirEntryView, DirInfo, DirInfoView,
};
use crate::guid::{lemma_key_injective, Guid};
use crate::order::{is_sorted, stable_sort, strict_weak_order};
use crate::filedata::{transfer_start, FileDataTransfer, TransferAction, TransferPhase};
use crate::provider::{
    CallbackRequest, DirEntryBufferHandle, InstanceContext, ProviderError, ProviderT,
};
use crate::status::{
    hresult_from_win32, StatusCode, ERROR_ACCESS_DENIED, ERROR_FILE_NOT_FOUND, E_ACCESS_DENIED,
    E_FILE_NOT_FOUND, E_INVALIDARG, S_OK,
};
use crate::sys;

verus! {

broadcast use vstd::std_specs::hash::group_hash_axioms;

/// Whether `append` may take the entry `e` into `buffer`: there is an
/// answer of it to that entry which is success.
pub open spec fn can_accept<A: Fn(DirEntryBufferHandle, &WStr, BasicInfo) -> StatusCode>(
    append: A,
    buffer: DirEntryBufferHandle,
    e: DirEntryView,
) -> bool {
    exists|name: WStr, status: StatusCode|
        name@ == e.filename && #[trigger] call_ensures(
            append,
            (buffer, &name, BasicInfo { is_directory: e.is_directory, file_size: e.size }),
            status,
        ) && status == S_OK
}

/// Whether `append` may turn the entry `e` down for `buffer`: there is an
/// answer of it to that entry which is not success.
pub open spec fn can_refuse<A: Fn(DirEntryBufferHandle, &WStr, BasicInfo) -> StatusCode>(
    append: A,
    buffer: DirEntryBufferHandle,
    e: DirEntryView,
) -> bool {
    exists|name: WStr, status: StatusCode|
        name@ == e.filename && #[trigger] call_ensures(
            append,
            (buffer, &name, BasicInfo { is_directory: e.is_directory, file_size: e.size }),
            status,
        ) && status != S_OK
}

/// Whether handing out `n` entries from the cursor of `s` is one batch:
/// `append` took each of them into `buffer`, and turned down the one after
/// them unless the listing ended there. The cursor can be moved past
/// them: it stays within the listing, and within what a cursor can count.
pub open spec fn batch_taken<A: Fn(DirEntryBufferHandle, &WStr, BasicInfo) -> StatusCode>(
    append: A,
    buffer: DirEntryBufferHandle,
    s: DirInfoView,
    n: nat,
) -> bool {
    &&& n <= s.remaining()
    &&& s.index + n <= usize::MAX
    &&& forall|k: int|
        0 <= k < n ==> can_accept(append, buffer, #[trigger] s.entries[s.index + k])
    &&& n < s.remaining() ==> can_refuse(append, buffer, s.entries[s.index + n])
}

/// Whether the backing store may answer `listing` for the directory
/// `path` and the search expression `search`.
pub open spec fn can_list<L: Fn(&WStr, &WStr) -> Vec<DirEntry>>(
    list: L,
    path: Seq<u16>,
    search: Seq<u16>,
    listing: Seq<DirEntryView>,
) -> bool {
    exists|p: WStr, e: WStr, v: Vec<DirEntry>|
        p@ == path && e@ == search && #[trigger] call_ensures(list, (&p, &e), v) && entry_views(
            v@,
        ) == listing
}

/// The session `s` made ready for a batch: set back to its start if the
/// host asks for a restart, and holding the entries `sorted` if it held no
/// listing.
pub open spec fn made_ready(s: DirInfoView, restart: bool, sorted: Seq<DirEntryView>) -> DirInfoView {
    let s = if restart {
        s.reset()
    } else {
        s
    };
    if s.filled {
        s
    } else {
        DirInfoView { filled: true, entries: sorted, ..s }
    }
}

/// Whether a session needs a listing before its next batch.
pub open spec fn needs_listing(s: DirInfoView, restart: bool) -> bool {
    restart || !s.filled
}

/// The session `s` with its cursor `n` entries on.
pub open spec fn moved_on(s: DirInfoView, n: nat) -> DirInfoView {
    DirInfoView { index: (s.index + n) as usize, ..s }
}

/// Whether `after` is the session `before` one batch of `taken` entries
/// later.
///
/// A session that needs no listing is moved past the entries that
/// `append` took, and is else as it was. A session that needs one is first
/// made ready with a listing that the backing store may answer for its
/// directory, sorted by what `order` answered.
pub open spec fn advanced<L, O, A>(
    before: DirInfoView,
    restart: bool,
    search: Seq<u16>,
    buffer: DirEntryBufferHandle,
    list: L,
    order: O,
    append: A,
    taken: nat,
    after: DirInfoView,
) -> bool where
    L: Fn(&WStr, &WStr) -> Vec<DirEntry>,
    O: Fn(&WStr, &WStr) -> i32,
    A: Fn(DirEntryBufferHandle, &WStr, BasicInfo) -> StatusCode,
 {
    if needs_listing(before, restart) {
        exists|listing: Seq<DirEntryView>, sorted: Seq<DirEntryView>|
            #![trigger sorted_by_order(order, listing, sorted)]
            {
                let ready = made_ready(before, restart, sorted);
                &&& can_list(list, ready.path, search, listing)
                &&& sorted_by_order(order, listing, sorted)
                &&& batch_taken(append, buffer, ready, taken)
                &&& after == moved_on(ready, taken)
            }
    } else {
        batch_taken(append, buffer, before, taken) && after == moved_on(before, taken)
    }
}

/// One call on the session table, by the identifier it names.
pub enum SessionOp {
    Begin(Guid),
    Advance(Guid),
    End(Guid),
}

/// The keys of the open sessions after one call: a begin opens its
/// session, an end closes it, a batch opens and closes nothing.
pub open spec fn keys_after_op(keys: Set<u128>, op: SessionOp) -> Set<u128> {
    match op {
        SessionOp::Begin(id) => keys.insert(id.key()),
        SessionOp::Advance(_) => keys,
        SessionOp::End(id) => keys.remove(id.key()),
    }
}

/// The keys of the open sessions after a run of calls.
pub open spec fn keys_after(keys: Set<u128>, ops: Seq<SessionOp>) -> Set<u128>
    decreases ops.len(),
{
    if ops.len() == 0 {
        keys
    } else {
        keys_after_op(keys_after(keys, ops.drop_last()), ops.last())
    }
}

/// The enumeration sessions that are open, by the key of their identifier.
pub struct State {
    enum_sessions: HashMap<u128, DirInfo>,
}

impl View for State {
    type V = Map<u128, DirInfoView>;

    closed spec fn view(&self) -> Map<u128, DirInfoView> {
        Map::new(
            |k: u128| self.enum_sessions@.contains_key(k),
            |k: u128| self.enum_sessions@[k]@,
        )
    }
}

impl State {
    /// A table without sessions.
    pub fn new() -> (state: State)
        ensures
            state@ == Map::<u128, DirInfoView>::empty(),
    {
        let state = State { enum_sessions: HashMap::new() };
        assert(state@ =~= Map::<u128, DirInfoView>::empty());
        state
    }

    /// Whether a session is open under `id`.
    pub fn contains(&self, id: &Guid) -> (b: bool)
        ensures
            b == self@.contains_key(id.key()),
    {
        let key = id.key();
        self.enum_sessions.contains_key(&key)
    }

    /// The session that is open under `id`.
    pub fn get(&self, id: &Guid) -> (session: Option<&DirInfo>)
        ensures
            session is Some <==> self@.contains_key(id.key()),
            session is Some ==> session->0@ == self@[id.key()],
    {
        let key = id.key();
        self.enum_sessions.get(&key)
    }

    /// Opens a session under `id` for the directory `path`. A session that
    /// was open under `id` is replaced; no other session changes.
    pub fn begin(&mut self, id: &Guid, path: WStr)
        ensures
            final(self)@ == old(self)@.insert(id.key(), DirInfoView::fresh(path@)),
            final(self)@.dom() == keys_after_op(old(self)@.dom(), SessionOp::Begin(*id)),
    {
        let key = id.key();
        self.enum_sessions.insert(key, DirInfo::new(path));
        assert(self@ =~= old(self)@.insert(key, DirInfoView::fresh(path@)));
    }

    /// Closes the session under `id`, if there is one. No other session
    /// changes.
    pub fn end(&mut self, id: &Guid)
        ensures
            final(self)@ == old(self)@.remove(id.key()),
            final(self)@.dom() == keys_after_op(old(self)@.dom(), SessionOp::End(*id)),
    {
        let key = id.key();
        self.enum_sessions.remove(&key);
        assert(self@ =~= old(self)@.remove(key));
    }

    /// Hands the host the next batch of the session under `id` and says
    /// how many entries it took.
    ///
    /// Without a session under `id` nothing changes and the answer is
    /// `InvalidSession`. Otherwise the session is first made ready: set
    /// back to its start on `restart`, and, if it holds no listing then,
    /// filled with what `list` answers for its directory, sorted by what
    /// `order` answers. Then entries are offered to `append` for `buffer` one by one
    /// from the cursor on, until it turns one down or none is left; the
    /// cursor moves past those it took. No other session changes.
    pub fn advance<L, O, A>(
        &mut self,
        id: &Guid,
        restart: bool,
        search_expression: &WStr,
        buffer: DirEntryBufferHandle,
        list: &L,
        order: &O,
        append: &A,
    ) -> (r: Result<usize, ProviderError>) where
        L: Fn(&WStr, &WStr) -> Vec<DirEntry>,
        O: Fn(&WStr, &WStr) -> i32,
        A: Fn(DirEntryBufferHandle, &WStr, BasicInfo) -> StatusCode,

        requires
            forall|p: WStr, e: WStr| #[trigger] call_requires(*list, (&p, &e)),
            forall|x: WStr, y: WStr| #[trigger] call_requires(*order, (&x, &y)),
            forall|b: DirEntryBufferHandle, name: WStr, info: BasicInfo| #[trigger]
                call_requires(*append, (b, &name, info)),
        ensures
            final(self)@.dom() == keys_after_op(old(self)@.dom(), SessionOp::Advance(*id)),
            !old(self)@.contains_key(id.key()) ==> r == Err::<usize, ProviderError>(
                ProviderError::InvalidSession,
            ) && final(self)@ == old(self)@,
            old(self)@.contains_key(id.key()) ==> {
                &&& r is Ok
                &&& final(self)@.contains_key(id.key())
                &&& final(self)@ == old(self)@.insert(id.key(), final(self)@[id.key()])
                &&& advanced(
                    old(self)@[id.key()],
                    restart,
                    search_expression@,
                    buffer,
                    *list,
                    *order,
                    *append,
                    r->Ok_0 as nat,
                    final(self)@[id.key()],
                )
                &&& final(self)@[id.key()].entries.len() <= usize::MAX
                &&& final(self)@[id.key()].filled
                &&& restart ==> final(self)@[id.key()].index == r->Ok_0
                &&& restart || r->Ok_0 > 0 ==> final(self)@[id.key()].index
                    <= final(self)@[id.key()].entries.len()
            },
    {
        let key = id.key();
        let mut dirinfo = match self.enum_sessions.remove(&key) {
            Some(dirinfo) => dirinfo,
            None => {
                assert(self@ =~= old(self)@);
                return Err(ProviderError::InvalidSession);
            },
        };
        let ghost session = old(self)@[key];
        assert(dirinfo@ == session);
        if restart {
            dirinfo.reset();
        }
        let ghost mut listing: Seq<DirEntryView> = Seq::empty();
        if !dirinfo.filled() {
            let found = list(dirinfo.path(), search_expression);
            proof {
                listing = entry_views(found@);
                assert(can_list(*list, dirinfo@.path, search_expression@, listing));
            }
            dirinfo.populate(found, order);
        }
        let ghost ready = dirinfo@;
        assert(ready == made_ready(session, restart, ready.entries));
        assert(needs_listing(session, restart) ==> sorted_by_order(
            *order,
            listing,
            ready.entries,
        ));
        let total = dirinfo.len();
        let mut taken: usize = 0;
        loop
            invariant
                forall|b: DirEntryBufferHandle, name: WStr, info: BasicInfo| #[trigger]
                    call_requires(*append, (b, &name, info)),
                ready.entries.len() == total,
                taken <= ready.remaining(),
                dirinfo@ == moved_on(ready, taken as nat),
                forall|k: int|
                    0 <= k < taken ==> can_accept(
                        *append,
                        buffer,
                        #[trigger] ready.entries[ready.index + k],
                    ),
            ensures
                batch_taken(*append, buffer, ready, taken as nat),
                dirinfo@ == moved_on(ready, taken as nat),
            decreases ready.remaining() - taken,
        {
            if !dirinfo.current_is_valid() {
                break;
            }
            let name = dirinfo.current_file_name();
            let info = dirinfo.current_basic_info();
            let status = append(buffer, name, info);
            proof {
                let e = ready.entries[ready.index + taken];
                assert(name@ == e.filename);
                assert(info == BasicInfo { is_directory: e.is_directory, file_size: e.size });
                assert(call_ensures(*append, (buffer, name, info), status));
            }
            if status != S_OK {
                assert(can_refuse(*append, buffer, ready.entries[ready.index + taken]));
                break;
            }
            assert(can_accept(*append, buffer, ready.entries[ready.index + taken]));
            dirinfo.move_next();
            taken = taken + 1;
        }
        self.enum_sessions.insert(key, dirinfo);
        assert(self@ =~= old(self)@.insert(key, moved_on(ready, taken as nat)));
        assert(self@.dom() =~= old(self)@.dom());
        assert(advanced(
            session,
            restart,
            search_expression@,
            buffer,
            *list,
            *order,
            *append,
            taken as nat,
            moved_on(ready, taken as nat),
        ));
        Ok(taken)
    }
}

/// The answer to a notification. Requests to rename or delete are turned
/// down where nothing may be written; every other notification, known to
/// the provider or not, is acknowledged.
pub open spec fn notification_status(
    readonly: bool,
    notification: sys::PrjNotification,
) -> StatusCode {
    if readonly && (notification == sys::PRJ_NOTIFICATION_PRE_RENAME || notification
        == sys::PRJ_NOTIFICATION_PRE_DELETE) {
        E_ACCESS_DENIED
    } else {
        S_OK
    }
}

/// Whether the backing store may answer `found` when asked about `path`.
pub open spec fn can_find<K: Fn(&WStr) -> Option<BasicInfo>>(
    lookup: K,
    path: Seq<u16>,
    found: Option<BasicInfo>,
) -> bool {
    exists|p: WStr| p@ == path && #[trigger] call_ensures(lookup, (&p,), found)
}

/// Whether the host may answer `status` when given the placeholder of
/// `path` with metadata `info` under the handle `context`.
pub open spec fn can_write<W: Fn(InstanceContext, &WStr, BasicInfo) -> StatusCode>(
    write: W,
    context: InstanceContext,
    path: Seq<u16>,
    info: BasicInfo,
    status: StatusCode,
) -> bool {
    exists|p: WStr| p@ == path && #[trigger] call_ensures(write, (context, &p, info), status)
}

/// Whether a handler can call on what it is given: the backing store and
/// the host take any question.
pub open spec fn callable<L, O, A, K, W>(list: L, order: O, append: A, lookup: K, write: W) -> bool where
    L: Fn(&WStr, &WStr) -> Vec<DirEntry>,
    O: Fn(&WStr, &WStr) -> i32,
    A: Fn(DirEntryBufferHandle, &WStr, BasicInfo) -> StatusCode,
    K: Fn(&WStr) -> Option<BasicInfo>,
    W: Fn(InstanceContext, &WStr, BasicInfo) -> StatusCode,
 {
    &&& forall|p: WStr, e: WStr| #[trigger] call_requires(list, (&p, &e))
    &&& forall|x: WStr, y: WStr| #[trigger] call_requires(order, (&x, &y))
    &&& forall|b: DirEntryBufferHandle, name: WStr, info: BasicInfo| #[trigger]
        call_requires(append, (b, &name, info))
    &&& forall|p: WStr| #[trigger] call_requires(lookup, (&p,))
    &&& forall|c: InstanceContext, p: WStr, info: BasicInfo| #[trigger]
        call_requires(write, (c, &p, info))
}

/// What a handler holds.
pub struct RegFsView<L, O, A, K, W> {
    pub sessions: Map<u128, DirInfoView>,
    pub readonly: bool,
    pub context: Option<InstanceContext>,
    /// Asks the backing store for the entries of a directory that a
    /// search expression selects.
    pub list: L,
    /// The rule of the host by which names are sorted: negative where
    /// the first name comes before the second.
    pub order: O,
    /// Hands the host one entry for a buffer of directory entries.
    pub append: A,
    /// Asks the backing store for the metadata of a path.
    pub lookup: K,
    /// Hands the host the placeholder of a path.
    pub write: W,
}

/// What a handler calls on: its backing store and the host. All of it
/// can be called at any time.
struct Outside<L, O, A, K, W> where
    L: Fn(&WStr, &WStr) -> Vec<DirEntry>,
    O: Fn(&WStr, &WStr) -> i32,
    A: Fn(DirEntryBufferHandle, &WStr, BasicInfo) -> StatusCode,
    K: Fn(&WStr) -> Option<BasicInfo>,
    W: Fn(InstanceContext, &WStr, BasicInfo) -> StatusCode,
 {
    list: L,
    order: O,
    append: A,
    lookup: K,
    write: W,
}

impl<L, O, A, K, W> Outside<L, O, A, K, W> where
    L: Fn(&WStr, &WStr) -> Vec<DirEntry>,
    O: Fn(&WStr, &WStr) -> i32,
    A: Fn(DirEntryBufferHandle, &WStr, BasicInfo) -> StatusCode,
    K: Fn(&WStr) -> Option<BasicInfo>,
    W: Fn(InstanceContext, &WStr, BasicInfo) -> StatusCode,
 {
    #[verifier::type_invariant]
    spec fn can_call(&self) -> bool {
        callable(self.list, self.order, self.append, self.lookup, self.write)
    }
}

/// The handler: it answers each callback from its backing store and
/// keeps the enumeration sessions.
pub struct RegFs<L, O, A, K, W> where
    L: Fn(&WStr, &WStr) -> Vec<DirEntry>,
    O: Fn(&WStr, &WStr) -> i32,
    A: Fn(DirEntryBufferHandle, &WStr, BasicInfo) -> StatusCode,
    K: Fn(&WStr) -> Option<BasicInfo>,
    W: Fn(InstanceContext, &WStr, BasicInfo) -> StatusCode,
 {
    state: State,
    readonly: bool,
    context: Option<InstanceContext>,
    outside: Outside<L, O, A, K, W>,
}

impl<L, O, A, K, W> View for RegFs<L, O, A, K, W> where
    L: Fn(&WStr, &WStr) -> Vec<DirEntry>,
    O: Fn(&WStr, &WStr) -> i32,
    A: Fn(DirEntryBufferHandle, &WStr, BasicInfo) -> StatusCode,
    K: Fn(&WStr) -> Option<BasicInfo>,
    W: Fn(InstanceContext, &WStr, BasicInfo) -> StatusCode,
 {
    type V = RegFsView<L, O, A, K, W>;

    closed spec fn view(&self) -> RegFsView<L, O, A, K, W> {
        RegFsView {
            sessions: self.state@,
            readonly: self.readonly,
            context: self.context,
            list: self.outside.list,
            order: self.outside.order,
            append: self.outside.append,
            lookup: self.outside.lookup,
            write: self.outside.write,
        }
    }
}

impl<L, O, A, K, W> RegFs<L, O, A, K, W> where
    L: Fn(&WStr, &WStr) -> Vec<DirEntry>,
    O: Fn(&WStr, &WStr) -> i32,
    A: Fn(DirEntryBufferHandle, &WStr, BasicInfo) -> StatusCode,
    K: Fn(&WStr) -> Option<BasicInfo>,
    W: Fn(InstanceContext, &WStr, BasicInfo) -> StatusCode,
 {
    /// A handler that lets nothing be written, with no session and no
    /// host handle yet. `list` and `lookup` ask the backing store; `order`,
    /// `append` and `write` call the host.
    pub fn new(list: L, order: O, append: A, lookup: K, write: W) -> (fs: Self)
        requires
            callable(list, order, append, lookup, write),
        ensures
            fs@ == (RegFsView {
                sessions: Map::empty(),
                readonly: true,
                context: None,
                list,
                order,
                append,
                lookup,
                write,
            }),
    {
        RegFs {
            state: State::new(),
            readonly: true,
            context: None,
            outside: Outside { list, order, append, lookup, write },
        }
    }

    /// A handler under the given policy, with no session and no host
    /// handle yet.
    pub fn with_policy(readonly: bool, list: L, order: O, append: A, lookup: K, write: W) -> (fs:
        Self)
        requires
            callable(list, order, append, lookup, write),
        ensures
            fs@ == (RegFsView {
                sessions: Map::empty(),
                readonly,
                context: None,
                list,
                order,
                append,
                lookup,
                write,
            }),
    {
        RegFs {
            state: State::new(),
            readonly,
            context: None,
            outside: Outside { list, order, append, lookup, write },
        }
    }

    /// The enumeration sessions that are open.
    pub fn sessions(&self) -> (state: &State)
        ensures
            state@ == self@.sessions,
    {
        &self.state
    }

    /// Whether the handler lets nothing be written.
    pub fn readonly(&self) -> (b: bool)
        ensures
            b == self@.readonly,
    {
        self.readonly
    }

    /// The host handle, once it was delivered.
    pub fn context(&self) -> (context: Option<InstanceContext>)
        ensures
            context == self@.context,
    {
        self.context
    }
}

impl<L, O, A, K, W> ProviderT for RegFs<L, O, A, K, W> where
    L: Fn(&WStr, &WStr) -> Vec<DirEntry>,
    O: Fn(&WStr, &WStr) -> i32,
    A: Fn(DirEntryBufferHandle, &WStr, BasicInfo) -> StatusCode,
    K: Fn(&WStr) -> Option<BasicInfo>,
    W: Fn(InstanceContext, &WStr, BasicInfo) -> StatusCode,
 {
    /// Takes the handle that the host issued when virtualization started.
    fn set_context(&mut self, context: InstanceContext)
        ensures
            final(self)@ == (RegFsView { context: Some(context), ..old(self)@ }),
    {
        self.context = Some(context);
    }

    /// Opens the enumeration session `enumeration_id` for the directory
    /// that the request names.
    fn start_dir_enum(&mut self, request: &CallbackRequest, enumeration_id: &Guid) -> (r: Result<
        StatusCode,
        ProviderError,
    >)
        ensures
            r == Ok::<StatusCode, ProviderError>(S_OK),
            final(self)@ == (RegFsView {
                sessions: old(self)@.sessions.insert(
                    enumeration_id.key(),
                    DirInfoView::fresh(request.file_path_name@),
                ),
                ..old(self)@
            }),
    {
        self.state.begin(enumeration_id, request.file_path_name.clone());
        Ok(S_OK)
    }

    /// Closes the enumeration session `enumeration_id`. Closing a session
    /// that is not open succeeds as well.
    fn end_dir_enum(&mut self, request: &CallbackRequest, enumeration_id: &Guid) -> (r: Result<
        StatusCode,
        ProviderError,
    >)
        ensures
            r == Ok::<StatusCode, ProviderError>(S_OK),
            final(self)@ == (RegFsView {
                sessions: old(self)@.sessions.remove(enumeration_id.key()),
                ..old(self)@
            }),
    {
        self.state.end(enumeration_id);
        Ok(S_OK)
    }

    /// Hands the host the next batch of the session `enumeration_id`.
    ///
    /// An unknown session is answered with the invalid-argument status and
    /// changes nothing. Otherwise the answer is success, however many
    /// entries the host took, and the session has moved on as
    /// [`State::advance`] says, restarting if the request asks for it.
    fn get_dir_enum(
        &mut self,
        request: &CallbackRequest,
        enumeration_id: &Guid,
        search_expression: &WStr,
        dir_entry_buffer_handle: DirEntryBufferHandle,
    ) -> (r: Result<StatusCode, ProviderError>)
        ensures
            final(self)@ == (RegFsView { sessions: final(self)@.sessions, ..old(self)@ }),
            !old(self)@.sessions.contains_key(enumeration_id.key()) ==> r == Ok::<
                StatusCode,
                ProviderError,
            >(E_INVALIDARG) && final(self)@ == old(self)@,
            old(self)@.sessions.contains_key(enumeration_id.key()) ==> {
                &&& r == Ok::<StatusCode, ProviderError>(S_OK)
                &&& final(self)@.sessions.contains_key(enumeration_id.key())
                &&& final(self)@.sessions == old(self)@.sessions.insert(
                    enumeration_id.key(),
                    final(self)@.sessions[enumeration_id.key()],
                )
                &&& final(self)@.sessions[enumeration_id.key()].entries.len() <= usize::MAX
                &&& final(self)@.sessions[enumeration_id.key()].filled
                &&& request.restart_scan() ==> final(self)@.sessions[enumeration_id.key()].index
                    <= final(self)@.sessions[enumeration_id.key()].entries.len()
                &&& exists|taken: nat| #[trigger]
                    advanced(
                        old(self)@.sessions[enumeration_id.key()],
                        request.restart_scan(),
                        search_expression@,
                        dir_entry_buffer_handle,
                        old(self)@.list,
                        old(self)@.order,
                        old(self)@.append,
                        taken,
                        final(self)@.sessions[enumeration_id.key()],
                    )
            },
    {
        proof {
            use_type_invariant(&self.outside);
        }
        let restart = request.restart_scan();
        match self.state.advance(
            enumeration_id,
            restart,
            search_expression,
            dir_entry_buffer_handle,
            &self.outside.list,
            &self.outside.order,
            &self.outside.append,
        ) {
            Ok(taken) => {
                assert(advanced(
                    old(self)@.sessions[enumeration_id.key()],
                    request.restart_scan(),
                    search_expression@,
                    dir_entry_buffer_handle,
                    old(self)@.list,
                    old(self)@.order,
                    old(self)@.append,
                    taken as nat,
                    self@.sessions[enumeration_id.key()],
                ));
                Ok(S_OK)
            },
            Err(error) => Ok(error.status()),
        }
    }

    /// Writes the placeholder of the path that the request names.
    ///
    /// The backing store is asked about the path first. A path that it
    /// does not hold is answered with the not-found status, and the host is
    /// not written to. For a path that it holds, the host is given the
    /// metadata found, under the handle delivered at start, and its answer
    /// is passed on; before a handle was delivered, this fails.
    fn get_placeholder_info(&self, request: &CallbackRequest) -> (r: Result<
        StatusCode,
        ProviderError,
    >)
        ensures
            exists|found: Option<BasicInfo>|
                #![trigger can_find(self@.lookup, request.file_path_name@, found)]
                {
                    &&& can_find(self@.lookup, request.file_path_name@, found)
                    &&& match (found, self@.context) {
                        (None, _) => r == Ok::<StatusCode, ProviderError>(E_FILE_NOT_FOUND),
                        (Some(_), None) => r == Err::<StatusCode, ProviderError>(
                            ProviderError::Unhandled,
                        ),
                        (Some(info), Some(context)) => r is Ok && can_write(
                            self@.write,
                            context,
                            request.file_path_name@,
                            info,
                            r->Ok_0,
                        ),
                    }
                },
    {
        proof {
            use_type_invariant(&self.outside);
        }
        let found = (self.outside.lookup)(&request.file_path_name);
        assert(can_find(self@.lookup, request.file_path_name@, found));
        let info = match found {
            Some(info) => info,
            None => {
                return Ok(hresult_from_win32(ERROR_FILE_NOT_FOUND));
            },
        };
        let context = match self.context {
            Some(context) => context,
            None => {
                return Err(ProviderError::Unhandled);
            },
        };
        let status = (self.outside.write)(context, &request.file_path_name, info);
        assert(can_write(self@.write, context, request.file_path_name@, info, status));
        Ok(status)
    }

    /// Begins to serve a read of `length` bytes from `offset` on of the
    /// file that the request names, and says what to do first. Before a
    /// host handle was delivered the request fails at once, and no buffer
    /// is asked for.
    fn get_file_data(&self, request: &CallbackRequest, offset: u64, length: u32) -> (r: (
        FileDataTransfer,
        TransferAction,
    ))
        ensures
            self@.context is Some ==> r == transfer_start(offset, length),
            self@.context is None ==> r == (
                FileDataTransfer {
                    phase: TransferPhase::Finished,
                    offset,
                    length,
                    outcome: Err(ProviderError::Unhandled),
                },
                TransferAction::Finish(Err(ProviderError::Unhandled)),
            ),
    {
        match self.context {
            Some(_) => FileDataTransfer::start(offset, length),
            None => (
                FileDataTransfer {
                    phase: TransferPhase::Finished,
                    offset,
                    length,
                    outcome: Err(ProviderError::Unhandled),
                },
                TransferAction::Finish(Err(ProviderError::Unhandled)),
            ),
        }
    }

    /// Answers a notification about the path that the request names:
    /// see [`notification_status`].
    fn notify(
        &self,
        request: &CallbackRequest,
        is_directory: bool,
        notification: sys::PrjNotification,
        destination_file_name: &WStr,
    ) -> (r: Result<StatusCode, ProviderError>)
        ensures
            r == Ok::<StatusCode, ProviderError>(notification_status(self@.readonly, notification)),
    {
        match notification {
            sys::PRJ_NOTIFICATION_FILE_OPENED => Ok(S_OK),
            sys::PRJ_NOTIFICATION_FILE_HANDLE_CLOSED_FILE_MODIFIED
            | sys::PRJ_NOTIFICATION_FILE_OVERWRITTEN => Ok(S_OK),
            sys::PRJ_NOTIFICATION_NEW_FILE_CREATED => Ok(S_OK),
            sys::PRJ_NOTIFICATION_FILE_RENAMED => Ok(S_OK),
            sys::PRJ_NOTIFICATION_FILE_HANDLE_CLOSED_FILE_DELETED => Ok(S_OK),
            sys::PRJ_NOTIFICATION_PRE_RENAME => {
                if self.readonly {
                    Ok(hresult_from_win32(ERROR_ACCESS_DENIED))
                } else {
                    Ok(S_OK)
                }
            },
            sys::PRJ_NOTIFICATION_PRE_DELETE => {
                if self.readonly {
                    Ok(hresult_from_win32(ERROR_ACCESS_DENIED))
                } else {
                    Ok(S_OK)
                }
            },
            sys::PRJ_NOTIFICATION_FILE_PRE_CONVERT_TO_FULL => Ok(S_OK),
            _ => Ok(S_OK),
        }
    }

    /// Answers whether the path that the request names exists: always
    /// yes, without asking the backing store.
    fn query_file_name(&self, request: &CallbackRequest) -> (r: Result<StatusCode, ProviderError>)
        ensures
            r == Ok::<StatusCode, ProviderError>(S_OK),
    {
        Ok(S_OK)
    }

    /// Takes note that the host has given up on a request. Nothing is
    /// held per request, so nothing is to be undone.
    fn cancel_command(&self, request: &CallbackRequest) -> (r: Result<(), ProviderError>)
        ensures
            r == Ok::<(), ProviderError>(()),
    {
        Ok(())
    }
}

/// Once a session has ended, no run of calls that does not begin it anew
/// brings it back: a batch asked of it is answered `InvalidSession`,
/// whatever was done to other sessions in between.
pub proof fn lemma_ended_session_stays_invalid(keys: Set<u128>, id: Guid, ops: Seq<SessionOp>)
    requires
        forall|i: int| 0 <= i < ops.len() ==> ops[i] != SessionOp::Begin(id),
    ensures
        !keys_after(keys_after_op(keys, SessionOp::End(id)), ops).contains(id.key()),
    decreases ops.len(),
{
    if ops.len() > 0 {
        let earlier = ops.drop_last();
        assert forall|i: int| 0 <= i < earlier.len() implies earlier[i] != SessionOp::Begin(id) by {
            assert(earlier[i] == ops[i]);
        }
        lemma_ended_session_stays_invalid(keys, id, earlier);
        match ops.last() {
            SessionOp::Begin(other) => {
                if other.key() == id.key() {
                    lemma_key_injective(other, id);
                }
            },
            SessionOp::Advance(_) => {},
            SessionOp::End(_) => {},
        }
    }
}

/// A call on one session leaves every other session as it was: open or
/// not, and in the same state.
pub proof fn lemma_other_sessions_untouched(
    before: Map<u128, DirInfoView>,
    after: Map<u128, DirInfoView>,
    id: Guid,
    other: Guid,
)
    requires
        id != other,
        after == before.remove(id.key()) || (after.contains_key(id.key()) && after
            == before.insert(id.key(), after[id.key()])) || after == before,
    ensures
        after.contains_key(other.key()) == before.contains_key(other.key()),
        after.contains_key(other.key()) ==> after[other.key()] == before[other.key()],
{
    if id.key() == other.key() {
        lemma_key_injective(id, other);
    }
}

/// A batch moves the cursor on by exactly the number of entries taken,
/// and never past the end of the listing it stood in.
pub proof fn lemma_batch_moves_the_cursor<A: Fn(DirEntryBufferHandle, &WStr, BasicInfo) -> StatusCode>(
    append: A,
    buffer: DirEntryBufferHandle,
    s: DirInfoView,
    taken: nat,
)
    requires
        batch_taken(append, buffer, s, taken),
    ensures
        moved_on(s, taken).index == s.index + taken,
        moved_on(s, taken).entries == s.entries,
        moved_on(s, taken).path == s.path,
        moved_on(s, taken).filled == s.filled,
        s.index <= s.entries.len() ==> moved_on(s, taken).index <= s.entries.len(),
        taken > 0 ==> moved_on(s, taken).index <= s.entries.len(),
{
}

/// Calls on different sessions can be taken in either order: what each
/// does to the table, putting a session under its key or taking it away,
/// does not depend on what the other did.
pub proof fn lemma_calls_on_different_sessions_commute(
    table: Map<u128, DirInfoView>,
    a: Guid,
    b: Guid,
    x: DirInfoView,
    y: DirInfoView,
)
    requires
        a != b,
    ensures
        table.insert(a.key(), x).insert(b.key(), y) == table.insert(b.key(), y).insert(a.key(), x),
        table.insert(a.key(), x).remove(b.key()) == table.remove(b.key()).insert(a.key(), x),
        table.remove(a.key()).remove(b.key()) == table.remove(b.key()).remove(a.key()),
        table.insert(a.key(), x)[a.key()] == table.insert(a.key(), x).insert(b.key(), y)[a.key()],
{
    if a.key() == b.key() {
        lemma_key_injective(a, b);
    }
    assert(table.insert(a.key(), x).insert(b.key(), y) =~= table.insert(b.key(), y).insert(
        a.key(),
        x,
    ));
    assert(table.insert(a.key(), x).remove(b.key()) =~= table.remove(b.key()).insert(a.key(), x));
    assert(table.remove(a.key()).remove(b.key()) =~= table.remove(b.key()).remove(a.key()));
}

/// Two sessions that need a listing and are given the same one hold the
/// same entries in the same order, whatever else they held, if the order
/// of the host follows a strict weak order on names: the listing in the
/// stable sorted order of that relation, which sorting again would not
/// change. After a restart the cursor stands on the first entry.
pub proof fn lemma_listing_order_is_determined<O: Fn(&WStr, &WStr) -> i32>(
    order: O,
    lt: spec_fn(Seq<u16>, Seq<u16>) -> bool,
    listing: Seq<DirEntryView>,
    a: DirInfoView,
    restart_a: bool,
    sorted_a: Seq<DirEntryView>,
    b: DirInfoView,
    restart_b: bool,
    sorted_b: Seq<DirEntryView>,
)
    requires
        order_follows(order, lt),
        strict_weak_order(by_name(lt)),
        needs_listing(a, restart_a),
        needs_listing(b, restart_b),
        sorted_by_order(order, listing, sorted_a),
        sorted_by_order(order, listing, sorted_b),
    ensures
        made_ready(a, restart_a, sorted_a).entries == made_ready(b, restart_b, sorted_b).entries,
        made_ready(a, restart_a, sorted_a).entries == stable_sort(listing, by_name(lt)),
        is_sorted(sorted_a, by_name(lt)),
        sorted_a.to_multiset() == listing.to_multiset(),
        stable_sort(sorted_a, by_name(lt)) == sorted_a,
        forall|again: Seq<DirEntryView>| #[trigger]
            sorted_by_order(order, sorted_a, again) ==> again == sorted_a,
        made_ready(a, true, sorted_a).index == 0,
{
    lemma_sorted_by_order(order, lt, listing, sorted_a);
}

/// A directory without entries gives a batch without entries, whatever
/// the order of the host answers: the session is filled, holds nothing,
/// and the batch is empty.
pub proof fn lemma_empty_directory<O, A>(
    s: DirInfoView,
    restart: bool,
    order: O,
    sorted: Seq<DirEntryView>,
    append: A,
    buffer: DirEntryBufferHandle,
    taken: nat,
) where
    O: Fn(&WStr, &WStr) -> i32,
    A: Fn(DirEntryBufferHandle, &WStr, BasicInfo) -> StatusCode,

    requires
        needs_listing(s, restart),
        sorted_by_order(order, Seq::empty(), sorted),
        batch_taken(append, buffer, made_ready(s, restart, sorted), taken),
    ensures
        made_ready(s, restart, sorted).filled,
        made_ready(s, restart, sorted).entries.len() == 0,
        taken == 0,
        moved_on(made_ready(s, restart, sorted), taken) == made_ready(s, restart, sorted),
{
}

/// Where nothing may be written, requests to delete or rename are turned
/// down; where writing is allowed, they are acknowledged.
pub proof fn lemma_read_only_policy()
    ensures
        notification_status(true, sys::PRJ_NOTIFICATION_PRE_DELETE) == E_ACCESS_DENIED,
        notification_status(true, sys::PRJ_NOTIFICATION_PRE_RENAME) == E_ACCESS_DENIED,
        forall|notification: sys::PrjNotification| #[trigger]
            notification_status(false, notification) == S_OK,
        forall|notification: sys::PrjNotification|
            notification != sys::PRJ_NOTIFICATION_PRE_DELETE && notification
                != sys::PRJ_NOTIFICATION_PRE_RENAME ==> #[trigger] notification_status(
                true,
                notification,
            ) == S_OK,
{
}

} // verus!
