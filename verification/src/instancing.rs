//! Single-instance locking: a map from instance names to named system locks.
//!
//! Each name is backed by a lock that only one process at a time can hold
//! (on Linux a Unix stream socket bound to the abstract address of the
//! name). A mapped name is active while this map holds its lock, and
//! inactive after the lock was released; a released lock can be taken again.
use vstd::prelude::*;
use vstd::string::StringSliceAdditionalSpecFns;
use vstd::string::StringExecFns;

verus! {

#[verifier::external_type_specification]
#[verifier::external_body]
pub struct ExUnixAddr(nix::sys::socket::UnixAddr);

/// The error of every instancing operation: a message.
#[derive(Debug)]
pub struct InstanceError(String);

impl View for InstanceError {
    type V = Seq<char>;

    closed spec fn view(&self) -> Seq<char> {
        self.0@
    }
}

impl InstanceError {
    /// An error with the message `message`.
    pub fn new(message: String) -> (e: InstanceError)
        ensures
            e@ == message@,
    {
        InstanceError(message)
    }

    /// The message of the error.
    pub fn message(&self) -> (s: String)
        ensures
            s@ == self@,
    {
        self.0.clone()
    }

    /// The error as it is shown to a user: the message after `INSTANCING: `.
    pub fn describe(&self) -> (s: String)
        ensures
            s@ == "INSTANCING: "@ + self@,
    {
        let mut s = "INSTANCING: ".to_owned();
        s.append(self.0.as_str());
        s
    }
}

/// Message of a lock that the system could not create.
pub open spec fn handle_invalid_text() -> Seq<char> {
    "Windows handle invalid!"@
}

/// Message of a lock that another process holds already.
pub open spec fn handle_exists_text() -> Seq<char> {
    "Handle exists! Is process already running?"@
}

/// Message of `try_push` on a mapped name.
pub open spec fn instance_exists_text() -> Seq<char> {
    "Instance exists!"@
}

/// Message of `is_active` on a name that is not mapped.
pub open spec fn not_mapped_text() -> Seq<char> {
    "Instance is not mapped."@
}

/// Message of `release_instance` on a name that is not active.
pub open spec fn not_releasable_text() -> Seq<char> {
    "Instance doesn't exist!"@
}

/// Message of `restart_instance` on a name that is not mapped and inactive.
pub open spec fn not_restartable_text() -> Seq<char> {
    "Could not reinstate instance mutex!"@
}

/// The number of bytes of the path of a Linux socket address (`sun_path`);
/// an abstract name takes one of them for its leading zero byte.
pub open spec fn socket_path_capacity() -> nat {
    108
}

/// A name can back a lock when its UTF-8 encoding leaves room for the
/// leading zero byte of an abstract socket address.
pub open spec fn lockable_name(name: &str) -> bool {
    name.spec_bytes().len() < socket_path_capacity()
}

/// The sockets that the lock functions opened and have not closed, each
/// with the abstract name it is bound to (`None` while it is unbound), and
/// the log of what the socket calls made of them. It is a model only: at run
/// time it holds nothing.
pub struct SocketTable {
    open: Ghost<Map<i32, Option<Seq<u8>>>>,
    events: Ghost<Seq<SocketEvent>>,
}

/// What one socket call did.
pub enum SocketEvent {
    /// A socket was opened with this descriptor.
    Opened(i32),
    /// No socket could be opened.
    OpenFailed,
    /// The socket was bound to the abstract name.
    Bound(i32, Seq<u8>),
    /// The socket could not be bound to the abstract name.
    BindFailed(i32, Seq<u8>),
    /// The descriptor was closed.
    Closed(i32),
}

impl View for SocketTable {
    type V = Map<i32, Option<Seq<u8>>>;

    closed spec fn view(&self) -> Map<i32, Option<Seq<u8>>> {
        self.open@
    }
}

impl SocketTable {
    /// A table of no sockets.
    pub fn new() -> (t: SocketTable)
        ensures
            t@ == Map::<i32, Option<Seq<u8>>>::empty(),
            t.events() == Seq::<SocketEvent>::empty(),
    {
        SocketTable { open: Ghost(Map::empty()), events: Ghost(Seq::empty()) }
    }

    /// What the socket calls on this table did, in order.
    pub closed spec fn events(self) -> Seq<SocketEvent> {
        self.events@
    }
}

/// An abstract Unix socket address, with the name it was made from.
pub struct AbstractAddress {
    addr: nix::sys::socket::UnixAddr,
    path: Ghost<Seq<u8>>,
}

impl AbstractAddress {
    /// The name of the address.
    pub closed spec fn path(self) -> Seq<u8> {
        self.path@
    }
}

/// Makes the abstract Unix socket address whose name is `path`, with
/// `nix::sys::socket::UnixAddr::new_abstract`. Its source refuses (with
/// `ENAMETOOLONG`) exactly the paths of at least `sun_path.len()` (108 on
/// Linux) bytes, and otherwise copies `path` into the address.
#[verifier::external_body]
fn abstract_address(path: &[u8]) -> (r: Result<AbstractAddress, i32>)
    ensures
        r is Ok <==> path@.len() < socket_path_capacity(),
        r matches Ok(a) ==> a.path() == path@,
{
    match nix::sys::socket::UnixAddr::new_abstract(path) {
        Ok(addr) => Ok(AbstractAddress { addr, path: Ghost(path@) }),
        Err(e) => Err(e as i32),
    }
}

/// Opens a Unix stream socket with `nix::sys::socket::socket`, giving its
/// file descriptor or the error number. Whether it succeeds depends on the
/// system. Its source shows that the failure value `-1` of the system call
/// is never handed out as a descriptor; an opened socket is recorded in
/// `sockets` as unbound, and the outcome is logged.
#[verifier::external_body]
fn open_stream_socket(sockets: &mut SocketTable) -> (r: Result<i32, i32>)
    ensures
        r matches Ok(fd) ==> fd != -1 && final(sockets)@ == old(sockets)@.insert(fd, None)
            && final(sockets).events() == old(sockets).events().push(SocketEvent::Opened(fd)),
        r is Err ==> final(sockets)@ == old(sockets)@ && final(sockets).events()
            == old(sockets).events().push(SocketEvent::OpenFailed),
{
    let _ = sockets;
    match nix::sys::socket::socket(
        nix::sys::socket::AddressFamily::Unix,
        nix::sys::socket::SockType::Stream,
        nix::sys::socket::SockFlag::empty(),
        None,
    ) {
        Ok(fd) => Ok(fd),
        Err(e) => Err(e as i32),
    }
}

/// Binds the socket `fd` to `addr` with `nix::sys::socket::bind`. It fails
/// when another socket is bound to the address (or for other reasons of the
/// system), so whether it succeeds is not stated; a socket that was bound is
/// recorded in `sockets` with the address's name, and the outcome is logged.
#[verifier::external_body]
fn bind_socket(sockets: &mut SocketTable, fd: i32, addr: &AbstractAddress) -> (r: Result<(), i32>)
    ensures
        r is Ok ==> final(sockets)@ == old(sockets)@.insert(fd, Some(addr.path()))
            && final(sockets).events() == old(sockets).events().push(
            SocketEvent::Bound(fd, addr.path()),
        ),
        r is Err ==> final(sockets)@ == old(sockets)@ && final(sockets).events()
            == old(sockets).events().push(SocketEvent::BindFailed(fd, addr.path())),
{
    let _ = sockets;
    match nix::sys::socket::bind(fd, &addr.addr) {
        Ok(()) => Ok(()),
        Err(e) => Err(e as i32),
    }
}

/// Closes the file descriptor `fd` with `nix::unistd::close`; what the
/// system answers is not stated. On Linux the descriptor is released even
/// when an error is answered, so `fd` leaves `sockets` in every case; the
/// close is logged.
#[verifier::external_body]
fn close_descriptor(sockets: &mut SocketTable, fd: i32) -> (r: Result<(), i32>)
    ensures
        final(sockets)@ == old(sockets)@.remove(fd),
        final(sockets).events() == old(sockets).events().push(SocketEvent::Closed(fd)),
{
    let _ = sockets;
    match nix::unistd::close(fd) {
        Ok(()) => Ok(()),
        Err(e) => Err(e as i32),
    }
}

/// The lock that opening a socket (`opened`) and binding it (`bound`, only
/// looked at when the socket opened) give: a socket that did not open gives
/// the "handle invalid" error, one that did not bind the "handle exists"
/// error, and a bound socket its descriptor.
pub fn lock_outcome(opened: Result<i32, i32>, bound: Result<(), i32>) -> (r: Result<i32, InstanceError>)
    ensures
        match (opened, bound) {
            (Err(_), _) => r matches Err(e) && e@ == handle_invalid_text(),
            (Ok(_), Err(_)) => r matches Err(e) && e@ == handle_exists_text(),
            (Ok(fd), Ok(())) => r == Ok::<i32, InstanceError>(fd),
        },
{
    match opened {
        Err(_) => Err(InstanceError("Windows handle invalid!".to_owned())),
        Ok(fd) => match bound {
            Ok(()) => Ok(fd),
            Err(_) => Err(InstanceError("Handle exists! Is process already running?".to_owned())),
        },
    }
}

/// The socket calls of an attempt to take the lock `path` that failed to
/// bind the socket `fd`: open it, fail to bind it, close it again.
pub open spec fn failed_bind(fd: i32, path: Seq<u8>) -> Seq<SocketEvent> {
    seq![SocketEvent::Opened(fd), SocketEvent::BindFailed(fd, path), SocketEvent::Closed(fd)]
}

/// `attempt` are the socket calls of one attempt to take the lock named
/// `path`, and `outcome` (a descriptor, or an error message) what the
/// attempt gave: the descriptor of a socket that opened and bound; the
/// "handle invalid" message when no socket opened; the "handle exists"
/// message when the socket opened but did not bind, and was closed again.
pub open spec fn lock_attempt(path: Seq<u8>, attempt: Seq<SocketEvent>, outcome: Result<i32, Seq<char>>) -> bool {
    match outcome {
        Ok(fd) => attempt == seq![SocketEvent::Opened(fd), SocketEvent::Bound(fd, path)],
        Err(m) => {
            ||| m == handle_invalid_text() && attempt == seq![SocketEvent::OpenFailed]
            ||| m == handle_exists_text() && exists|fd: i32| attempt == #[trigger] failed_bind(fd, path)
        },
    }
}

/// The log `after` is the log `before` followed by one attempt to take the
/// lock named `path`, which gave `outcome`.
pub open spec fn took_lock(
    path: Seq<u8>,
    before: Seq<SocketEvent>,
    after: Seq<SocketEvent>,
    outcome: Result<i32, Seq<char>>,
) -> bool {
    &&& before.len() <= after.len()
    &&& after.subrange(0, before.len() as int) == before
    &&& lock_attempt(path, after.subrange(before.len() as int, after.len() as int), outcome)
}

/// A lock result as a descriptor or an error message.
pub open spec fn lock_result(r: Result<i32, InstanceError>) -> Result<i32, Seq<char>> {
    match r {
        Ok(fd) => Ok(fd),
        Err(e) => Err(e@),
    }
}

/// What an attempt to take a lock gives follows from the socket calls alone:
/// it gives a descriptor exactly when a socket opened and bound to the name,
/// and then that socket's; it gives the "handle invalid" message exactly
/// when no socket opened; otherwise the socket that opened could not bind,
/// the "handle exists" message comes, and the socket is closed again.
pub proof fn law_lock_follows_the_socket_calls(
    path: Seq<u8>,
    attempt: Seq<SocketEvent>,
    outcome: Result<i32, Seq<char>>,
)
    requires
        lock_attempt(path, attempt, outcome),
    ensures
        attempt.len() > 0,
        outcome is Ok <==> attempt.len() == 2 && attempt[1] is Bound,
        outcome matches Ok(fd) ==> attempt[0] == SocketEvent::Opened(fd) && attempt[1]
            == SocketEvent::Bound(fd, path),
        outcome == Err::<i32, Seq<char>>(handle_invalid_text()) <==> attempt[0] is OpenFailed,
        attempt[0] is OpenFailed ==> attempt.len() == 1,
        outcome is Err && attempt[0] is Opened ==> {
            &&& attempt.len() == 3
            &&& attempt[1] == SocketEvent::BindFailed(attempt[0]->Opened_0, path)
            &&& attempt[2] == SocketEvent::Closed(attempt[0]->Opened_0)
            &&& outcome == Err::<i32, Seq<char>>(handle_exists_text())
        },
{
    reveal_strlit("Windows handle invalid!");
    reveal_strlit("Handle exists! Is process already running?");
    assert(handle_invalid_text().len() != handle_exists_text().len());
    if outcome is Err {
        if attempt != seq![SocketEvent::OpenFailed] {
            let fd = choose|fd: i32| attempt == #[trigger] failed_bind(fd, path);
            assert(attempt[0] == SocketEvent::Opened(fd));
        }
    }
}

/// Takes the system lock named `name`: a Unix stream socket bound to the
/// abstract address `name`, recorded in `sockets`. Which error a failure
/// gives is [`lock_outcome`]'s; a socket that opened but did not bind is
/// closed again, so after a failure `sockets` holds no new socket.
pub fn create_handle(sockets: &mut SocketTable, name: &str) -> (r: Result<i32, InstanceError>)
    requires
        lockable_name(name),
    ensures
        r matches Ok(fd) ==> fd != -1 && final(sockets)@ == old(sockets)@.insert(
            fd,
            Some(name.spec_bytes()),
        ),
        r is Err ==> final(sockets)@.submap_of(old(sockets)@),
        r matches Err(e) ==> e@ == handle_invalid_text() || e@ == handle_exists_text(),
        took_lock(name.spec_bytes(), old(sockets).events(), final(sockets).events(), lock_result(r)),
{
    let addr = match abstract_address(name.as_bytes()) {
        Ok(addr) => addr,
        Err(_) => {
            proof {
                assert(false);
            }
            return Err(InstanceError("Windows handle invalid!".to_owned()));
        },
    };
    let ghost before = sockets@;
    let ghost log = sockets.events();
    let opened = open_stream_socket(sockets);
    let bound = match opened {
        Ok(fd) => bind_socket(sockets, fd, &addr),
        Err(_) => Ok(()),
    };
    let r = lock_outcome(opened, bound);
    match (opened, bound) {
        (Ok(fd), Err(_)) => {
            let _ = close_descriptor(sockets, fd);
            assert(sockets@ =~= before.insert(fd, None).remove(fd));
        },
        _ => {},
    }
    proof {
        let after = sockets.events();
        let attempt = after.subrange(log.len() as int, after.len() as int);
        assert(after.subrange(0, log.len() as int) =~= log);
        match opened {
            Err(_) => {
                assert(attempt =~= seq![SocketEvent::OpenFailed]);
            },
            Ok(fd) => match bound {
                Ok(()) => {
                    assert(attempt =~= seq![SocketEvent::Opened(fd), SocketEvent::Bound(fd, name.spec_bytes())]);
                },
                Err(_) => {
                    assert(attempt =~= failed_bind(fd, name.spec_bytes()));
                },
            },
        }
    }
    r
}

/// The lock of one mapped name: the descriptor of its socket while it is
/// held, nothing after it was released.
struct Instance {
    handle: Option<i32>,
}

/// `k` is the name of the `i`-th entry of `s`.
spec fn names_at(s: Seq<(String, Instance)>, k: Seq<char>, i: int) -> bool {
    0 <= i < s.len() && s[i].0@ == k
}

/// No two entries of `s` have the same name.
spec fn distinct_names(s: Seq<(String, Instance)>) -> bool {
    forall|i: int, j: int|
        0 <= i < s.len() && 0 <= j < s.len() && i != j ==> #[trigger] s[i].0@ != #[trigger] s[j].0@
}

/// An entry of `s` named `k`.
spec fn entry_named(s: Seq<(String, Instance)>, k: Seq<char>) -> int {
    choose|i: int| names_at(s, k, i)
}

/// The map from each name of `s` to the lock descriptor of its entry.
spec fn locks_of(s: Seq<(String, Instance)>) -> Map<Seq<char>, Option<i32>> {
    Map::new(
        |k: Seq<char>| exists|i: int| names_at(s, k, i),
        |k: Seq<char>| s[entry_named(s, k)].1.handle,
    )
}

proof fn lemma_entry(s: Seq<(String, Instance)>, i: int)
    requires
        distinct_names(s),
        0 <= i < s.len(),
    ensures
        locks_of(s).dom().contains(s[i].0@),
        locks_of(s)[s[i].0@] == s[i].1.handle,
{
    assert(names_at(s, s[i].0@, i));
    let j = entry_named(s, s[i].0@);
    assert(names_at(s, s[i].0@, j));
    assert(s[j].0@ == s[i].0@);
}

proof fn lemma_absent(s: Seq<(String, Instance)>, k: Seq<char>)
    requires
        forall|j: int| 0 <= j < s.len() ==> s[j].0@ != k,
    ensures
        !locks_of(s).dom().contains(k),
{
    if exists|i: int| names_at(s, k, i) {
        let i = choose|i: int| names_at(s, k, i);
        assert(s[i].0@ == k);
    }
}

proof fn lemma_push(s: Seq<(String, Instance)>, name: String, inst: Instance)
    requires
        distinct_names(s),
        !locks_of(s).dom().contains(name@),
    ensures
        distinct_names(s.push((name, inst))),
        locks_of(s.push((name, inst))) =~= locks_of(s).insert(name@, inst.handle),
{
    let t = s.push((name, inst));
    assert forall|i: int| 0 <= i < s.len() implies s[i].0@ != name@ by {
        if s[i].0@ == name@ {
            assert(names_at(s, name@, i));
        }
    }
    assert forall|i: int, j: int|
        0 <= i < t.len() && 0 <= j < t.len() && i != j implies #[trigger] t[i].0@ != #[trigger] t[j].0@ by {
        if i < s.len() && j < s.len() {
            assert(t[i] == s[i] && t[j] == s[j]);
        }
    }
    let m = locks_of(s).insert(name@, inst.handle);
    assert forall|k: Seq<char>| #[trigger] locks_of(t).dom().contains(k) <==> m.dom().contains(k) by {
        if locks_of(t).dom().contains(k) {
            let i = choose|i: int| names_at(t, k, i);
            if i < s.len() {
                assert(names_at(s, k, i));
            }
        }
        if locks_of(s).dom().contains(k) {
            let i = choose|i: int| names_at(s, k, i);
            assert(names_at(t, k, i));
        }
        if k == name@ {
            assert(names_at(t, k, s.len() as int));
        }
    }
    assert forall|k: Seq<char>| #[trigger] locks_of(t).dom().contains(k) implies locks_of(t)[k] == m[k] by {
        let i = choose|i: int| names_at(t, k, i);
        lemma_entry(t, i);
        if i < s.len() {
            lemma_entry(s, i);
        }
    }
}

proof fn lemma_update(s: Seq<(String, Instance)>, i: int, inst: Instance)
    requires
        distinct_names(s),
        0 <= i < s.len(),
    ensures
        distinct_names(s.update(i, (s[i].0, inst))),
        locks_of(s.update(i, (s[i].0, inst))) =~= locks_of(s).insert(s[i].0@, inst.handle),
{
    let t = s.update(i, (s[i].0, inst));
    assert forall|a: int, b: int|
        0 <= a < t.len() && 0 <= b < t.len() && a != b implies #[trigger] t[a].0@ != #[trigger] t[b].0@ by {
        assert(t[a].0 == s[a].0 && t[b].0 == s[b].0);
    }
    lemma_entry(s, i);
    let m = locks_of(s).insert(s[i].0@, inst.handle);
    assert forall|k: Seq<char>| #[trigger] locks_of(t).dom().contains(k) <==> m.dom().contains(k) by {
        if locks_of(t).dom().contains(k) {
            let j = choose|j: int| names_at(t, k, j);
            assert(names_at(s, k, j));
        }
        if locks_of(s).dom().contains(k) {
            let j = choose|j: int| names_at(s, k, j);
            assert(names_at(t, k, j));
        }
    }
    assert forall|k: Seq<char>| #[trigger] locks_of(t).dom().contains(k) implies locks_of(t)[k] == m[k] by {
        let j = choose|j: int| names_at(t, k, j);
        lemma_entry(t, j);
        lemma_entry(s, j);
    }
}

/// Instance names mapped to their locks.
///
/// The names are kept in a `Vec` whose entries have distinct names rather
/// than in a `HashMap<String, _>`: vstd specifies `HashMap` only for keys
/// that obey its key model (`obeys_key_model`), which it establishes for
/// integer and `bool` keys but not for `String`.
pub struct InstanceMap {
    instances: Vec<(String, Instance)>,
    sockets: SocketTable,
}

impl View for InstanceMap {
    /// Each mapped name with the descriptor of its lock while it is active
    /// (`Some`), or `None` while it is inactive.
    type V = Map<Seq<char>, Option<i32>>;

    closed spec fn view(&self) -> Map<Seq<char>, Option<i32>> {
        locks_of(self.instances@)
    }
}

/// `name` is mapped in `m`.
pub open spec fn mapped(m: Map<Seq<char>, Option<i32>>, name: Seq<char>) -> bool {
    m.dom().contains(name)
}

/// `name` is mapped in `m` and its lock is held.
pub open spec fn active(m: Map<Seq<char>, Option<i32>>, name: Seq<char>) -> bool {
    mapped(m, name) && m[name] is Some
}

/// `name` is mapped in `m` and its lock was released.
pub open spec fn inactive(m: Map<Seq<char>, Option<i32>>, name: Seq<char>) -> bool {
    mapped(m, name) && m[name] is None
}

/// The map after `name` took the lock `fd`.
pub open spec fn locked(m: Map<Seq<char>, Option<i32>>, name: Seq<char>, fd: i32) -> Map<Seq<char>, Option<i32>> {
    m.insert(name, Some(fd))
}

/// The map after the lock of `name` was released.
pub open spec fn released(m: Map<Seq<char>, Option<i32>>, name: Seq<char>) -> Map<Seq<char>, Option<i32>> {
    m.insert(name, None)
}

/// What `is_active` answers: whether the mapped `name` holds its lock, or
/// the "not mapped" message.
pub open spec fn activity(m: Map<Seq<char>, Option<i32>>, name: Seq<char>) -> Result<bool, Seq<char>> {
    if mapped(m, name) {
        Ok(m[name] is Some)
    } else {
        Err(not_mapped_text())
    }
}

impl InstanceMap {
    /// No name is mapped twice.
    pub closed spec fn wf(self) -> bool {
        distinct_names(self.instances@)
    }

    /// The sockets that this map's locks opened and have not closed, each
    /// with the name it is bound to.
    pub closed spec fn sockets(self) -> Map<i32, Option<Seq<u8>>> {
        self.sockets@
    }

    /// What the socket calls of this map's locks did, in order.
    pub closed spec fn socket_events(self) -> Seq<SocketEvent> {
        self.sockets.events()
    }

    proof fn lemma_view_of(self, key: String, found: Option<usize>)
        requires
            self.wf(),
            found matches Some(i) ==> i < self.instances@.len() && self.instances@[i as int].0@ == key@,
            found is None ==> !self@.dom().contains(key@),
        ensures
            found is Some <==> self@.dom().contains(key@),
            found matches Some(i) ==> self@[key@] == self.instances@[i as int].1.handle,
    {
        if let Some(i) = found {
            lemma_entry(self.instances@, i as int);
        }
    }

    /// An empty map.
    pub fn new() -> (m: InstanceMap)
        ensures
            m.wf(),
            m@ == Map::<Seq<char>, Option<i32>>::empty(),
            m.sockets() == Map::<i32, Option<Seq<u8>>>::empty(),
            m.socket_events() == Seq::<SocketEvent>::empty(),
    {
        let m = InstanceMap { instances: Vec::new(), sockets: SocketTable::new() };
        proof {
            assert forall|k: Seq<char>| !(#[trigger] m@.dom().contains(k)) by {
                lemma_absent(m.instances@, k);
            }
            assert(m@ =~= Map::<Seq<char>, Option<i32>>::empty());
        }
        m
    }

    /// The index of the entry named `key`, if there is one.
    fn find(&self, key: &String) -> (r: Option<usize>)
        requires
            self.wf(),
        ensures
            r matches Some(i) ==> i < self.instances@.len() && self.instances@[i as int].0@ == key@,
            r is None ==> !self@.dom().contains(key@),
    {
        let mut i: usize = 0;
        while i < self.instances.len()
            invariant
                i <= self.instances@.len(),
                forall|j: int| 0 <= j < i ==> self.instances@[j].0@ != key@,
            decreases self.instances@.len() - i,
        {
            if self.instances[i].0 == *key {
                return Some(i);
            }
            i = i + 1;
        }
        proof {
            lemma_absent(self.instances@, key@);
        }
        None
    }

    /// Whether `name` is mapped.
    pub fn is_mapped(&self, name: &str) -> (r: bool)
        requires
            self.wf(),
        ensures
            r == mapped(self@, name@),
    {
        let key = name.to_owned();
        let found = self.find(&key);
        proof {
            self.lemma_view_of(key, found);
        }
        found.is_some()
    }

    /// Whether the mapped `name` holds its lock; a name that is not mapped
    /// is an error.
    pub fn is_active(&self, name: &str) -> (r: Result<bool, InstanceError>)
        requires
            self.wf(),
        ensures
            match r {
                Ok(b) => activity(self@, name@) == Ok::<bool, Seq<char>>(b),
                Err(e) => activity(self@, name@) == Err::<bool, Seq<char>>(e@),
            },
    {
        let key = name.to_owned();
        let found = self.find(&key);
        proof {
            self.lemma_view_of(key, found);
        }
        match found {
            Some(i) => Ok(self.instances[i].1.handle.is_some()),
            None => Err(InstanceError("Instance is not mapped.".to_owned())),
        }
    }

    /// Maps the new name `name` to the lock `instance`.
    fn push(&mut self, name: &str, instance: Instance)
        requires
            old(self).wf(),
            !mapped(old(self)@, name@),
        ensures
            final(self).wf(),
            final(self)@ == old(self)@.insert(name@, instance.handle),
            final(self).sockets() == old(self).sockets(),
            final(self).socket_events() == old(self).socket_events(),
    {
        let key = name.to_owned();
        proof {
            lemma_push(self.instances@, key, instance);
        }
        self.instances.push((key, instance));
    }

    /// Maps the new name `name` according to the outcome of taking its lock:
    /// a held lock `Ok(fd)` makes `name` active with `fd`; an error leaves
    /// the map as it is and is handed back.
    pub fn push_handle(&mut self, name: &str, handle: Result<i32, InstanceError>) -> (r: Result<(), InstanceError>)
        requires
            old(self).wf(),
            !mapped(old(self)@, name@),
        ensures
            final(self).wf(),
            match handle {
                Ok(fd) => r is Ok && final(self)@ == locked(old(self)@, name@, fd)
                    && final(self).sockets() == old(self).sockets()
                    && final(self).socket_events() == old(self).socket_events(),
                Err(e) => r == Err::<(), InstanceError>(e) && *final(self) == *old(self),
            },
    {
        match handle {
            Ok(fd) => {
                self.push(name, Instance { handle: Some(fd) });
                Ok(())
            },
            Err(e) => Err(e),
        }
    }

    /// Maps the new name `name` with a fresh lock. A mapped name is refused
    /// with the "instance exists" message; an error of taking the lock is
    /// handed back. On success the map, now with `name` active, is handed
    /// back for further calls.
    pub fn try_push(&mut self, name: &str) -> (r: Result<&mut Self, InstanceError>)
        requires
            old(self).wf(),
            !mapped(old(self)@, name@) ==> lockable_name(name),
        ensures
            match r {
                Err(e) => if mapped(old(self)@, name@) {
                    &&& *final(self) == *old(self)
                    &&& e@ == instance_exists_text()
                } else {
                    &&& final(self).wf()
                    &&& final(self)@ == old(self)@
                    &&& final(self).sockets().submap_of(old(self).sockets())
                    &&& e@ == handle_invalid_text() || e@ == handle_exists_text()
                    &&& took_lock(
                        name.spec_bytes(),
                        old(self).socket_events(),
                        final(self).socket_events(),
                        Err(e@),
                    )
                },
                Ok(m) => {
                    &&& *final(self) == *final(m)
                    &&& !mapped(old(self)@, name@)
                    &&& m.wf()
                    &&& active(m@, name@)
                    &&& m@ == locked(old(self)@, name@, m@[name@]->Some_0)
                    &&& m.sockets() == old(self).sockets().insert(
                        m@[name@]->Some_0,
                        Some(name.spec_bytes()),
                    )
                    &&& took_lock(
                        name.spec_bytes(),
                        old(self).socket_events(),
                        m.socket_events(),
                        Ok(m@[name@]->Some_0),
                    )
                },
            },
    {
        if self.is_mapped(name) {
            Err(InstanceError("Instance exists!".to_owned()))
        } else {
            let handle = create_handle(&mut self.sockets, name);
            match self.push_handle(name, handle) {
                Ok(()) => Ok(self),
                Err(e) => Err(e),
            }
        }
    }

    /// Releases the lock of the active `name`: its socket is closed and
    /// `name` stays mapped, inactive. Any other name is refused with the
    /// "doesn't exist" message.
    pub fn release_instance(&mut self, name: &str) -> (r: Result<&mut Self, InstanceError>)
        requires
            old(self).wf(),
        ensures
            match r {
                Err(e) => {
                    &&& *final(self) == *old(self)
                    &&& !active(old(self)@, name@)
                    &&& e@ == not_releasable_text()
                },
                Ok(m) => {
                    &&& *final(self) == *final(m)
                    &&& active(old(self)@, name@)
                    &&& m.wf()
                    &&& m@ == released(old(self)@, name@)
                    &&& m.sockets() == old(self).sockets().remove(old(self)@[name@]->Some_0)
                    &&& m.socket_events() == old(self).socket_events().push(
                        SocketEvent::Closed(old(self)@[name@]->Some_0),
                    )
                },
            },
    {
        let key = name.to_owned();
        let found = self.find(&key);
        proof {
            self.lemma_view_of(key, found);
        }
        match found {
            Some(i) => match self.instances[i].1.handle {
                Some(fd) => {
                    let _ = close_descriptor(&mut self.sockets, fd);
                    let entry_name = self.instances[i].0.clone();
                    proof {
                        lemma_update(self.instances@, i as int, Instance { handle: None });
                    }
                    self.instances.set(i, (entry_name, Instance { handle: None }));
                    Ok(self)
                },
                None => Err(InstanceError("Instance doesn't exist!".to_owned())),
            },
            None => Err(InstanceError("Instance doesn't exist!".to_owned())),
        }
    }

    /// Gives the inactive `name` its lock back according to the outcome of
    /// taking it: a held lock `Ok(fd)` makes `name` active with `fd`; an
    /// error leaves the map as it is and is handed back.
    pub fn reinstate(&mut self, name: &str, handle: Result<i32, InstanceError>) -> (r: Result<(), InstanceError>)
        requires
            old(self).wf(),
            inactive(old(self)@, name@),
        ensures
            final(self).wf(),
            match handle {
                Ok(fd) => r is Ok && final(self)@ == locked(old(self)@, name@, fd)
                    && final(self).sockets() == old(self).sockets()
                    && final(self).socket_events() == old(self).socket_events(),
                Err(e) => r == Err::<(), InstanceError>(e) && *final(self) == *old(self),
            },
    {
        match handle {
            Ok(fd) => {
                let key = name.to_owned();
                let found = self.find(&key);
                proof {
                    self.lemma_view_of(key, found);
                }
                match found {
                    Some(i) => {
                        let entry_name = self.instances[i].0.clone();
                        proof {
                            lemma_update(self.instances@, i as int, Instance { handle: Some(fd) });
                        }
                        self.instances.set(i, (entry_name, Instance { handle: Some(fd) }));
                        Ok(())
                    },
                    None => {
                        proof {
                            assert(false);
                        }
                        Ok(())
                    },
                }
            },
            Err(e) => Err(e),
        }
    }

    /// Takes the lock of the inactive `name` again, making it active. Any
    /// other name is refused with the "could not reinstate" message; an error
    /// of taking the lock is handed back.
    pub fn restart_instance(&mut self, name: &str) -> (r: Result<&mut Self, InstanceError>)
        requires
            old(self).wf(),
            inactive(old(self)@, name@) ==> lockable_name(name),
        ensures
            match r {
                Err(e) => if inactive(old(self)@, name@) {
                    &&& final(self).wf()
                    &&& final(self)@ == old(self)@
                    &&& final(self).sockets().submap_of(old(self).sockets())
                    &&& e@ == handle_invalid_text() || e@ == handle_exists_text()
                    &&& took_lock(
                        name.spec_bytes(),
                        old(self).socket_events(),
                        final(self).socket_events(),
                        Err(e@),
                    )
                } else {
                    &&& *final(self) == *old(self)
                    &&& e@ == not_restartable_text()
                },
                Ok(m) => {
                    &&& *final(self) == *final(m)
                    &&& inactive(old(self)@, name@)
                    &&& m.wf()
                    &&& active(m@, name@)
                    &&& m@ == locked(old(self)@, name@, m@[name@]->Some_0)
                    &&& m.sockets() == old(self).sockets().insert(
                        m@[name@]->Some_0,
                        Some(name.spec_bytes()),
                    )
                    &&& took_lock(
                        name.spec_bytes(),
                        old(self).socket_events(),
                        m.socket_events(),
                        Ok(m@[name@]->Some_0),
                    )
                },
            },
    {
        let mapped_now = self.is_mapped(name);
        if mapped_now {
            match self.is_active(name) {
                Ok(false) => {
                    let handle = create_handle(&mut self.sockets, name);
                    return match self.reinstate(name, handle) {
                        Ok(()) => Ok(self),
                        Err(e) => Err(e),
                    };
                },
                _ => {},
            }
        }
        Err(InstanceError("Could not reinstate instance mutex!".to_owned()))
    }

    /// A map of the one name `name`, active with a fresh lock; or the error
    /// of taking that lock.
    pub fn try_new(name: &str) -> (r: Result<InstanceMap, InstanceError>)
        requires
            lockable_name(name),
        ensures
            match r {
                Ok(m) => {
                    &&& m.wf()
                    &&& m@.dom() == set![name@]
                    &&& active(m@, name@)
                    &&& m.sockets() == Map::<i32, Option<Seq<u8>>>::empty().insert(
                        m@[name@]->Some_0,
                        Some(name.spec_bytes()),
                    )
                    &&& took_lock(
                        name.spec_bytes(),
                        Seq::<SocketEvent>::empty(),
                        m.socket_events(),
                        Ok(m@[name@]->Some_0),
                    )
                },
                Err(e) => e@ == handle_invalid_text() || e@ == handle_exists_text(),
            },
    {
        let mut instance_map = InstanceMap::new();
        let handle = create_handle(&mut instance_map.sockets, name);
        match instance_map.push_handle(name, handle) {
            Ok(()) => {
                assert(instance_map@.dom() =~= set![name@]);
                Ok(instance_map)
            },
            Err(e) => Err(e),
        }
    }
}

/// `is_active` answers exactly for the mapped names, and then tells whether
/// the name holds its lock.
pub proof fn law_activity_answers_mapped_names(m: Map<Seq<char>, Option<i32>>, name: Seq<char>)
    ensures
        activity(m, name) is Ok <==> mapped(m, name),
        activity(m, name) == Ok::<bool, Seq<char>>(true) <==> active(m, name),
        activity(m, name) == Ok::<bool, Seq<char>>(false) <==> inactive(m, name),
{
}

/// A mapped name is either active or inactive, never both.
pub proof fn law_mapped_is_active_or_inactive(m: Map<Seq<char>, Option<i32>>, name: Seq<char>)
    ensures
        mapped(m, name) <==> (active(m, name) || inactive(m, name)),
        !(active(m, name) && inactive(m, name)),
{
}

/// Releasing and taking again never change which names are mapped: a
/// released name can be restarted, a restarted name released, and a
/// release followed by a restart with the lock `fd` leaves every other name
/// as it was.
pub proof fn law_release_restart_cycle(m: Map<Seq<char>, Option<i32>>, name: Seq<char>, fd: i32)
    requires
        active(m, name),
    ensures
        inactive(m.insert(name, None), name),
        m.insert(name, None).dom() == m.dom(),
        active(m.insert(name, None).insert(name, Some(fd)), name),
        m.insert(name, None).insert(name, Some(fd)).dom() == m.dom(),
        forall|other: Seq<char>|
            other != name && mapped(m, other) ==> #[trigger] m.insert(name, None).insert(
                name,
                Some(fd),
            )[other] == m[other],
{
    assert(m.insert(name, None).dom() =~= m.dom());
    assert(m.insert(name, None).insert(name, Some(fd)).dom() =~= m.dom());
}

/// A name that was pushed is mapped from then on, so pushing it again is
/// refused; the other names keep their locks.
pub proof fn law_pushed_name_stays_mapped(m: Map<Seq<char>, Option<i32>>, name: Seq<char>, fd: i32)
    requires
        !mapped(m, name),
    ensures
        active(m.insert(name, Some(fd)), name),
        m.insert(name, Some(fd)).dom() == m.dom().insert(name),
        forall|other: Seq<char>| other != name && mapped(m, other) ==> #[trigger] m.insert(name, Some(fd))[other] == m[other],
{
}

/// The mapped names change only when a lock is taken for a name that was
/// not mapped (`try_new`, `try_push`, `push_handle`), which adds that name.
/// Releasing a lock and taking it again (`release_instance`,
/// `restart_instance`, `reinstate`) keep the mapped names as they are, and
/// every refused or failed call leaves the map itself as it is.
pub proof fn law_names_change_only_by_push(
    m: Map<Seq<char>, Option<i32>>,
    name: Seq<char>,
    other: Seq<char>,
    fd: i32,
)
    ensures
        mapped(m, name) ==> released(m, name).dom() == m.dom(),
        mapped(m, name) ==> locked(m, name, fd).dom() == m.dom(),
        mapped(locked(m, name, fd), other) <==> (mapped(m, other) || other == name),
        mapped(released(m, name), other) <==> (mapped(m, other) || other == name),
{
    assert(m.insert(name, None).dom() =~= m.dom().insert(name));
    assert(m.insert(name, Some(fd)).dom() =~= m.dom().insert(name));
    if mapped(m, name) {
        assert(m.dom().insert(name) =~= m.dom());
    }
}

} // verus!
