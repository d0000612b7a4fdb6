//! The tenant router: a directory from tenant ids to storage engines, each
//! opened on first use below a common base directory, and the ingest path
//! that writes one record per inbound event into the engine of its chat.

use vstd::prelude::*;
use vstd::string::StringExecFns;
use vstd::utf8::encode_utf8;
use crate::common::{bad_request, internal_error, Reply, ReplyView, Request, RequestView, Server};
use crate::storage::errors::KeyValueError;
use crate::storage::{answers, lookup, written, KeyValue};
use crate::telegram::types::{update_of_payload, Update, UpdateView};
use crate::text::{
    decimal, decimal_string, digits, is_digit, lemma_bytes_before_total,
    lemma_bytes_before_transitive, lemma_decimal_injective, lemma_digits_are_digits,
    lemma_encoding_injective, same_text, sorts_before, text_before,
};

verus! {

broadcast use vstd::string::group_string_axioms;

/// Whether `c` could take a path out of the directory it is joined to: a
/// path separator of either kind, or the NUL character.
pub open spec fn is_separator(c: char) -> bool {
    c == '/' || c == '\\' || c == '\0'
}

/// Whether `id` can name a tenant: a single path segment that stays below
/// the directory it is joined to. It is not empty, holds no separator, and
/// is neither `.` nor `..`.
pub open spec fn safe_tenant(id: Seq<char>) -> bool {
    &&& id.len() > 0
    &&& id != seq!['.']
    &&& id != seq!['.', '.']
    &&& forall|i: int| 0 <= i < id.len() ==> !is_separator(#[trigger] id[i])
}

/// The directory of the tenant `id` below `base`: the two joined by one
/// `/`, which is left out where `base` is empty or already ends in one.
pub open spec fn tenant_path(base: Seq<char>, id: Seq<char>) -> Seq<char> {
    if base.len() == 0 || base.last() == '/' {
        base + id
    } else {
        base + seq!['/'] + id
    }
}

/// The slot of the tenant `id` in a directory that lists `tenants` in the
/// order in which they were added.
pub open spec fn slot_of(tenants: Seq<Seq<char>>, id: Seq<char>) -> Option<int> {
    if tenants.contains(id) {
        Some(tenants.index_of(id))
    } else {
        None
    }
}

/// The texts of a list of strings.
pub open spec fn texts(names: Seq<String>) -> Seq<Seq<char>> {
    names.map_values(|name: String| name@)
}

/// Whether `names` is in strictly ascending order, the order in which
/// `String` keys sort.
pub open spec fn ascending(names: Seq<Seq<char>>) -> bool {
    forall|i: int, j: int| 0 <= i < j < names.len() ==> text_before(names[i], names[j])
}

/// Whether `id` can name a tenant.
pub fn is_safe_tenant(id: &str) -> (r: bool)
    ensures
        r == safe_tenant(id@),
{
    let mut seen: u8 = 0;
    let mut only_dots = true;
    let mut separated = false;
    for c in it: id.chars()
        invariant
            it.seq() == id@,
            seen as int == if it.index() < 3 { it.index() as int } else { 3 },
            only_dots == (forall|k: int| 0 <= k < it.index() ==> id@[k] == '.'),
            separated == (exists|k: int| 0 <= k < it.index() && is_separator(id@[k])),
    {
        if seen < 3 {
            seen += 1;
        }
        if c != '.' {
            only_dots = false;
        }
        if c == '/' || c == '\\' || c == '\0' {
            separated = true;
        }
    }
    proof {
        if only_dots && id@.len() == 1 {
            assert(id@ =~= seq!['.']);
        }
        if only_dots && id@.len() == 2 {
            assert(id@ =~= seq!['.', '.']);
        }
        if id@ == seq!['.'] || id@ == seq!['.', '.'] {
            assert(only_dots);
        }
    }
    seen > 0 && !separated && !(only_dots && seen <= 2)
}

/// A handle to the storage engine of one tenant. Handles to the same engine
/// are equal, and a handle stays good for as long as its router lives.
#[derive(Clone, Copy, Debug, PartialEq, Eq, Structural)]
pub struct StorageHandle {
    pub slot: usize,
}

/// Why the router could not serve a request.
#[derive(Debug)]
pub enum RouterError {
    /// The tenant id would lead out of the base directory.
    InvalidTenant,
    /// The handle names no engine of this router.
    UnknownHandle,
    /// The tenant's storage engine failed.
    Engine(KeyValueError),
}

/// How the ingest of one request ended.
#[derive(Debug)]
pub enum Outcome {
    /// The event was parsed and its record is on stable storage.
    Acknowledged,
    /// The body did not hold an event; storage was not touched.
    Rejected,
    /// The tenant could not be resolved or the record could not be written.
    Failed(RouterError),
}

/// The tenant an event belongs to: the id of its chat, in decimal.
pub open spec fn tenant_of(update: UpdateView) -> Seq<char> {
    decimal(update.message.chat.id)
}

/// The key under which an event is recorded: its own id, in decimal.
pub open spec fn record_key(update: UpdateView) -> Seq<char> {
    decimal(update.update_id)
}

/// The value recorded for an event: the text of its message, or
/// `empty message` where it has none.
pub open spec fn record_value(update: UpdateView) -> Seq<char> {
    match update.message.text {
        Some(text) => text,
        None => "empty message"@,
    }
}

/// The reply that tells the sender how the ingest ended.
pub open spec fn reply_of(outcome: Outcome) -> ReplyView {
    match outcome {
        Outcome::Acknowledged => ReplyView { status: 200, body: "done"@ },
        Outcome::Rejected => bad_request(),
        Outcome::Failed(_) => internal_error(),
    }
}

/// The decimal rendering of an integer can name a tenant.
pub proof fn lemma_decimal_is_safe_tenant(n: int)
    ensures
        safe_tenant(decimal(n)),
{
    let id = decimal(n);
    let magnitude = if n < 0 { (-n) as nat } else { n as nat };
    lemma_digits_are_digits(magnitude);
    assert(id[0] == '-' || is_digit(id[0]));
    assert(seq!['.'][0] == '.');
    assert(seq!['.', '.'][0] == '.');
    assert forall|i: int| 0 <= i < id.len() implies !is_separator(#[trigger] id[i]) by {
        if n < 0 && i > 0 {
            assert(id[i] == digits(magnitude)[i - 1]);
        }
    }
}

/// Different tenants have different directories below one base.
pub proof fn lemma_tenant_paths_distinct(base: Seq<char>, a: Seq<char>, b: Seq<char>)
    requires
        a != b,
    ensures
        tenant_path(base, a) != tenant_path(base, b),
{
    let prefix = if base.len() == 0 || base.last() == '/' {
        base
    } else {
        base + seq!['/']
    };
    assert(tenant_path(base, a) =~= prefix + a);
    assert(tenant_path(base, b) =~= prefix + b);
    assert((prefix + a).skip(prefix.len() as int) =~= a);
    assert((prefix + b).skip(prefix.len() as int) =~= b);
}

/// The directory of a tenant lies below the base: its path is the base, one
/// `/` where the base does not end in one, and the tenant's id, which is a
/// single segment that names neither the base itself nor its parent.
pub proof fn lemma_tenant_path_below_base(base: Seq<char>, id: Seq<char>)
    requires
        safe_tenant(id),
    ensures
        ({
            let path = tenant_path(base, id);
            let joint = path.len() - id.len();
            &&& base.is_prefix_of(path)
            &&& base.len() <= joint <= base.len() + 1
            &&& joint > base.len() ==> path[base.len() as int] == '/'
            &&& path.skip(joint) == id
            &&& forall|i: int| joint <= i < path.len() ==> !is_separator(#[trigger] path[i])
        }),
{
    let path = tenant_path(base, id);
    let joint = path.len() - id.len();
    assert(path.skip(joint) =~= id);
    assert forall|i: int| joint <= i < path.len() implies !is_separator(#[trigger] path[i]) by {
        assert(path[i] == id[i - joint]);
    }
}

/// Events of different chats belong to different tenants.
pub proof fn lemma_chats_are_tenants_apart(a: UpdateView, b: UpdateView)
    requires
        a.message.chat.id != b.message.chat.id,
    ensures
        tenant_of(a) != tenant_of(b),
{
    if tenant_of(a) == tenant_of(b) {
        lemma_decimal_injective(a.message.chat.id, b.message.chat.id);
    }
}

impl Outcome {
    /// The reply that tells the sender how the ingest ended.
    pub fn reply(&self) -> (r: Reply)
        ensures
            r@ == reply_of(*self),
    {
        match self {
            Outcome::Acknowledged => Reply::new(200, "done"),
            Outcome::Rejected => Reply::bad_request(),
            Outcome::Failed(_) => Reply::internal_error(),
        }
    }
}

/// One slot of the directory: a tenant and its engine.
struct Entry<T> {
    tenant: String,
    engine: T,
}

/// The router and ingest service over storage engines of type `T`.
///
/// The directory only grows: a tenant keeps its slot, and with it its
/// handle, for as long as the router lives.
pub struct SchedulerService<T: KeyValue> {
    /// The base directory.
    path: String,
    /// Whether a tenant id is joined to the base as it is, without a `/`
    /// in between.
    joined_bare: bool,
    /// The directory, in the order in which the tenants were added.
    storage: Vec<Entry<T>>,
}

impl<T: KeyValue> SchedulerService<T> {
    /// The base directory.
    pub closed spec fn base(&self) -> Seq<char> {
        self.path@
    }

    /// The ids of the known tenants, in the order of their slots.
    pub closed spec fn tenants(&self) -> Seq<Seq<char>> {
        Seq::new(self.storage.len() as nat, |i: int| self.storage[i].tenant@)
    }

    /// The storage engine in `slot`.
    pub closed spec fn engine(&self, slot: int) -> T {
        self.storage[slot].engine
    }

    /// Whether `self` is `before` with the tenant `id` added in a slot of
    /// its own, behind an engine rooted at the tenant's directory, and
    /// with everything else as it was.
    pub open spec fn extends(&self, before: &Self, id: Seq<char>) -> bool {
        &&& self.base() == before.base()
        &&& self.tenants() == before.tenants().push(id)
        &&& forall|i: int| 0 <= i < before.tenants().len() ==> self.engine(i) == before.engine(i)
        &&& self.engine(before.tenants().len() as int).root() == tenant_path(self.base(), id)
    }

    /// What resolving the tenant `id` may do to a router and return.
    ///
    /// A tenant that the directory knows keeps its handle, and the router
    /// stays as it is. An id that is no safe path segment is refused. For
    /// a new tenant the engine at its directory is opened: on success the
    /// tenant takes the next slot, on failure the directory stays as it was
    /// and the next call will try again.
    pub open spec fn resolved(
        &self,
        id: Seq<char>,
        outcome: Result<StorageHandle, RouterError>,
        after: &Self,
    ) -> bool {
        match slot_of(self.tenants(), id) {
            Some(slot) => {
                &&& outcome matches Ok(handle)
                &&& handle.slot == slot
                &&& after == self
            },
            None => if !safe_tenant(id) {
                &&& outcome matches Err(RouterError::InvalidTenant)
                &&& after == self
            } else {
                match outcome {
                    Ok(handle) => {
                        &&& handle.slot == self.tenants().len()
                        &&& after.extends(self, id)
                    },
                    Err(error) => {
                        &&& error matches RouterError::Engine(KeyValueError::OpenError { .. })
                        &&& after == self
                    },
                }
            },
        }
    }

    /// What a write of `value` under `key` through the handle of `slot` may
    /// do to a router and return.
    ///
    /// Only the engine in `slot` is written to: the directory and every
    /// other engine stay as they were. A handle that names no slot is
    /// refused, and nothing changes.
    pub open spec fn wrote(
        &self,
        slot: int,
        key: Seq<char>,
        value: Seq<char>,
        outcome: Result<(), RouterError>,
        after: &Self,
    ) -> bool {
        if 0 <= slot < self.tenants().len() {
            &&& after.base() == self.base()
            &&& after.tenants() == self.tenants()
            &&& forall|i: int|
                0 <= i < self.tenants().len() && i != slot ==> after.engine(i) == self.engine(i)
            &&& after.engine(slot).root() == self.engine(slot).root()
            &&& match outcome {
                Ok(()) => {
                    &&& after.engine(slot).contents() == written(
                        self.engine(slot).contents(),
                        key,
                        value,
                    )
                    &&& after.engine(slot).durable() == after.engine(slot).contents()
                },
                Err(error) => error matches RouterError::Engine(
                    KeyValueError::OperationError { .. },
                ),
            }
        } else {
            &&& outcome matches Err(RouterError::UnknownHandle)
            &&& after == self
        }
    }

    /// What the ingest of `update` may do to a router, and how it may end.
    ///
    /// The event's tenant is resolved and its record written to that
    /// tenant's engine; no other engine is touched. Where the ingest is
    /// acknowledged, the tenant is known and its engine holds the record,
    /// on stable storage. Where it fails, either the tenant's engine could
    /// not be opened, and nothing changed, or the write failed.
    pub open spec fn ingested(&self, update: UpdateView, outcome: Outcome, after: &Self) -> bool {
        let tenant = tenant_of(update);
        let key = record_key(update);
        let value = record_value(update);
        let count = self.tenants().len() as int;
        &&& after.base() == self.base()
        &&& !(outcome is Rejected)
        &&& forall|i: int|
            0 <= i < count && Some(i) != slot_of(self.tenants(), tenant) ==> after.engine(i)
                == self.engine(i)
        &&& match slot_of(self.tenants(), tenant) {
            Some(slot) => {
                &&& after.tenants() == self.tenants()
                &&& after.engine(slot).root() == self.engine(slot).root()
                &&& outcome is Acknowledged ==> {
                    &&& after.engine(slot).contents() == written(
                        self.engine(slot).contents(),
                        key,
                        value,
                    )
                    &&& after.engine(slot).durable() == after.engine(slot).contents()
                }
                &&& outcome matches Outcome::Failed(error) ==> error matches RouterError::Engine(
                    KeyValueError::OperationError { .. },
                )
            },
            None => {
                ||| {
                    &&& outcome matches Outcome::Failed(
                        RouterError::Engine(KeyValueError::OpenError { .. }),
                    )
                    &&& after == self
                }
                ||| {
                    &&& after.tenants() == self.tenants().push(tenant)
                    &&& after.engine(count).root() == tenant_path(self.base(), tenant)
                    &&& outcome is Acknowledged ==> {
                        &&& after.engine(count).contents().contains_pair(key, encode_utf8(value))
                        &&& after.engine(count).durable() == after.engine(count).contents()
                    }
                    &&& outcome matches Outcome::Failed(error) ==> error matches RouterError::Engine(
                        KeyValueError::OperationError { .. },
                    )
                }
            },
        }
    }

    /// Whether the router is well formed: every tenant id is a safe path
    /// segment, no tenant has two slots, and each engine is rooted at the
    /// directory of its tenant.
    pub closed spec fn wf(&self) -> bool {
        &&& self.joined_bare == (self.path@.len() == 0 || self.path@.last() == '/')
        &&& forall|i: int| 0 <= i < self.storage.len() ==> safe_tenant(#[trigger] self.storage[i].tenant@)
        &&& forall|i: int, j: int|
            0 <= i < j < self.storage.len() ==> #[trigger] self.storage[i].tenant@
                != #[trigger] self.storage[j].tenant@
        &&& forall|i: int|
            0 <= i < self.storage.len() ==> (#[trigger] self.storage[i]).engine.root() == tenant_path(
                self.path@,
                self.storage[i].tenant@,
            )
    }

    /// What well-formedness says of the directory.
    pub proof fn lemma_directory(&self)
        requires
            self.wf(),
        ensures
            self.tenants().no_duplicates(),
            forall|i: int|
                0 <= i < self.tenants().len() ==> safe_tenant(#[trigger] self.tenants()[i]),
            forall|i: int|
                0 <= i < self.tenants().len() ==> (#[trigger] self.engine(i)).root() == tenant_path(
                    self.base(),
                    self.tenants()[i],
                ),
    {
        assert forall|i: int, j: int|
            0 <= i < self.tenants().len() && 0 <= j < self.tenants().len() && i != j implies self.tenants()[i]
            != self.tenants()[j] by {
            if i < j {
                assert(self.storage[i].tenant@ != self.storage[j].tenant@);
            } else {
                assert(self.storage[j].tenant@ != self.storage[i].tenant@);
            }
        }
        assert forall|i: int| 0 <= i < self.tenants().len() implies (#[trigger] self.engine(
            i,
        )).root() == tenant_path(self.base(), self.tenants()[i]) by {
            assert(self.storage[i].engine.root() == tenant_path(
                self.path@,
                self.storage[i].tenant@,
            ));
        }
    }

    /// A tenant that was resolved keeps its handle: every later resolution,
    /// in whatever order the callers come, returns that handle and leaves
    /// the router as it is, with the one engine that the directory holds
    /// for the tenant.
    pub proof fn lemma_resolved_once(
        &self,
        id: Seq<char>,
        first: Result<StorageHandle, RouterError>,
        then: &Self,
        second: Result<StorageHandle, RouterError>,
        after: &Self,
    )
        requires
            self.wf(),
            then.wf(),
            self.resolved(id, first, then),
            first is Ok,
            then.resolved(id, second, after),
        ensures
            second is Ok,
            second->Ok_0 == first->Ok_0,
            after == then,
    {
        self.lemma_directory();
        then.lemma_directory();
        let slot = first->Ok_0.slot as int;
        assert(0 <= slot < then.tenants().len() && then.tenants()[slot] == id);
        assert(then.tenants().contains(id));
        assert(then.tenants().index_of(id) == slot);
    }

    /// However many callers resolve one tenant that the directory did not
    /// know, and whichever of them fail, the directory takes in at most one
    /// engine for it: it gains the tenant once, with the first call that
    /// succeeds, and nothing else. Every caller that gets a handle gets the
    /// same one; a caller that fails leaves the router as it found it, and
    /// once the tenant is known no call fails or changes the router.
    ///
    /// `states` are the states of the router before the first call, between
    /// the calls and after the last, `outcomes` what the calls returned, in
    /// the order in which they took effect.
    pub proof fn lemma_single_creation(
        states: Seq<Self>,
        id: Seq<char>,
        outcomes: Seq<Result<StorageHandle, RouterError>>,
    )
        requires
            states.len() == outcomes.len() + 1,
            forall|i: int| 0 <= i < states.len() ==> (#[trigger] states[i]).wf(),
            !states[0].tenants().contains(id),
            forall|i: int|
                0 <= i < outcomes.len() ==> (#[trigger] states[i]).resolved(
                    id,
                    outcomes[i],
                    &states[i + 1],
                ),
        ensures
            forall|i: int|
                0 <= i < states.len() ==> {
                    ||| (#[trigger] states[i]).tenants() == states[0].tenants()
                    ||| states[i].tenants() == states[0].tenants().push(id)
                },
            forall|i: int|
                0 <= i < outcomes.len() ==> (#[trigger] outcomes[i] matches Ok(handle)
                    ==> handle.slot == states[0].tenants().len() && states[i + 1].tenants()
                    == states[0].tenants().push(id)),
            forall|i: int|
                0 <= i < outcomes.len() && (#[trigger] states[i]).tenants().contains(id)
                    ==> outcomes[i] is Ok && states[i + 1] == states[i],
            forall|i: int|
                0 <= i < outcomes.len() && (#[trigger] outcomes[i]) is Err ==> states[i + 1]
                    == states[i],
        decreases outcomes.len(),
    {
        let known = states[0].tenants();
        if outcomes.len() > 0 {
            let last = outcomes.len() - 1;
            let earlier = states.drop_last();
            assert forall|i: int| 0 <= i < earlier.len() implies (#[trigger] earlier[i]).wf() by {
                assert(states[i].wf());
            }
            assert forall|i: int| 0 <= i < last implies (#[trigger] earlier[i]).resolved(
                id,
                outcomes.drop_last()[i],
                &earlier[i + 1],
            ) by {
                assert(states[i].resolved(id, outcomes[i], &states[i + 1]));
            }
            Self::lemma_single_creation(earlier, id, outcomes.drop_last());
            assert(earlier[0] == states[0]);
            assert forall|i: int| 0 <= i < states.len() implies {
                ||| (#[trigger] states[i]).tenants() == known
                ||| states[i].tenants() == known.push(id)
            } by {
                if i <= last {
                    assert(earlier[i] == states[i]);
                } else {
                    assert(earlier[last] == states[last]);
                    assert(states[last].resolved(id, outcomes[last], &states[last + 1]));
                    states[last].lemma_step(known, id, outcomes[last], &states[last + 1]);
                }
            }
            assert forall|i: int| 0 <= i < outcomes.len() implies {
                &&& (#[trigger] outcomes[i]) matches Ok(handle) ==> handle.slot == known.len()
                    && states[i + 1].tenants() == known.push(id)
                &&& outcomes[i] is Err ==> states[i + 1] == states[i]
            } by {
                assert(states[i].resolved(id, outcomes[i], &states[i + 1]));
                states[i].lemma_step(known, id, outcomes[i], &states[i + 1]);
            }
            assert forall|i: int|
                0 <= i < outcomes.len() && (#[trigger] states[i]).tenants().contains(
                    id,
                ) implies outcomes[i] is Ok && states[i + 1] == states[i] by {
                assert(states[i].resolved(id, outcomes[i], &states[i + 1]));
            }
        }
    }

    /// One resolution of `id` by a router that knows the tenants `known`,
    /// with or without `id` behind them.
    proof fn lemma_step(
        &self,
        known: Seq<Seq<char>>,
        id: Seq<char>,
        outcome: Result<StorageHandle, RouterError>,
        after: &Self,
    )
        requires
            self.wf(),
            !known.contains(id),
            self.tenants() == known || self.tenants() == known.push(id),
            self.resolved(id, outcome, after),
        ensures
            after.tenants() == known || after.tenants() == known.push(id),
            outcome matches Ok(handle) ==> handle.slot == known.len() && after.tenants()
                == known.push(id),
            outcome is Err ==> after == self,
    {
        self.lemma_directory();
        if self.tenants() == known.push(id) {
            assert(self.tenants()[known.len() as int] == id);
            assert(self.tenants().index_of(id) == known.len());
        }
    }

    /// A write through the handle of one tenant is not seen through the
    /// handle of another: the two tenants have different slots and
    /// different directories, and the other tenant's engine is what it was,
    /// so that a lookup in it finds what it found before.
    pub proof fn lemma_tenants_isolated(
        &self,
        writer: Seq<char>,
        other: Seq<char>,
        key: Seq<char>,
        value: Seq<char>,
        outcome: Result<(), RouterError>,
        after: &Self,
    )
        requires
            self.wf(),
            writer != other,
            self.tenants().contains(writer),
            self.tenants().contains(other),
            self.wrote(self.tenants().index_of(writer), key, value, outcome, after),
        ensures
            ({
                let a = self.tenants().index_of(writer);
                let b = self.tenants().index_of(other);
                &&& a != b
                &&& self.engine(a).root() != self.engine(b).root()
                &&& after.engine(b) == self.engine(b)
                &&& forall|any: Seq<char>|
                    lookup(after.engine(b).contents(), any) == lookup(
                        self.engine(b).contents(),
                        any,
                    )
            }),
    {
        self.lemma_directory();
        lemma_tenant_paths_distinct(self.base(), writer, other);
    }

    /// A router below the directory `path` that knows no tenant yet.
    pub fn new(path: String) -> (r: Self)
        ensures
            r.wf(),
            r.base() == path@,
            r.tenants() == Seq::<Seq<char>>::empty(),
    {
        let mut joined_bare = true;
        for c in it: path.as_str().chars()
            invariant
                it.seq() == path@,
                joined_bare == (it.index() == 0 || path@[it.index() - 1] == '/'),
        {
            joined_bare = c == '/';
        }
        let r = SchedulerService { path, joined_bare, storage: Vec::new() };
        assert(r.tenants() =~= Seq::<Seq<char>>::empty());
        r
    }

    /// The directory of the tenant `user_id`, below the base directory. An
    /// id that cannot name a tenant has none: joined to the base it could
    /// lead elsewhere.
    pub fn get_kv_path(&self, user_id: &str) -> (r: Option<String>)
        requires
            self.wf(),
        ensures
            r is Some <==> safe_tenant(user_id@),
            r matches Some(path) ==> path@ == tenant_path(self.base(), user_id@),
            r matches Some(path) ==> self.base().is_prefix_of(path@),
    {
        if !is_safe_tenant(user_id) {
            return None;
        }
        proof {
            reveal_strlit("/");
            lemma_tenant_path_below_base(self.path@, user_id@);
        }
        let mut kv_store_path = self.path.clone();
        if !self.joined_bare {
            kv_store_path.append("/");
            assert("/"@ =~= seq!['/']);
        }
        kv_store_path.append(user_id);
        Some(kv_store_path)
    }

    /// The handle of the tenant `user_id`, if the directory knows it. This
    /// is the read path: it changes nothing.
    pub fn get_user_storage(&self, user_id: &str) -> (r: Option<StorageHandle>)
        requires
            self.wf(),
        ensures
            r is None <==> slot_of(self.tenants(), user_id@) is None,
            r matches Some(handle) ==> slot_of(self.tenants(), user_id@) == Some(handle.slot as int),
    {
        let mut i: usize = 0;
        while i < self.storage.len()
            invariant
                self.wf(),
                i <= self.storage.len(),
                forall|k: int| 0 <= k < i ==> self.tenants()[k] != user_id@,
            decreases self.storage.len() - i,
        {
            if same_text(self.storage[i].tenant.as_str(), user_id) {
                proof {
                    let tenants = self.tenants();
                    assert(tenants[i as int] == user_id@);
                    let j = tenants.index_of(user_id@);
                    assert(0 <= j < tenants.len() && tenants[j] == user_id@);
                    assert(self.storage[j].tenant@ == self.storage[i as int].tenant@);
                }
                return Some(StorageHandle { slot: i });
            }
            i += 1;
        }
        None
    }

    /// Resolves the tenant `user_id` on the write path: looks it up once
    /// more, and where it is still unknown opens its engine and takes it
    /// into the directory.
    pub fn add_user_storage(&mut self, user_id: &str) -> (r: Result<StorageHandle, RouterError>)
        requires
            old(self).wf(),
        ensures
            final(self).wf(),
            old(self).resolved(user_id@, r, final(self)),
    {
        if let Some(handle) = self.get_user_storage(user_id) {
            return Ok(handle);
        }
        let kv_store_path = match self.get_kv_path(user_id) {
            Some(path) => path,
            None => {
                return Err(RouterError::InvalidTenant);
            },
        };
        let opened = T::new(kv_store_path.as_str());
        self.add_opened(user_id, opened)
    }

    /// Takes in what opening the engine of the new tenant `user_id` came
    /// to. An engine that was opened is put behind the tenant in the next
    /// slot, and the tenant's handle returned. A failure to open is handed
    /// on, and the directory stays as it was.
    pub fn add_opened(&mut self, user_id: &str, opened: Result<T, KeyValueError>) -> (r: Result<
        StorageHandle,
        RouterError,
    >)
        requires
            old(self).wf(),
            safe_tenant(user_id@),
            !old(self).tenants().contains(user_id@),
            opened matches Ok(engine) ==> engine.root() == tenant_path(old(self).base(), user_id@),
            opened matches Err(error) ==> error is OpenError,
        ensures
            final(self).wf(),
            old(self).resolved(user_id@, r, final(self)),
            opened is Ok <==> r is Ok,
            opened matches Ok(engine) ==> final(self).engine(old(self).tenants().len() as int)
                == engine,
            opened matches Err(error) ==> r == Err::<StorageHandle, RouterError>(
                RouterError::Engine(error),
            ),
    {
        match opened {
            Ok(engine) => {
                let slot = self.storage.len();
                self.storage.push(Entry { tenant: user_id.to_owned(), engine });
                proof {
                    assert(self.tenants() =~= old(self).tenants().push(user_id@));
                    assert forall|i: int| 0 <= i < slot implies self.storage[i].tenant@
                        != user_id@ by {
                        assert(old(self).tenants()[i] == self.storage[i].tenant@);
                    }
                }
                Ok(StorageHandle { slot })
            },
            Err(source) => Err(RouterError::Engine(source)),
        }
    }

    /// The handle of the tenant `user_id`, whose engine is opened if this is
    /// the first time the tenant is seen.
    pub fn resolve(&mut self, user_id: &str) -> (r: Result<StorageHandle, RouterError>)
        requires
            old(self).wf(),
        ensures
            final(self).wf(),
            old(self).resolved(user_id@, r, final(self)),
    {
        match self.get_user_storage(user_id) {
            Some(handle) => Ok(handle),
            None => self.add_user_storage(user_id),
        }
    }

    /// The ids of all known tenants, in ascending order.
    pub fn list_all_users(&self) -> (r: Vec<String>)
        requires
            self.wf(),
        ensures
            r.len() == self.tenants().len(),
            ascending(texts(r@)),
            forall|i: int| 0 <= i < r.len() ==> self.tenants().contains(#[trigger] r[i]@),
            forall|k: int|
                0 <= k < self.tenants().len() ==> texts(r@).contains(#[trigger] self.tenants()[k]),
    {
        let mut users: Vec<String> = Vec::new();
        let mut i: usize = 0;
        while i < self.storage.len()
            invariant
                self.wf(),
                i <= self.storage.len(),
                users.len() == i,
                ascending(texts(users@)),
                forall|j: int|
                    0 <= j < users.len() ==> self.tenants().take(i as int).contains(
                        #[trigger] users[j]@,
                    ),
                forall|k: int| 0 <= k < i ==> texts(users@).contains(#[trigger] self.tenants()[k]),
            decreases self.storage.len() - i,
        {
            let user = self.storage[i].tenant.clone();
            let mut at: usize = 0;
            while at < users.len() && sorts_before(users[at].as_str(), user.as_str())
                invariant
                    at <= users.len(),
                    forall|j: int| 0 <= j < at ==> text_before(#[trigger] users[j]@, user@),
                decreases users.len() - at,
            {
                at += 1;
            }
            let ghost before = users@;
            users.insert(at, user);
            proof {
                let tenants = self.tenants();
                let id = tenants[i as int];
                assert(texts(users@) =~= texts(before).insert(at as int, id));
                assert forall|j: int| at <= j < before.len() implies text_before(
                    id,
                    #[trigger] before[j]@,
                ) by {
                    let first = before[at as int]@;
                    let k = tenants.take(i as int).index_of(first);
                    assert(tenants[k] == first);
                    assert(self.storage[k].tenant@ != self.storage[i as int].tenant@);
                    if vstd::utf8::encode_utf8(first) == vstd::utf8::encode_utf8(id) {
                        lemma_encoding_injective(first, id);
                    }
                    lemma_bytes_before_total(
                        vstd::utf8::encode_utf8(first),
                        vstd::utf8::encode_utf8(id),
                    );
                    if at < j {
                        assert(text_before(texts(before)[at as int], texts(before)[j]));
                        lemma_bytes_before_transitive(
                            vstd::utf8::encode_utf8(id),
                            vstd::utf8::encode_utf8(first),
                            vstd::utf8::encode_utf8(before[j]@),
                        );
                    }
                }
                assert forall|a: int, b: int| 0 <= a < b < users.len() implies text_before(
                    texts(users@)[a],
                    texts(users@)[b],
                ) by {
                    if b < at {
                        assert(text_before(texts(before)[a], texts(before)[b]));
                    } else if b == at {
                    } else if a < at {
                        assert(text_before(texts(before)[a], texts(before)[b - 1]));
                    } else if a == at {
                    } else {
                        assert(text_before(texts(before)[a - 1], texts(before)[b - 1]));
                    }
                }
                assert forall|j: int| 0 <= j < users.len() implies tenants.take(i + 1).contains(
                    #[trigger] users[j]@,
                ) by {
                    if j == at {
                        assert(tenants.take(i + 1)[i as int] == users[j]@);
                    } else {
                        let old_j = if j < at { j } else { j - 1 };
                        let k = tenants.take(i as int).index_of(before[old_j]@);
                        assert(tenants.take(i + 1)[k] == users[j]@);
                    }
                }
                assert forall|k: int| 0 <= k < i + 1 implies texts(users@).contains(
                    #[trigger] tenants[k],
                ) by {
                    if k == i {
                        assert(texts(users@)[at as int] == tenants[k]);
                    } else {
                        let j = texts(before).index_of(tenants[k]);
                        let new_j = if j < at { j } else { j + 1 };
                        assert(texts(users@)[new_j] == tenants[k]);
                    }
                }
            }
            i += 1;
        }
        proof {
            assert(self.tenants().take(i as int) == self.tenants());
        }
        users
    }

    /// The engine behind `handle`, for reading.
    pub fn storage(&self, handle: StorageHandle) -> (r: Option<&T>)
        ensures
            handle.slot < self.tenants().len() ==> r == Some(&self.engine(handle.slot as int)),
            handle.slot >= self.tenants().len() ==> r is None,
    {
        if handle.slot < self.storage.len() {
            Some(&self.storage[handle.slot].engine)
        } else {
            None
        }
    }

    /// Looks `key` up in the engine behind `handle`.
    pub fn get(&self, handle: StorageHandle, key: String) -> (r: Result<Option<String>, RouterError>)
        requires
            self.wf(),
        ensures
            handle.slot >= self.tenants().len() ==> r matches Err(RouterError::UnknownHandle),
            handle.slot < self.tenants().len() ==> match r {
                Ok(found) => answers(self.engine(handle.slot as int).contents(), key@, Ok(found)),
                Err(RouterError::Engine(error)) => answers(
                    self.engine(handle.slot as int).contents(),
                    key@,
                    Err(error),
                ),
                Err(_) => false,
            },
    {
        if handle.slot >= self.storage.len() {
            return Err(RouterError::UnknownHandle);
        }
        match self.storage[handle.slot].engine.get(key) {
            Ok(found) => Ok(found),
            Err(error) => Err(RouterError::Engine(error)),
        }
    }

    /// Writes `value` under `key` in the engine behind `handle`.
    pub fn set(&mut self, handle: StorageHandle, key: String, value: String) -> (r: Result<
        (),
        RouterError,
    >)
        requires
            old(self).wf(),
        ensures
            final(self).wf(),
            old(self).wrote(handle.slot as int, key@, value@, r, final(self)),
    {
        if handle.slot >= self.storage.len() {
            return Err(RouterError::UnknownHandle);
        }
        let r = self.storage[handle.slot].engine.set(key, value);
        proof {
            assert(self.tenants() =~= old(self).tenants());
        }
        match r {
            Ok(()) => Ok(()),
            Err(error) => Err(RouterError::Engine(error)),
        }
    }

    /// Records one event: resolves the tenant of its chat and writes the
    /// message text, or `empty message`, under the event's id.
    pub fn ingest_update(&mut self, update: &Update) -> (outcome: Outcome)
        requires
            old(self).wf(),
        ensures
            final(self).wf(),
            old(self).ingested(update@, outcome, final(self)),
    {
        let storage_key = decimal_string(update.message.chat.id);
        proof {
            lemma_decimal_is_safe_tenant(update.message.chat.id as int);
        }
        let handle = match self.resolve(storage_key.as_str()) {
            Ok(handle) => handle,
            Err(error) => {
                return Outcome::Failed(error);
            },
        };
        let text = match &update.message.text {
            Some(text) => text.clone(),
            None => String::from_str("empty message"),
        };
        match self.set(handle, decimal_string(update.update_id), text) {
            Ok(()) => Outcome::Acknowledged,
            Err(error) => Outcome::Failed(error),
        }
    }

    /// Takes in one request body: parses it as an event and records the
    /// event. A body that holds no event is rejected, and nothing changes.
    pub fn ingest(&mut self, payload: &[u8]) -> (outcome: Outcome)
        requires
            old(self).wf(),
        ensures
            final(self).wf(),
            match update_of_payload(payload@) {
                Some(update) => old(self).ingested(update, outcome, final(self)),
                None => outcome is Rejected && *final(self) == *old(self),
            },
    {
        match Update::parse(payload) {
            Some(update) => self.ingest_update(&update),
            None => Outcome::Rejected,
        }
    }
}

impl<T: KeyValue> Server for SchedulerService<T> {
    open spec fn ready(&self) -> bool {
        self.wf()
    }

    /// A request whose body could not be read is answered with an internal
    /// error, one whose body holds no event with a bad request; neither
    /// changes anything. Any other request is ingested, and the reply tells
    /// how that ended.
    open spec fn handles(&self, request: RequestView, reply: ReplyView, after: &Self) -> bool {
        match request.body {
            None => reply == internal_error() && after == self,
            Some(payload) => match update_of_payload(payload) {
                None => reply == bad_request() && after == self,
                Some(update) => exists|outcome: Outcome|
                    #[trigger] self.ingested(update, outcome, after) && reply == reply_of(outcome),
            },
        }
    }

    fn serve(&mut self, request: &Request) -> (reply: Reply) {
        match &request.body {
            Some(payload) => {
                let outcome = self.ingest(payload.as_slice());
                outcome.reply()
            },
            None => Reply::internal_error(),
        }
    }
}

} // verus!
