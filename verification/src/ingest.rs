//! Out-of-band file ingest. A client streams raw bytes to the gateway, receives a
//! small opaque handle, and passes that handle to `sftp_upload`.
//!
//! Staged bytes lie on disk, one file per handle, and are consumed once. Handles
//! that nobody consumes are reaped when their lifetime is over.

use vstd::prelude::*;
use vstd::string::*;

use crate::clock::MonoClock;
use crate::ids::{is_prefixed_id, upload_handle};
use crate::registry::Registry;
use crate::text::{decimal, decimal_digits, join2, join3, owned, texts};

verus! {

/// Default cap on a single ingested upload (16MB).
pub const DEFAULT_MAX_UPLOAD_BYTES: usize = 16_777_216;

/// Default lifetime of an unconsumed staged upload before it is reaped.
pub const DEFAULT_INGEST_TTL_SECS: u64 = 3600;

/// A failure resolving an `upload_handle`. What a caller is answered is deliberately
/// opaque about whether a handle exists when it belongs to another token.
#[derive(Debug, Clone, Copy, PartialEq, Eq, Structural)]
pub enum IngestError {
    /// No live handle by that name (never staged, already consumed, or expired).
    NotFound,
    /// Handle exists but was staged by a different token's user.
    Forbidden,
}

impl IngestError {
    /// The text of the error, for those who run the gateway.
    pub open spec fn message(self) -> Seq<char> {
        match self {
            IngestError::NotFound => "unknown or expired upload_handle"@,
            IngestError::Forbidden => "upload_handle does not belong to token"@,
        }
    }

    pub fn to_string(&self) -> (r: String)
        ensures
            r@ == self.message(),
    {
        match self {
            IngestError::NotFound => owned("unknown or expired upload_handle"),
            IngestError::Forbidden => owned("upload_handle does not belong to token"),
        }
    }

    /// What a caller is answered: a handle of somebody else's is as good as unknown.
    pub open spec fn answer(self) -> Seq<char> {
        IngestError::NotFound.message()
    }

    /// The text that a caller is answered.
    pub fn to_answer(&self) -> (r: String)
        ensures
            r@ == self.answer(),
    {
        IngestError::NotFound.to_string()
    }
}

/// One staged upload: where its bytes lie, how many they are, whose they are,
/// and when they were staged on the monotonic clock.
pub struct Staged {
    pub path: String,
    pub size: usize,
    pub user_id: i64,
    pub created: u128,
}

/// An upload that is about to be written.
pub struct PendingUpload {
    pub handle: String,
    pub path: String,
}

/// What the client is told of an upload that was staged.
#[derive(Debug)]
pub struct IngestResponse {
    pub handle: String,
    pub size: usize,
}

/// Why an upload was refused: an HTTP status and a message.
#[derive(Debug)]
pub struct UploadRefusal {
    pub status: u16,
    pub message: String,
}

/// The path of a file in a directory.
pub open spec fn path_in(dir: Seq<char>, name: Seq<char>) -> Seq<char> {
    if dir.len() == 0 || dir.last() == '/' {
        dir + name
    } else {
        dir + "/"@ + name
    }
}

/// Joins the name of a file to its directory.
fn join_path(dir: &str, name: &str) -> (r: String)
    ensures
        r@ == path_in(dir@, name@),
{
    let n = dir.unicode_len();
    if n == 0 || dir.get_char(n - 1) == '/' {
        join2(dir, name)
    } else {
        join3(dir, "/", name)
    }
}

/// Whether an upload has outlived its lifetime.
pub open spec fn is_expired(staged: Staged, ttl_secs: u64, now: u128) -> bool {
    now - staged.created > ttl_secs * 1_000_000_000
}

/// Says whether an upload has outlived its lifetime.
fn outlived(staged: &Staged, ttl_secs: u64, now: u128) -> (r: bool)
    ensures
        r == is_expired(*staged, ttl_secs, now),
{
    let ttl: u128 = ttl_secs as u128 * 1_000_000_000;
    now > staged.created && now - staged.created > ttl
}

/// Registry of staged uploads.
pub struct IngestStore {
    dir: String,
    pub max_bytes: usize,
    ttl_secs: u64,
    clock: MonoClock,
    entries: Registry<Staged>,
}

impl IngestStore {
    pub closed spec fn wf(&self) -> bool {
        self.entries.wf()
    }

    /// The handles that are held and what they stand for, those included whose
    /// lifetime is over and that no sweep has taken out yet.
    pub closed spec fn held(&self) -> Map<Seq<char>, Staged> {
        self.entries@
    }

    pub closed spec fn dir(&self) -> Seq<char> {
        self.dir@
    }

    /// The cap on a single upload, in bytes.
    pub closed spec fn limit(&self) -> usize {
        self.max_bytes
    }

    pub closed spec fn ttl_secs(&self) -> u64 {
        self.ttl_secs
    }

    /// The last reading of the store's clock.
    pub closed spec fn reading(&self) -> u128 {
        self.clock.reading()
    }

    /// The same store but for what is staged.
    pub open spec fn same_store(&self, other: &IngestStore) -> bool {
        &&& self.dir() == other.dir()
        &&& self.limit() == other.limit()
        &&& self.ttl_secs() == other.ttl_secs()
    }

    pub fn new(dir: String, max_bytes: usize, ttl_secs: u64) -> (r: Self)
        ensures
            r.wf(),
            r.dir() == dir@,
            r.limit() == max_bytes,
            r.ttl_secs() == ttl_secs,
            r.held() == Map::<Seq<char>, Staged>::empty(),
    {
        IngestStore { dir, max_bytes, ttl_secs, clock: MonoClock::new(), entries: Registry::new() }
    }

    /// Whether a request's body may be staged, given its length. A body that
    /// could not be read within the cap has none.
    pub fn check_body(&self, len: Option<usize>) -> (r: Result<usize, UploadRefusal>)
        ensures
            match len {
                Some(n) => n <= self.limit() ==> r == Ok::<usize, UploadRefusal>(n),
                None => true,
            },
            (len is None || len->0 > self.limit()) ==> (r matches Err(e) && e.status == 413
                && e.message@ == "upload exceeds max of "@ + decimal_digits(self.limit() as nat)
                + " bytes"@),
            r is Ok <==> fits(len, self.limit()),
            r matches Ok(n) ==> len == Some(n),
    {
        match len {
            Some(n) => {
                if n <= self.max_bytes {
                    return Ok(n);
                }
            },
            None => {},
        }
        Err(
            UploadRefusal {
                status: 413,
                message: join3(
                    "upload exceeds max of ",
                    decimal(self.max_bytes as u128).as_str(),
                    " bytes",
                ),
            },
        )
    }

    /// A fresh handle, and the path under which its bytes are to be written.
    pub fn plan(&self) -> (r: PendingUpload)
        ensures
            is_prefixed_id("up_"@, r.handle@),
            r.path@ == path_in(self.dir(), r.handle@),
    {
        let handle = upload_handle();
        let path = join_path(self.dir.as_str(), handle.as_str());
        PendingUpload { handle, path }
    }

    /// Registers an upload, owned by `user_id`, once its bytes are written; the
    /// client passes the handle to `sftp_upload`. Where writing them failed,
    /// nothing is registered.
    pub fn stage(
        &mut self,
        pending: PendingUpload,
        size: usize,
        user_id: i64,
        written: Result<(), String>,
    ) -> (r: Result<IngestResponse, UploadRefusal>)
        requires
            old(self).wf(),
        ensures
            final(self).wf(),
            final(self).same_store(old(self)),
            old(self).reading() <= final(self).reading(),
            match (written, r) {
                (Ok(()), Ok(reply)) => {
                    &&& reply.handle@ == pending.handle@
                    &&& reply.size == size
                    &&& final(self).held().contains_key(pending.handle@)
                    &&& final(self).held() == old(self).held().insert(
                        pending.handle@,
                        final(self).held()[pending.handle@],
                    )
                    &&& final(self).held()[pending.handle@] == (Staged {
                        path: pending.path,
                        size,
                        user_id,
                        created: final(self).reading(),
                    })
                },
                (Err(m), Err(e)) => {
                    &&& final(self).held() == old(self).held()
                    &&& e.status == 500
                    &&& e.message@ == "stage upload: "@ + m@
                },
                _ => false,
            },
    {
        let now = self.clock.read();
        self.stage_at(pending, size, user_id, written, now)
    }

    /// Registers an upload as of a reading of the monotonic clock.
    pub fn stage_at(
        &mut self,
        pending: PendingUpload,
        size: usize,
        user_id: i64,
        written: Result<(), String>,
        now: u128,
    ) -> (r: Result<IngestResponse, UploadRefusal>)
        requires
            old(self).wf(),
        ensures
            final(self).wf(),
            final(self).same_store(old(self)),
            final(self).reading() == old(self).reading(),
            match (written, r) {
                (Ok(()), Ok(reply)) => {
                    &&& reply.handle@ == pending.handle@
                    &&& reply.size == size
                    &&& final(self).held() == old(self).held().insert(
                        pending.handle@,
                        (Staged { path: pending.path, size, user_id, created: now }),
                    )
                },
                (Err(m), Err(e)) => {
                    &&& final(self).held() == old(self).held()
                    &&& e.status == 500
                    &&& e.message@ == "stage upload: "@ + m@
                },
                _ => false,
            },
            r is Ok ==> is_staging_of(
                old(self).held(),
                pending,
                size,
                user_id,
                now,
                final(self).held(),
            ),
    {
        match written {
            Ok(()) => {
                let staged = Staged { path: pending.path, size, user_id, created: now };
                self.entries.insert(pending.handle.as_str(), staged);
                Ok(IngestResponse { handle: pending.handle, size })
            },
            Err(m) => Err(
                UploadRefusal { status: 500, message: join2("stage upload: ", m.as_str()) },
            ),
        }
    }

    /// Remove and return a handle's staged upload, enforcing its lifetime and
    /// ownership.
    pub fn take(&mut self, handle: &str, user_id: i64) -> (r: Result<Staged, IngestError>)
        requires
            old(self).wf(),
        ensures
            final(self).wf(),
            final(self).same_store(old(self)),
            old(self).reading() <= final(self).reading(),
            r == taken(
                live_at(old(self).held(), old(self).ttl_secs(), final(self).reading()),
                handle@,
                user_id,
            ),
            final(self).held() == held_after_take(
                old(self).held(),
                old(self).ttl_secs(),
                final(self).reading(),
                handle@,
                user_id,
            ),
    {
        let now = self.clock.read();
        self.take_at(handle, user_id, now)
    }

    /// Removes and returns a handle's staged upload as of a reading of the monotonic
    /// clock.
    pub fn take_at(&mut self, handle: &str, user_id: i64, now: u128) -> (r: Result<
        Staged,
        IngestError,
    >)
        requires
            old(self).wf(),
        ensures
            final(self).wf(),
            final(self).same_store(old(self)),
            final(self).reading() == old(self).reading(),
            r == taken(live_at(old(self).held(), old(self).ttl_secs(), now), handle@, user_id),
            final(self).held() == held_after_take(
                old(self).held(),
                old(self).ttl_secs(),
                now,
                handle@,
                user_id,
            ),
    {
        match self.entries.get(handle) {
            None => {
                return Err(IngestError::NotFound);
            },
            Some(e) => {
                if outlived(e, self.ttl_secs, now) {
                    return Err(IngestError::NotFound);
                }
                if e.user_id != user_id {
                    return Err(IngestError::Forbidden);
                }
            },
        }
        match self.entries.remove(handle) {
            Some(s) => Ok(s),
            None => Err(IngestError::NotFound),
        }
    }

    /// Drop staged uploads older than the configured lifetime, and return them
    /// so that their files can be removed.
    pub fn sweep_expired(&mut self) -> (r: Vec<Staged>)
        requires
            old(self).wf(),
        ensures
            final(self).wf(),
            final(self).same_store(old(self)),
            old(self).reading() <= final(self).reading(),
            swept(
                old(self).held(),
                old(self).ttl_secs(),
                final(self).reading(),
                r@,
                final(self).held(),
            ),
    {
        let now = self.clock.read();
        self.sweep_expired_at(now)
    }

    /// Drops the staged uploads that are too old at a reading of the monotonic
    /// clock.
    pub fn sweep_expired_at(&mut self, now: u128) -> (r: Vec<Staged>)
        requires
            old(self).wf(),
        ensures
            final(self).wf(),
            final(self).same_store(old(self)),
            final(self).reading() == old(self).reading(),
            swept(old(self).held(), old(self).ttl_secs(), now, r@, final(self).held()),
    {
        let ttl_secs = self.ttl_secs;
        let ghost before = self.entries@;
        let test = |s: &Staged| -> (b: bool)
            ensures
                b == is_expired(*s, ttl_secs, now),
            { outlived(s, ttl_secs, now) };
        let expired = self.entries.ids_where(test);
        let ghost ids = texts(expired@);
        let r = self.entries.remove_all(&expired);
        proof {
            assert forall|k: Seq<char>| #[trigger] before.contains_key(k) implies (ids.contains(k)
                <==> is_expired(before[k], ttl_secs, now)) by {}
            assert(self.entries@ =~= live_at(before, ttl_secs, now));
            assert forall|i: int| 0 <= i < r@.len() implies is_expired(
                #[trigger] r@[i],
                ttl_secs,
                now,
            ) && before.contains_value(r@[i]) by {
                assert(ids[i] == expired@[i]@);
                assert(ids.contains(ids[i]));
            }
            assert forall|k: Seq<char>| #[trigger]
                before.contains_key(k) && is_expired(before[k], ttl_secs, now) implies r@.contains(
                before[k],
            ) by {
                let i = choose|i: int| 0 <= i < ids.len() && ids[i] == k;
                assert(r@[i] == before[expired@[i]@]);
            }
        }
        r
    }
}

/// What taking a handle gives, of the uploads that are live.
pub open spec fn taken(live: Map<Seq<char>, Staged>, handle: Seq<char>, user_id: i64) -> Result<
    Staged,
    IngestError,
> {
    if !live.contains_key(handle) {
        Err(IngestError::NotFound)
    } else if live[handle].user_id != user_id {
        Err(IngestError::Forbidden)
    } else {
        Ok(live[handle])
    }
}

/// What is still held after taking a handle at a reading of the monotonic clock.
pub open spec fn held_after_take(
    held: Map<Seq<char>, Staged>,
    ttl_secs: u64,
    now: u128,
    handle: Seq<char>,
    user_id: i64,
) -> Map<Seq<char>, Staged> {
    if taken(live_at(held, ttl_secs, now), handle, user_id) is Ok {
        held.remove(handle)
    } else {
        held
    }
}

/// What is live at a reading of the monotonic clock, of the uploads that are held:
/// those that have not outlived their lifetime.
pub open spec fn live_at(held: Map<Seq<char>, Staged>, ttl_secs: u64, now: u128) -> Map<
    Seq<char>,
    Staged,
> {
    held.restrict(
        Set::new(|k: Seq<char>| held.contains_key(k) && !is_expired(held[k], ttl_secs, now)),
    )
}

/// Whether a sweep at a reading of the monotonic clock took out exactly the
/// uploads that had outlived their lifetime.
pub open spec fn swept(
    before: Map<Seq<char>, Staged>,
    ttl_secs: u64,
    now: u128,
    removed: Seq<Staged>,
    after: Map<Seq<char>, Staged>,
) -> bool {
    &&& after == live_at(before, ttl_secs, now)
    &&& before.len() == after.len() + removed.len()
    &&& forall|i: int|
        0 <= i < removed.len() ==> is_expired(#[trigger] removed[i], ttl_secs, now)
            && before.contains_value(removed[i])
    &&& forall|k: Seq<char>| #[trigger]
        before.contains_key(k) && is_expired(before[k], ttl_secs, now) ==> removed.contains(
            before[k],
        )
}

/// A staged upload is consumed once: whoever takes a handle that has been taken
/// finds nothing, then or at any other time.
pub proof fn law_handle_is_consumed_once(
    held: Map<Seq<char>, Staged>,
    ttl_secs: u64,
    now: u128,
    later: u128,
    handle: Seq<char>,
    first: i64,
    second: i64,
)
    requires
        taken(live_at(held, ttl_secs, now), handle, first) is Ok,
    ensures
        taken(
            live_at(held_after_take(held, ttl_secs, now, handle, first), ttl_secs, later),
            handle,
            second,
        ) == Err::<Staged, IngestError>(IngestError::NotFound),
{
}

/// An upload that has outlived its lifetime is found by nobody, its owner included,
/// whether or not it has been swept.
pub proof fn law_expired_handle_is_unknown(
    held: Map<Seq<char>, Staged>,
    ttl_secs: u64,
    now: u128,
    handle: Seq<char>,
    user_id: i64,
)
    requires
        held.contains_key(handle),
        is_expired(held[handle], ttl_secs, now),
    ensures
        taken(live_at(held, ttl_secs, now), handle, user_id) == Err::<Staged, IngestError>(
            IngestError::NotFound,
        ),
        held_after_take(held, ttl_secs, now, handle, user_id) == held,
{
}

/// A user cannot consume, or disturb, an upload that another user staged: as long as
/// it is live, its owner still gets it.
pub proof fn law_only_the_owner_takes(
    held: Map<Seq<char>, Staged>,
    ttl_secs: u64,
    now: u128,
    later: u128,
    handle: Seq<char>,
    owner: i64,
    other: i64,
)
    requires
        held.contains_key(handle),
        !is_expired(held[handle], ttl_secs, now),
        !is_expired(held[handle], ttl_secs, later),
        held[handle].user_id == owner,
        owner != other,
    ensures
        taken(live_at(held, ttl_secs, now), handle, other) == Err::<Staged, IngestError>(
            IngestError::Forbidden,
        ),
        held_after_take(held, ttl_secs, now, handle, other) == held,
        taken(
            live_at(held_after_take(held, ttl_secs, now, handle, other), ttl_secs, later),
            handle,
            owner,
        ) == Ok::<Staged, IngestError>(held[handle]),
{
}

/// A caller who names a handle that belongs to another user is answered as one who
/// names a handle that is not there, and leaves as little behind.
pub proof fn law_foreign_handle_looks_unknown(
    held: Map<Seq<char>, Staged>,
    ttl_secs: u64,
    now: u128,
    handle: Seq<char>,
    unknown: Seq<char>,
    user_id: i64,
)
    requires
        held.contains_key(handle),
        held[handle].user_id != user_id,
        !held.contains_key(unknown),
    ensures
        taken(live_at(held, ttl_secs, now), handle, user_id) matches Err(refused) && (taken(
            live_at(held, ttl_secs, now),
            unknown,
            user_id,
        ) matches Err(missing) && refused.answer() == missing.answer()),
        held_after_take(held, ttl_secs, now, handle, user_id) == held,
        held_after_take(held, ttl_secs, now, unknown, user_id) == held,
{
}

/// Taking a handle leaves every other handle as it was.
pub proof fn law_take_leaves_the_others(
    held: Map<Seq<char>, Staged>,
    ttl_secs: u64,
    now: u128,
    handle: Seq<char>,
    other: Seq<char>,
    user_id: i64,
)
    requires
        handle != other,
    ensures
        held_after_take(held, ttl_secs, now, handle, user_id).contains_key(other)
            == held.contains_key(other),
        held.contains_key(other) ==> held_after_take(held, ttl_secs, now, handle, user_id)[other]
            == held[other],
{
}

/// An upload lives for its whole lifetime, and no longer: for so many seconds after it
/// was staged, on the clock by which it was staged.
pub proof fn law_lifetime_is_counted_from_staging(staged: Staged, ttl_secs: u64, now: u128)
    ensures
        is_expired(staged, ttl_secs, now) <==> now > staged.created + ttl_secs * 1_000_000_000,
        now <= staged.created ==> !is_expired(staged, ttl_secs, now),
{
}

/// A user who takes a live handle of its own is given the upload that was staged under
/// it; a handle that was never staged is unknown.
pub proof fn law_owner_takes_what_was_staged(
    held: Map<Seq<char>, Staged>,
    ttl_secs: u64,
    now: u128,
    handle: Seq<char>,
    staged: Staged,
)
    requires
        now <= staged.created + ttl_secs * 1_000_000_000,
    ensures
        taken(live_at(held.insert(handle, staged), ttl_secs, now), handle, staged.user_id) == Ok::<
            Staged,
            IngestError,
        >(staged),
        held_after_take(held.insert(handle, staged), ttl_secs, now, handle, staged.user_id)
            == held.remove(handle),
        !held.contains_key(handle) ==> taken(
            live_at(held, ttl_secs, now),
            handle,
            staged.user_id,
        ) == Err::<Staged, IngestError>(IngestError::NotFound),
{
    assert(held.insert(handle, staged).remove(handle) =~= held.remove(handle));
}

/// A sweep takes out every upload that has outlived its lifetime, gives back exactly
/// those, and leaves all others as they were.
pub proof fn law_sweep_takes_the_expired(
    before: Map<Seq<char>, Staged>,
    ttl_secs: u64,
    now: u128,
    removed: Seq<Staged>,
    after: Map<Seq<char>, Staged>,
    k: Seq<char>,
)
    requires
        swept(before, ttl_secs, now, removed, after),
    ensures
        after.contains_key(k) <==> before.contains_key(k) && now <= before[k].created + ttl_secs
            * 1_000_000_000,
        after.contains_key(k) ==> after[k] == before[k],
        before.contains_key(k) && now > before[k].created + ttl_secs * 1_000_000_000
            ==> removed.contains(before[k]),
{
}

/// A file is put into the directory: right after a separator, and after one of its own
/// where the directory does not end with one.
pub proof fn law_path_is_in_the_directory(dir: Seq<char>, name: Seq<char>)
    ensures
        dir.is_prefix_of(path_in(dir, name)),
        path_in(dir, name).skip(path_in(dir, name).len() - name.len()) == name,
        dir.len() == 0 ==> path_in(dir, name) == name,
        dir.len() > 0 ==> path_in(dir, name)[path_in(dir, name).len() - name.len() - 1] == '/',
        path_in(dir, name).len() <= dir.len() + 1 + name.len(),
{
    reveal_strlit("/");
    let p = path_in(dir, name);
    assert(p.take(dir.len() as int) =~= dir);
    assert(p.skip(p.len() - name.len()) =~= name);
    if dir.len() == 0 {
        assert(p =~= name);
    }
}

/// The text of each failure for those who run the gateway, and the one answer that a
/// caller gets for either.
pub proof fn law_failures_have_their_texts()
    ensures
        IngestError::NotFound.message() == "unknown or expired upload_handle"@,
        IngestError::Forbidden.message() == "upload_handle does not belong to token"@,
        IngestError::NotFound.answer() == "unknown or expired upload_handle"@,
        IngestError::Forbidden.answer() == "unknown or expired upload_handle"@,
{
}

/// Whether an upload was registered under its handle, at its path, for its user.
pub open spec fn is_staging_of(
    before: Map<Seq<char>, Staged>,
    pending: PendingUpload,
    size: usize,
    user_id: i64,
    now: u128,
    after: Map<Seq<char>, Staged>,
) -> bool {
    &&& after.contains_key(pending.handle@)
    &&& after[pending.handle@].path@ == pending.path@
    &&& after[pending.handle@].size == size
    &&& after[pending.handle@].user_id == user_id
    &&& after[pending.handle@].created == now
    &&& after == before.insert(pending.handle@, after[pending.handle@])
}

/// An upload that was registered is there for the user who staged it, and for nobody
/// else, until its lifetime is over: that user takes it as it was written. Every other
/// upload stays as it was.
pub proof fn law_staged_upload_is_the_users(
    before: Map<Seq<char>, Staged>,
    pending: PendingUpload,
    size: usize,
    user_id: i64,
    other: i64,
    staged_at: u128,
    after: Map<Seq<char>, Staged>,
    ttl_secs: u64,
    now: u128,
    k: Seq<char>,
)
    requires
        is_staging_of(before, pending, size, user_id, staged_at, after),
        now <= staged_at + ttl_secs * 1_000_000_000,
        other != user_id,
    ensures
        ({
            let got = taken(live_at(after, ttl_secs, now), pending.handle@, user_id);
            &&& got is Ok
            &&& got->Ok_0.path@ == pending.path@
            &&& got->Ok_0.size == size
            &&& got->Ok_0.user_id == user_id
        }),
        taken(live_at(after, ttl_secs, now), pending.handle@, other) is Err,
        k != pending.handle@ ==> (after.contains_key(k) <==> before.contains_key(k)),
        k != pending.handle@ && before.contains_key(k) ==> after[k] == before[k],
{
}

/// Whether a body whose length is known, if it could be read within the cap, may be
/// staged.
pub open spec fn fits(len: Option<usize>, limit: usize) -> bool {
    len matches Some(n) && n <= limit
}

/// A body may be staged exactly where it could be read and is no longer than the cap.
pub proof fn law_bodies_up_to_the_cap_fit(len: Option<usize>, limit: usize)
    ensures
        len is None ==> !fits(len, limit),
        len matches Some(n) ==> (fits(len, limit) <==> n <= limit),
        DEFAULT_MAX_UPLOAD_BYTES == 16_777_216,
        DEFAULT_INGEST_TTL_SECS == 3600,
{
}

} // verus!
