//! Opening a channel: the chain of jump hosts is walked from the target outwards,
//! and the hops are then connected from the outer-most one to the target.

use vstd::prelude::*;
use vstd::string::*;

use crate::audit::{log, no_detail, records, AuditDetail};
use crate::clock::{rfc3339_text, to_rfc3339};
use crate::error::{Error, ErrorView};
use crate::models::{AuditEntry, AuthContext, ResolvedServer, ResolvedServerView};
use crate::params::{OpenChannelOutput, OpenChannelParams};
use crate::session::{
    dial_failure, hop_aliases, hop_views, opened_over, DialReply, Dialing, SshSession,
    MAX_JUMP_HOPS,
};
use crate::sshkey::{auth_failure, AuthReply};
use crate::text::{copied, decimal, decimal_digits, join3, listed, texts};
use crate::tools::{audit_ctx_of, internal, invalid, ConduitHandler, ToolError, ToolErrorView};

verus! {

/// A catalog of servers as one user sees it.
pub type Catalog = spec_fn(Seq<char>) -> Result<ResolvedServerView, ErrorView>;

/// The error for a chain that comes back to a server it has passed.
pub open spec fn cycle_error(alias: Seq<char>) -> ToolErrorView {
    invalid("jump host cycle detected at '"@ + alias + "'"@)
}

/// The error for a chain that is too long.
pub open spec fn hops_error() -> ToolErrorView {
    invalid("jump host chain exceeds "@ + decimal_digits(MAX_JUMP_HOPS as nat) + " hops"@)
}

/// The servers that a walk passes, target first, when it has passed `chain`
/// already, by asking for `asked`, and asks for `alias` next; or the error that
/// ends it.
pub open spec fn walked(
    catalog: Catalog,
    alias: Seq<char>,
    asked: Seq<Seq<char>>,
    chain: Seq<ResolvedServerView>,
) -> Result<Seq<ResolvedServerView>, ToolErrorView>
    decreases MAX_JUMP_HOPS - chain.len(),
{
    if asked.contains(alias) {
        Err(cycle_error(alias))
    } else if chain.len() >= MAX_JUMP_HOPS {
        Err(hops_error())
    } else {
        match catalog(alias) {
            Err(e) => Err(invalid(e.message())),
            Ok(server) => match server.jump_host_alias {
                None => Ok(chain.push(server)),
                Some(next) => walked(catalog, next, asked.push(alias), chain.push(server)),
            },
        }
    }
}

/// The chain of hops to a server, outer-most first and the server itself last, or
/// the error.
pub open spec fn chain_to(catalog: Catalog, alias: Seq<char>) -> Result<
    Seq<ResolvedServerView>,
    ToolErrorView,
> {
    match walked(catalog, alias, Seq::empty(), Seq::empty()) {
        Ok(chain) => Ok(chain.reverse()),
        Err(e) => Err(e),
    }
}

/// A walk along the jump hosts that asks for a server.
pub struct ChainWalk {
    user_id: i64,
    token_id: i64,
    alias: String,
    asked: Vec<String>,
    chain: Vec<ResolvedServer>,
}

/// What follows on an answer of the catalog.
pub enum WalkStep {
    /// Another server is to be asked for.
    Resolve(ChainWalk),
    /// The chain is complete, and its hops are to be connected.
    Connect(Dialing),
}

/// An answer of the catalog, as a value.
pub open spec fn catalog_answer(reply: Result<ResolvedServer, Error>) -> Result<
    ResolvedServerView,
    ErrorView,
> {
    match reply {
        Ok(s) => Ok(s@),
        Err(e) => Err(e@),
    }
}

impl ChainWalk {
    /// The server asked for is a new one, and the chain has room for it.
    pub closed spec fn wf(&self) -> bool {
        &&& !texts(self.asked@).contains(self.alias@)
        &&& self.chain@.len() < MAX_JUMP_HOPS
    }

    /// The server asked for.
    pub closed spec fn alias(&self) -> Seq<char> {
        self.alias@
    }

    /// The servers asked for before.
    pub closed spec fn asked(&self) -> Seq<Seq<char>> {
        texts(self.asked@)
    }

    /// What the catalog answered to those, target first.
    pub closed spec fn chain(&self) -> Seq<ResolvedServerView> {
        hop_views(self.chain@)
    }

    /// Who asks, and by which token.
    pub closed spec fn user(&self) -> (i64, i64) {
        (self.user_id, self.token_id)
    }

    /// The chain of hops that the walk leads to with a catalog, or its error.
    pub open spec fn leads_to(&self, catalog: Catalog) -> Result<
        Seq<ResolvedServerView>,
        ToolErrorView,
    > {
        match walked(catalog, self.alias(), self.asked(), self.chain()) {
            Ok(chain) => Ok(chain.reverse()),
            Err(e) => Err(e),
        }
    }

    /// The user in whose name a server is to be resolved, and its alias.
    pub fn query(&self) -> (r: (i64, &str))
        ensures
            r.0 == self.user().0,
            r.1@ == self.alias(),
            is_asked_for(r.0, r.1@, *self),
    {
        (self.user_id, self.alias.as_str())
    }

    /// Goes on when the catalog has answered.
    pub fn resolved(self, reply: Result<ResolvedServer, Error>) -> (r: Result<WalkStep, ToolError>)
        requires
            self.wf(),
        ensures
            forall|catalog: Catalog| #[trigger]
                catalog(self.alias()) == catalog_answer(reply) ==> match r {
                    Err(e) => self.leads_to(catalog) == Err::<
                        Seq<ResolvedServerView>,
                        ToolErrorView,
                    >(e@),
                    Ok(WalkStep::Resolve(w)) => w.wf() && w.user() == self.user() && w.leads_to(
                        catalog,
                    ) == self.leads_to(catalog),
                    Ok(WalkStep::Connect(d)) => d.wf() && d.user() == self.user() && d.at() == 0
                        && self.leads_to(catalog) == Ok::<Seq<ResolvedServerView>, ToolErrorView>(
                        d.chain(),
                    ),
                },
            match catalog_answer(reply) {
                Err(v) => r matches Err(e) && e@ == invalid(v.message()),
                Ok(server) => match server.jump_host_alias {
                    None => {
                        &&& r matches Ok(WalkStep::Connect(d))
                        &&& d.wf()
                        &&& d.at() == 0
                        &&& d.user() == self.user()
                        &&& d.chain() == self.chain().push(server).reverse()
                    },
                    Some(next) => if self.asked().push(self.alias()).contains(next) {
                        r matches Err(e) && e@ == cycle_error(next)
                    } else if self.chain().len() + 1 >= MAX_JUMP_HOPS {
                        r matches Err(e) && e@ == hops_error()
                    } else {
                        &&& r matches Ok(WalkStep::Resolve(w))
                        &&& w.wf()
                        &&& w.user() == self.user()
                        &&& w.alias() == next
                        &&& w.asked() == self.asked().push(self.alias())
                        &&& w.chain() == self.chain().push(server)
                    },
                },
            },
    {
        let ghost before = self;
        proof {
            reveal_with_fuel(walked, 2);
        }
        let server = match reply {
            Ok(s) => s,
            Err(e) => {
                return Err(ToolError::invalid_request(e.to_string()));
            },
        };
        let ghost server_view = server@;
        let next: Option<String> = server.jump_host_alias.clone();
        let mut chain = self.chain;
        chain.push(server);
        assert(hop_views(chain@) =~= hop_views(before.chain@).push(server_view));
        let mut asked = self.asked;
        asked.push(self.alias);
        assert(texts(asked@) =~= texts(before.asked@).push(before.alias@));
        match next {
            None => {
                let hops = reversed(chain);
                match SshSession::connect_chain(self.user_id, self.token_id, hops) {
                    Ok(dialing) => Ok(WalkStep::Connect(dialing)),
                    Err(e) => Err(ToolError::internal_error(e.to_string())),
                }
            },
            Some(alias) => {
                if listed(&asked, alias.as_str()) {
                    return Err(
                        ToolError::invalid_request(
                            join3("jump host cycle detected at '", alias.as_str(), "'"),
                        ),
                    );
                }
                if chain.len() >= MAX_JUMP_HOPS {
                    return Err(
                        ToolError::invalid_request(
                            join3(
                                "jump host chain exceeds ",
                                decimal(MAX_JUMP_HOPS as u128).as_str(),
                                " hops",
                            ),
                        ),
                    );
                }
                Ok(
                    WalkStep::Resolve(
                        ChainWalk {
                            user_id: self.user_id,
                            token_id: self.token_id,
                            alias,
                            asked,
                            chain,
                        },
                    ),
                )
            },
        }
    }
}

/// The hops in the opposite order.
fn reversed(chain: Vec<ResolvedServer>) -> (r: Vec<ResolvedServer>)
    ensures
        hop_views(r@) == hop_views(chain@).reverse(),
        r@.len() == chain@.len(),
{
    let mut rest = chain;
    let mut out: Vec<ResolvedServer> = Vec::new();
    while rest.len() > 0
        invariant
            rest@.len() + out@.len() == chain@.len(),
            rest@ == chain@.take(rest@.len() as int),
            forall|i: int| 0 <= i < out@.len() ==> #[trigger] out@[i] == chain@[chain@.len() - 1 - i],
        decreases rest.len(),
    {
        match rest.pop() {
            Some(hop) => {
                out.push(hop);
            },
            None => {},
        }
        assert(rest@ =~= chain@.take(rest@.len() as int));
    }
    assert(hop_views(out@) =~= hop_views(chain@).reverse());
    out
}

/// What opening a channel comes to.
pub struct Opening {
    pub output: OpenChannelOutput,
    /// What is put on record.
    pub entry: AuditEntry,
}

impl ConduitHandler {
    /// Open an SSH channel to a registered server: sets out for it.
    pub fn open_channel(auth: &AuthContext, params: &OpenChannelParams) -> (r: ChainWalk)
        ensures
            r.wf(),
            r.user() == (auth.user_id, auth.token_id),
            r.alias() == params.server@,
            r.asked() == Seq::<Seq<char>>::empty(),
            r.chain() == Seq::<ResolvedServerView>::empty(),
            forall|catalog: Catalog| #[trigger]
                r.leads_to(catalog) == chain_to(catalog, params.server@),
            is_setting_out(r, auth@, params.server@),
    {
        let r = ChainWalk {
            user_id: auth.user_id,
            token_id: auth.token_id,
            alias: params.server.clone(),
            asked: Vec::new(),
            chain: Vec::new(),
        };
        assert(texts(r.asked@) =~= Seq::<Seq<char>>::empty());
        assert(hop_views(r.chain@) =~= Seq::<ResolvedServerView>::empty());
        r
    }

    /// The answer where connecting the hops failed.
    pub fn connect_failed(error: &Error) -> (r: ToolError)
        ensures
            r@ == internal(error@.message()),
    {
        ToolError::internal_error(error.to_string())
    }

    /// Takes in the session that was opened, under its identifier.
    pub fn channel_opened(&mut self, auth: &AuthContext, session: SshSession) -> (r: Opening)
        requires
            old(self).state.wf(),
            session.wf(),
        ensures
            final(self).state.wf(),
            final(self).state.same_but_sessions_and_jobs(&old(self).state),
            final(self).state.jobs == old(self).state.jobs,
            final(self).state.sessions@ == old(self).state.sessions@.insert(session.id@, session),
            r.output.session_id@ == session.id@,
            r.output.server@ == session.server_alias@,
            r.output.opened_at@ == rfc3339_text(
                session.created_at.secs,
                session.created_at.nanos,
            ),
            texts(r.output.hop_path@) == texts(session.hop_path@),
            records(
                r.entry@,
                audit_ctx_of(auth@, session.server_alias@, session.id@),
                "open_channel"@,
                no_detail(),
            ),
            is_opening_of(r, auth@, session),
    {
        let session_id = session.id.clone();
        let server = session.server_alias.clone();
        let opened_at = to_rfc3339(session.created_at);
        let hop_path = copied(&session.hop_path);
        self.state.sessions.insert(session_id.as_str(), session);
        let ctx = Self::audit_ctx(auth, server.as_str(), session_id.as_str());
        let entry = log(&ctx, "open_channel", AuditDetail::none());
        Opening { output: OpenChannelOutput { session_id, server, opened_at, hop_path }, entry }
    }
}

/// Whether a walk can have come this far: each server of the chain answers to the
/// alias that was asked for, every alias but the first is the jump host of the
/// server before, and none was asked for twice.
pub open spec fn is_walk(
    catalog: Catalog,
    asked: Seq<Seq<char>>,
    chain: Seq<ResolvedServerView>,
) -> bool {
    &&& asked.len() == chain.len()
    &&& asked.no_duplicates()
    &&& forall|i: int|
        0 <= i < chain.len() ==> catalog(asked[i]) == Ok::<ResolvedServerView, ErrorView>(
            #[trigger] chain[i],
        )
    &&& forall|i: int|
        0 < i < chain.len() ==> chain[i - 1].jump_host_alias == Some(#[trigger] asked[i])
}

proof fn lemma_walk(
    catalog: Catalog,
    alias: Seq<char>,
    asked: Seq<Seq<char>>,
    chain: Seq<ResolvedServerView>,
) -> (all: Seq<Seq<char>>)
    requires
        is_walk(catalog, asked, chain),
        chain.len() > 0 ==> chain.last().jump_host_alias == Some(alias),
        walked(catalog, alias, asked, chain) is Ok,
    ensures
        is_walk(catalog, all, walked(catalog, alias, asked, chain)->Ok_0),
        asked.push(alias).is_prefix_of(all),
        walked(catalog, alias, asked, chain)->Ok_0.len() <= MAX_JUMP_HOPS,
        walked(catalog, alias, asked, chain)->Ok_0.last().jump_host_alias is None,
    decreases MAX_JUMP_HOPS - chain.len(),
{
    let server = catalog(alias)->Ok_0;
    let asked1 = asked.push(alias);
    let chain1 = chain.push(server);
    assert(asked1.no_duplicates()) by {
        assert forall|i: int, j: int|
            0 <= i < asked1.len() && 0 <= j < asked1.len() && i != j implies asked1[i]
            != asked1[j] by {
            if i == asked.len() {
                assert(asked.contains(asked[j]));
            }
            if j == asked.len() {
                assert(asked.contains(asked[i]));
            }
        }
    }
    assert(is_walk(catalog, asked1, chain1)) by {
        assert forall|i: int| 0 < i < chain1.len() implies chain1[i - 1].jump_host_alias == Some(
            #[trigger] asked1[i],
        ) by {
            if i < chain.len() {
                assert(asked1[i] == asked[i]);
            }
        }
    }
    match server.jump_host_alias {
        None => asked1,
        Some(next) => {
            let all = lemma_walk(catalog, next, asked1, chain1);
            assert(asked1.is_prefix_of(all)) by {
                assert(asked1.push(next).is_prefix_of(all));
                assert(asked1 =~= all.take(asked1.len() as int));
            }
            all
        },
    }
}

/// A chain to a server has at most five hops, ends with that server, begins with
/// a server that needs no jump host, and leads from each hop to the one whose jump
/// host it is. No alias was asked for twice on the way.
pub proof fn law_chain_is_sound(catalog: Catalog, alias: Seq<char>)
    requires
        chain_to(catalog, alias) is Ok,
    ensures
        ({
            let chain = chain_to(catalog, alias)->Ok_0;
            &&& 1 <= chain.len() <= MAX_JUMP_HOPS
            &&& catalog(alias) == Ok::<ResolvedServerView, ErrorView>(chain.last())
            &&& chain[0].jump_host_alias is None
            &&& exists|asked: Seq<Seq<char>>|
                {
                    &&& #[trigger] is_walk(catalog, asked, chain.reverse())
                    &&& asked[0] == alias
                }
        }),
{
    let none = Seq::<Seq<char>>::empty();
    let start = Seq::<ResolvedServerView>::empty();
    let all = lemma_walk(catalog, alias, none, start);
    let out = walked(catalog, alias, none, start)->Ok_0;
    let chain = chain_to(catalog, alias)->Ok_0;
    assert(none.push(alias)[0] == alias);
    assert(all[0] == alias);
    assert(catalog(all[0]) == Ok::<ResolvedServerView, ErrorView>(out[0]));
    assert(chain.last() == out[0]);
    assert(chain[0] == out.last());
    assert(chain.reverse() =~= out);
    assert(is_walk(catalog, all, chain.reverse()));
}

proof fn lemma_walk_succeeds(
    catalog: Catalog,
    asked: Seq<Seq<char>>,
    chain: Seq<ResolvedServerView>,
    k: int,
)
    requires
        is_walk(catalog, asked, chain),
        0 <= k < chain.len() <= MAX_JUMP_HOPS,
        chain.last().jump_host_alias is None,
    ensures
        walked(catalog, asked[k], asked.take(k), chain.take(k)) == Ok::<
            Seq<ResolvedServerView>,
            ToolErrorView,
        >(chain),
    decreases chain.len() - k,
{
    assert(!asked.take(k).contains(asked[k])) by {
        if asked.take(k).contains(asked[k]) {
            let i = choose|i: int| 0 <= i < k && asked.take(k)[i] == asked[k];
            assert(asked[i] == asked[k]);
        }
    }
    assert(catalog(asked[k]) == Ok::<ResolvedServerView, ErrorView>(chain[k]));
    assert(asked.take(k).push(asked[k]) =~= asked.take(k + 1));
    assert(chain.take(k).push(chain[k]) =~= chain.take(k + 1));
    if k + 1 < chain.len() {
        assert(chain[(k + 1) - 1].jump_host_alias == Some(asked[k + 1]));
        lemma_walk_succeeds(catalog, asked, chain, k + 1);
    } else {
        assert(chain.take(k + 1) =~= chain);
    }
}

/// Whenever at most five servers lead from one that needs no jump host to the one
/// asked for, with no alias asked for twice, that chain is found.
pub proof fn law_chain_is_found(
    catalog: Catalog,
    asked: Seq<Seq<char>>,
    chain: Seq<ResolvedServerView>,
)
    requires
        is_walk(catalog, asked, chain),
        1 <= chain.len() <= MAX_JUMP_HOPS,
        chain.last().jump_host_alias is None,
    ensures
        chain_to(catalog, asked[0]) == Ok::<Seq<ResolvedServerView>, ToolErrorView>(
            chain.reverse(),
        ),
{
    lemma_walk_succeeds(catalog, asked, chain, 0);
    assert(asked.take(0) =~= Seq::<Seq<char>>::empty());
    assert(chain.take(0) =~= Seq::<ResolvedServerView>::empty());
}

/// A server that is its own jump host cannot be reached: the walk ends with the
/// error that names it.
pub proof fn law_self_jump_is_a_cycle(catalog: Catalog, alias: Seq<char>)
    requires
        catalog(alias) matches Ok(server) && server.jump_host_alias == Some(alias),
    ensures
        chain_to(catalog, alias) == Err::<Seq<ResolvedServerView>, ToolErrorView>(
            cycle_error(alias),
        ),
{
    reveal_with_fuel(walked, 2);
    let asked = Seq::<Seq<char>>::empty().push(alias);
    assert(asked[0] == alias);
    assert(asked.contains(alias));
}

/// What a session holds, and hence what its opening is answered, depends on the
/// hops by their aliases alone: credentials make no difference.
pub proof fn law_sessions_hold_no_credentials(
    session: SshSession,
    user_id: i64,
    token_id: i64,
    chain: Seq<ResolvedServerView>,
    other: Seq<ResolvedServerView>,
)
    requires
        chain.len() > 0,
        hop_aliases(chain) == hop_aliases(other),
    ensures
        opened_over(session, user_id, token_id, chain) == opened_over(
            session,
            user_id,
            token_id,
            other,
        ),
{
    assert(hop_aliases(chain).len() == chain.len());
    assert(hop_aliases(other).len() == other.len());
    assert(hop_aliases(chain).last() == chain.last().alias);
    assert(hop_aliases(other).last() == other.last().alias);
}

/// How a hop that cannot be reached or that refuses is reported depends on its
/// user name, host and port alone: credentials make no difference.
pub proof fn law_refusals_tell_no_credentials(
    hop: ResolvedServerView,
    other: ResolvedServerView,
    dialed: DialReply,
    reply: AuthReply,
)
    requires
        hop.username == other.username,
        hop.host == other.host,
        hop.port == other.port,
    ensures
        dial_failure(hop, dialed) == dial_failure(other, dialed),
        auth_failure(hop, reply) == auth_failure(other, reply),
{
}

proof fn lemma_walk_goes_on(
    catalog: Catalog,
    asked: Seq<Seq<char>>,
    chain: Seq<ResolvedServerView>,
    next: Seq<char>,
    k: int,
)
    requires
        is_walk(catalog, asked, chain),
        0 <= k < chain.len() <= MAX_JUMP_HOPS,
        chain.last().jump_host_alias == Some(next),
    ensures
        walked(catalog, asked[k], asked.take(k), chain.take(k)) == walked(
            catalog,
            next,
            asked,
            chain,
        ),
    decreases chain.len() - k,
{
    assert(!asked.take(k).contains(asked[k])) by {
        if asked.take(k).contains(asked[k]) {
            let i = choose|i: int| 0 <= i < k && asked.take(k)[i] == asked[k];
            assert(asked[i] == asked[k]);
        }
    }
    assert(catalog(asked[k]) == Ok::<ResolvedServerView, ErrorView>(chain[k]));
    assert(asked.take(k).push(asked[k]) =~= asked.take(k + 1));
    assert(chain.take(k).push(chain[k]) =~= chain.take(k + 1));
    if k + 1 < chain.len() {
        assert(chain[(k + 1) - 1].jump_host_alias == Some(asked[k + 1]));
        lemma_walk_goes_on(catalog, asked, chain, next, k + 1);
    } else {
        assert(chain.take(k + 1) =~= chain);
        assert(asked.take(k + 1) =~= asked);
    }
}

/// Where the walk to a server leads on to a next one, the way ends as it must: with the
/// error of a cycle where that one was passed already, else with the error of a chain of
/// more than five hops where five were passed, else with the catalog's own error where the
/// catalog has no such server for the user.
pub proof fn law_wrong_ways_are_refused(
    catalog: Catalog,
    asked: Seq<Seq<char>>,
    chain: Seq<ResolvedServerView>,
    next: Seq<char>,
)
    requires
        is_walk(catalog, asked, chain),
        1 <= chain.len() <= 5,
        chain.last().jump_host_alias == Some(next),
    ensures
        asked.contains(next) ==> chain_to(catalog, asked[0]) == Err::<
            Seq<ResolvedServerView>,
            ToolErrorView,
        >(invalid("jump host cycle detected at '"@ + next + "'"@)),
        !asked.contains(next) && chain.len() == 5 ==> chain_to(catalog, asked[0]) == Err::<
            Seq<ResolvedServerView>,
            ToolErrorView,
        >(invalid("jump host chain exceeds "@ + decimal_digits(5) + " hops"@)),
        !asked.contains(next) && chain.len() < 5 ==> (catalog(next) matches Err(e) ==> chain_to(
            catalog,
            asked[0],
        ) == Err::<Seq<ResolvedServerView>, ToolErrorView>(invalid(e.message()))),
{
    lemma_walk_goes_on(catalog, asked, chain, next, 0);
    assert(asked.take(0) =~= Seq::<Seq<char>>::empty());
    assert(chain.take(0) =~= Seq::<ResolvedServerView>::empty());
}

/// A server that the catalog does not have for the user is answered with the catalog's
/// own error.
pub proof fn law_unknown_server_is_refused(catalog: Catalog, alias: Seq<char>)
    requires
        catalog(alias) is Err,
    ensures
        chain_to(catalog, alias) == Err::<Seq<ResolvedServerView>, ToolErrorView>(
            invalid(catalog(alias)->Err_0.message()),
        ),
{
}

/// A server without a jump host is reached directly: the chain to it is that server.
pub proof fn law_direct_server_is_its_own_chain(catalog: Catalog, alias: Seq<char>)
    requires
        catalog(alias) matches Ok(server) && server.jump_host_alias is None,
    ensures
        chain_to(catalog, alias) is Ok,
        chain_to(catalog, alias)->Ok_0.len() == 1,
        chain_to(catalog, alias)->Ok_0[0] == catalog(alias)->Ok_0,
{
}

/// Along a chain every hop but the first is reached through the hop before it: that one
/// is what the catalog has under the jump host that the hop names.
pub proof fn law_hops_lead_to_each_other(catalog: Catalog, alias: Seq<char>, i: int)
    requires
        chain_to(catalog, alias) is Ok,
        0 <= i < chain_to(catalog, alias)->Ok_0.len() - 1,
    ensures
        ({
            let chain = chain_to(catalog, alias)->Ok_0;
            &&& chain[i + 1].jump_host_alias is Some
            &&& catalog(chain[i + 1].jump_host_alias->0) == Ok::<ResolvedServerView, ErrorView>(
                chain[i],
            )
            &&& chain.len() <= 5
            &&& catalog(alias) == Ok::<ResolvedServerView, ErrorView>(chain[chain.len() - 1])
        }),
{
    law_chain_is_sound(catalog, alias);
    let chain = chain_to(catalog, alias)->Ok_0;
    let back = chain.reverse();
    let asked = choose|asked: Seq<Seq<char>>|
        {
            &&& #[trigger] is_walk(catalog, asked, chain.reverse())
            &&& asked[0] == alias
        };
    let j = chain.len() - 1 - i;
    assert(back[j] == chain[i]);
    assert(back[j - 1] == chain[i + 1]);
    assert(back[j - 1].jump_host_alias == Some(asked[j]));
    assert(catalog(asked[j]) == Ok::<ResolvedServerView, ErrorView>(back[j]));
}

/// The answer of the catalog is taken as it is.
pub proof fn law_catalog_is_believed(reply: Result<ResolvedServer, Error>)
    ensures
        reply matches Ok(s) ==> catalog_answer(reply) == Ok::<ResolvedServerView, ErrorView>(s@),
        reply matches Err(e) ==> catalog_answer(reply) == Err::<ResolvedServerView, ErrorView>(e@),
{
}

/// Whether the opening of a session is answered and put on record as it should be.
pub open spec fn is_opening_of(
    opening: Opening,
    auth: crate::models::AuthContextView,
    session: SshSession,
) -> bool {
    &&& opening.output.session_id@ == session.id@
    &&& opening.output.server@ == session.server_alias@
    &&& opening.output.opened_at@ == rfc3339_text(
        session.created_at.secs,
        session.created_at.nanos,
    )
    &&& texts(opening.output.hop_path@) == texts(session.hop_path@)
    &&& records(
        opening.entry@,
        audit_ctx_of(auth, session.server_alias@, session.id@),
        "open_channel"@,
        no_detail(),
    )
}

/// Who opens a channel is told the session's identifier, the server it leads to, when it
/// was opened and every hop on the way, in their order; it stands on record, put down to
/// the caller.
pub proof fn law_opening_tells_the_session(
    opening: Opening,
    auth: crate::models::AuthContextView,
    session: SshSession,
    i: int,
)
    requires
        is_opening_of(opening, auth, session),
        0 <= i < session.hop_path@.len(),
    ensures
        opening.output.session_id@ == session.id@,
        opening.output.server@ == session.server_alias@,
        opening.output.opened_at@ == rfc3339_text(
            session.created_at.secs,
            session.created_at.nanos,
        ),
        opening.output.hop_path@.len() == session.hop_path@.len(),
        opening.output.hop_path@[i]@ == session.hop_path@[i]@,
        opening.entry.event@ == "open_channel"@,
        opening.entry.user_id == auth.user_id,
        opening.entry.token_id == auth.token_id,
        opening.entry.session_id@ == session.id@,
        opening.entry.server_alias@ == session.server_alias@,
{
    assert(texts(opening.output.hop_path@).len() == texts(session.hop_path@).len());
    assert(texts(opening.output.hop_path@)[i] == texts(session.hop_path@)[i]);
}

/// Whether a walk sets out for the server in the caller's name.
pub open spec fn is_setting_out(
    walk: ChainWalk,
    auth: crate::models::AuthContextView,
    server: Seq<char>,
) -> bool {
    &&& walk.user() == (auth.user_id, auth.token_id)
    &&& walk.alias() == server
    &&& walk.chain().len() == 0
    &&& walk.asked().len() == 0
}

/// Whether a server is asked for as the walk has it.
pub open spec fn is_asked_for(user_id: i64, alias: Seq<char>, walk: ChainWalk) -> bool {
    user_id == walk.user().0 && alias == walk.alias()
}

/// Who opens a channel has the catalog asked, in its own name, for the very server that
/// it named.
pub proof fn law_catalog_is_asked_for_the_server_named(
    walk: ChainWalk,
    auth: crate::models::AuthContextView,
    server: Seq<char>,
    user_id: i64,
    alias: Seq<char>,
)
    requires
        is_setting_out(walk, auth, server),
        is_asked_for(user_id, alias, walk),
    ensures
        user_id == auth.user_id,
        alias == server,
        walk.user().1 == auth.token_id,
{
}

} // verus!
